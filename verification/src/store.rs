//! The local theme store: where theme files live, which files are themes,
//! and the order in which saved themes are listed. The file operations
//! themselves are done by the caller.
use vstd::prelude::*;

use crate::error::{validation, AppError};
use crate::ids::{is_uuid_v4_text, new_uuid_v4};
use crate::text::{
    extension_of, file_extension, last_index_of, lemma_seq_lt_irreflexive, lemma_seq_lt_total,
    lemma_seq_lt_transitive, os_join, os_path_join, push_str, seq_lt, str_eq, str_lt, HostOs,
};
use crate::theme::{outcome_matches, same_settings, theme_violation, valid_theme, valid_theme_id, validate_theme_id, Theme};

verus! {

/// The largest theme file that is read.
pub const MAX_THEME_FILE_BYTES: u64 = 262144;

/// A theme store rooted at a directory that holds `themes/` and `images/`,
/// with paths written as on the operating system `os`.
pub struct ThemeStore {
    root: String,
    os: HostOs,
}

impl View for ThemeStore {
    type V = Seq<char>;

    /// The root directory.
    closed spec fn view(&self) -> Seq<char> {
        self.root@
    }
}

/// The file a theme with this id is stored in: `root.join("themes")
/// .join("<id>.json")` on the operating system `os`.
pub open spec fn theme_file_path(os: HostOs, root: Seq<char>, id: Seq<char>) -> Seq<char> {
    os_join(os, os_join(os, root, "themes"@), id + ".json"@)
}

impl ThemeStore {
    /// The operating system whose paths the store writes.
    pub closed spec fn host(&self) -> HostOs {
        self.os
    }

    /// A store rooted at `root` on the operating system `os`. The caller
    /// creates `root/themes` and `root/images` (see
    /// [`ThemeStore::directories`]).
    pub fn new(root: String, os: HostOs) -> (s: ThemeStore)
        ensures
            s@ == root@,
            s.host() == os,
    {
        ThemeStore { root, os }
    }

    /// The operating system whose paths the store writes.
    pub fn os(&self) -> (r: HostOs)
        ensures
            r == self.host(),
    {
        self.os
    }

    /// The root directory.
    pub fn root(&self) -> (r: &str)
        ensures
            r@ == self@,
    {
        self.root.as_str()
    }

    /// The directories the store keeps: themes, then images.
    pub fn directories(&self) -> (r: (String, String))
        ensures
            r.0@ == os_join(self.host(), self@, "themes"@),
            r.1@ == os_join(self.host(), self@, "images"@),
    {
        (
            os_path_join(self.os, self.root.as_str(), "themes"),
            os_path_join(self.os, self.root.as_str(), "images"),
        )
    }

    fn theme_file(&self, id: &str) -> (r: String)
        ensures
            r@ == theme_file_path(self.host(), self@, id@),
    {
        let dir = os_path_join(self.os, self.root.as_str(), "themes");
        let mut name = String::from_str(id);
        push_str(&mut name, ".json");
        os_path_join(self.os, dir.as_str(), name.as_str())
    }

    /// The file a theme is written to: the theme must be valid.
    pub fn save_path(&self, theme: &Theme) -> (r: Result<String, AppError>)
        ensures
            r is Ok <==> valid_theme(*theme),
            r matches Ok(p) ==> p@ == theme_file_path(self.host(), self@, theme.id@),
            r matches Err(e) ==> e.is_validation(theme_violation(*theme)->0),
    {
        match theme.validate() {
            Ok(()) => Ok(self.theme_file(theme.id.as_str())),
            Err(e) => Err(e),
        }
    }

    /// The file that deleting the theme `id` removes: the id must be valid.
    pub fn delete_path(&self, id: &str) -> (r: Result<String, AppError>)
        ensures
            r is Ok <==> valid_theme_id(id@),
            r matches Ok(p) ==> p@ == theme_file_path(self.host(), self@, id@),
            r matches Err(e) ==> e.is_validation("主题 ID 无效"@),
    {
        match validate_theme_id(id) {
            Ok(()) => Ok(self.theme_file(id)),
            Err(e) => Err(e),
        }
    }
}

/// Checks the metadata of a theme file before it is read: it must be a
/// regular file of at most 256 KiB.
pub fn check_theme_file(is_file: bool, len: u64) -> (r: Result<(), AppError>)
    ensures
        outcome_matches(
            r,
            if is_file && len <= MAX_THEME_FILE_BYTES {
                None
            } else {
                Some("主题文件必须小于 256 KiB"@)
            },
        ),
{
    if !is_file || len > MAX_THEME_FILE_BYTES {
        return Err(validation("主题文件必须小于 256 KiB"));
    }
    Ok(())
}

/// Whether a directory entry is listed as a theme: its extension is `json`.
pub fn is_theme_file_name(name: &str) -> (r: bool)
    ensures
        r == (file_extension(name@) == Some("json"@)),
{
    match extension_of(name) {
        Some(e) => str_eq(e.as_str(), "json"),
        None => false,
    }
}

/// A theme file prepared for export: the theme is checked, then its local
/// image path is left out.
pub fn prepare_export(theme: &Theme) -> (r: Result<Theme, AppError>)
    ensures
        r is Ok <==> valid_theme(*theme),
        r matches Ok(t) ==> same_settings(*theme, t) && t.background_image is None,
        r matches Err(e) ==> e.is_validation(theme_violation(*theme)->0),
{
    match theme.validate() {
        Ok(()) => Ok(theme.shareable()),
        Err(e) => Err(e),
    }
}

/// A theme that can be saved can be listed and deleted again: its file is
/// `<id>.json` in the themes directory, listing takes exactly the files
/// whose extension is `json`, and its id passes the check of
/// [`ThemeStore::delete_path`], which names the same file.
pub proof fn lemma_saved_theme_is_listed_and_deletable(t: Theme)
    requires
        valid_theme(t),
    ensures
        valid_theme_id(t.id@),
        file_extension(t.id@ + ".json"@) == Some("json"@),
{
    reveal_strlit(".json");
    reveal_strlit("json");
    let id = t.id@;
    let n = id.len() as int;
    let s = id + ".json"@;
    assert(n >= 1);
    assert(s[n] == '.' && s[n + 1] == 'j' && s[n + 2] == 's' && s[n + 3] == 'o' && s[n + 4] == 'n');
    assert(s.take(n + 1).last() == '.');
    assert(last_index_of(s.take(n + 1), '.') == n);
    assert(s.take(n + 2).drop_last() =~= s.take(n + 1));
    assert(last_index_of(s.take(n + 2), '.') == n);
    assert(s.take(n + 3).drop_last() =~= s.take(n + 2));
    assert(last_index_of(s.take(n + 3), '.') == n);
    assert(s.take(n + 4).drop_last() =~= s.take(n + 3));
    assert(last_index_of(s.take(n + 4), '.') == n);
    assert(s.drop_last() =~= s.take(n + 4));
    assert(last_index_of(s, '.') == n);
    assert(s.skip(n + 1) =~= "json"@);
    assert(s != seq!['.', '.']) by {
        assert(s.len() != 2);
    }
}

/// A fresh name for the temporary file a theme is first written to.
pub fn atomic_temp_file_name() -> (r: String)
    ensures
        exists|u: Seq<char>| is_uuid_v4_text(u) && r@ == ".csw-theme-"@ + u + ".tmp"@,
{
    let u = new_uuid_v4();
    let mut r = String::from_str(".csw-theme-");
    push_str(&mut r, u.as_str());
    push_str(&mut r, ".tmp");
    assert(is_uuid_v4_text(u@) && r@ == ".csw-theme-"@ + u@ + ".tmp"@);
    r
}

// ----- listing order -----
/// Names never decrease along the sequence.
pub open spec fn names_ascending(s: Seq<Theme>) -> bool {
    forall|a: int, b: int| 0 <= a < b < s.len() ==> !seq_lt(#[trigger] s[b].name@, #[trigger] s[a].name@)
}

/// `out[k]` is `input[idx[k]]`, every input element is used once, and
/// themes with equal names keep their input order.
pub open spec fn stable_arrangement(out: Seq<Theme>, input: Seq<Theme>, idx: Seq<int>) -> bool {
    &&& idx.len() == out.len()
    &&& out.len() == input.len()
    &&& forall|k: int| 0 <= k < idx.len() ==> 0 <= #[trigger] idx[k] < input.len()
    &&& forall|k: int| 0 <= k < idx.len() ==> #[trigger] out[k] == input[idx[k]]
    &&& forall|a: int, b: int| 0 <= a < b < idx.len() ==> #[trigger] idx[a] != #[trigger] idx[b]
    &&& forall|a: int, b: int|
        0 <= a < b < idx.len() && (#[trigger] out[a]).name@ == (#[trigger] out[b]).name@ ==> idx[a]
            < idx[b]
}

/// Inserting `t` before the first theme whose name is greater keeps names
/// ascending and keeps equal names in arrival order when `t` arrives last.
proof fn lemma_sorted_insert_step(s: Seq<Theme>, idx: Seq<int>, p: int, t: Theme, m: int)
    requires
        names_ascending(s),
        idx.len() == s.len(),
        0 <= p <= s.len(),
        forall|k: int| 0 <= k < p ==> !seq_lt(t.name@, #[trigger] s[k].name@),
        p < s.len() ==> seq_lt(t.name@, s[p].name@),
        forall|k: int| 0 <= k < idx.len() ==> #[trigger] idx[k] < m,
        forall|a: int, b: int|
            0 <= a < b < idx.len() && (#[trigger] s[a]).name@ == (#[trigger] s[b]).name@
                ==> idx[a] < idx[b],
    ensures
        names_ascending(s.insert(p, t)),
        forall|a: int, b: int|
            0 <= a < b < s.len() + 1 && (#[trigger] s.insert(p, t)[a]).name@ == (#[trigger] s.insert(
                p,
                t,
            )[b]).name@ ==> idx.insert(p, m)[a] < idx.insert(p, m)[b],
{
    let u = s.insert(p, t);
    let j = idx.insert(p, m);
    lemma_seq_lt_irreflexive(t.name@);
    assert forall|k: int| p <= k < s.len() implies seq_lt(t.name@, #[trigger] s[k].name@) by {
        if k > p {
            lemma_seq_lt_total(s[p].name@, s[k].name@);
            if seq_lt(s[p].name@, s[k].name@) {
                lemma_seq_lt_transitive(t.name@, s[p].name@, s[k].name@);
            }
        }
    }
    assert forall|a: int, b: int| 0 <= a < b < u.len() implies !seq_lt(
        #[trigger] u[b].name@,
        #[trigger] u[a].name@,
    ) by {
        if a < p && b == p {
        } else if a < p && b > p {
            assert(u[b] == s[b - 1]);
        } else if a == p {
            assert(u[b] == s[b - 1]);
            if seq_lt(s[b - 1].name@, t.name@) {
                lemma_seq_lt_transitive(t.name@, s[b - 1].name@, t.name@);
            }
        } else if a > p {
            assert(u[a] == s[a - 1]);
            assert(u[b] == s[b - 1]);
        }
    }
    assert forall|a: int, b: int|
        0 <= a < b < u.len() && (#[trigger] u[a]).name@ == (#[trigger] u[b]).name@ implies j[a]
        < j[b] by {
        if a < p && b == p {
        } else if a < p && b > p {
            assert(u[b] == s[b - 1]);
            assert(j[b] == idx[b - 1]);
        } else if a == p {
            assert(u[b] == s[b - 1]);
        } else if a > p {
            assert(u[a] == s[a - 1]);
            assert(u[b] == s[b - 1]);
            assert(j[a] == idx[a - 1]);
            assert(j[b] == idx[b - 1]);
        }
    }
}

/// The themes ordered by name, as a stable sort orders them (themes with the
/// same name keep their relative order).
pub fn sort_themes_by_name(themes: Vec<Theme>) -> (r: Vec<Theme>)
    ensures
        names_ascending(r@),
        exists|idx: Seq<int>| stable_arrangement(r@, themes@, idx),
{
    let ghost input = themes@;
    let mut pending = themes;
    let mut stack: Vec<Theme> = Vec::new();
    while pending.len() > 0
        invariant
            stack@.len() + pending@.len() == input.len(),
            pending@ == input.take(pending@.len() as int),
            forall|k: int| 0 <= k < stack@.len() ==> #[trigger] stack@[k] == input[input.len() - 1 - k],
        decreases pending@.len(),
    {
        let ghost before = stack@;
        let ghost pl = pending@.len();
        let t = pending.pop().unwrap();
        assert(t == input[pl - 1]);
        stack.push(t);
        assert(pending@ =~= input.take(pending@.len() as int));
        assert forall|k: int| 0 <= k < stack@.len() implies #[trigger] stack@[k] == input[input.len() - 1 - k] by {
            if k < before.len() {
                assert(stack@[k] == before[k]);
            }
        }
    }
    let mut out: Vec<Theme> = Vec::new();
    let ghost mut idx: Seq<int> = Seq::empty();
    while stack.len() > 0
        invariant
            out@.len() + stack@.len() == input.len(),
            forall|k: int| 0 <= k < stack@.len() ==> #[trigger] stack@[k] == input[input.len() - 1 - k],
            names_ascending(out@),
            idx.len() == out@.len(),
            forall|k: int| 0 <= k < idx.len() ==> 0 <= #[trigger] idx[k] < out@.len(),
            forall|k: int| 0 <= k < idx.len() ==> #[trigger] out@[k] == input[idx[k]],
            forall|a: int, b: int| 0 <= a < b < idx.len() ==> #[trigger] idx[a] != #[trigger] idx[b],
            forall|a: int, b: int|
                0 <= a < b < idx.len() && (#[trigger] out@[a]).name@ == (#[trigger] out@[b]).name@
                    ==> idx[a] < idx[b],
        decreases stack@.len(),
    {
        let ghost m = out@.len() as int;
        let ghost sl = stack@.len();
        let t = stack.pop().unwrap();
        assert(t == input[m]);
        let n = out.len();
        let mut p: usize = 0;
        while p < n
            invariant
                n == out@.len(),
                p <= n,
                forall|k: int| 0 <= k < p ==> !seq_lt(t.name@, #[trigger] out@[k].name@),
            ensures
                p < n ==> seq_lt(t.name@, out@[p as int].name@),
            decreases n - p,
        {
            if str_lt(t.name.as_str(), out[p].name.as_str()) {
                break;
            }
            p = p + 1;
        }
        let ghost old_out = out@;
        let ghost old_idx = idx;
        proof {
            lemma_sorted_insert_step(old_out, old_idx, p as int, t, m);
        }
        out.insert(p, t);
        proof {
            idx = old_idx.insert(p as int, m);
            assert(out@ == old_out.insert(p as int, t));
            assert forall|k: int| 0 <= k < idx.len() implies 0 <= #[trigger] idx[k] < out@.len() by {
                if k < p {
                    assert(idx[k] == old_idx[k]);
                } else if k > p {
                    assert(idx[k] == old_idx[k - 1]);
                }
            }
            assert forall|k: int| 0 <= k < idx.len() implies #[trigger] out@[k] == input[idx[k]] by {
                if k < p {
                    assert(idx[k] == old_idx[k]);
                    assert(out@[k] == old_out[k]);
                } else if k > p {
                    assert(idx[k] == old_idx[k - 1]);
                    assert(out@[k] == old_out[k - 1]);
                }
            }
            assert forall|a: int, b: int| 0 <= a < b < idx.len() implies #[trigger] idx[a]
                != #[trigger] idx[b] by {
                if a != p && b != p {
                    let a0 = if a < p { a } else { a - 1 };
                    let b0 = if b < p { b } else { b - 1 };
                    assert(idx[a] == old_idx[a0]);
                    assert(idx[b] == old_idx[b0]);
                } else if a == p {
                    assert(idx[b] == old_idx[b - 1]);
                } else {
                    assert(idx[a] == old_idx[a]);
                }
            }
        }
        assert forall|k: int| 0 <= k < stack@.len() implies #[trigger] stack@[k] == input[input.len() - 1 - k] by {
        }
    }
    assert(stable_arrangement(out@, input, idx));
    out
}

} // verus!
