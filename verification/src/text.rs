//! Character-level helpers on strings: their models as `Seq<char>` and
//! executable versions proved against those models.
use vstd::prelude::*;

verus! {

/// `String::push` from std: appends one character.
#[verifier::external_body]
pub(crate) fn push_char(s: &mut String, c: char)
    ensures
        final(s)@ == old(s)@.push(c),
{
    s.push(c);
}

/// Lexicographic order on character sequences; for UTF-8 strings this is the
/// order of `Ord for str` (UTF-8 preserves code point order).
pub open spec fn seq_lt(a: Seq<char>, b: Seq<char>) -> bool
    decreases a.len(),
{
    if a.len() == 0 {
        b.len() > 0
    } else if b.len() == 0 {
        false
    } else if a[0] != b[0] {
        a[0] < b[0]
    } else {
        seq_lt(a.drop_first(), b.drop_first())
    }
}

/// No sequence comes before itself.
pub proof fn lemma_seq_lt_irreflexive(a: Seq<char>)
    ensures
        !seq_lt(a, a),
    decreases a.len(),
{
    if a.len() > 0 {
        lemma_seq_lt_irreflexive(a.drop_first());
    }
}

/// The order is transitive.
pub proof fn lemma_seq_lt_transitive(a: Seq<char>, b: Seq<char>, c: Seq<char>)
    requires
        seq_lt(a, b),
        seq_lt(b, c),
    ensures
        seq_lt(a, c),
    decreases a.len(),
{
    if a.len() > 0 && b.len() > 0 && c.len() > 0 && a[0] == b[0] && b[0] == c[0] {
        lemma_seq_lt_transitive(a.drop_first(), b.drop_first(), c.drop_first());
    }
}

/// Of two different sequences, one comes first.
pub proof fn lemma_seq_lt_total(a: Seq<char>, b: Seq<char>)
    ensures
        a == b || seq_lt(a, b) || seq_lt(b, a),
    decreases a.len(),
{
    if a.len() > 0 && b.len() > 0 && a[0] == b[0] {
        lemma_seq_lt_total(a.drop_first(), b.drop_first());
        if a.drop_first() == b.drop_first() {
            assert(a =~= seq![a[0]] + a.drop_first());
            assert(b =~= seq![b[0]] + b.drop_first());
        }
    } else if a.len() == 0 && b.len() == 0 {
        assert(a =~= b);
    }
}

/// Character-wise equality of two string slices.
pub fn str_eq(a: &str, b: &str) -> (r: bool)
    ensures
        r == (a@ == b@),
{
    let n = a.unicode_len();
    let m = b.unicode_len();
    if n != m {
        return false;
    }
    let mut i: usize = 0;
    while i < n
        invariant
            n == a@.len(),
            m == b@.len(),
            n == m,
            i <= n,
            forall|k: int| 0 <= k < i ==> a@[k] == b@[k],
        decreases n - i,
    {
        if a.get_char(i) != b.get_char(i) {
            return false;
        }
        i = i + 1;
    }
    assert(a@ =~= b@);
    true
}

/// Lexicographic comparison of two string slices.
pub fn str_lt(a: &str, b: &str) -> (r: bool)
    ensures
        r == seq_lt(a@, b@),
{
    let n = a.unicode_len();
    let m = b.unicode_len();
    let mut i: usize = 0;
    assert(a@.skip(0) =~= a@);
    assert(b@.skip(0) =~= b@);
    while i < n && i < m
        invariant
            n == a@.len(),
            m == b@.len(),
            i <= n,
            i <= m,
            seq_lt(a@, b@) == seq_lt(a@.skip(i as int), b@.skip(i as int)),
        decreases n - i,
    {
        let x = a.get_char(i);
        let y = b.get_char(i);
        assert(a@.skip(i as int)[0] == x);
        assert(b@.skip(i as int)[0] == y);
        if x != y {
            return x < y;
        }
        assert(a@.skip(i as int).drop_first() =~= a@.skip(i + 1));
        assert(b@.skip(i as int).drop_first() =~= b@.skip(i + 1));
        i = i + 1;
    }
    assert(a@.skip(i as int).len() == n - i);
    assert(b@.skip(i as int).len() == m - i);
    i == n && i < m
}

/// Whether the sequence contains the character `c`.
pub fn str_contains_char(s: &str, c: char) -> (r: bool)
    ensures
        r == s@.contains(c),
{
    let n = s.unicode_len();
    let mut i: usize = 0;
    while i < n
        invariant
            n == s@.len(),
            i <= n,
            forall|k: int| 0 <= k < i ==> s@[k] != c,
        decreases n - i,
    {
        if s.get_char(i) == c {
            assert(s@[i as int] == c);
            return true;
        }
        i = i + 1;
    }
    false
}

/// `s` has `p` at position `i`.
pub open spec fn occurs_at(s: Seq<char>, p: Seq<char>, i: int) -> bool {
    0 <= i && i + p.len() <= s.len() && s.subrange(i, i + p.len()) == p
}

/// `s` contains `p` as a contiguous piece (as `str::contains` with a `&str`).
pub open spec fn contains_seq(s: Seq<char>, p: Seq<char>) -> bool {
    exists|i: int| occurs_at(s, p, i)
}

/// `s` begins with `p`.
pub open spec fn starts_with(s: Seq<char>, p: Seq<char>) -> bool {
    occurs_at(s, p, 0)
}

/// Whether `s` starts with `p`.
pub fn str_starts_with(s: &str, p: &str) -> (r: bool)
    ensures
        r == starts_with(s@, p@),
{
    let n = s.unicode_len();
    let m = p.unicode_len();
    if m > n {
        return false;
    }
    let mut i: usize = 0;
    while i < m
        invariant
            n == s@.len(),
            m == p@.len(),
            m <= n,
            i <= m,
            forall|k: int| 0 <= k < i ==> s@[k] == p@[k],
        decreases m - i,
    {
        if s.get_char(i) != p.get_char(i) {
            assert(s@.subrange(0, m as int)[i as int] != p@[i as int]);
            return false;
        }
        i = i + 1;
    }
    assert(s@.subrange(0, m as int) =~= p@);
    true
}

/// Whether `s` contains the two-character piece `c1 c2`.
pub fn str_contains_pair(s: &str, c1: char, c2: char) -> (r: bool)
    ensures
        r == contains_seq(s@, seq![c1, c2]),
{
    let n = s.unicode_len();
    if n < 2 {
        assert forall|i: int| !occurs_at(s@, seq![c1, c2], i) by {}
        return false;
    }
    let mut i: usize = 0;
    while i + 1 < n
        invariant
            n == s@.len(),
            n >= 2,
            i + 1 <= n,
            forall|k: int| 0 <= k < i ==> !occurs_at(s@, seq![c1, c2], k),
        decreases n - i,
    {
        let a = s.get_char(i);
        let b = s.get_char(i + 1);
        if a == c1 && b == c2 {
            assert(s@.subrange(i as int, i + 2) =~= seq![c1, c2]);
            assert(occurs_at(s@, seq![c1, c2], i as int));
            return true;
        }
        assert(!occurs_at(s@, seq![c1, c2], i as int)) by {
            if occurs_at(s@, seq![c1, c2], i as int) {
                assert(s@.subrange(i as int, i + 2)[0] == a);
                assert(s@.subrange(i as int, i + 2)[1] == b);
            }
        }
        i = i + 1;
    }
    assert forall|k: int| !occurs_at(s@, seq![c1, c2], k) by {
        if 0 <= k < i {
        }
    }
    false
}

/// The Unicode `White_Space` property, which `char::is_whitespace` and
/// `str::trim` use.
pub open spec fn is_white_space(c: char) -> bool {
    ||| ('\u{9}' <= c && c <= '\u{d}')
    ||| c == ' '
    ||| c == '\u{85}'
    ||| c == '\u{a0}'
    ||| c == '\u{1680}'
    ||| ('\u{2000}' <= c && c <= '\u{200a}')
    ||| c == '\u{2028}'
    ||| c == '\u{2029}'
    ||| c == '\u{202f}'
    ||| c == '\u{205f}'
    ||| c == '\u{3000}'
}

/// Whether `c` is Unicode white space.
pub fn char_is_white_space(c: char) -> (r: bool)
    ensures
        r == is_white_space(c),
{
    ('\u{9}' <= c && c <= '\u{d}') || c == ' ' || c == '\u{85}' || c == '\u{a0}' || c
        == '\u{1680}' || ('\u{2000}' <= c && c <= '\u{200a}') || c == '\u{2028}' || c
        == '\u{2029}' || c == '\u{202f}' || c == '\u{205f}' || c == '\u{3000}'
}

/// `s.trim().is_empty()`: every character is white space.
pub open spec fn blank(s: Seq<char>) -> bool {
    forall|i: int| 0 <= i < s.len() ==> is_white_space(#[trigger] s[i])
}

/// Whether `s.trim().is_empty()`.
pub fn str_is_blank(s: &str) -> (r: bool)
    ensures
        r == blank(s@),
{
    let n = s.unicode_len();
    let mut i: usize = 0;
    while i < n
        invariant
            n == s@.len(),
            i <= n,
            forall|k: int| 0 <= k < i ==> is_white_space(#[trigger] s@[k]),
        decreases n - i,
    {
        if !char_is_white_space(s.get_char(i)) {
            return false;
        }
        i = i + 1;
    }
    true
}

pub open spec fn is_ascii_alphanumeric(c: char) -> bool {
    ('0' <= c && c <= '9') || ('a' <= c && c <= 'z') || ('A' <= c && c <= 'Z')
}

pub open spec fn is_ascii_hexdigit(c: char) -> bool {
    ('0' <= c && c <= '9') || ('a' <= c && c <= 'f') || ('A' <= c && c <= 'F')
}

/// `char::to_ascii_lowercase`.
pub open spec fn ascii_lower_char(c: char) -> char {
    if 'A' <= c && c <= 'Z' {
        ((c as u8) + 32) as char
    } else {
        c
    }
}

pub open spec fn ascii_lower(s: Seq<char>) -> Seq<char> {
    s.map_values(|c: char| ascii_lower_char(c))
}

/// `char::to_ascii_lowercase`.
pub fn char_ascii_lower(c: char) -> (r: char)
    ensures
        r == ascii_lower_char(c),
{
    if 'A' <= c && c <= 'Z' {
        let b: u8 = (c as u8) + 32;
        b as char
    } else {
        c
    }
}

/// The digit character of `d < 10`.
pub open spec fn digit_char(d: nat) -> char {
    if d == 0 {
        '0'
    } else if d == 1 {
        '1'
    } else if d == 2 {
        '2'
    } else if d == 3 {
        '3'
    } else if d == 4 {
        '4'
    } else if d == 5 {
        '5'
    } else if d == 6 {
        '6'
    } else if d == 7 {
        '7'
    } else if d == 8 {
        '8'
    } else {
        '9'
    }
}

/// The decimal text of `n`, as `Display` writes an unsigned integer.
pub open spec fn dec(n: nat) -> Seq<char>
    decreases n,
{
    if n < 10 {
        seq![digit_char(n)]
    } else {
        dec(n / 10).push(digit_char(n % 10))
    }
}

fn digit(d: u64) -> (c: char)
    requires
        d < 10,
    ensures
        c == digit_char(d as nat),
{
    if d == 0 {
        '0'
    } else if d == 1 {
        '1'
    } else if d == 2 {
        '2'
    } else if d == 3 {
        '3'
    } else if d == 4 {
        '4'
    } else if d == 5 {
        '5'
    } else if d == 6 {
        '6'
    } else if d == 7 {
        '7'
    } else if d == 8 {
        '8'
    } else {
        '9'
    }
}

/// Appends the decimal text of `n`.
pub fn push_decimal(s: &mut String, n: u64)
    ensures
        final(s)@ == old(s)@ + dec(n as nat),
    decreases n,
{
    if n >= 10 {
        push_decimal(s, n / 10);
        push_char(s, digit(n % 10));
        assert(s@ =~= old(s)@ + dec(n as nat));
    } else {
        push_char(s, digit(n));
        assert(s@ =~= old(s)@ + dec(n as nat));
    }
}

/// Appends a string slice.
pub fn push_str(s: &mut String, t: &str)
    ensures
        final(s)@ == old(s)@ + t@,
{
    s.append(t);
}


/// The characters of a string slice, in order.
pub fn chars_of(s: &str) -> (v: Vec<char>)
    ensures
        v@ == s@,
{
    let n = s.unicode_len();
    let mut v: Vec<char> = Vec::new();
    let mut i: usize = 0;
    while i < n
        invariant
            n == s@.len(),
            i <= n,
            v@ == s@.take(i as int),
        decreases n - i,
    {
        v.push(s.get_char(i));
        i = i + 1;
        assert(v@ =~= s@.take(i as int));
    }
    assert(s@.take(n as int) =~= s@);
    v
}

/// A string made of `v[from..to]`.
pub fn string_of_range(v: &Vec<char>, from: usize, to: usize) -> (s: String)
    requires
        from <= to <= v@.len(),
    ensures
        s@ == v@.subrange(from as int, to as int),
{
    let mut s = String::new();
    let mut i = from;
    while i < to
        invariant
            from <= i <= to,
            to <= v@.len(),
            s@ == v@.subrange(from as int, i as int),
        decreases to - i,
    {
        push_char(&mut s, v[i]);
        i = i + 1;
        assert(s@ =~= v@.subrange(from as int, i as int));
    }
    s
}

/// `base` joined with the relative path `rel` by a `/` separator, which is
/// left out when `base` is empty or already ends with `/`.
pub open spec fn join_path(base: Seq<char>, rel: Seq<char>) -> Seq<char> {
    if base.len() == 0 {
        rel
    } else if base.last() == '/' {
        base + rel
    } else {
        base + seq!['/'] + rel
    }
}

/// `base` joined with `rel` (see [`join_path`]).
pub fn path_join(base: &str, rel: &str) -> (r: String)
    ensures
        r@ == join_path(base@, rel@),
{
    let n = base.unicode_len();
    let mut r = String::from_str(base);
    if n > 0 && base.get_char(n - 1) != '/' {
        push_char(&mut r, '/');
    }
    push_str(&mut r, rel);
    r
}

/// The operating system the workshop runs on, as far as paths go.
#[derive(Debug, Clone, Copy, PartialEq, Eq, Structural)]
pub enum HostOs {
    MacOs,
    Windows,
    Other,
}

/// A Windows drive prefix alone, such as `C:`.
pub open spec fn is_drive_only(s: Seq<char>) -> bool {
    s.len() == 2 && s[1] == ':' && (('a' <= s[0] && s[0] <= 'z') || ('A' <= s[0] && s[0] <= 'Z'))
}

/// `PathBuf::push` of a plain relative name on Windows: a `\` goes between
/// unless the base is empty, already ends with `\` or `/`, or is a drive
/// prefix alone.
pub open spec fn windows_join(base: Seq<char>, rel: Seq<char>) -> Seq<char> {
    if base.len() == 0 || base.last() == '\\' || base.last() == '/' || is_drive_only(base) {
        base + rel
    } else {
        base + seq!['\\'] + rel
    }
}

/// `base` joined with `rel` as on Windows (see [`windows_join`]).
pub fn windows_path_join(base: &str, rel: &str) -> (r: String)
    ensures
        r@ == windows_join(base@, rel@),
{
    let n = base.unicode_len();
    let mut r = String::from_str(base);
    let mut need_sep = n > 0;
    if n > 0 {
        let last = base.get_char(n - 1);
        if last == '\\' || last == '/' {
            need_sep = false;
        }
        if n == 2 {
            let c = base.get_char(0);
            if base.get_char(1) == ':' && (('a' <= c && c <= 'z') || ('A' <= c && c <= 'Z')) {
                need_sep = false;
            }
        }
    }
    if need_sep {
        push_char(&mut r, '\\');
    }
    push_str(&mut r, rel);
    r
}

/// `PathBuf::join` of a relative path on this operating system: `\` on
/// Windows, `/` elsewhere.
pub open spec fn os_join(os: HostOs, base: Seq<char>, rel: Seq<char>) -> Seq<char> {
    if os == HostOs::Windows {
        windows_join(base, rel)
    } else {
        join_path(base, rel)
    }
}

/// `base` joined with `rel` on this operating system (see [`os_join`]).
pub fn os_path_join(os: HostOs, base: &str, rel: &str) -> (r: String)
    ensures
        r@ == os_join(os, base@, rel@),
{
    match os {
        HostOs::Windows => windows_path_join(base, rel),
        _ => path_join(base, rel),
    }
}

/// Index of the last `c` in `s`, or -1.
pub open spec fn last_index_of(s: Seq<char>, c: char) -> int
    decreases s.len(),
{
    if s.len() == 0 {
        -1
    } else if s.last() == c {
        s.len() - 1
    } else {
        last_index_of(s.drop_last(), c)
    }
}

/// The last index is in range and holds `c`.
pub proof fn lemma_last_index_of_bounds(s: Seq<char>, c: char)
    ensures
        -1 <= last_index_of(s, c) < s.len(),
        last_index_of(s, c) >= 0 ==> s[last_index_of(s, c)] == c,
    decreases s.len(),
{
    if s.len() > 0 && s.last() != c {
        lemma_last_index_of_bounds(s.drop_last(), c);
    }
}

/// The last `c` is at `k` when `s[k]` is `c` and no later character is.
pub proof fn lemma_last_index_at(s: Seq<char>, c: char, k: int)
    requires
        0 <= k < s.len(),
        s[k] == c,
        forall|j: int| k < j < s.len() ==> s[j] != c,
    ensures
        last_index_of(s, c) == k,
    decreases s.len(),
{
    if s.len() - 1 > k {
        lemma_last_index_at(s.drop_last(), c, k);
    }
}

/// The index of the last `c` in `v[0..end]`, or -1.
pub fn find_last(v: &Vec<char>, end: usize, c: char) -> (r: Option<usize>)
    requires
        end <= v@.len(),
    ensures
        r matches Some(k) ==> k == last_index_of(v@.take(end as int), c),
        r is None ==> last_index_of(v@.take(end as int), c) == -1,
{
    let mut i = end;
    while i > 0
        invariant
            i <= end <= v@.len(),
            last_index_of(v@.take(end as int), c) == last_index_of(v@.take(i as int), c),
        decreases i,
    {
        assert(v@.take(i as int).drop_last() =~= v@.take(i - 1));
        if v[i - 1] == c {
            return Some(i - 1);
        }
        i = i - 1;
    }
    None
}

/// The extension that `Path::extension` finds in a file name: the text after
/// the last `.`, unless there is no `.`, the only `.` starts the name, or the
/// name is `..`.
pub open spec fn file_extension(name: Seq<char>) -> Option<Seq<char>> {
    let d = last_index_of(name, '.');
    if name == seq!['.', '.'] || d <= 0 {
        None
    } else {
        Some(name.skip(d + 1))
    }
}

/// The last component that `Path::file_name` finds in a `/`-separated
/// relative path: empty and `.` components are skipped.
pub open spec fn last_component(s: Seq<char>) -> Seq<char>
    decreases s.len(),
{
    let k = last_index_of(s, '/');
    if k < 0 || k >= s.len() {
        s
    } else if s.skip(k + 1).len() == 0 || s.skip(k + 1) == seq!['.'] {
        last_component(s.take(k))
    } else {
        s.skip(k + 1)
    }
}

/// The extension of a file name.
pub fn extension_of(name: &str) -> (r: Option<String>)
    ensures
        r matches Some(e) ==> file_extension(name@) == Some(e@),
        r is None ==> file_extension(name@) is None,
{
    let v = chars_of(name);
    let n = v.len();
    assert(v@.take(n as int) =~= v@);
    let d = find_last(&v, n, '.');
    proof {
        lemma_last_index_of_bounds(name@, '.');
    }
    let is_dot_dot = n == 2 && v[0] == '.' && v[1] == '.';
    assert(is_dot_dot == (name@ == seq!['.', '.'])) by {
        if n == 2 && name@[0] == '.' && name@[1] == '.' {
            assert(name@ =~= seq!['.', '.']);
        }
    }
    match d {
        None => None,
        Some(d) => {
            if is_dot_dot || d == 0 {
                return None;
            }
            let e = string_of_range(&v, d + 1, n);
            assert(v@.subrange(d + 1, n as int) =~= name@.skip(d + 1));
            Some(e)
        },
    }
}

/// The last component of a `/`-separated path.
pub fn last_component_of(path: &str) -> (r: String)
    ensures
        r@ == last_component(path@),
{
    let v = chars_of(path);
    let mut end = v.len();
    assert(v@.take(end as int) =~= path@);
    loop
        invariant
            end <= v@.len(),
            v@ == path@,
            last_component(path@) == last_component(v@.take(end as int)),
        decreases end,
    {
        let ghost t = v@.take(end as int);
        let k = find_last(&v, end, '/');
        proof {
            lemma_last_index_of_bounds(t, '/');
        }
        let k = match k {
            None => {
                return string_of_range(&v, 0, end);
            },
            Some(k) => k,
        };
        assert(t.len() == end);
        let start = k + 1;
        assert(t.skip(k + 1) =~= v@.subrange(k + 1, end as int));
        let empty = start == end;
        let dot = end - start == 1 && v[start] == '.';
        assert(dot == (t.skip(k + 1) == seq!['.'])) by {
            if end - start == 1 && v@[start as int] == '.' {
                assert(t.skip(k + 1) =~= seq!['.']);
            }
            if t.skip(k + 1) == seq!['.'] {
                assert(t.skip(k + 1).len() == 1);
                assert(t.skip(k + 1)[0] == v@[start as int]);
            }
        }
        if empty || dot {
            assert(t.take(k as int) =~= v@.take(k as int));
            end = k;
        } else {
            return string_of_range(&v, start, end);
        }
    }
}

} // verus!
