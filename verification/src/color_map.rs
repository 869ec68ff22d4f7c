//! The colors of a theme: a map from color names to color values whose
//! entries are kept in ascending key order, as a `BTreeMap<String, String>`
//! iterates them.
use vstd::prelude::*;

use crate::text::{lemma_seq_lt_irreflexive, lemma_seq_lt_total, lemma_seq_lt_transitive, seq_lt, str_eq, str_lt};

verus! {

/// A (key, value) entry as character sequences.
pub type EntryView = (Seq<char>, Seq<char>);

/// Keys strictly ascend: no key occurs twice and iteration is in key order.
pub open spec fn keys_ascending(s: Seq<EntryView>) -> bool {
    forall|i: int, j: int| 0 <= i < j < s.len() ==> seq_lt(#[trigger] s[i].0, #[trigger] s[j].0)
}

/// The entries after `BTreeMap::insert(k, v)`: the value of an existing key
/// is replaced in place, a new key goes before the first greater key.
pub open spec fn sorted_insert(s: Seq<EntryView>, k: Seq<char>, v: Seq<char>) -> Seq<EntryView>
    decreases s.len(),
{
    if s.len() == 0 {
        seq![(k, v)]
    } else if s[0].0 == k {
        s.update(0, (k, v))
    } else if seq_lt(k, s[0].0) {
        seq![(k, v)] + s
    } else {
        seq![s[0]] + sorted_insert(s.drop_first(), k, v)
    }
}

/// Entries after inserting every pair of `pairs`, in order, into `s`.
pub open spec fn insert_all(s: Seq<EntryView>, pairs: Seq<EntryView>) -> Seq<EntryView>
    decreases pairs.len(),
{
    if pairs.len() == 0 {
        s
    } else {
        insert_all(sorted_insert(s, pairs[0].0, pairs[0].1), pairs.drop_first())
    }
}

pub open spec fn has_key(s: Seq<EntryView>, k: Seq<char>) -> bool {
    exists|p: int| 0 <= p < s.len() && s[p].0 == k
}

pub open spec fn pair_view(p: (String, String)) -> EntryView {
    (p.0@, p.1@)
}

/// Inserting `(k, v)` at the position before the first greater key keeps the
/// keys ascending and is what `sorted_insert` gives when `k` is absent.
proof fn lemma_insert_at(s: Seq<EntryView>, i: int, k: Seq<char>, v: Seq<char>)
    requires
        keys_ascending(s),
        0 <= i <= s.len(),
        forall|j: int| 0 <= j < i ==> seq_lt(#[trigger] s[j].0, k),
        i < s.len() ==> seq_lt(k, s[i].0),
        sorted_insert(s, k, v) == s.take(i) + sorted_insert(s.skip(i), k, v),
    ensures
        keys_ascending(s.insert(i, (k, v))),
        !has_key(s, k),
        sorted_insert(s, k, v) == s.insert(i, (k, v)),
{
    lemma_seq_lt_irreflexive(k);
    assert forall|j: int| 0 <= j < s.len() implies s[j].0 != k by {
        if j >= i {
            if j > i {
                lemma_seq_lt_transitive(k, s[i].0, s[j].0);
            }
        }
    }
    let t = s.insert(i, (k, v));
    if i < s.len() {
        assert(sorted_insert(s.skip(i), k, v) == seq![(k, v)] + s.skip(i));
        assert(s.take(i) + (seq![(k, v)] + s.skip(i)) =~= t);
    } else {
        assert(s.skip(i) =~= Seq::<EntryView>::empty());
        assert(s.take(i) + seq![(k, v)] =~= t);
    }
    assert forall|a: int, b: int| 0 <= a < b < t.len() implies seq_lt(
        #[trigger] t[a].0,
        #[trigger] t[b].0,
    ) by {
        if b < i {
        } else if a < i && b == i {
        } else if a < i && b > i {
            assert(t[b] == s[b - 1]);
            if b - 1 > i {
                lemma_seq_lt_transitive(k, s[i].0, s[b - 1].0);
            }
            lemma_seq_lt_transitive(s[a].0, k, s[b - 1].0);
        } else if a == i {
            assert(t[b] == s[b - 1]);
            if b - 1 > i {
                lemma_seq_lt_transitive(k, s[i].0, s[b - 1].0);
            }
        } else {
            assert(t[a] == s[a - 1]);
            assert(t[b] == s[b - 1]);
        }
    }
}

/// Color names mapped to color values, iterated in ascending name order.
#[derive(Debug, PartialEq)]
pub struct ColorMap {
    entries: Vec<(String, String)>,
}

impl View for ColorMap {
    type V = Seq<EntryView>;

    closed spec fn view(&self) -> Seq<EntryView> {
        self.entries@.map_values(|p: (String, String)| pair_view(p))
    }
}

impl ColorMap {
    /// The keys strictly ascend.
    #[verifier::type_invariant]
    pub open spec fn ascending(self) -> bool {
        keys_ascending(self@)
    }

    /// The empty map.
    pub fn new() -> (m: ColorMap)
        ensures
            m@ == Seq::<EntryView>::empty(),
    {
        let m = ColorMap { entries: Vec::new() };
        assert(m@ =~= Seq::<EntryView>::empty());
        m
    }

    /// Number of entries.
    pub fn len(&self) -> (n: usize)
        ensures
            n == self@.len(),
    {
        self.entries.len()
    }

    /// The entries in ascending key order.
    pub fn entries(&self) -> (s: &[(String, String)])
        ensures
            s@.map_values(|p: (String, String)| pair_view(p)) == self@,
    {
        self.entries.as_slice()
    }

    /// `BTreeMap::insert`: sets the value of `key`, returning the value it
    /// replaced.
    pub fn insert(&mut self, key: String, value: String) -> (r: Option<String>)
        ensures
            final(self)@ == sorted_insert(old(self)@, key@, value@),
            r is Some <==> has_key(old(self)@, key@),
            r matches Some(x) ==> exists|p: int|
                0 <= p < old(self)@.len() && old(self)@[p].0 == key@ && old(self)@[p].1 == x@,
    {
        proof {
            use_type_invariant(&*self);
        }
        let ghost s = self@;
        let mut entries: Vec<(String, String)> = Vec::new();
        std::mem::swap(&mut entries, &mut self.entries);
        assert(entries@.map_values(|p: (String, String)| pair_view(p)) == s);
        let n = entries.len();
        let mut i: usize = 0;
        assert(s.take(0) + s.skip(0) =~= s);
        while i < n
            invariant
                n == entries.len(),
                s == old(self)@,
                s == entries@.map_values(|p: (String, String)| pair_view(p)),
                keys_ascending(s),
                i <= n,
                forall|k: int| 0 <= k < i ==> seq_lt(#[trigger] s[k].0, key@),
                sorted_insert(s, key@, value@) == s.take(i as int) + sorted_insert(
                    s.skip(i as int),
                    key@,
                    value@,
                ),
            ensures
                i < n ==> seq_lt(key@, s[i as int].0),
            decreases n - i,
        {
            let ghost rest = s.skip(i as int);
            assert(rest[0] == s[i as int]);
            assert(s[i as int] == pair_view(entries@[i as int]));
            let is_same = str_eq(entries[i].0.as_str(), key.as_str());
            if is_same {
                assert(sorted_insert(rest, key@, value@) == rest.update(0, (key@, value@)));
                let (k, old_value) = entries.remove(i);
                entries.insert(i, (k, value));
                let ghost ev = entries@.map_values(|p: (String, String)| pair_view(p));
                assert(ev =~= s.update(i as int, (key@, value@)));
                assert(s.take(i as int) + rest.update(0, (key@, value@)) =~= s.update(
                    i as int,
                    (key@, value@),
                ));
                proof {
                    assert forall|a: int, b: int| 0 <= a < b < ev.len() implies seq_lt(
                        #[trigger] ev[a].0,
                        #[trigger] ev[b].0,
                    ) by {
                        assert(ev[a].0 == s[a].0);
                        assert(ev[b].0 == s[b].0);
                    }
                }
                self.entries = entries;
                assert(self@ == ev);
                assert(s[i as int].0 == key@);
                assert(has_key(s, key@));
                return Some(old_value);
            }
            let less = str_lt(entries[i].0.as_str(), key.as_str());
            if !less {
                proof {
                    lemma_seq_lt_total(s[i as int].0, key@);
                }
                assert(seq_lt(key@, rest[0].0));
                assert(sorted_insert(rest, key@, value@) == seq![(key@, value@)] + rest);
                break;
            }
            proof {
                if seq_lt(key@, rest[0].0) {
                    lemma_seq_lt_transitive(key@, rest[0].0, key@);
                    lemma_seq_lt_irreflexive(key@);
                }
            }
            assert(sorted_insert(rest, key@, value@) == seq![rest[0]] + sorted_insert(
                rest.drop_first(),
                key@,
                value@,
            ));
            assert(rest.drop_first() =~= s.skip(i + 1));
            assert(s.take(i as int) + seq![rest[0]] =~= s.take(i + 1));
            i = i + 1;
        }
        // `key` is absent: it goes at position `i`.
        proof {
            lemma_insert_at(s, i as int, key@, value@);
        }
        entries.insert(i, (key, value));
        let ghost ev = entries@.map_values(|p: (String, String)| pair_view(p));
        assert(ev =~= s.insert(i as int, (key@, value@)));
        self.entries = entries;
        None
    }

    /// `BTreeMap::from(pairs)`: inserts the pairs in order, so a later pair
    /// wins over an earlier one with the same key.
    pub fn from_pairs(pairs: Vec<(String, String)>) -> (m: ColorMap)
        ensures
            m@ == insert_all(
                Seq::<EntryView>::empty(),
                pairs@.map_values(|p: (String, String)| pair_view(p)),
            ),
    {
        let ghost ps = pairs@.map_values(|p: (String, String)| pair_view(p));
        let mut m = ColorMap::new();
        let mut pairs = pairs;
        let ghost orig = pairs@;
        let mut rest: Vec<(String, String)> = Vec::new();
        while pairs.len() > 0
            invariant
                rest@.len() + pairs@.len() == orig.len(),
                pairs@ == orig.take(pairs@.len() as int),
                forall|k: int| 0 <= k < rest@.len() ==> #[trigger] rest@[k] == orig[orig.len() - 1 - k],
            decreases pairs@.len(),
        {
            let ghost before = rest@;
            let ghost pl = pairs@.len();
            let x = pairs.pop().unwrap();
            assert(x == orig[pl - 1]);
            rest.push(x);
            assert(pairs@ =~= orig.take(pairs@.len() as int));
            assert forall|k: int| 0 <= k < rest@.len() implies #[trigger] rest@[k] == orig[orig.len() - 1 - k] by {
                if k < before.len() {
                    assert(rest@[k] == before[k]);
                }
            }
        }
        assert(ps.skip(0) =~= ps);
        while rest.len() > 0
            invariant
                ps.len() == orig.len(),
                ps == orig.map_values(|p: (String, String)| pair_view(p)),
                rest@.len() <= ps.len(),
                forall|k: int|
                    0 <= k < rest@.len() ==> pair_view(#[trigger] rest@[k]) == ps[ps.len() - 1
                        - k],
                insert_all(Seq::<EntryView>::empty(), ps) == insert_all(
                    m@,
                    ps.skip(ps.len() - rest@.len()),
                ),
            decreases rest@.len(),
        {
            let ghost before = rest@;
            let ghost done = ps.len() - rest@.len();
            let (k, v) = rest.pop().unwrap();
            assert(pair_view(before[before.len() - 1]) == ps[done]);
            assert((k@, v@) == ps[done]);
            assert(ps.skip(done).drop_first() =~= ps.skip(done + 1));
            m.insert(k, v);
            assert forall|j: int| 0 <= j < rest@.len() implies pair_view(#[trigger] rest@[j])
                == ps[ps.len() - 1 - j] by {
                assert(rest@[j] == before[j]);
            }
        }
        assert(ps.skip(ps.len() as int) =~= Seq::<EntryView>::empty());
        m
    }

    /// A copy with the same entries.
    pub fn duplicate(&self) -> (m: ColorMap)
        ensures
            m@ == self@,
    {
        proof {
            use_type_invariant(self);
        }
        let mut v: Vec<(String, String)> = Vec::new();
        let n = self.entries.len();
        let mut i: usize = 0;
        while i < n
            invariant
                n == self.entries@.len(),
                i <= n,
                v@.len() == i,
                forall|k: int| 0 <= k < i ==> pair_view(#[trigger] v@[k]) == pair_view(
                    self.entries@[k],
                ),
            decreases n - i,
        {
            let k = self.entries[i].0.clone();
            let x = self.entries[i].1.clone();
            v.push((k, x));
            i = i + 1;
        }
        assert(v@.map_values(|p: (String, String)| pair_view(p)) =~= self@);
        let m = ColorMap { entries: v };
        m
    }
}

} // verus!
