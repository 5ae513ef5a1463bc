//! The set of request parameters: names with their values, kept in the
//! order of the names, each name at most once.
use vstd::prelude::*;
use vstd::string::*;
use crate::order::{
    lemma_name_irreflexive, lemma_name_transitive, lemma_name_trichotomy, name_lt, rank_names, Rank,
};

verus! {

/// A parameter as the contracts see it: its name and its value.
pub type Pair = (Seq<char>, Seq<char>);

/// The names strictly increase along the sequence.
pub open spec fn sorted_by_name(s: Seq<Pair>) -> bool {
    forall|i: int, j: int| 0 <= i < j < s.len() ==> name_lt(#[trigger] s[i].0, #[trigger] s[j].0)
}

/// Some entry of `s` carries the name `k`.
pub open spec fn has_name(s: Seq<Pair>, k: Seq<char>) -> bool {
    exists|i: int| 0 <= i < s.len() && #[trigger] s[i].0 == k
}

/// An index at which `s` carries the name `k`, where there is one.
pub open spec fn index_of_name(s: Seq<Pair>, k: Seq<char>) -> int {
    choose|i: int| 0 <= i < s.len() && #[trigger] s[i].0 == k
}

/// The mapping from names to values that the entries describe.
pub open spec fn pairs_to_map(s: Seq<Pair>) -> Map<Seq<char>, Seq<char>> {
    Map::new(|k: Seq<char>| has_name(s, k), |k: Seq<char>| s[index_of_name(s, k)].1)
}

/// In a sorted sequence two entries with the same name are the same entry.
pub proof fn lemma_sorted_names_distinct(s: Seq<Pair>, i: int, j: int)
    requires
        sorted_by_name(s),
        0 <= i < s.len(),
        0 <= j < s.len(),
        s[i].0 == s[j].0,
    ensures
        i == j,
{
    lemma_name_irreflexive(s[i].0);
    if i < j {
        assert(name_lt(s[i].0, s[j].0));
    } else if j < i {
        assert(name_lt(s[j].0, s[i].0));
    }
}

/// Every entry of a sorted sequence is what the mapping holds for its name.
pub proof fn lemma_entry_in_map(s: Seq<Pair>, i: int)
    requires
        sorted_by_name(s),
        0 <= i < s.len(),
    ensures
        pairs_to_map(s).contains_key(s[i].0),
        pairs_to_map(s)[s[i].0] == s[i].1,
        index_of_name(s, s[i].0) == i,
{
    let k = s[i].0;
    assert(has_name(s, k));
    lemma_sorted_names_distinct(s, i, index_of_name(s, k));
}

/// A sorted sequence is determined by the mapping it describes: whatever the
/// order in which the parameters arrived, the same names with the same values
/// give the same sequence.
pub proof fn lemma_sorted_pairs_unique(a: Seq<Pair>, b: Seq<Pair>)
    requires
        sorted_by_name(a),
        sorted_by_name(b),
        pairs_to_map(a) == pairs_to_map(b),
    ensures
        a == b,
    decreases a.len(),
{
    if a.len() == 0 {
        if b.len() > 0 {
            lemma_entry_in_map(b, 0);
            assert(pairs_to_map(a).contains_key(b[0].0));
        }
        assert(a =~= b);
    } else if b.len() == 0 {
        lemma_entry_in_map(a, 0);
        assert(pairs_to_map(b).contains_key(a[0].0));
    } else {
        let la = a.len() - 1;
        let lb = b.len() - 1;
        // The last entry of each carries the greatest name of the mapping.
        lemma_entry_in_map(a, la);
        lemma_entry_in_map(b, lb);
        assert(pairs_to_map(b).contains_key(a[la].0));
        assert(pairs_to_map(a).contains_key(b[lb].0));
        let ia = index_of_name(b, a[la].0);
        let ib = index_of_name(a, b[lb].0);
        lemma_name_irreflexive(a[la].0);
        if ia < lb {
            assert(name_lt(b[ia].0, b[lb].0));
            if ib < la {
                assert(name_lt(a[ib].0, a[la].0));
                lemma_name_transitive(a[la].0, b[lb].0, a[la].0);
            }
        }
        assert(a[la].0 == b[lb].0);
        assert(a[la].1 == b[lb].1);
        let a0 = a.drop_last();
        let b0 = b.drop_last();
        assert(sorted_by_name(a0)) by {
            assert forall|i: int, j: int| 0 <= i < j < a0.len() implies name_lt(
                #[trigger] a0[i].0,
                #[trigger] a0[j].0,
            ) by {
                assert(name_lt(a[i].0, a[j].0));
            }
        }
        assert(sorted_by_name(b0)) by {
            assert forall|i: int, j: int| 0 <= i < j < b0.len() implies name_lt(
                #[trigger] b0[i].0,
                #[trigger] b0[j].0,
            ) by {
                assert(name_lt(b[i].0, b[j].0));
            }
        }
        assert(pairs_to_map(a0) =~= pairs_to_map(b0)) by {
            lemma_drop_last_map(a);
            lemma_drop_last_map(b);
        }
        lemma_sorted_pairs_unique(a0, b0);
        assert(a =~= a0.push(a[la]));
        assert(b =~= b0.push(b[lb]));
    }
}

/// Without its last entry a sorted sequence describes the same mapping
/// without that entry's name.
pub proof fn lemma_drop_last_map(s: Seq<Pair>)
    requires
        sorted_by_name(s),
        s.len() > 0,
    ensures
        pairs_to_map(s.drop_last()) == pairs_to_map(s).remove(s.last().0),
{
    let t = s.drop_last();
    let m = pairs_to_map(s).remove(s.last().0);
    assert(sorted_by_name(t)) by {
        assert forall|i: int, j: int| 0 <= i < j < t.len() implies name_lt(
            #[trigger] t[i].0,
            #[trigger] t[j].0,
        ) by {
            assert(name_lt(s[i].0, s[j].0));
        }
    }
    assert forall|k: Seq<char>| #[trigger] pairs_to_map(t).dom().contains(k) == m.dom().contains(k)
        && (m.dom().contains(k) ==> m[k] == pairs_to_map(t)[k]) by {
        if has_name(t, k) {
            let i = index_of_name(t, k);
            assert(t[i] == s[i]);
            lemma_entry_in_map(t, i);
            lemma_entry_in_map(s, i);
            if k == s.last().0 {
                lemma_sorted_names_distinct(s, i, s.len() - 1);
            }
        }
        if m.dom().contains(k) {
            let i = index_of_name(s, k);
            assert(has_name(s, k));
            assert(i != s.len() - 1);
            assert(t[i].0 == k);
        }
    }
    assert(pairs_to_map(t) =~= m);
}

/// Putting a new name at its place in the order keeps the order and adds the
/// name to the mapping.
pub proof fn lemma_insert_at(s: Seq<Pair>, p: int, k: Seq<char>, v: Seq<char>)
    requires
        sorted_by_name(s),
        0 <= p <= s.len(),
        forall|i: int| 0 <= i < p ==> name_lt(#[trigger] s[i].0, k),
        forall|i: int| p <= i < s.len() ==> name_lt(k, #[trigger] s[i].0),
    ensures
        !has_name(s, k),
        sorted_by_name(s.insert(p, (k, v))),
        pairs_to_map(s.insert(p, (k, v))) == pairs_to_map(s).insert(k, v),
{
    let t = s.insert(p, (k, v));
    lemma_name_irreflexive(k);
    assert forall|i: int, j: int| 0 <= i < j < t.len() implies name_lt(
        #[trigger] t[i].0,
        #[trigger] t[j].0,
    ) by {
        let oi = if i < p { i } else { i - 1 };
        let oj = if j < p { j } else { j - 1 };
        if i == p {
            assert(t[j] == s[oj]);
        } else if j == p {
            assert(t[i] == s[oi]);
        } else {
            assert(t[i] == s[oi]);
            assert(t[j] == s[oj]);
            assert(name_lt(s[oi].0, s[oj].0));
        }
    }
    let m = pairs_to_map(s).insert(k, v);
    assert(t[p] == (k, v));
    lemma_entry_in_map(t, p);
    assert forall|q: Seq<char>| #[trigger] pairs_to_map(t).dom().contains(q) == m.dom().contains(q)
        && (m.dom().contains(q) ==> m[q] == pairs_to_map(t)[q]) by {
        if has_name(t, q) && q != k {
            let i = index_of_name(t, q);
            let oi = if i < p { i } else { i - 1 };
            assert(t[i] == s[oi]);
            lemma_entry_in_map(t, i);
            lemma_entry_in_map(s, oi);
        }
        if has_name(s, q) && q != k {
            let oi = index_of_name(s, q);
            let i = if oi < p { oi } else { oi + 1 };
            assert(t[i] == s[oi]);
            lemma_entry_in_map(t, i);
            lemma_entry_in_map(s, oi);
        }
    }
    assert(pairs_to_map(t) =~= m);
}

/// Giving a name that is present a new value keeps the order and changes the
/// mapping at that name alone.
pub proof fn lemma_replace_at(s: Seq<Pair>, p: int, v: Seq<char>)
    requires
        sorted_by_name(s),
        0 <= p < s.len(),
    ensures
        sorted_by_name(s.update(p, (s[p].0, v))),
        pairs_to_map(s.update(p, (s[p].0, v))) == pairs_to_map(s).insert(s[p].0, v),
{
    let k = s[p].0;
    let t = s.update(p, (k, v));
    assert forall|i: int, j: int| 0 <= i < j < t.len() implies name_lt(
        #[trigger] t[i].0,
        #[trigger] t[j].0,
    ) by {
        assert(name_lt(s[i].0, s[j].0));
    }
    let m = pairs_to_map(s).insert(k, v);
    lemma_entry_in_map(t, p);
    assert forall|q: Seq<char>| #[trigger] pairs_to_map(t).dom().contains(q) == m.dom().contains(q)
        && (m.dom().contains(q) ==> m[q] == pairs_to_map(t)[q]) by {
        if has_name(t, q) && q != k {
            let i = index_of_name(t, q);
            assert(t[i] == s[i]);
            lemma_entry_in_map(t, i);
            lemma_entry_in_map(s, i);
        }
        if has_name(s, q) && q != k {
            let i = index_of_name(s, q);
            assert(t[i] == s[i]);
            lemma_entry_in_map(t, i);
            lemma_entry_in_map(s, i);
        }
    }
    assert(pairs_to_map(t) =~= m);
}

/// Taking an entry out keeps the order and takes its name out of the mapping.
pub proof fn lemma_remove_at(s: Seq<Pair>, p: int)
    requires
        sorted_by_name(s),
        0 <= p < s.len(),
    ensures
        sorted_by_name(s.remove(p)),
        pairs_to_map(s.remove(p)) == pairs_to_map(s).remove(s[p].0),
{
    let k = s[p].0;
    let t = s.remove(p);
    assert forall|i: int, j: int| 0 <= i < j < t.len() implies name_lt(
        #[trigger] t[i].0,
        #[trigger] t[j].0,
    ) by {
        let oi = if i < p { i } else { i + 1 };
        let oj = if j < p { j } else { j + 1 };
        assert(t[i] == s[oi]);
        assert(t[j] == s[oj]);
        assert(name_lt(s[oi].0, s[oj].0));
    }
    let m = pairs_to_map(s).remove(k);
    assert forall|q: Seq<char>| #[trigger] pairs_to_map(t).dom().contains(q) == m.dom().contains(q)
        && (m.dom().contains(q) ==> m[q] == pairs_to_map(t)[q]) by {
        if has_name(t, q) {
            let i = index_of_name(t, q);
            let oi = if i < p { i } else { i + 1 };
            assert(t[i] == s[oi]);
            lemma_entry_in_map(t, i);
            lemma_entry_in_map(s, oi);
            if q == k {
                lemma_sorted_names_distinct(s, oi, p);
            }
        }
        if has_name(s, q) && q != k {
            let oi = index_of_name(s, q);
            let i = if oi < p { oi } else { oi - 1 };
            assert(t[i] == s[oi]);
            lemma_entry_in_map(t, i);
            lemma_entry_in_map(s, oi);
        }
    }
    assert(pairs_to_map(t) =~= m);
}

/// A name that sorts before an entry, while all earlier entries sort before
/// the name, is not in the sequence.
pub proof fn lemma_absent_between(s: Seq<Pair>, p: int, k: Seq<char>)
    requires
        sorted_by_name(s),
        0 <= p <= s.len(),
        forall|i: int| 0 <= i < p ==> name_lt(#[trigger] s[i].0, k),
        p < s.len() ==> name_lt(k, s[p].0),
    ensures
        forall|i: int| p <= i < s.len() ==> name_lt(k, #[trigger] s[i].0),
        !has_name(s, k),
{
    assert forall|i: int| p <= i < s.len() implies name_lt(k, #[trigger] s[i].0) by {
        if i > p {
            assert(name_lt(s[p].0, s[i].0));
            lemma_name_transitive(k, s[p].0, s[i].0);
        }
    }
    lemma_name_irreflexive(k);
}

/// Two insertions under different names give the same mapping in either
/// order.
pub proof fn lemma_insertions_commute(
    m: Map<Seq<char>, Seq<char>>,
    k1: Seq<char>,
    v1: Seq<char>,
    k2: Seq<char>,
    v2: Seq<char>,
)
    requires
        k1 != k2,
    ensures
        m.insert(k1, v1).insert(k2, v2) == m.insert(k2, v2).insert(k1, v1),
{
    assert(m.insert(k1, v1).insert(k2, v2) =~= m.insert(k2, v2).insert(k1, v1));
}

/// Request parameters by name. Each name occurs once, and the entries stand
/// in the lexicographic order of the names' UTF-8 bytes.
#[derive(Debug)]
pub struct ParameterSet {
    entries: Vec<(String, String)>,
}

impl View for ParameterSet {
    type V = Seq<Pair>;

    closed spec fn view(&self) -> Seq<Pair> {
        self.entries@.map_values(|e: (String, String)| (e.0@, e.1@))
    }
}

impl ParameterSet {
    /// The entries stand in strictly increasing order of their names.
    pub open spec fn wf(&self) -> bool {
        sorted_by_name(self@)
    }

    /// The mapping from names to values.
    pub open spec fn as_map(&self) -> Map<Seq<char>, Seq<char>> {
        pairs_to_map(self@)
    }

    /// A set without parameters.
    pub fn new() -> (r: ParameterSet)
        ensures
            r.wf(),
            r@ == Seq::<Pair>::empty(),
            r.as_map() == Map::<Seq<char>, Seq<char>>::empty(),
    {
        let r = ParameterSet { entries: Vec::new() };
        assert(r@ =~= Seq::<Pair>::empty());
        assert(r.as_map() =~= Map::<Seq<char>, Seq<char>>::empty());
        r
    }

    /// The number of parameters.
    pub fn len(&self) -> (n: usize)
        ensures
            n == self@.len(),
    {
        self.entries.len()
    }

    /// The parameter at position `i` in the order of names: its name and its
    /// value, or nothing where the set has no such position.
    pub fn entry_at(&self, i: usize) -> (r: Option<(&str, &str)>)
        ensures
            match r {
                Some((name, value)) => i < self@.len() && name@ == self@[i as int].0 && value@
                    == self@[i as int].1,
                None => i >= self@.len(),
            },
    {
        if i < self.entries.len() {
            Some((self.entries[i].0.as_str(), self.entries[i].1.as_str()))
        } else {
            None
        }
    }

    /// The position of `name`, if the set holds it.
    pub fn position(&self, name: &str) -> (r: Option<usize>)
        requires
            self.wf(),
        ensures
            match r {
                Some(i) => i < self@.len() && self@[i as int].0 == name@,
                None => !self.as_map().contains_key(name@),
            },
    {
        let mut i: usize = 0;
        while i < self.entries.len()
            invariant
                self.wf(),
                i <= self@.len(),
                self@.len() == self.entries@.len(),
                forall|j: int| 0 <= j < i ==> name_lt(#[trigger] self@[j].0, name@),
            decreases self.entries.len() - i,
        {
            match rank_names(self.entries[i].0.as_str(), name) {
                Rank::Before => {
                    i += 1;
                },
                Rank::Same => {
                    return Some(i);
                },
                Rank::After => {
                    proof {
                        lemma_name_trichotomy(self@[i as int].0, name@);
                        lemma_absent_between(self@, i as int, name@);
                    }
                    return None;
                },
            }
        }
        proof {
            lemma_absent_between(self@, i as int, name@);
        }
        None
    }

    /// The value held for `name`, if any.
    pub fn get(&self, name: &str) -> (r: Option<&str>)
        requires
            self.wf(),
        ensures
            match r {
                Some(v) => self.as_map().contains_key(name@) && v@ == self.as_map()[name@],
                None => !self.as_map().contains_key(name@),
            },
    {
        match self.position(name) {
            Some(i) => {
                proof {
                    lemma_entry_in_map(self@, i as int);
                }
                Some(self.entries[i].1.as_str())
            },
            None => None,
        }
    }

    /// Sets the value of `name`, and returns the value that it had before.
    pub fn insert(&mut self, name: String, value: String) -> (previous: Option<String>)
        requires
            old(self).wf(),
        ensures
            final(self).wf(),
            final(self).as_map() == old(self).as_map().insert(name@, value@),
            match previous {
                Some(v) => old(self).as_map().contains_key(name@) && v@ == old(self).as_map()[name@],
                None => !old(self).as_map().contains_key(name@),
            },
    {
        let ghost before = self@;
        let mut i: usize = 0;
        while i < self.entries.len()
            invariant
                self@ == before,
                before == old(self)@,
                sorted_by_name(before),
                i <= before.len(),
                before.len() == self.entries@.len(),
                forall|j: int| 0 <= j < i ==> name_lt(#[trigger] before[j].0, name@),
            decreases self.entries.len() - i,
        {
            match rank_names(self.entries[i].0.as_str(), name.as_str()) {
                Rank::Before => {
                    i += 1;
                },
                Rank::Same => {
                    let gone = self.entries.remove(i);
                    self.entries.insert(i, (name, value));
                    proof {
                        assert(self@ =~= before.update(i as int, (name@, value@)));
                        lemma_replace_at(before, i as int, value@);
                        lemma_entry_in_map(before, i as int);
                    }
                    return Some(gone.1);
                },
                Rank::After => {
                    proof {
                        lemma_name_trichotomy(before[i as int].0, name@);
                        lemma_absent_between(before, i as int, name@);
                        lemma_insert_at(before, i as int, name@, value@);
                    }
                    self.entries.insert(i, (name, value));
                    proof {
                        assert(self@ =~= before.insert(i as int, (name@, value@)));
                    }
                    return None;
                },
            }
        }
        proof {
            lemma_absent_between(before, i as int, name@);
            lemma_insert_at(before, i as int, name@, value@);
        }
        self.entries.insert(i, (name, value));
        proof {
            assert(self@ =~= before.insert(i as int, (name@, value@)));
        }
        None
    }

    /// Takes `name` out of the set, and returns the value that it had.
    pub fn remove(&mut self, name: &str) -> (previous: Option<String>)
        requires
            old(self).wf(),
        ensures
            final(self).wf(),
            final(self).as_map() == old(self).as_map().remove(name@),
            match previous {
                Some(v) => old(self).as_map().contains_key(name@) && v@ == old(self).as_map()[name@],
                None => !old(self).as_map().contains_key(name@),
            },
    {
        let ghost before = self@;
        match self.position(name) {
            Some(i) => {
                let gone = self.entries.remove(i);
                proof {
                    assert(self@ =~= before.remove(i as int));
                    lemma_remove_at(before, i as int);
                    lemma_entry_in_map(before, i as int);
                }
                Some(gone.1)
            },
            None => {
                proof {
                    assert(pairs_to_map(before).remove(name@) =~= pairs_to_map(before));
                }
                None
            },
        }
    }
}

} // verus!
