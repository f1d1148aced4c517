//! Variable tables: identifier-to-value mappings with insertion order.
//!
//! A run keeps two tables: the record locals, persisted across steps, and
//! the temp variables, cleared at the start of every evaluated program.

use crate::value::{RawValue, ValueV};
use vstd::prelude::*;

verus! {

/// An identifier-to-value table, insertion-ordered, with unique keys.
#[derive(Debug)]
pub struct VarMap {
    entries: Vec<(String, RawValue)>,
}

/// The mapping denoted by a sequence of key-value pairs: later pairs win.
pub open spec fn map_of<V>(s: Seq<(Seq<char>, V)>) -> Map<Seq<char>, V>
    decreases s.len(),
{
    if s.len() == 0 {
        Map::empty()
    } else {
        map_of(s.drop_last()).insert(s.last().0, s.last().1)
    }
}

/// Whether a sequence of key-value pairs has pairwise distinct keys.
pub open spec fn unique_keys<V>(s: Seq<(Seq<char>, V)>) -> bool {
    forall|i: int, j: int| 0 <= i < j < s.len() ==> (#[trigger] s[i]).0 != (#[trigger] s[j]).0
}

impl View for VarMap {
    type V = Seq<(Seq<char>, ValueV)>;

    closed spec fn view(&self) -> Seq<(Seq<char>, ValueV)> {
        self.entries.deep_view()
    }
}

impl DeepView for VarMap {
    type V = Seq<(Seq<char>, ValueV)>;

    closed spec fn deep_view(&self) -> Seq<(Seq<char>, ValueV)> {
        self.view()
    }
}

/// A key occurs in the sequence of pairs.
pub open spec fn seq_has_key<V>(s: Seq<(Seq<char>, V)>, k: Seq<char>) -> bool {
    exists|i: int| 0 <= i < s.len() && (#[trigger] s[i]).0 == k
}

pub broadcast proof fn lemma_map_of_has_key<V>(s: Seq<(Seq<char>, V)>, k: Seq<char>)
    ensures
        #[trigger] map_of(s).contains_key(k) <==> seq_has_key(s, k),
    decreases s.len(),
{
    if s.len() > 0 {
        lemma_map_of_has_key(s.drop_last(), k);
        if s.last().0 == k {
            assert(s[s.len() - 1].0 == k);
        } else if map_of(s).contains_key(k) {
            assert(seq_has_key(s.drop_last(), k));
            let i = choose|i: int| 0 <= i < s.drop_last().len() && (#[trigger] s.drop_last()[i]).0
                == k;
            assert(s[i].0 == k);
        } else {
            if seq_has_key(s, k) {
                let i = choose|i: int| 0 <= i < s.len() && (#[trigger] s[i]).0 == k;
                assert(s.drop_last()[i].0 == k);
            }
        }
    }
}

pub broadcast proof fn lemma_map_of_value<V>(s: Seq<(Seq<char>, V)>, i: int)
    requires
        unique_keys(s),
        0 <= i < s.len(),
    ensures
        #[trigger] map_of(s).index(s[i].0) == s[i].1,
    decreases s.len(),
{
    if i == s.len() - 1 {
    } else {
        lemma_map_of_value(s.drop_last(), i);
        assert(s.drop_last()[i] == s[i]);
    }
}

impl VarMap {
    /// The well-formedness of a table: its keys are pairwise distinct.
    ///
    /// Constructors establish it and methods preserve it.
    pub open spec fn wf(&self) -> bool {
        unique_keys(self@)
    }

    /// Creates an empty table.
    pub fn new() -> (r: VarMap)
        ensures
            r@ == Seq::<(Seq<char>, ValueV)>::empty(),
            r.wf(),
    {
        VarMap { entries: Vec::new() }
    }

    /// The mapping this table denotes.
    pub open spec fn map_view(&self) -> Map<Seq<char>, ValueV> {
        map_of(self@)
    }

    /// The number of entries.
    pub fn len(&self) -> (n: usize)
        ensures
            n == self@.len(),
    {
        self.entries.len()
    }

    /// The key of the entry at an index.
    pub fn key_at(&self, i: usize) -> (k: &String)
        requires
            i < self@.len(),
        ensures
            k@ == self@[i as int].0,
    {
        &self.entries[i].0
    }

    /// The value of the entry at an index.
    pub fn val_at(&self, i: usize) -> (v: &RawValue)
        requires
            i < self@.len(),
        ensures
            v@ == self@[i as int].1,
    {
        &self.entries[i].1
    }

    /// Looks a key up; `None` when the key is absent.
    #[verifier::loop_isolation(false)]
    pub fn get(&self, k: &String) -> (r: Option<&RawValue>)
        requires
            self.wf(),
        ensures
            match r {
                Some(v) => self.map_view().contains_key(k@) && v@ == self.map_view().index(k@),
                None => !self.map_view().contains_key(k@),
            },
    {
        proof {
            lemma_map_of_has_key(self@, k@);
        }
        let n = self.entries.len();
        for i in 0..n
            invariant
                n == self@.len(),
                unique_keys(self@),
                forall|j: int| 0 <= j < i ==> (#[trigger] self@[j]).0 != k@,
        {
            if self.entries[i].0.eq(k) {
                proof {
                    lemma_map_of_value(self@, i as int);
                }
                return Some(&self.entries[i].1);
            }
        }
        None
    }

    /// Inserts a value under a key, replacing any previous value.
    ///
    /// A fresh key is appended at the end; an existing key keeps its place.
    #[verifier::loop_isolation(false)]
    pub fn insert(&mut self, k: String, v: RawValue)
        requires
            old(self).wf(),
        ensures
            final(self).wf(),
            final(self).map_view() == old(self).map_view().insert(k@, v@),
            final(self)@.len() >= old(self)@.len(),
            seq_has_key(old(self)@, k@) ==> final(self)@.len() == old(self)@.len(),
            !seq_has_key(old(self)@, k@) ==> final(self)@ == old(self)@.push((k@, v@)),
    {
        let ghost orig = self@;
        let n = self.entries.len();
        for i in 0..n
            invariant
                n == self@.len(),
                self@ == orig,
                unique_keys(orig),
                forall|j: int| 0 <= j < i ==> (#[trigger] orig[j]).0 != k@,
        {
            if self.entries[i].0.eq(&k) {
                self.entries[i] = (k, v);
                proof {
                    assert(self@ =~= orig.update(i as int, (k@, v@)));
                    lemma_insert_update(orig, i as int, v@);
                    assert(unique_keys(self@));
                }
                return ;
            }
        }
        self.entries.push((k, v));
        proof {
            assert(self@ =~= orig.push((k@, v@)));
            assert(self@.drop_last() =~= orig);
            assert(unique_keys(self@));
        }
    }

    /// Clones the table.
    #[verifier::loop_isolation(false)]
    pub fn duplicate(&self) -> (r: VarMap)
        ensures
            r@ == self@,
    {
        let mut entries: Vec<(String, RawValue)> = Vec::new();
        let n = self.entries.len();
        for i in 0..n
            invariant
                n == self@.len(),
                entries.deep_view() =~= self@.subrange(0, i as int),
        {
            let e = &self.entries[i];
            entries.push((e.0.clone(), e.1.clone()));
            proof {
                assert(entries.deep_view() =~= self@.subrange(0, i + 1));
            }
        }
        proof {
            assert(entries.deep_view() =~= self@);
        }
        VarMap { entries }
    }
}

pub proof fn lemma_insert_update<V>(s: Seq<(Seq<char>, V)>, i: int, v: V)
    requires
        unique_keys(s),
        0 <= i < s.len(),
    ensures
        map_of(s.update(i, (s[i].0, v))) == map_of(s).insert(s[i].0, v),
    decreases s.len(),
{
    let t = s.update(i, (s[i].0, v));
    if i == s.len() - 1 {
        assert(t.drop_last() =~= s.drop_last());
        assert(map_of(t) =~= map_of(s).insert(s[i].0, v));
    } else {
        assert(t.drop_last() =~= s.drop_last().update(i, (s[i].0, v)));
        lemma_insert_update(s.drop_last(), i, v);
        assert(s.drop_last()[i] == s[i]);
        assert(t.last() == s.last());
        assert(map_of(t) == map_of(s.drop_last()).insert(s[i].0, v).insert(s.last().0, s.last().1));
        assert(s[i].0 != s.last().0);
        assert(map_of(s.drop_last()).insert(s[i].0, v).insert(s.last().0, s.last().1) =~= map_of(
            s,
        ).insert(s[i].0, v));
    }
}

impl Clone for VarMap {
    fn clone(&self) -> (r: VarMap)
        ensures
            r@ == self@,
    {
        self.duplicate()
    }
}

impl PartialEq for VarMap {
    #[verifier::loop_isolation(false)]
    fn eq(&self, other: &VarMap) -> (r: bool) {
        let n = self.entries.len();
        if n != other.entries.len() {
            proof {
                assert(self@.len() != other@.len());
            }
            return false;
        }
        for i in 0..n
            invariant
                n == self@.len(),
                n == other@.len(),
                forall|j: int| 0 <= j < i ==> self@[j] == other@[j],
        {
            if !self.entries[i].0.eq(&other.entries[i].0) {
                proof {
                    assert(self@[i as int].0 != other@[i as int].0);
                }
                return false;
            }
            if !self.entries[i].1.eq(&other.entries[i].1) {
                proof {
                    assert(self@[i as int].1 != other@[i as int].1);
                }
                return false;
            }
        }
        proof {
            assert(self@ =~= other@);
        }
        true
    }
}

impl Eq for VarMap {

}

impl vstd::std_specs::cmp::PartialEqSpecImpl for VarMap {
    open spec fn obeys_eq_spec() -> bool {
        true
    }

    open spec fn eq_spec(&self, other: &VarMap) -> bool {
        self@ == other@
    }
}

} // verus!
