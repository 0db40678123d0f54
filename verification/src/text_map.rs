use vstd::prelude::*;
use vstd::string::*;

use crate::text::{owned, str_eq};

verus! {

broadcast use vstd::string::group_string_axioms;

/// A table from texts to texts in which a later entry for a key replaces an earlier one.
pub struct TextMap {
    pub entries: Vec<(String, String)>,
}

/// The table that a list of entries describes, later entries winning.
pub open spec fn text_map_of(es: Seq<(String, String)>) -> Map<Seq<char>, Seq<char>>
    decreases es.len(),
{
    if es.len() == 0 {
        Map::empty()
    } else {
        text_map_of(es.drop_last()).insert(es.last().0@, es.last().1@)
    }
}

impl View for TextMap {
    type V = Map<Seq<char>, Seq<char>>;

    open spec fn view(&self) -> Map<Seq<char>, Seq<char>> {
        text_map_of(self.entries@)
    }
}

/// A key is in the table exactly when some entry holds it; its value is that of the last
/// such entry.
pub proof fn lemma_text_map_of(es: Seq<(String, String)>, k: Seq<char>)
    ensures
        text_map_of(es).contains_key(k) <==> exists|i: int| 0 <= i < es.len() && es[i].0@ == k,
        forall|i: int|
            0 <= i < es.len() && es[i].0@ == k && (forall|j: int| i < j < es.len() ==> es[j].0@ != k)
                ==> text_map_of(es)[k] == es[i].1@,
    decreases es.len(),
{
    if es.len() > 0 {
        let p = es.drop_last();
        lemma_text_map_of(p, k);
        assert forall|i: int| 0 <= i < p.len() implies p[i] == es[i] by {}
        if es.last().0@ != k {
            assert((exists|i: int| 0 <= i < es.len() && es[i].0@ == k) ==> (exists|i: int|
                0 <= i < p.len() && p[i].0@ == k)) by {
                if exists|i: int| 0 <= i < es.len() && es[i].0@ == k {
                    let i = choose|i: int| 0 <= i < es.len() && es[i].0@ == k;
                    assert(i < es.len() - 1);
                    assert(p[i].0@ == k);
                }
            }
        }
    }
}

impl TextMap {
    /// An empty table.
    pub fn new() -> (r: Self)
        ensures
            r@ == Map::<Seq<char>, Seq<char>>::empty(),
    {
        TextMap { entries: Vec::new() }
    }

    /// Sets the value of `key`.
    pub fn insert(&mut self, key: &str, value: &str)
        ensures
            final(self)@ == old(self)@.insert(key@, value@),
    {
        self.entries.push((owned(key), owned(value)));
        assert(self.entries@.drop_last() =~= old(self).entries@);
    }

    /// The value of `key`, if it has one.
    pub fn get(&self, key: &str) -> (r: Option<&String>)
        ensures
            match r {
                Some(v) => self@.contains_key(key@) && self@[key@] == v@,
                None => !self@.contains_key(key@),
            },
    {
        let mut i = self.entries.len();
        while i > 0
            invariant
                i <= self.entries@.len(),
                forall|j: int| i <= j < self.entries@.len() ==> self.entries@[j].0@ != key@,
            decreases i,
        {
            if str_eq(self.entries[i - 1].0.as_str(), key) {
                proof {
                    lemma_text_map_of(self.entries@, key@);
                }
                return Some(&self.entries[i - 1].1);
            }
            i -= 1;
        }
        proof {
            lemma_text_map_of(self.entries@, key@);
        }
        None
    }

    /// Whether the table has no keys.
    pub fn is_empty(&self) -> (b: bool)
        ensures
            b == (self@.dom().len() == 0),
    {
        proof {
            if self.entries@.len() > 0 {
                let k = self.entries@.last().0@;
                lemma_text_map_of(self.entries@, k);
                assert(self@.contains_key(k));
                lemma_text_map_finite(self.entries@);
                assert(self@.dom().contains(k));
            } else {
                assert(self@.dom() =~= Set::<Seq<char>>::empty());
            }
        }
        self.entries.len() == 0
    }
}

/// A table built from entries has finitely many keys.
pub proof fn lemma_text_map_finite(es: Seq<(String, String)>)
    ensures
        text_map_of(es).dom().finite(),
    decreases es.len(),
{
    if es.len() > 0 {
        lemma_text_map_finite(es.drop_last());
    }
}

}
