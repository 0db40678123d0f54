use vstd::prelude::*;
use vstd::string::*;

use crate::text::{contains, contains_exec, owned, str_eq};

verus! {

broadcast use vstd::string::group_string_axioms;

/// The text of a map file and where it was read from.
pub struct MapFile {
    pub content: String,
    pub fullpath: String,
}

impl MapFile {
    /// A map file record holding the given text and path.
    pub fn new(content: &str, fullpath: &str) -> (r: Self)
        ensures
            r.content@ == content@,
            r.fullpath@ == fullpath@,
    {
        MapFile { content: owned(content), fullpath: owned(fullpath) }
    }
}

/// The map files by file name; a later entry for a name replaces an earlier one.
pub struct MapFiles {
    pub entries: Vec<(String, MapFile)>,
}

/// The table that a list of entries describes: file name to (text, path), later entries
/// winning.
pub open spec fn mapfiles_of(es: Seq<(String, MapFile)>) -> Map<Seq<char>, (Seq<char>, Seq<char>)>
    decreases es.len(),
{
    if es.len() == 0 {
        Map::empty()
    } else {
        mapfiles_of(es.drop_last()).insert(
            es.last().0@,
            (es.last().1.content@, es.last().1.fullpath@),
        )
    }
}

impl View for MapFiles {
    type V = Map<Seq<char>, (Seq<char>, Seq<char>)>;

    open spec fn view(&self) -> Map<Seq<char>, (Seq<char>, Seq<char>)> {
        mapfiles_of(self.entries@)
    }
}

/// A name is in the table exactly when some entry holds it; its file is that of the last
/// such entry.
#[verifier::rlimit(40)]
pub proof fn lemma_mapfiles_of(es: Seq<(String, MapFile)>, k: Seq<char>)
    ensures
        mapfiles_of(es).contains_key(k) <==> exists|i: int| 0 <= i < es.len() && es[i].0@ == k,
        forall|i: int|
            0 <= i < es.len() && es[i].0@ == k && (forall|j: int| i < j < es.len() ==> es[j].0@ != k)
                ==> mapfiles_of(es)[k] == (es[i].1.content@, es[i].1.fullpath@),
    decreases es.len(),
{
    if es.len() > 0 {
        let p = es.drop_last();
        let last = es.last();
        lemma_mapfiles_of(p, k);
        assert(mapfiles_of(es) == mapfiles_of(p).insert(last.0@, (last.1.content@, last.1.fullpath@)));
        assert forall|i: int| 0 <= i < p.len() implies p[i] == es[i] by {}
        if last.0@ != k {
            assert((exists|i: int| 0 <= i < es.len() && es[i].0@ == k) ==> (exists|i: int|
                0 <= i < p.len() && p[i].0@ == k)) by {
                if exists|i: int| 0 <= i < es.len() && es[i].0@ == k {
                    let i = choose|i: int| 0 <= i < es.len() && es[i].0@ == k;
                    assert(i < es.len() - 1);
                    assert(p[i].0@ == k);
                }
            }
            assert forall|i: int|
                0 <= i < es.len() && es[i].0@ == k && (forall|j: int| i < j < es.len() ==> es[j].0@ != k)
                implies mapfiles_of(es)[k] == (es[i].1.content@, es[i].1.fullpath@) by {
                assert(i < es.len() - 1);
                assert(p[i] == es[i]);
                assert forall|j: int| i < j < p.len() implies p[j].0@ != k by {
                    assert(p[j] == es[j]);
                }
            }
        }
    }
}

/// Whether a path found among the map files names a map (a `.txt` file).
pub fn is_map_path(fullpath: &str) -> (b: bool)
    ensures
        b == contains(fullpath@, ".txt"@),
{
    contains_exec(fullpath, ".txt")
}

impl MapFiles {
    /// No map files.
    pub fn new() -> (r: Self)
        ensures
            r@ == Map::<Seq<char>, (Seq<char>, Seq<char>)>::empty(),
    {
        MapFiles { entries: Vec::new() }
    }

    /// Files `file` under `name`, replacing any file of that name.
    pub fn insert(&mut self, name: &str, file: MapFile)
        ensures
            final(self)@ == old(self)@.insert(name@, (file.content@, file.fullpath@)),
    {
        self.entries.push((owned(name), file));
        assert(self.entries@.drop_last() =~= old(self).entries@);
    }

    /// The file of name `name`, if there is one.
    pub fn get(&self, name: &str) -> (r: Option<&MapFile>)
        ensures
            match r {
                Some(f) => self@.contains_key(name@) && self@[name@] == (f.content@, f.fullpath@),
                None => !self@.contains_key(name@),
            },
    {
        let mut i = self.entries.len();
        while i > 0
            invariant
                i <= self.entries@.len(),
                forall|j: int| i <= j < self.entries@.len() ==> self.entries@[j].0@ != name@,
            decreases i,
        {
            if str_eq(self.entries[i - 1].0.as_str(), name) {
                proof {
                    lemma_mapfiles_of(self.entries@, name@);
                }
                return Some(&self.entries[i - 1].1);
            }
            i -= 1;
        }
        proof {
            lemma_mapfiles_of(self.entries@, name@);
        }
        None
    }
}

}
