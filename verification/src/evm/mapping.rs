//! Which path each hash stands for.

use vstd::prelude::*;

verus! {

/// A hash and the full path of the contract that it is the hash of.
#[derive(Debug, PartialEq, Eq)]
pub struct Alias {
    /// The hash, in hexadecimal.
    pub hash: String,
    /// The full path.
    pub path: String,
}

/// The paths of the contracts by the hashes of their assemblies. Where a
/// hash stands twice, the later entry counts.
#[derive(Debug, PartialEq, Eq)]
pub struct HashPathMapping {
    /// The entries, in the order in which they were put.
    pub entries: Vec<Alias>,
}

/// The mapping that the entries up to the given number make.
pub open spec fn mapping_of(entries: Seq<Alias>, count: int) -> Map<Seq<char>, Seq<char>>
    decreases count,
{
    if count <= 0 || count > entries.len() {
        Map::empty()
    } else {
        mapping_of(entries, count - 1).insert(entries[count - 1].hash@, entries[count - 1].path@)
    }
}

impl View for HashPathMapping {
    type V = Map<Seq<char>, Seq<char>>;

    open spec fn view(&self) -> Map<Seq<char>, Seq<char>> {
        mapping_of(self.entries@, self.entries@.len() as int)
    }
}

impl HashPathMapping {
    /// The empty mapping.
    pub fn new() -> (mapping: HashPathMapping)
        ensures
            mapping@ == Map::<Seq<char>, Seq<char>>::empty(),
    {
        HashPathMapping { entries: Vec::new() }
    }

    /// Puts an entry: the hash stands for the path from now on.
    pub fn insert(&mut self, hash: String, path: String)
        ensures
            final(self)@ == old(self)@.insert(hash@, path@),
    {
        let ghost before = self.entries@;
        self.entries.push(Alias { hash, path });
        proof {
            lemma_mapping_prefix(self.entries@, before, before.len() as int);
        }
    }

    /// The path that the hash stands for.
    pub fn get(&self, hash: &String) -> (path: Option<&String>)
        ensures
            match path {
                Some(path) => self@.dom().contains(hash@) && self@[hash@] == path@,
                None => !self@.dom().contains(hash@),
            },
    {
        let mut i: usize = self.entries.len();
        while i > 0
            invariant
                i <= self.entries.len(),
                self@.dom().contains(hash@) <==> mapping_of(self.entries@, i as int).dom().contains(
                    hash@,
                ),
                self@.dom().contains(hash@) ==> self@[hash@] == mapping_of(
                    self.entries@,
                    i as int,
                )[hash@],
            decreases i,
        {
            i -= 1;
            if self.entries[i].hash == *hash {
                return Some(&self.entries[i].path);
            }
        }
        None
    }
}

/// Entries that agree up to a number make the same mapping up to it.
pub proof fn lemma_mapping_prefix(longer: Seq<Alias>, shorter: Seq<Alias>, count: int)
    requires
        0 <= count <= shorter.len() <= longer.len(),
        forall|i: int| 0 <= i < shorter.len() ==> longer[i] == shorter[i],
    ensures
        mapping_of(longer, count) == mapping_of(shorter, count),
    decreases count,
{
    if count > 0 {
        lemma_mapping_prefix(longer, shorter, count - 1);
    }
}

} // verus!
