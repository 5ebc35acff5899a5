//! Content fingerprints, and the map from a replica's relative paths to the
//! fingerprints of its files.
use vstd::prelude::*;

use crate::paths::FilePath;

verus! {

/// The 64-bit XXH3 hash of `bytes`.
pub uninterp spec fn xxh3_of(bytes: Seq<u8>) -> u64;

/// Relies on `xxhash_rust::xxh3::xxh3_64`: the 64-bit XXH3 hash of the bytes,
/// with the default secret and no seed.
#[verifier::external_body]
fn xxh3(bytes: &[u8]) -> (r: u64)
    ensures
        r == xxh3_of(bytes@),
{
    xxhash_rust::xxh3::xxh3_64(bytes)
}

/// The fingerprint of a file's content, used to tell contents apart.
pub fn fingerprint(content: &[u8]) -> (r: u64)
    ensures
        r == xxh3_of(content@),
{
    xxh3(content)
}

/// Relative paths of a tree's files, each with the fingerprint of its content.
///
/// Held as two vectors with a ghost map rather than a std `HashMap`: vstd
/// specifies hash maps usefully only for integer keys, and a path key is a
/// list of strings. The invariant `wf` keeps every path once, as a map does.
pub struct FingerprintMap {
    keys: Vec<FilePath>,
    hashes: Vec<u64>,
    contents: Ghost<Map<Seq<Seq<char>>, u64>>,
}

impl View for FingerprintMap {
    type V = Map<Seq<Seq<char>>, u64>;

    closed spec fn view(&self) -> Map<Seq<Seq<char>>, u64> {
        self.contents@
    }
}

impl FingerprintMap {
    /// Every key is held once, with the fingerprint the map gives it.
    pub closed spec fn wf(&self) -> bool {
        &&& self.keys@.len() == self.hashes@.len()
        &&& forall|i: int, j: int|
            0 <= i < self.keys@.len() && 0 <= j < self.keys@.len() && self.keys@[i]@
                == self.keys@[j]@ ==> i == j
        &&& forall|i: int|
            0 <= i < self.keys@.len() ==> #[trigger] self.contents@.contains_key(self.keys@[i]@)
                && self.contents@[self.keys@[i]@] == self.hashes@[i]
        &&& forall|k: Seq<Seq<char>>|
            #[trigger] self.contents@.contains_key(k) ==> exists|i: int|
                0 <= i < self.keys@.len() && self.keys@[i]@ == k
    }

    /// A map without entries.
    pub fn new() -> (r: FingerprintMap)
        ensures
            r.wf(),
            r@ == Map::<Seq<Seq<char>>, u64>::empty(),
    {
        FingerprintMap { keys: Vec::new(), hashes: Vec::new(), contents: Ghost(Map::empty()) }
    }

    /// The index at which `path` is held, if it is.
    fn find(&self, path: &FilePath) -> (r: Option<usize>)
        requires
            self.wf(),
        ensures
            match r {
                Some(i) => i < self.keys@.len() && self.keys@[i as int]@ == path@,
                None => !self@.contains_key(path@),
            },
    {
        let mut i: usize = 0;
        while i < self.keys.len()
            invariant
                self.wf(),
                i <= self.keys@.len(),
                forall|j: int| 0 <= j < i ==> self.keys@[j]@ != path@,
            decreases self.keys@.len() - i,
        {
            if self.keys[i].same_as(path) {
                return Some(i);
            }
            i = i + 1;
        }
        None
    }

    /// The fingerprint recorded for `path`, if any.
    pub fn get(&self, path: &FilePath) -> (r: Option<u64>)
        requires
            self.wf(),
        ensures
            match r {
                Some(h) => self@.contains_key(path@) && self@[path@] == h,
                None => !self@.contains_key(path@),
            },
    {
        match self.find(path) {
            Some(i) => {
                assert(self.contents@.contains_key(self.keys@[i as int]@));
                Some(self.hashes[i])
            },
            None => None,
        }
    }

    /// Records `hash` for `path`, replacing what was recorded for it before.
    pub fn insert(&mut self, path: FilePath, hash: u64)
        requires
            old(self).wf(),
        ensures
            final(self).wf(),
            final(self)@ == old(self)@.insert(path@, hash),
    {
        let ghost key = path@;
        match self.find(&path) {
            Some(i) => {
                self.hashes.set(i, hash);
                self.contents = Ghost(self.contents@.insert(key, hash));
            },
            None => {
                self.keys.push(path);
                self.hashes.push(hash);
                self.contents = Ghost(self.contents@.insert(key, hash));
                assert forall|k: Seq<Seq<char>>| #[trigger]
                    self.contents@.contains_key(k) implies exists|i: int|
                    0 <= i < self.keys@.len() && self.keys@[i]@ == k by {
                    if k == key {
                        assert(self.keys@[self.keys@.len() - 1]@ == k);
                    } else {
                        assert(old(self).contents@.contains_key(k));
                        let i = choose|i: int|
                            0 <= i < old(self).keys@.len() && old(self).keys@[i]@ == k;
                        assert(self.keys@[i]@ == k);
                    }
                }
            },
        }
    }

    /// Records the fingerprint of a file's content under its relative path.
    pub fn insert_file(&mut self, path: FilePath, content: &[u8])
        requires
            old(self).wf(),
        ensures
            final(self).wf(),
            final(self)@ == old(self)@.insert(path@, xxh3_of(content@)),
    {
        let h = fingerprint(content);
        self.insert(path, h);
    }
}

} // verus!
