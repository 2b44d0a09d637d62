//! The chunk store: the narrations of a commit, each found by its number.

use crate::text::to_chars;
use crate::types::{chunk_views, DiffChunk, DiffChunkView};
use std::collections::HashMap;
use vstd::prelude::*;
use vstd::std_specs::iter::IteratorSpec;

verus! {

/// Whether every chunk of `entries` stands under its own number.
pub open spec fn keyed_by_id(entries: Map<usize, DiffChunkView>) -> bool {
    forall|id: usize| entries.contains_key(id) ==> (#[trigger] entries[id]).chunk_id == id
}

/// The chunk of number `chunk_id` among `entries`.
pub open spec fn spec_get(entries: Map<usize, DiffChunkView>, chunk_id: usize) -> Option<
    DiffChunkView,
> {
    if entries.contains_key(chunk_id) {
        Some(entries[chunk_id])
    } else {
        None
    }
}

/// `entries` with `chunk` under its number, in the place of the chunk that
/// stood there.
pub open spec fn spec_insert(entries: Map<usize, DiffChunkView>, chunk: DiffChunkView) -> Map<
    usize,
    DiffChunkView,
> {
    entries.insert(chunk.chunk_id, chunk)
}

/// `entries` with each of `chunks` put among them, one after another.
pub open spec fn spec_insert_all(entries: Map<usize, DiffChunkView>, chunks: Seq<DiffChunkView>) -> Map<
    usize,
    DiffChunkView,
>
    decreases chunks.len(),
{
    if chunks.len() == 0 {
        entries
    } else {
        spec_insert(spec_insert_all(entries, chunks.drop_last()), chunks.last())
    }
}

/// Whether `found` are the chunks among `entries` that narrate the file
/// `path`: each of them is in the store and narrates the file, every chunk
/// in the store that narrates the file is among them, and none is there
/// twice. In which order they stand is left open.
pub open spec fn is_for_file(
    entries: Map<usize, DiffChunkView>,
    path: Seq<char>,
    found: Seq<DiffChunkView>,
) -> bool {
    &&& forall|k: int|
        0 <= k < found.len() ==> spec_get(entries, (#[trigger] found[k]).chunk_id) == Some(
            found[k],
        ) && found[k].file_path == path
    &&& forall|id: usize|
        entries.contains_key(id) && (#[trigger] entries[id]).file_path == path ==> exists|k: int|
            0 <= k < found.len() && (#[trigger] found[k]).chunk_id == id
    &&& forall|i: int, j: int|
        0 <= i < found.len() && 0 <= j < found.len() && i != j ==> (#[trigger] found[i]).chunk_id
            != (#[trigger] found[j]).chunk_id
}

/// Putting a chunk into a store in which every chunk stands under its
/// number leaves it so. The chunk is then found by its number, and every
/// other number finds what it found before.
pub proof fn lemma_insert(entries: Map<usize, DiffChunkView>, chunk: DiffChunkView)
    requires
        keyed_by_id(entries),
    ensures
        keyed_by_id(spec_insert(entries, chunk)),
        spec_get(spec_insert(entries, chunk), chunk.chunk_id) == Some(chunk),
        forall|other: usize|
            other != chunk.chunk_id ==> #[trigger] spec_get(spec_insert(entries, chunk), other)
                == spec_get(entries, other),
{
}

/// The narrations of a commit, each under its number.
pub struct ChunkStore {
    chunks: HashMap<usize, DiffChunk>,
}

impl ChunkStore {
    #[verifier::type_invariant]
    spec fn well_formed(&self) -> bool {
        forall|id: usize|
            self.chunks@.contains_key(id) ==> (#[trigger] self.chunks@[id]).chunk_id == id
    }

    /// The chunks in the store, each under its number.
    pub closed spec fn entries(&self) -> Map<usize, DiffChunkView> {
        Map::new(|id: usize| self.chunks@.contains_key(id), |id: usize| self.chunks@[id]@)
    }

    /// A store without chunks.
    pub fn new() -> (store: Self)
        ensures
            store.entries() == Map::<usize, DiffChunkView>::empty(),
    {
        let store = ChunkStore { chunks: HashMap::new() };
        assert(store.entries() =~= Map::<usize, DiffChunkView>::empty());
        store
    }

    /// How many chunks the store holds.
    pub fn len(&self) -> (count: usize)
        ensures
            count == self.entries().dom().len(),
            keyed_by_id(self.entries()),
    {
        broadcast use vstd::std_specs::hash::group_hash_axioms;

        proof {
            use_type_invariant(self);
            assert(self.entries().dom() =~= self.chunks@.dom());
        }
        self.chunks.len()
    }

    /// Takes every chunk out of the store.
    pub fn clear(&mut self)
        ensures
            final(self).entries() == Map::<usize, DiffChunkView>::empty(),
    {
        self.chunks = HashMap::new();
        assert(self.entries() =~= Map::<usize, DiffChunkView>::empty());
    }

    /// Puts `chunk` into the store under its number, in the place of the
    /// chunk that stood there.
    pub fn insert(&mut self, chunk: DiffChunk)
        ensures
            final(self).entries() == spec_insert(old(self).entries(), chunk@),
            keyed_by_id(final(self).entries()),
    {
        broadcast use vstd::std_specs::hash::group_hash_axioms;

        proof {
            use_type_invariant(&*self);
        }
        let ghost before = self.entries();
        let mut chunks: HashMap<usize, DiffChunk> = HashMap::new();
        core::mem::swap(&mut self.chunks, &mut chunks);
        chunks.insert(chunk.chunk_id, chunk);
        self.chunks = chunks;
        assert(self.entries() =~= spec_insert(before, chunk@));
    }

    /// Puts each of `chunks` into the store, one after another.
    pub fn insert_all(&mut self, chunks: &Vec<DiffChunk>)
        ensures
            final(self).entries() == spec_insert_all(old(self).entries(), chunk_views(chunks@)),
    {
        let ghost all = chunk_views(chunks@);
        let mut i: usize = 0;
        while i < chunks.len()
            invariant
                i <= chunks.len(),
                all == chunk_views(chunks@),
                self.entries() == spec_insert_all(old(self).entries(), all.take(i as int)),
            decreases chunks.len() - i,
        {
            proof {
                assert(all.take(i + 1).drop_last() == all.take(i as int));
                assert(all.take(i + 1).last() == chunks@[i as int]@);
            }
            self.insert(chunks[i].duplicate());
            i += 1;
        }
        assert(all.take(chunks.len() as int) == all);
    }

    /// The chunk of number `chunk_id`.
    pub fn get(&self, chunk_id: usize) -> (found: Option<DiffChunk>)
        ensures
            match found {
                Some(chunk) => spec_get(self.entries(), chunk_id) == Some(chunk@),
                None => spec_get(self.entries(), chunk_id) is None,
            },
    {
        broadcast use vstd::std_specs::hash::group_hash_axioms;

        match self.chunks.get(&chunk_id) {
            Some(chunk) => Some(chunk.duplicate()),
            None => None,
        }
    }

    /// The chunks that narrate the file `path`, in the order in which the
    /// store is walked.
    pub fn get_for_file(&self, path: &str) -> (found: Vec<DiffChunk>)
        ensures
            is_for_file(self.entries(), path@, chunk_views(found@)),
    {
        broadcast use vstd::std_specs::hash::group_hash_axioms;

        proof {
            use_type_invariant(self);
        }
        let wanted = to_chars(path);
        let mut found: Vec<DiffChunk> = Vec::new();
        let keys = self.chunks.keys();
        let ghost walked: Seq<usize> = keys.remaining().unref();
        let ghost mut done: int = 0;
        for key in iter: keys
            invariant
                wanted@ == path@,
                iter.seq().unref() == walked,
                done == iter.index(),
                walked.to_set() == self.chunks@.dom(),
                walked.no_duplicates(),
                forall|id: usize|
                    self.chunks@.contains_key(id) ==> (#[trigger] self.chunks@[id]).chunk_id == id,
                forall|k: int|
                    0 <= k < found.len() ==> self.chunks@.contains_key((#[trigger] found@[k]).chunk_id)
                        && self.chunks@[found@[k].chunk_id]@ == found@[k]@ && found@[k]@.file_path
                        == path@ && exists|at: int|
                        0 <= at < done && #[trigger] walked[at] == found@[k].chunk_id,
                forall|at: int|
                    0 <= at < done && self.chunks@[#[trigger] walked[at]]@.file_path == path@
                        ==> exists|k: int|
                        0 <= k < found.len() && (#[trigger] found@[k]).chunk_id == walked[at],
                forall|i: int, j: int|
                    0 <= i < found.len() && 0 <= j < found.len() && i != j ==> (
                    #[trigger] found@[i]).chunk_id != (#[trigger] found@[j]).chunk_id,
        {
            let ghost before = found@;
            proof {
                assert(walked[done] == *key);
                assert(walked.to_set().contains(walked[done]));
            }
            match self.chunks.get(key) {
                Some(chunk) => {
                    let here = to_chars(chunk.file_path.as_str());
                    if same_chars(&here, &wanted) {
                        let copy = chunk.duplicate();
                        found.push(copy);
                        proof {
                            assert(copy.chunk_id == *key);
                            assert forall|i: int, j: int|
                                0 <= i < found.len() && 0 <= j < found.len() && i != j implies (
                            #[trigger] found@[i]).chunk_id != (#[trigger] found@[j]).chunk_id by {
                                if i == before.len() && j < before.len() {
                                    let at = choose|at: int|
                                        0 <= at < done && #[trigger] walked[at]
                                            == before[j].chunk_id;
                                    assert(walked[at] != walked[done]);
                                } else if j == before.len() && i < before.len() {
                                    let at = choose|at: int|
                                        0 <= at < done && #[trigger] walked[at]
                                            == before[i].chunk_id;
                                    assert(walked[at] != walked[done]);
                                } else {
                                    assert(found@[i] == before[i] && found@[j] == before[j]);
                                }
                            }
                            assert forall|k: int| 0 <= k < found.len() implies exists|at: int|
                                0 <= at < done + 1 && #[trigger] walked[at] == (
                                #[trigger] found@[k]).chunk_id by {
                                if k < before.len() {
                                    assert(found@[k] == before[k]);
                                    let at = choose|at: int|
                                        0 <= at < done && #[trigger] walked[at]
                                            == before[k].chunk_id;
                                    assert(walked[at] == found@[k].chunk_id);
                                } else {
                                    assert(walked[done] == found@[k].chunk_id);
                                }
                            }
                            assert forall|at: int|
                                0 <= at < done + 1 && self.chunks@[#[trigger] walked[at]]@.file_path
                                    == path@ implies exists|k: int|
                                0 <= k < found.len() && (#[trigger] found@[k]).chunk_id
                                    == walked[at] by {
                                if at < done {
                                    let k = choose|k: int|
                                        0 <= k < before.len() && (#[trigger] before[k]).chunk_id
                                            == walked[at];
                                    assert(found@[k].chunk_id == walked[at]);
                                } else {
                                    assert(found@[before.len() as int].chunk_id == walked[at]);
                                }
                            }
                        }
                    }
                },
                None => {},
            }
            proof {
                done = done + 1;
            }
        }
        proof {
            let entries = self.entries();
            let shown = chunk_views(found@);
            assert forall|id: usize|
                entries.contains_key(id) && (#[trigger] entries[id]).file_path
                    == path@ implies exists|k: int|
                0 <= k < shown.len() && (#[trigger] shown[k]).chunk_id == id by {
                assert(walked.to_set().contains(id));
                let at = choose|at: int| 0 <= at < walked.len() && walked[at] == id;
                let k = choose|k: int|
                    0 <= k < found.len() && (#[trigger] found@[k]).chunk_id == walked[at];
                assert(shown[k].chunk_id == id);
            }
            assert forall|k: int| 0 <= k < shown.len() implies spec_get(
                entries,
                (#[trigger] shown[k]).chunk_id,
            ) == Some(shown[k]) && shown[k].file_path == path@ by {
                assert(shown[k] == found@[k]@);
            }
            assert forall|i: int, j: int|
                0 <= i < shown.len() && 0 <= j < shown.len() && i != j implies (
            #[trigger] shown[i]).chunk_id != (#[trigger] shown[j]).chunk_id by {
                assert(shown[i] == found@[i]@ && shown[j] == found@[j]@);
            }
        }
        found
    }
}

/// Whether `a` and `b` hold the same characters.
pub fn same_chars(a: &Vec<char>, b: &Vec<char>) -> (same: bool)
    ensures
        same == (a@ == b@),
{
    let same: bool = a.len() == b.len() && crate::text::starts_with(a, b);
    proof {
        if same {
            assert(a@ =~= a@.subrange(0, b@.len() as int));
        }
    }
    same
}

} // verus!
