//! Merges the indexes of many packs into one file, sorted by hash.
//!
//! The file has neither header nor trailer: it is one entry after another,
//! each the hash of a blob, the identifier of its pack, and the offset of
//! its record in little-endian order.

use vstd::prelude::*;
use vstd::bytes::{lemma_auto_spec_u32_to_from_le_bytes, spec_u32_to_le_bytes, u32_to_le_bytes};

use rayon::slice::ParallelSliceMut;

use crate::error::Error;
use crate::pack::pack_writer::lex_le;

verus! {

/// Where a blob is found: in which pack, and at which offset.
pub struct IndexEntry<const HASH_SIZE: usize> {
    pub hash: [u8; HASH_SIZE],
    pub pack_id: [u8; HASH_SIZE],
    pub offset: u32,
}

impl<const HASH_SIZE: usize> IndexEntry<HASH_SIZE> {
    /// The number of bytes that an entry takes in the file.
    pub open spec fn spec_size() -> nat {
        (HASH_SIZE + HASH_SIZE + 4) as nat
    }

    /// The entry as it stands in the file.
    pub open spec fn bytes(self) -> Seq<u8> {
        self.hash@ + self.pack_id@ + spec_u32_to_le_bytes(self.offset)
    }
}

/// The entry of the global index for an entry of the pack `pack_id`.
pub open spec fn in_pack<const HASH_SIZE: usize>(
    pack_id: [u8; HASH_SIZE],
    entry: crate::pack::pack_writer::IndexEntry<HASH_SIZE>,
) -> IndexEntry<HASH_SIZE> {
    IndexEntry { hash: entry.hash, pack_id, offset: entry.offset }
}

/// Whether the entries ascend by hash.
pub open spec fn sorted_by_hash<const HASH_SIZE: usize>(index: Seq<IndexEntry<HASH_SIZE>>) -> bool {
    forall|i: int, j: int|
        0 <= i <= j < index.len() ==> lex_le(#[trigger] index[i].hash@, #[trigger] index[j].hash@)
}

/// Whether `order` tells, for every place of a sequence of `len` entries,
/// a different place of another such sequence.
pub open spec fn rearranges(order: Seq<int>, len: nat) -> bool {
    &&& order.len() == len
    &&& forall|i: int| 0 <= i < len ==> 0 <= #[trigger] order[i] < len
    &&& forall|i: int, j: int| 0 <= i < j < len ==> #[trigger] order[i] != #[trigger] order[j]
}

/// Whether `after` holds the entries of `before` sorted by hash, entries
/// with equal hashes in the order in which `before` holds them.
pub open spec fn stably_sorted<const HASH_SIZE: usize>(
    before: Seq<IndexEntry<HASH_SIZE>>,
    after: Seq<IndexEntry<HASH_SIZE>>,
) -> bool {
    &&& after.len() == before.len()
    &&& sorted_by_hash(after)
    &&& exists|order: Seq<int>|
        {
            &&& #[trigger] rearranges(order, before.len())
            &&& forall|i: int| 0 <= i < after.len() ==> #[trigger] after[i] == before[order[i]]
            &&& forall|i: int, j: int|
                0 <= i < j < after.len() && after[i].hash@ == after[j].hash@ ==> #[trigger] order[i]
                    < #[trigger] order[j]
        }
}

/// The file: the entries one after another.
pub open spec fn index_bytes<const HASH_SIZE: usize>(index: Seq<IndexEntry<HASH_SIZE>>) -> Seq<u8>
    decreases index.len(),
{
    if index.len() == 0 {
        Seq::empty()
    } else {
        index_bytes(index.drop_last()) + index.last().bytes()
    }
}

/// The file is as long as its entries together, so that a reader finds their
/// number by dividing.
pub proof fn lemma_index_bytes_len<const HASH_SIZE: usize>(index: Seq<IndexEntry<HASH_SIZE>>)
    ensures
        index_bytes(index).len() == index.len() * IndexEntry::<HASH_SIZE>::spec_size(),
    decreases index.len(),
{
    lemma_auto_spec_u32_to_from_le_bytes();
    let size = IndexEntry::<HASH_SIZE>::spec_size();
    if index.len() > 0 {
        lemma_index_bytes_len(index.drop_last());
        assert(index.last().bytes().len() == size);
        assert((index.len() - 1) * size + size == index.len() * size) by (nonlinear_arith);
    } else {
        assert(index.len() * size == 0) by (nonlinear_arith)
            requires
                index.len() == 0,
        ;
    }
}

/// Calls `par_sort_by_key` of rayon's `ParallelSliceMut` with the hash as
/// the key: afterwards the entries are the same as before and ascend by
/// hash, arrays of bytes being ordered lexicographically. The sort is
/// stable: entries with equal hashes keep their order.
#[verifier::external_body]
pub(crate) fn par_sort_by_hash<const HASH_SIZE: usize>(index: &mut Vec<IndexEntry<HASH_SIZE>>)
    ensures
        stably_sorted(old(index)@, final(index)@),
        final(index)@.to_multiset() == old(index)@.to_multiset(),
{
    index.par_sort_by_key(|entry| entry.hash);
}

/// Collects the entries of many packs and writes them out sorted.
pub struct IndexWriter<const HASH_SIZE: usize> {
    index: Vec<IndexEntry<HASH_SIZE>>,
}

impl<const HASH_SIZE: usize> View for IndexWriter<HASH_SIZE> {
    type V = Seq<IndexEntry<HASH_SIZE>>;

    /// The entries collected so far.
    closed spec fn view(&self) -> Seq<IndexEntry<HASH_SIZE>> {
        self.index@
    }
}

impl<const HASH_SIZE: usize> IndexWriter<HASH_SIZE> {
    /// A writer without entries.
    pub fn new() -> (writer: Self)
        ensures
            writer@ == Seq::<IndexEntry<HASH_SIZE>>::empty(),
    {
        IndexWriter { index: Vec::new() }
    }

    /// The size of the file that `write` would produce.
    pub fn size(&self) -> (size: usize)
        requires
            self@.len() * IndexEntry::<HASH_SIZE>::spec_size() <= usize::MAX,
        ensures
            size == self@.len() * IndexEntry::<HASH_SIZE>::spec_size(),
    {
        if self.index.len() == 0 {
            assert(self@.len() * IndexEntry::<HASH_SIZE>::spec_size() == 0) by (nonlinear_arith)
                requires
                    self@.len() == 0,
            ;
            0
        } else {
            assert(IndexEntry::<HASH_SIZE>::spec_size() <= usize::MAX) by (nonlinear_arith)
                requires
                    self@.len() * IndexEntry::<HASH_SIZE>::spec_size() <= usize::MAX,
                    self@.len() > 0,
            ;
            self.index.len() * (HASH_SIZE + HASH_SIZE + 4)
        }
    }

    /// Adds the entries of the pack `pack_id`, in their order.
    pub fn extend_from_pack(
        &mut self,
        pack_id: [u8; HASH_SIZE],
        indices: Vec<crate::pack::pack_writer::IndexEntry<HASH_SIZE>>,
    )
        ensures
            final(self)@ == old(self)@ + indices@.map_values(
                |entry: crate::pack::pack_writer::IndexEntry<HASH_SIZE>| in_pack(pack_id, entry),
            ),
    {
        let ghost before = self.index@;
        let ghost added = indices@.map_values(
            |entry: crate::pack::pack_writer::IndexEntry<HASH_SIZE>| in_pack(pack_id, entry),
        );
        let mut i: usize = 0;
        while i < indices.len()
            invariant
                i <= indices@.len(),
                added == indices@.map_values(
                    |entry: crate::pack::pack_writer::IndexEntry<HASH_SIZE>|
                        in_pack(pack_id, entry),
                ),
                self.index@ == before + added.take(i as int),
            decreases indices@.len() - i,
        {
            let it = &indices[i];
            self.index.push(IndexEntry { hash: it.hash, pack_id, offset: it.offset });
            assert(self.index@ =~= before + added.take(i + 1));
            i = i + 1;
        }
        assert(added.take(i as int) =~= added);
    }

    /// Sorts the entries by hash and appends the file to `w`.
    pub fn write(&mut self, w: &mut Vec<u8>) -> (res: Result<(), Error>)
        ensures
            res is Ok,
            stably_sorted(old(self)@, final(self)@),
            final(self)@.to_multiset() == old(self)@.to_multiset(),
            final(w)@ == old(w)@ + index_bytes(final(self)@),
    {
        let ghost before = w@;
        par_sort_by_hash(&mut self.index);
        let ghost sorted = self.index@;

        let mut i: usize = 0;
        while i < self.index.len()
            invariant
                i <= self.index@.len(),
                self.index@ == sorted,
                w@ == before + index_bytes(sorted.take(i as int)),
            decreases self.index@.len() - i,
        {
            let entry = &self.index[i];
            w.extend_from_slice(entry.hash.as_slice());
            w.extend_from_slice(entry.pack_id.as_slice());
            let offset_bytes = u32_to_le_bytes(entry.offset);
            w.extend_from_slice(offset_bytes.as_slice());
            proof {
                let next = sorted.take(i + 1);
                assert(next.drop_last() =~= sorted.take(i as int));
                assert(next.last() == sorted[i as int]);
                assert(w@ =~= before + index_bytes(next));
            }
            i = i + 1;
        }
        assert(sorted.take(i as int) =~= sorted);
        Ok(())
    }
}

} // verus!
