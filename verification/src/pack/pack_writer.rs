//! Writes a pack: records of hash, size and data in the order given, then
//! the index sorted by hash, then the size of the index.
//!
//! The pack is built in memory; the bytes in `writer` are the file.

use vstd::prelude::*;
use vstd::bytes::{lemma_auto_spec_u32_to_from_le_bytes, spec_u32_to_le_bytes, u32_to_le_bytes};

use crate::error::Error;

verus! {

/// Where the record of a blob begins within its pack.
#[derive(Debug, Clone, Copy, PartialEq, Eq, PartialOrd, Ord)]
pub struct IndexEntry<const HASH_SIZE: usize> {
    pub hash: [u8; HASH_SIZE],
    pub offset: u32,
}

/// A finished pack: its bytes and its index, sorted by hash.
#[derive(Debug)]
pub struct FinalizedPack<const HASH_SIZE: usize> {
    pub writer: Vec<u8>,
    pub index: Vec<IndexEntry<HASH_SIZE>>,
}

/// Whether `left` comes before `right`, or is equal to it, in the
/// lexicographic order of byte strings.
pub open spec fn lex_le(left: Seq<u8>, right: Seq<u8>) -> bool
    decreases left.len(),
{
    if left.len() == 0 {
        true
    } else if right.len() == 0 {
        false
    } else if left[0] != right[0] {
        left[0] < right[0]
    } else {
        lex_le(left.drop_first(), right.drop_first())
    }
}

/// Whether the entries ascend by hash.
pub open spec fn sorted_by_hash<const HASH_SIZE: usize>(index: Seq<IndexEntry<HASH_SIZE>>) -> bool {
    forall|i: int, j: int|
        0 <= i <= j < index.len() ==> lex_le(#[trigger] index[i].hash@, #[trigger] index[j].hash@)
}

/// The hashes of the entries, as a set.
pub open spec fn hashes<const HASH_SIZE: usize>(index: Seq<IndexEntry<HASH_SIZE>>) -> Set<Seq<u8>> {
    Set::new(|hash: Seq<u8>| exists|i: int| 0 <= i < index.len() && index[i].hash@ == hash)
}

/// The record of a blob: its hash, the length of its data as four
/// little-endian bytes, and the data.
pub open spec fn record_bytes(hash: Seq<u8>, data: Seq<u8>) -> Seq<u8> {
    hash + spec_u32_to_le_bytes(data.len() as u32) + data
}

/// One index entry in the file: the hash, then the offset as four
/// little-endian bytes.
pub open spec fn entry_bytes<const HASH_SIZE: usize>(entry: IndexEntry<HASH_SIZE>) -> Seq<u8> {
    entry.hash@ + spec_u32_to_le_bytes(entry.offset)
}

/// The index section of the file: the entries one after another.
pub open spec fn index_bytes<const HASH_SIZE: usize>(index: Seq<IndexEntry<HASH_SIZE>>) -> Seq<u8>
    decreases index.len(),
{
    if index.len() == 0 {
        Seq::empty()
    } else {
        index_bytes(index.drop_last()) + entry_bytes(index.last())
    }
}

/// The index section has the same length for every order of the entries.
pub proof fn lemma_index_bytes_len<const HASH_SIZE: usize>(index: Seq<IndexEntry<HASH_SIZE>>)
    ensures
        index_bytes(index).len() == index.len() * (HASH_SIZE + 4),
    decreases index.len(),
{
    lemma_auto_spec_u32_to_from_le_bytes();
    if index.len() > 0 {
        lemma_index_bytes_len(index.drop_last());
        assert(entry_bytes(index.last()).len() == HASH_SIZE + 4);
        assert((index.len() - 1) * (HASH_SIZE + 4) + (HASH_SIZE + 4) == index.len() * (HASH_SIZE
            + 4)) by (nonlinear_arith);
    }
}

/// The finished pack is as long as projected, however the index is ordered.
pub proof fn lemma_final_size<const HASH_SIZE: usize>(
    pack: PackView<HASH_SIZE>,
    sorted: Seq<IndexEntry<HASH_SIZE>>,
)
    requires
        sorted.to_multiset() == pack.index.to_multiset(),
    ensures
        (pack.written + index_bytes(sorted) + spec_u32_to_le_bytes(
            pack.index_size() as u32,
        )).len() == pack.projected_size(),
{
    lemma_auto_spec_u32_to_from_le_bytes();
    lemma_index_bytes_len(sorted);
    sorted.to_multiset_ensures();
    pack.index.to_multiset_ensures();
}

/// Entries that are the same up to their order have the same hashes.
pub proof fn lemma_same_entries_same_hashes<const HASH_SIZE: usize>(
    left: Seq<IndexEntry<HASH_SIZE>>,
    right: Seq<IndexEntry<HASH_SIZE>>,
)
    requires
        left.to_multiset() == right.to_multiset(),
    ensures
        hashes(left) == hashes(right),
{
    broadcast use vstd::seq_lib::group_to_multiset_ensures;

    assert forall|hash: Seq<u8>| hashes(left).contains(hash) == hashes(right).contains(hash) by {
        if hashes(left).contains(hash) {
            let i = choose|i: int| 0 <= i < left.len() && left[i].hash@ == hash;
            assert(left.to_multiset().count(left[i]) > 0);
            assert(right.contains(left[i]));
            let j = choose|j: int| 0 <= j < right.len() && right[j] == left[i];
            assert(right[j].hash@ == hash);
        }
        if hashes(right).contains(hash) {
            let i = choose|i: int| 0 <= i < right.len() && right[i].hash@ == hash;
            assert(right.to_multiset().count(right[i]) > 0);
            assert(left.contains(right[i]));
            let j = choose|j: int| 0 <= j < left.len() && left[j] == right[i];
            assert(left[j].hash@ == hash);
        }
    }
    assert(hashes(left) =~= hashes(right));
}

/// Whether `entry` names a record of `pack`: at its offset stands a whole
/// record, and the record begins with the hash of the entry.
pub open spec fn locates<const HASH_SIZE: usize>(pack: Seq<u8>, entry: IndexEntry<HASH_SIZE>) -> bool {
    exists|data: Seq<u8>|
        data.len() <= u32::MAX && entry.offset + HASH_SIZE + 4 + data.len() <= pack.len()
            && #[trigger] record_bytes(entry.hash@, data) == pack.subrange(
            entry.offset as int,
            entry.offset + HASH_SIZE + 4 + data.len(),
        )
}

/// An entry that names a record of a pack names the same record after more
/// bytes have been appended to the pack.
pub proof fn lemma_locates_in_longer<const HASH_SIZE: usize>(
    pack: Seq<u8>,
    more: Seq<u8>,
    entry: IndexEntry<HASH_SIZE>,
)
    requires
        locates(pack, entry),
    ensures
        locates(pack + more, entry),
{
    let data = choose|data: Seq<u8>|
        data.len() <= u32::MAX && entry.offset + HASH_SIZE + 4 + data.len() <= pack.len()
            && #[trigger] record_bytes(entry.hash@, data) == pack.subrange(
            entry.offset as int,
            entry.offset + HASH_SIZE + 4 + data.len(),
        );
    let end = entry.offset + HASH_SIZE + 4 + data.len();
    assert((pack + more).subrange(entry.offset as int, end) =~= pack.subrange(
        entry.offset as int,
        end,
    ));
}

/// Calls `sort_unstable_by_key` of std's slices with the hash as the key:
/// afterwards the entries are the same as before and ascend by hash, arrays
/// of bytes being ordered lexicographically. Entries with equal hashes may
/// come out in any order.
#[verifier::external_body]
pub(crate) fn sort_by_hash<const HASH_SIZE: usize>(index: &mut Vec<IndexEntry<HASH_SIZE>>)
    ensures
        sorted_by_hash(final(index)@),
        final(index)@.to_multiset() == old(index)@.to_multiset(),
{
    index.sort_unstable_by_key(|entry| entry.hash);
}

/// A pack under construction, as mathematical values.
pub struct PackView<const HASH_SIZE: usize> {
    /// The bytes of the pack so far.
    pub written: Seq<u8>,
    /// One entry for every blob written, in the order of the calls.
    pub index: Seq<IndexEntry<HASH_SIZE>>,
}

impl<const HASH_SIZE: usize> PackView<HASH_SIZE> {
    /// Length of the index section once it is written.
    pub open spec fn index_size(self) -> nat {
        self.index.len() * (HASH_SIZE + 4) as nat
    }

    /// Length of the finished pack: what is written, the index, and the
    /// four bytes that hold the size of the index.
    pub open spec fn projected_size(self) -> nat {
        self.written.len() + self.index_size() + 4
    }

    /// Whether every entry of the index names a record of the pack.
    pub open spec fn indexed(self) -> bool {
        forall|i: int| 0 <= i < self.index.len() ==> locates(self.written, #[trigger] self.index[i])
    }
}

/// How much a blob of `data_size` bytes adds to the size of a pack: its
/// record header, its data and its index entry.
pub open spec fn spec_item_size(hash_size: nat, data_size: nat) -> nat {
    (hash_size + 4) + data_size + (hash_size + 4)
}

/// Appends blobs to a pack and, at the end, the sorted index.
pub struct PackWriter<const HASH_SIZE: usize> {
    writer: Vec<u8>,
    written_size: usize,
    index: Vec<IndexEntry<HASH_SIZE>>,
}

impl<const HASH_SIZE: usize> View for PackWriter<HASH_SIZE> {
    type V = PackView<HASH_SIZE>;

    closed spec fn view(&self) -> PackView<HASH_SIZE> {
        PackView {
            written: self.writer@.skip(self.writer@.len() - self.written_size),
            index: self.index@,
        }
    }
}

impl<const HASH_SIZE: usize> PackWriter<HASH_SIZE> {
    /// Everything in the underlying buffer: what it held when the pack was
    /// begun, then the pack.
    pub closed spec fn output(&self) -> Seq<u8> {
        self.writer@
    }

    /// The invariant of the writer: it has counted the bytes of the pack,
    /// and every entry of the index stands for a record header among them.
    pub closed spec fn wf(&self) -> bool {
        &&& self.written_size <= self.writer@.len()
        &&& self.index@.len() * (HASH_SIZE + 4) <= self.written_size
        &&& self@.indexed()
    }

    /// Every entry of the index names a record of the pack.
    pub proof fn lemma_indexed(&self)
        requires
            self.wf(),
        ensures
            self@.indexed(),
    {
    }

    /// Begins a pack at the end of `writer`.
    pub fn new(writer: Vec<u8>) -> (pack: PackWriter<HASH_SIZE>)
        ensures
            pack.wf(),
            pack.output() == writer@,
            pack@.written == Seq::<u8>::empty(),
            pack@.index == Seq::<IndexEntry<HASH_SIZE>>::empty(),
    {
        let pack = PackWriter { writer, written_size: 0, index: Vec::new() };
        assert(pack@.written =~= Seq::<u8>::empty());
        pack
    }

    /// Appends the record of a blob and notes where it begins.
    ///
    /// Fails, writing nothing, with `InvalidInput` when the data is longer
    /// than `u32::MAX` bytes, and otherwise with `FileTooLarge` when the pack
    /// already extends past offset `u32::MAX`.
    pub fn write(&mut self, hash: [u8; HASH_SIZE], data: &[u8]) -> (res: Result<(), Error>)
        requires
            old(self).wf(),
        ensures
            final(self).wf(),
            data@.len() > u32::MAX ==> res matches Err(Error::InvalidInput),
            data@.len() <= u32::MAX && old(self)@.written.len() > u32::MAX ==> (
            res matches Err(Error::FileTooLarge)),
            data@.len() <= u32::MAX && old(self)@.written.len() <= u32::MAX ==> res is Ok,
            res is Err ==> final(self)@ == old(self)@ && final(self).output() == old(self).output(),
            final(self)@.indexed(),
            res is Ok ==> {
                &&& final(self).output() == old(self).output() + record_bytes(hash@, data@)
                &&& final(self)@.written == old(self)@.written + record_bytes(hash@, data@)
                &&& final(self)@.index == old(self)@.index.push(
                    IndexEntry { hash, offset: old(self)@.written.len() as u32 },
                )
            },
    {
        if data.len() > u32::MAX as usize {
            return Err(Error::InvalidInput);
        }
        if self.written_size > u32::MAX as usize {
            return Err(Error::FileTooLarge);
        }
        let data_size = data.len() as u32;
        let offset = self.written_size as u32;
        let ghost before = self.writer@;
        let ghost pack = self@.written;
        assert(old(self)@.indexed());
        let start = self.writer.len();

        // header
        self.writer.extend_from_slice(hash.as_slice());
        let size_bytes = u32_to_le_bytes(data_size);
        self.writer.extend_from_slice(size_bytes.as_slice());
        // data
        self.writer.extend_from_slice(data);

        let ghost entries = self.index@;
        proof {
            lemma_auto_spec_u32_to_from_le_bytes();
            assert(self.writer@ =~= before + record_bytes(hash@, data@));
            assert(self.writer@.skip(before.len() - self.written_size) =~= pack + record_bytes(
                hash@,
                data@,
            ));
            assert((self.index@.len() + 1) * (HASH_SIZE + 4) == self.index@.len() * (HASH_SIZE
                + 4) + (HASH_SIZE + 4)) by (nonlinear_arith);
        }
        self.written_size = self.written_size + (self.writer.len() - start);
        self.index.push(IndexEntry { hash, offset });
        proof {
            let now = self@.written;
            let record = record_bytes(hash@, data@);
            assert(now =~= pack + record);
            assert forall|i: int| 0 <= i < self.index@.len() implies locates(
                now,
                #[trigger] self.index@[i],
            ) by {
                if i < entries.len() {
                    assert(self.index@[i] == entries[i]);
                    assert(old(self)@.index[i] == entries[i]);
                    assert(locates(pack, old(self)@.index[i]));
                    lemma_locates_in_longer(pack, record, entries[i]);
                } else {
                    let entry = self.index@[i];
                    assert(entry.hash@ == hash@ && entry.offset == pack.len());
                    assert(record.len() == HASH_SIZE + 4 + data@.len());
                    assert(now.subrange(
                        entry.offset as int,
                        entry.offset + HASH_SIZE + 4 + data@.len(),
                    ) =~= record_bytes(entry.hash@, data@));
                }
            }
        }
        Ok(())
    }

    /// The size that the pack will have once it is finalized.
    pub fn size(&self) -> (size: usize)
        requires
            self.wf(),
            self@.projected_size() <= usize::MAX,
        ensures
            size == self@.projected_size(),
    {
        self.written_size + self.index_size() + 4
    }

    /// How much adding an item would contribute to the size of a pack.
    pub fn item_size(data_size: usize) -> (size: usize)
        requires
            spec_item_size(HASH_SIZE as nat, data_size as nat) <= usize::MAX,
        ensures
            size == spec_item_size(HASH_SIZE as nat, data_size as nat),
    {
        let header = HASH_SIZE + 4;
        let index_overhead = HASH_SIZE + 4;
        header + data_size + index_overhead
    }

    /// The size of the index section once it is written.
    pub fn index_size(&self) -> (size: usize)
        requires
            self.wf(),
        ensures
            size == self@.index_size(),
    {
        // Index format is: (N-bit hash, u32 offset)
        assert(HASH_SIZE + 4 <= self.written_size || self.index@.len() == 0) by (nonlinear_arith)
            requires
                self.index@.len() * (HASH_SIZE + 4) <= self.written_size,
        ;
        if self.index.len() == 0 {
            assert(self.index@.len() * (HASH_SIZE + 4) == 0) by (nonlinear_arith)
                requires
                    self.index@.len() == 0,
            ;
            0
        } else {
            self.index.len() * (HASH_SIZE + 4)
        }
    }

    /// Finalizes the pack by writing its index at the end.
    ///
    /// Returns the bytes and the index. The index must fit the four bytes
    /// that hold its size.
    pub fn finalize(self) -> (res: Result<FinalizedPack<HASH_SIZE>, Error>)
        requires
            self.wf(),
            self@.index_size() <= u32::MAX,
        ensures
            res is Ok,
            res matches Ok(pack) ==> {
                &&& sorted_by_hash(pack.index@)
                &&& pack.index@.to_multiset() == self@.index.to_multiset()
                &&& hashes(pack.index@) == hashes(self@.index)
                &&& pack.writer@ == self.output() + index_bytes(pack.index@)
                    + spec_u32_to_le_bytes(self@.index_size() as u32)
                &&& pack.writer@.len() == self.output().len() - self@.written.len()
                    + self@.projected_size()
                &&& forall|i: int|
                    0 <= i < pack.index@.len() ==> locates(
                        pack.writer@.skip(self.output().len() - self@.written.len()),
                        #[trigger] pack.index@[i],
                    )
            },
    {
        let mut pack = self;
        pack.finalize_inner();
        proof {
            lemma_same_entries_same_hashes(pack.index@, self@.index);
            let base = self.output().len() - self@.written.len();
            let whole = pack.writer@.skip(base);
            let tail = index_bytes(pack.index@) + spec_u32_to_le_bytes(self@.index_size() as u32);
            assert(whole =~= self@.written + tail);
            pack.index@.to_multiset_ensures();
            self@.index.to_multiset_ensures();
            assert forall|i: int| 0 <= i < pack.index@.len() implies locates(
                whole,
                #[trigger] pack.index@[i],
            ) by {
                let entry = pack.index@[i];
                assert(pack.index@.to_multiset().count(entry) > 0);
                assert(self@.index.contains(entry));
                let j = choose|j: int| 0 <= j < self@.index.len() && self@.index[j] == entry;
                assert(locates(self@.written, self@.index[j]));
                lemma_locates_in_longer(self@.written, tail, entry);
            }
        }
        Ok(FinalizedPack { writer: pack.writer, index: pack.index })
    }

    /// Sorts the index and appends it, followed by its size, to what is
    /// written.
    fn finalize_inner(&mut self)
        requires
            old(self).wf(),
            old(self)@.index_size() <= u32::MAX,
        ensures
            sorted_by_hash(final(self).index@),
            final(self).index@.to_multiset() == old(self).index@.to_multiset(),
            final(self).writer@ == old(self).writer@ + index_bytes(final(self).index@)
                + spec_u32_to_le_bytes(old(self)@.index_size() as u32),
            final(self).writer@.len() == old(self).writer@.len() + old(self)@.index_size() + 4,
    {
        let index_size = self.index_size();
        let ghost before = self.writer@;
        let ghost unsorted = self.index@;
        sort_by_hash(&mut self.index);
        proof {
            unsorted.to_multiset_ensures();
            self.index@.to_multiset_ensures();
            assert(self.index@.len() == unsorted.len());
        }
        let ghost sorted = self.index@;

        let mut i: usize = 0;
        while i < self.index.len()
            invariant
                i <= self.index@.len(),
                self.index@ == sorted,
                self.writer@ == before + index_bytes(self.index@.take(i as int)),
            decreases self.index@.len() - i,
        {
            let entry = &self.index[i];
            self.writer.extend_from_slice(entry.hash.as_slice());
            let offset_bytes = u32_to_le_bytes(entry.offset);
            self.writer.extend_from_slice(offset_bytes.as_slice());
            proof {
                let next = self.index@.take(i + 1);
                assert(next.drop_last() =~= self.index@.take(i as int));
                assert(next.last() == self.index@[i as int]);
                assert(self.writer@ =~= before + index_bytes(next));
            }
            i = i + 1;
        }
        assert(self.index@.take(i as int) =~= self.index@);

        let trailer = u32_to_le_bytes(index_size as u32);
        self.writer.extend_from_slice(trailer.as_slice());
        proof {
            lemma_auto_spec_u32_to_from_le_bytes();
            lemma_index_bytes_len(self.index@);
        }
    }
}

} // verus!
