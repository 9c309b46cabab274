use vstd::prelude::*;

use crate::directory::{
    RawEntry, effective_start, lemma_records_subrange, read_i32_le, record_id, record_length,
    record_start, records_of, resolve, HEADER_BYTE_SIZE,
};
use crate::entry::{Entry, entry_result_view};
use crate::entry_id::EntryId;
use crate::error::Error;
use crate::iterator::{SliceEntryIterator, SliceIdIterator};

verus! {

/// What a view holds: the payload region it resolves entries against, and its directory
/// records in order.
pub struct DirectoryModel {
    pub payload: Seq<u8>,
    pub records: Seq<Seq<u8>>,
}

/// The view narrowed to records `start..end`, over the same payload region.
pub open spec fn slice_view(v: DirectoryModel, start: int, end: int) -> DirectoryModel {
    DirectoryModel { payload: v.payload, records: v.records.subrange(start, end) }
}

/// The index of the first record in `records` whose identifier is `id`, if any.
pub open spec fn is_first_with_id(records: Seq<Seq<u8>>, id: Seq<u8>, i: int) -> bool {
    &&& 0 <= i < records.len()
    &&& record_id(records[i]) == id
    &&& forall|j: int| 0 <= j < i ==> record_id(#[trigger] records[j]) != id
}

/// No record in `records` has identifier `id`.
pub open spec fn has_no_id(records: Seq<Seq<u8>>, id: Seq<u8>) -> bool {
    forall|j: int| 0 <= j < records.len() ==> record_id(#[trigger] records[j]) != id
}

/// Narrowing twice is narrowing once: records `c..d` of the view of records `a..b` are
/// records `a + c..a + d` of the outer view, over the same payload region.
pub proof fn lemma_slice_of_slice(v: DirectoryModel, a: int, b: int, c: int, d: int)
    requires
        0 <= a <= b <= v.records.len(),
        0 <= c <= d <= b - a,
    ensures
        slice_view(slice_view(v, a, b), c, d) == slice_view(v, a + c, a + d),
{
    assert(v.records.subrange(a, b).subrange(c, d) =~= v.records.subrange(a + c, a + d));
}

/// A read-only window over a payload region and a run of consecutive directory records.
#[derive(Clone, Copy)]
pub struct WadSlice<'a> {
    data: &'a [u8],
    directory: &'a [u8],
}

impl<'a> View for WadSlice<'a> {
    type V = DirectoryModel;

    closed spec fn view(&self) -> DirectoryModel {
        DirectoryModel { payload: self.data@, records: records_of(self.directory@) }
    }
}

impl<'a> WadSlice<'a> {
    /// A view over `data` whose records are the whole 16-byte records of `directory`.
    pub(crate) fn new(data: &'a [u8], directory: &'a [u8]) -> (r: WadSlice<'a>)
        ensures
            r@ == (DirectoryModel { payload: data@, records: records_of(directory@) }),
    {
        WadSlice { data, directory }
    }

    /// The number of entries in the view.
    pub fn len(&self) -> (r: usize)
        ensures
            r == self@.records.len(),
    {
        self.directory.len() / 16
    }

    /// The bytes of record `i`.
    fn record(&self, i: usize) -> (r: &'a [u8])
        requires
            i < self@.records.len(),
        ensures
            r@ == self@.records[i as int],
    {
        let dir_len = self.directory.len();
        assert(16 * i + 16 <= dir_len) by (nonlinear_arith)
            requires
                i < dir_len / 16,
        ;
        let start = 16 * i;
        &self.directory[start..start + 16]
    }

    /// The identifier of a 16-byte record held in a slice.
    fn id_of_record(rec: &[u8]) -> (r: EntryId)
        requires
            rec@.len() == 16,
        ensures
            r@ == record_id(rec@),
    {
        let mut bytes = [0u8; 8];
        let mut i: usize = 0;
        while i < 8
            invariant
                rec@.len() == 16,
                i <= 8,
                forall|j: int| 0 <= j < i ==> #[trigger] bytes@[j] == rec@[8 + j],
            decreases 8 - i,
        {
            bytes[i] = rec[8 + i];
            i += 1;
        }
        let id = EntryId::from_bytes(&bytes);
        assert(id@ =~= record_id(rec@));
        id
    }

    /// The identifier of a raw directory record, without checking its payload range.
    pub fn entry_id_from_raw_entry(raw_entry: &RawEntry) -> (r: EntryId)
        ensures
            r@ == record_id(raw_entry@),
    {
        let rec = &raw_entry[0..16];
        assert(rec@ =~= raw_entry@);
        Self::id_of_record(rec)
    }

    /// The identifier of entry `index`, or none when the view has no such entry.
    pub fn entry_id(&self, index: usize) -> (r: Option<EntryId>)
        ensures
            index >= self@.records.len() ==> r is None,
            index < self@.records.len() ==> r is Some && r->Some_0@ == record_id(
                self@.records[index as int],
            ),
    {
        if index >= self.len() {
            return None;
        }
        Some(Self::id_of_record(self.record(index)))
    }

    /// The identifiers of the view's entries, in order.
    pub fn id_iter(&self) -> (r: SliceIdIterator<'a>)
        ensures
            r.source() == self@,
            r.position() == 0,
    {
        SliceIdIterator::new(*self)
    }

    /// Resolves a 16-byte record against this view's payload region.
    fn resolve_record(&self, rec: &[u8]) -> (r: Result<Entry<'a>, Error>)
        requires
            rec@.len() == 16,
        ensures
            entry_result_view(r) == resolve(rec@, self@.payload),
    {
        let start = read_i32_le(&rec[0..4]);
        let length = read_i32_le(&rec[4..8]);
        let id = Self::id_of_record(rec);
        assert(rec@.subrange(0, 4) =~= rec@.subrange(0, 4).subrange(0, 4));
        assert(start as int == record_start(rec@));
        assert(length as int == record_length(rec@));
        if length < 0 {
            return Err(Error::InvalidEntry);
        }
        let length = length as usize;
        if start < 0 {
            return Err(Error::InvalidEntry);
        }
        let mut start = start as usize;
        // A record of length zero has no payload to place; some real files give such
        // records a start inside the header, so its start is not taken from disk.
        if length == 0 {
            start = HEADER_BYTE_SIZE;
        }
        assert(start as int == effective_start(rec@));
        if start < HEADER_BYTE_SIZE {
            return Err(Error::InvalidEntry);
        }
        let end = match start.checked_add(length) {
            Some(end) => end,
            None => {
                return Err(Error::InvalidEntry);
            },
        };
        if end > self.data.len() {
            return Err(Error::InvalidEntry);
        }
        let lump = &self.data[start..end];
        Ok(Entry { id, lump })
    }

    /// Resolves a raw directory record against this view's payload region.
    pub fn entry_from_raw_entry(&self, raw_entry: &RawEntry) -> (r: Result<Entry<'a>, Error>)
        ensures
            entry_result_view(r) == resolve(raw_entry@, self@.payload),
    {
        let rec = &raw_entry[0..16];
        assert(rec@ =~= raw_entry@);
        self.resolve_record(rec)
    }

    /// Entry `index` of the view: `OutOfBounds` when there is no such entry, otherwise its
    /// record resolved against the view's payload region.
    pub fn entry(&self, index: usize) -> (r: Result<Entry<'a>, Error>)
        ensures
            index >= self@.records.len() ==> r == Err::<Entry, Error>(Error::OutOfBounds),
            index < self@.records.len() ==> entry_result_view(r) == resolve(
                self@.records[index as int],
                self@.payload,
            ),
    {
        if index >= self.len() {
            return Err(Error::OutOfBounds);
        }
        self.resolve_record(self.record(index))
    }

    /// The view's entries, resolved in order.
    pub fn entry_iter(&self) -> (r: SliceEntryIterator<'a>)
        ensures
            r.source() == self@,
            r.position() == 0,
    {
        SliceEntryIterator::new(*self)
    }

    /// Whether record `i` has identifier `id`.
    fn record_has_id(&self, i: usize, id: &EntryId) -> (r: bool)
        requires
            i < self@.records.len(),
        ensures
            r == (record_id(self@.records[i as int]) == id@),
    {
        let rec = self.record(i);
        let bytes = id.as_bytes();
        let mut j: usize = 0;
        while j < 8
            invariant
                rec@.len() == 16,
                bytes@.len() == 8,
                bytes@ == id@,
                i < self@.records.len(),
                rec@ == self@.records[i as int],
                j <= 8,
                forall|k: int| 0 <= k < j ==> rec@[8 + k] == #[trigger] bytes@[k],
            decreases 8 - j,
        {
            if rec[8 + j] != bytes[j] {
                assert(record_id(rec@)[j as int] != id@[j as int]);
                assert(record_id(rec@) != id@);
                return false;
            }
            j += 1;
        }
        assert(record_id(rec@) =~= bytes@);
        true
    }

    /// The index of the first entry whose identifier is `id`, or none.
    pub fn index_of(&self, id: EntryId) -> (r: Option<usize>)
        ensures
            match r {
                Some(i) => is_first_with_id(self@.records, id@, i as int),
                None => has_no_id(self@.records, id@),
            },
    {
        let n = self.len();
        let mut i: usize = 0;
        while i < n
            invariant
                n == self@.records.len(),
                i <= n,
                forall|j: int| 0 <= j < i ==> record_id(#[trigger] self@.records[j]) != id@,
            decreases n - i,
        {
            if self.record_has_id(i, &id) {
                return Some(i);
            }
            i += 1;
        }
        None
    }

    /// The payload of the first entry whose identifier is `id`; none when no entry has
    /// that identifier or when that entry does not resolve.
    pub fn by_id(&self, id: EntryId) -> (r: Option<&'a [u8]>)
        ensures
            r is Some <==> exists|i: int|
                is_first_with_id(self@.records, id@, i) && #[trigger] resolve(
                    self@.records[i],
                    self@.payload,
                ) is Ok,
            r is Some ==> exists|i: int|
                is_first_with_id(self@.records, id@, i) && #[trigger] resolve(
                    self@.records[i],
                    self@.payload,
                ) == Ok::<(Seq<u8>, Seq<u8>), Error>((id@, r->Some_0@)),
    {
        match self.index_of(id) {
            Some(i) => match self.entry(i) {
                Ok(e) => Some(e.lump),
                Err(_) => None,
            },
            None => None,
        }
    }

    /// The view narrowed to entries `range.start..range.end`, over the same payload
    /// region; `OutOfBounds` unless `range.start <= range.end <= self.len()`.
    pub fn slice(&self, range: std::ops::Range<usize>) -> (r: Result<WadSlice<'a>, Error>)
        ensures
            range.start <= range.end <= self@.records.len() ==> r is Ok && r->Ok_0@
                == slice_view(self@, range.start as int, range.end as int),
            !(range.start <= range.end <= self@.records.len()) ==> r == Err::<WadSlice, Error>(
                Error::OutOfBounds,
            ),
    {
        if range.start > range.end || range.end > self.len() {
            return Err(Error::OutOfBounds);
        }
        let dir_len = self.directory.len();
        proof {
            lemma_records_subrange(self.directory@, range.start as int, range.end as int);
        }
        let directory = &self.directory[16 * range.start..16 * range.end];
        Ok(WadSlice { data: self.data, directory })
    }
}

} // verus!
