use vstd::prelude::*;

use crate::directory::{
    RawEntry, le_i32, read_i32_le, record_id, records_of, resolve, HEADER_BYTE_SIZE,
};
use crate::entry::{Entry, entry_result_view};
use crate::entry_id::EntryId;
use crate::error::Error;
use crate::iterator::{EntryIterator, IdIterator};
use crate::wad_slice::{DirectoryModel, WadSlice, has_no_id, is_first_with_id, slice_view};

verus! {

/// The two recognized variants of a container.
#[derive(Debug, Clone, Copy, PartialEq, Eq, Structural)]
pub enum Kind {
    /// Magic tag `IWAD`.
    IWad,
    /// Magic tag `PWAD`.
    PWad,
}

/// What a container holds: its kind, its bytes up to the end of the directory, where the
/// directory starts and how many records it has.
pub struct WadModel {
    pub kind: Kind,
    pub bytes: Seq<u8>,
    pub directory_offset: nat,
    pub n_entries: nat,
}

/// The kind named by a four-byte magic tag, if it is one of the two recognized ones.
pub open spec fn magic_kind(magic: Seq<u8>) -> Option<Kind> {
    if magic == seq![73u8, 87u8, 65u8, 68u8] {
        Some(Kind::IWad)
    } else if magic == seq![80u8, 87u8, 65u8, 68u8] {
        Some(Kind::PWad)
    } else {
        None
    }
}

/// The entry count that a header declares.
pub open spec fn header_entry_count(bytes: Seq<u8>) -> int {
    le_i32(bytes.subrange(4, 8))
}

/// The directory offset that a header declares.
pub open spec fn header_directory_offset(bytes: Seq<u8>) -> int {
    le_i32(bytes.subrange(8, 12))
}

/// The container that `bytes` hold, or the first check that they fail: the header's
/// length, its magic tag, the signs of its fields, overflow of the sizes they declare,
/// and whether the bytes reach the end of the directory. Bytes past the directory are
/// not part of the container.
pub open spec fn parse_model(bytes: Seq<u8>) -> Result<WadModel, Error> {
    if bytes.len() < HEADER_BYTE_SIZE {
        Err(Error::InvalidLength)
    } else if magic_kind(bytes.subrange(0, 4)) is None {
        Err(Error::InvalidHeader)
    } else {
        let n = header_entry_count(bytes);
        let offset = header_directory_offset(bytes);
        if n < 0 || offset < 0 {
            Err(Error::Invalid)
        } else if 16 * n > usize::MAX || offset + 16 * n > usize::MAX {
            Err(Error::Invalid)
        } else if bytes.len() < offset + 16 * n {
            Err(Error::InvalidLength)
        } else {
            Ok(
                WadModel {
                    kind: magic_kind(bytes.subrange(0, 4))->Some_0,
                    bytes: bytes.subrange(0, offset + 16 * n),
                    directory_offset: offset as nat,
                    n_entries: n as nat,
                },
            )
        }
    }
}

/// The view over a whole container: the bytes before the directory as payload region,
/// and every directory record.
pub open spec fn container_view(m: WadModel) -> DirectoryModel {
    DirectoryModel {
        payload: m.bytes.subrange(0, m.directory_offset as int),
        records: records_of(m.bytes.subrange(m.directory_offset as int, m.bytes.len() as int)),
    }
}

/// A container parsed from `bytes` shows, in its full view, as many entries as its header
/// declares.
pub proof fn lemma_parsed_entry_count(bytes: Seq<u8>)
    requires
        parse_model(bytes) is Ok,
    ensures
        container_view(parse_model(bytes)->Ok_0).records.len() == header_entry_count(bytes),
{
    let m = parse_model(bytes)->Ok_0;
    let n = header_entry_count(bytes);
    let dir = m.bytes.subrange(m.directory_offset as int, m.bytes.len() as int);
    assert(dir.len() == 16 * n);
    assert(dir.len() / 16 == n) by (nonlinear_arith)
        requires
            dir.len() == 16 * n,
    ;
}

/// A parsed container: it owns its bytes, cut off at the end of the directory.
pub struct Wad {
    kind: Kind,
    data: Vec<u8>,
    directory_offset: usize,
    n_entries: usize,
}

impl View for Wad {
    type V = WadModel;

    closed spec fn view(&self) -> WadModel {
        WadModel {
            kind: self.kind,
            bytes: self.data@,
            directory_offset: self.directory_offset as nat,
            n_entries: self.n_entries as nat,
        }
    }
}

impl Wad {
    #[verifier::type_invariant]
    spec fn directory_fits(&self) -> bool {
        self.directory_offset + 16 * self.n_entries == self.data@.len()
    }

    /// The view over the whole container.
    pub open spec fn full_view(&self) -> DirectoryModel {
        container_view(self@)
    }

    /// Which of the two magic tags the container has.
    pub fn kind(&self) -> (r: Kind)
        ensures
            r == self@.kind,
    {
        self.kind
    }

    /// The number of entries in the directory.
    pub fn len(&self) -> (r: usize)
        ensures
            r == self@.n_entries,
            r == self.full_view().records.len(),
    {
        proof {
            use_type_invariant(self);
            let dir = self.data@.subrange(self.directory_offset as int, self.data@.len() as int);
            assert(dir.len() / 16 == self.n_entries) by (nonlinear_arith)
                requires
                    dir.len() == 16 * self.n_entries,
            ;
        }
        self.n_entries
    }

    /// The identifier of a raw directory record, without checking its payload range.
    pub fn entry_id_from_raw_entry(raw_entry: &RawEntry) -> (r: EntryId)
        ensures
            r@ == record_id(raw_entry@),
    {
        WadSlice::entry_id_from_raw_entry(raw_entry)
    }

    /// The identifier of entry `index`, or none when there is no such entry.
    pub fn entry_id(&self, index: usize) -> (r: Option<EntryId>)
        ensures
            index >= self.full_view().records.len() ==> r is None,
            index < self.full_view().records.len() ==> r is Some && r->Some_0@ == record_id(
                self.full_view().records[index as int],
            ),
    {
        self.as_slice().entry_id(index)
    }

    /// The identifiers of the container's entries, in order.
    pub fn id_iter(&self) -> (r: IdIterator<'_>)
        ensures
            r.source() == self.full_view(),
            r.position() == 0,
    {
        IdIterator::new(self)
    }

    /// The index of the first entry whose identifier is `id`, or none.
    pub fn index_of(&self, id: EntryId) -> (r: Option<usize>)
        ensures
            match r {
                Some(i) => is_first_with_id(self.full_view().records, id@, i as int),
                None => has_no_id(self.full_view().records, id@),
            },
    {
        self.as_slice().index_of(id)
    }

    /// Resolves a raw directory record against the container's payload region.
    pub fn entry_from_raw_entry(&self, raw_entry: &RawEntry) -> (r: Result<Entry<'_>, Error>)
        ensures
            entry_result_view(r) == resolve(raw_entry@, self.full_view().payload),
    {
        self.as_slice().entry_from_raw_entry(raw_entry)
    }

    /// Entry `index`: `OutOfBounds` when there is no such entry, otherwise its record
    /// resolved against the container's payload region.
    pub fn entry(&self, index: usize) -> (r: Result<Entry<'_>, Error>)
        ensures
            index >= self.full_view().records.len() ==> r == Err::<Entry, Error>(
                Error::OutOfBounds,
            ),
            index < self.full_view().records.len() ==> entry_result_view(r) == resolve(
                self.full_view().records[index as int],
                self.full_view().payload,
            ),
    {
        self.as_slice().entry(index)
    }

    /// The container's entries, resolved in order.
    pub fn entry_iter(&self) -> (r: EntryIterator<'_>)
        ensures
            r.source() == self.full_view(),
            r.position() == 0,
    {
        EntryIterator::new(self)
    }

    /// The payload of the first entry whose identifier is `id`; none when no entry has
    /// that identifier or when that entry does not resolve.
    pub fn by_id(&self, id: EntryId) -> (r: Option<&[u8]>)
        ensures
            r is Some <==> exists|i: int|
                is_first_with_id(self.full_view().records, id@, i) && #[trigger] resolve(
                    self.full_view().records[i],
                    self.full_view().payload,
                ) is Ok,
            r is Some ==> exists|i: int|
                is_first_with_id(self.full_view().records, id@, i) && #[trigger] resolve(
                    self.full_view().records[i],
                    self.full_view().payload,
                ) == Ok::<(Seq<u8>, Seq<u8>), Error>((id@, r->Some_0@)),
    {
        self.as_slice().by_id(id)
    }

    /// The full view narrowed to entries `range.start..range.end`; `OutOfBounds` unless
    /// `range.start <= range.end <= self.len()`.
    pub fn slice(&self, range: std::ops::Range<usize>) -> (r: Result<WadSlice<'_>, Error>)
        ensures
            range.start <= range.end <= self.full_view().records.len() ==> r is Ok
                && r->Ok_0@ == slice_view(self.full_view(), range.start as int, range.end as int),
            !(range.start <= range.end <= self.full_view().records.len()) ==> r == Err::<
                WadSlice,
                Error,
            >(Error::OutOfBounds),
    {
        self.as_slice().slice(range)
    }

    /// The view over the whole container: the bytes before the directory as payload
    /// region, and every directory record.
    pub fn as_slice(&self) -> (r: WadSlice<'_>)
        ensures
            r@ == self.full_view(),
    {
        proof {
            use_type_invariant(self);
        }
        let data = self.data.as_slice();
        WadSlice::new(
            &data[0..self.directory_offset],
            &data[self.directory_offset..data.len()],
        )
    }
}

/// The kind named by the first four bytes of `magic`.
fn kind_of_magic(magic: &[u8]) -> (r: Option<Kind>)
    requires
        magic@.len() >= 4,
    ensures
        r == magic_kind(magic@.subrange(0, 4)),
{
    let ghost m = magic@.subrange(0, 4);
    if magic[1] != 87 || magic[2] != 65 || magic[3] != 68 {
        assert(m[1] != 87u8 || m[2] != 65u8 || m[3] != 68u8);
        assert(m != seq![73u8, 87u8, 65u8, 68u8]);
        assert(m != seq![80u8, 87u8, 65u8, 68u8]);
        None
    } else if magic[0] == 73 {
        assert(m =~= seq![73u8, 87u8, 65u8, 68u8]);
        Some(Kind::IWad)
    } else if magic[0] == 80 {
        assert(m =~= seq![80u8, 87u8, 65u8, 68u8]);
        Some(Kind::PWad)
    } else {
        assert(m[0] != 73u8 && m[0] != 80u8);
        assert(m != seq![73u8, 87u8, 65u8, 68u8]);
        assert(m != seq![80u8, 87u8, 65u8, 68u8]);
        None
    }
}

/// Parses a container from its bytes; see [`parse_model`] for each check and its error.
/// Bytes past the end of the directory are dropped.
pub fn parse_wad(data: Vec<u8>) -> (r: Result<Wad, Error>)
    ensures
        match r {
            Ok(w) => parse_model(data@) == Ok::<WadModel, Error>(w@),
            Err(e) => parse_model(data@) == Err::<WadModel, Error>(e),
        },
        data@.len() < HEADER_BYTE_SIZE ==> r == Err::<Wad, Error>(Error::InvalidLength),
{
    let mut data = data;
    if data.len() < HEADER_BYTE_SIZE {
        return Err(Error::InvalidLength);
    }
    let kind = match kind_of_magic(data.as_slice()) {
        Some(kind) => kind,
        None => {
            return Err(Error::InvalidHeader);
        },
    };
    let n_entries = read_i32_le(&data.as_slice()[4..8]);
    let directory_offset = read_i32_le(&data.as_slice()[8..12]);
    if n_entries < 0 || directory_offset < 0 {
        return Err(Error::Invalid);
    }
    let n_entries = n_entries as usize;
    let directory_offset = directory_offset as usize;
    let expected_directory_length = match n_entries.checked_mul(16) {
        Some(len) => len,
        None => {
            return Err(Error::Invalid);
        },
    };
    let expected_binary_length = match directory_offset.checked_add(expected_directory_length) {
        Some(len) => len,
        None => {
            return Err(Error::Invalid);
        },
    };
    if data.len() < expected_binary_length {
        return Err(Error::InvalidLength);
    }
    data.truncate(expected_binary_length);
    Ok(Wad { kind, data, directory_offset, n_entries })
}

} // verus!
