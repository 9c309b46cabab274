use vstd::prelude::*;

use crate::directory::{record_id, resolve};
use crate::entry::{Entry, entry_result_view};
use crate::entry_id::EntryId;
use crate::error::Error;
use crate::wad::Wad;
use crate::wad_slice::{DirectoryModel, WadSlice};

verus! {

/// What one step of an entry sequence over `v` does at `position`: past the end it yields
/// nothing and stays; otherwise it yields that entry resolved and moves on by one.
pub open spec fn entry_step(
    v: DirectoryModel,
    position: nat,
    next_position: nat,
    r: Option<Result<Entry, Error>>,
) -> bool {
    if position < v.records.len() {
        &&& next_position == position + 1
        &&& r is Some
        &&& entry_result_view(r->Some_0) == resolve(v.records[position as int], v.payload)
    } else {
        next_position == position && r is None
    }
}

/// What one step of an identifier sequence over `v` does at `position`.
pub open spec fn id_step(
    v: DirectoryModel,
    position: nat,
    next_position: nat,
    r: Option<EntryId>,
) -> bool {
    if position < v.records.len() {
        &&& next_position == position + 1
        &&& r is Some
        &&& r->Some_0@ == record_id(v.records[position as int])
    } else {
        next_position == position && r is None
    }
}

/// The entries of a container, resolved one at a time and in order.
pub struct EntryIterator<'a> {
    index: usize,
    wad: WadSlice<'a>,
}

impl<'a> EntryIterator<'a> {
    /// The view walked.
    pub closed spec fn source(&self) -> DirectoryModel {
        self.wad@
    }

    /// How many entries were yielded so far.
    pub closed spec fn position(&self) -> nat {
        self.index as nat
    }

    pub(crate) fn new(wad: &'a Wad) -> (r: EntryIterator<'a>)
        ensures
            r.source() == wad.full_view(),
            r.position() == 0,
    {
        EntryIterator { index: 0, wad: wad.as_slice() }
    }

    /// The next entry, resolved; none once every entry was yielded.
    pub fn next(&mut self) -> (r: Option<Result<Entry<'a>, Error>>)
        ensures
            final(self).source() == old(self).source(),
            entry_step(old(self).source(), old(self).position(), final(self).position(), r),
    {
        if self.index < self.wad.len() {
            self.index += 1;
            Some(self.wad.entry(self.index - 1))
        } else {
            None
        }
    }
}

/// The identifiers of a container's entries, one at a time and in order.
pub struct IdIterator<'a> {
    index: usize,
    wad: WadSlice<'a>,
}

impl<'a> IdIterator<'a> {
    /// The view walked.
    pub closed spec fn source(&self) -> DirectoryModel {
        self.wad@
    }

    /// How many identifiers were yielded so far.
    pub closed spec fn position(&self) -> nat {
        self.index as nat
    }

    pub(crate) fn new(wad: &'a Wad) -> (r: IdIterator<'a>)
        ensures
            r.source() == wad.full_view(),
            r.position() == 0,
    {
        IdIterator { index: 0, wad: wad.as_slice() }
    }

    /// The next identifier; none once every entry was passed.
    pub fn next(&mut self) -> (r: Option<EntryId>)
        ensures
            final(self).source() == old(self).source(),
            id_step(old(self).source(), old(self).position(), final(self).position(), r),
    {
        if self.index < self.wad.len() {
            self.index += 1;
            self.wad.entry_id(self.index - 1)
        } else {
            None
        }
    }
}

/// The entries of a view, resolved one at a time and in order.
pub struct SliceEntryIterator<'a> {
    index: usize,
    wad: WadSlice<'a>,
}

impl<'a> SliceEntryIterator<'a> {
    /// The view walked.
    pub closed spec fn source(&self) -> DirectoryModel {
        self.wad@
    }

    /// How many entries were yielded so far.
    pub closed spec fn position(&self) -> nat {
        self.index as nat
    }

    pub(crate) fn new(wad: WadSlice<'a>) -> (r: SliceEntryIterator<'a>)
        ensures
            r.source() == wad@,
            r.position() == 0,
    {
        SliceEntryIterator { index: 0, wad }
    }

    /// The next entry, resolved; none once every entry was yielded.
    pub fn next(&mut self) -> (r: Option<Result<Entry<'a>, Error>>)
        ensures
            final(self).source() == old(self).source(),
            entry_step(old(self).source(), old(self).position(), final(self).position(), r),
    {
        if self.index < self.wad.len() {
            self.index += 1;
            Some(self.wad.entry(self.index - 1))
        } else {
            None
        }
    }
}

/// The identifiers of a view's entries, one at a time and in order.
pub struct SliceIdIterator<'a> {
    index: usize,
    wad: WadSlice<'a>,
}

impl<'a> SliceIdIterator<'a> {
    /// The view walked.
    pub closed spec fn source(&self) -> DirectoryModel {
        self.wad@
    }

    /// How many identifiers were yielded so far.
    pub closed spec fn position(&self) -> nat {
        self.index as nat
    }

    pub(crate) fn new(wad: WadSlice<'a>) -> (r: SliceIdIterator<'a>)
        ensures
            r.source() == wad@,
            r.position() == 0,
    {
        SliceIdIterator { index: 0, wad }
    }

    /// The next identifier; none once every entry was passed.
    pub fn next(&mut self) -> (r: Option<EntryId>)
        ensures
            final(self).source() == old(self).source(),
            id_step(old(self).source(), old(self).position(), final(self).position(), r),
    {
        if self.index < self.wad.len() {
            self.index += 1;
            self.wad.entry_id(self.index - 1)
        } else {
            None
        }
    }
}

} // verus!
