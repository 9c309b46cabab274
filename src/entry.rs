use vstd::prelude::*;

use crate::entry_id::{EntryId, display_of};
use crate::error::Error;

verus! {

/// A resolved directory entry: its identifier and its payload bytes.
pub struct Entry<'a> {
    pub id: EntryId,
    pub lump: &'a [u8],
}

impl<'a> View for Entry<'a> {
    type V = (Seq<u8>, Seq<u8>);

    open spec fn view(&self) -> (Seq<u8>, Seq<u8>) {
        (self.id@, self.lump@)
    }
}

/// The model of a resolution outcome: identifier and payload bytes, or the error.
pub open spec fn entry_result_view(r: Result<Entry, Error>) -> Result<(Seq<u8>, Seq<u8>), Error> {
    match r {
        Ok(e) => Ok(e@),
        Err(e) => Err(e),
    }
}

impl<'a> Entry<'a> {
    /// The display form of the entry's identifier; `?` if it holds a non-ASCII byte.
    pub fn display_name(&self) -> (r: &str)
        ensures
            r@ == display_of(self.id@),
    {
        self.id.display()
    }
}

} // verus!
