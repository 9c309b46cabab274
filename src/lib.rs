//! Read-only access to WAD containers: a 12-byte header, a payload region of lumps, and a
//! directory of 16-byte records naming byte ranges of that region. Parsing, entry
//! resolution, narrowing to sub-ranges of the directory, and locator queries are stated
//! as contracts over mathematical models and proved.

use vstd::prelude::*;

mod directory;
mod entry;
mod entry_id;
mod error;
mod iterator;
mod locator;
mod wad;
mod wad_slice;

pub use crate::directory::{
    DIRECTORY_ENTRY_BYTE_SIZE, HEADER_BYTE_SIZE, RawEntry, effective_start, le_i32,
    lemma_overlong_record_rejected, lemma_records_subrange, lemma_zero_length_resolves,
    record_id, record_length, record_resolves, record_start, records_of, resolve,
};
pub use crate::entry::{Entry, entry_result_view};
pub use crate::entry_id::{
    EntryId, all_ascii, ascii_chars, display_of, is_name_end, lemma_name_len, lemma_text_id_display,
    lemma_text_id_round_trip, name_len, text_id, upper_byte,
};
pub use crate::error::{Error, LoadError};
pub use crate::iterator::{
    EntryIterator, IdIterator, SliceEntryIterator, SliceIdIterator, entry_step, id_step,
};
pub use crate::locator::{
    FOLLOWS, LocateError, WITHIN, end_suffix, find_named, is_part_end, is_separator,
    lemma_first_with_id_unique, lemma_part_len, locate, locate_record, locate_result_view,
    locate_spec, part_len, start_suffix,
};
pub use crate::wad::{
    Kind, Wad, WadModel, container_view, header_directory_offset, header_entry_count,
    lemma_parsed_entry_count, magic_kind, parse_model, parse_wad,
};
pub use crate::wad_slice::{
    DirectoryModel, WadSlice, has_no_id, is_first_with_id, lemma_slice_of_slice, slice_view,
};

verus! {

} // verus!
