use vstd::prelude::*;
use vstd::string::StringSliceAdditionalSpecFns;

use crate::directory::resolve;
use crate::entry::Entry;
use crate::entry_id::{EntryId, text_id};
use crate::error::Error;
use crate::wad_slice::{DirectoryModel, WadSlice, has_no_id, is_first_with_id};

verus! {

/// Why a locator query found no entry.
#[derive(Debug, Clone, Copy, PartialEq, Eq, Structural)]
pub enum LocateError {
    /// A name in the query is longer than eight bytes or holds a non-ASCII byte.
    InvalidName,
    /// No entry of the current view has a name of the query.
    NotFound,
    /// The view could not be narrowed, or the entry found does not resolve.
    Wad(Error),
}

/// The byte `+`, which narrows to the entries from a named one onward.
pub const FOLLOWS: u8 = 43;

/// The byte `/`, which narrows to the entries between `NAME_START` and `NAME_END`.
pub const WITHIN: u8 = 47;

/// A byte that ends a part of a locator query.
pub open spec fn is_separator(b: u8) -> bool {
    b == FOLLOWS || b == WITHIN
}

/// `k` is where the first part of query `q` ends: its first separator, or its end.
pub open spec fn is_part_end(q: Seq<u8>, k: int) -> bool {
    &&& 0 <= k <= q.len()
    &&& forall|j: int| 0 <= j < k ==> !is_separator(#[trigger] q[j])
    &&& k == q.len() || is_separator(q[k])
}

/// The length of the first part of query `q`.
pub open spec fn part_len(q: Seq<u8>) -> int {
    choose|k: int| is_part_end(q, k)
}

/// The text `_START`.
pub open spec fn start_suffix() -> Seq<u8> {
    seq![95u8, 83u8, 84u8, 65u8, 82u8, 84u8]
}

/// The text `_END`.
pub open spec fn end_suffix() -> Seq<u8> {
    seq![95u8, 69u8, 78u8, 68u8]
}

/// The index of the first record named by the text `name`: `InvalidName` when the text
/// names no identifier, `NotFound` when no record has that identifier.
pub open spec fn find_named(records: Seq<Seq<u8>>, name: Seq<u8>) -> Result<int, LocateError> {
    match text_id(name) {
        None => Err(LocateError::InvalidName),
        Some(id) => if has_no_id(records, id) {
            Err(LocateError::NotFound)
        } else {
            Ok(choose|i: int| is_first_with_id(records, id, i))
        },
    }
}

/// The record that query `q` picks from `records`. Parts are read left to right, each
/// narrowing the records that the next one searches: `name+` keeps the records from the
/// first one named `name` onward; `name/` keeps those strictly between the first
/// `name_START` and the first `name_END`. The last part names the record picked.
pub open spec fn locate_record(records: Seq<Seq<u8>>, q: Seq<u8>) -> Result<
    Seq<u8>,
    LocateError,
>
    decreases q.len(),
{
    let k = part_len(q);
    if 0 <= k < q.len() {
        let part = q.subrange(0, k);
        let rest = q.subrange(k + 1, q.len() as int);
        if q[k] == FOLLOWS {
            match find_named(records, part) {
                Err(e) => Err(e),
                Ok(i) => locate_record(records.subrange(i, records.len() as int), rest),
            }
        } else {
            match find_named(records, part + start_suffix()) {
                Err(e) => Err(e),
                Ok(s) => match find_named(records, part + end_suffix()) {
                    Err(e) => Err(e),
                    Ok(e) => if s + 1 <= e {
                        locate_record(records.subrange(s + 1, e), rest)
                    } else {
                        Err(LocateError::Wad(Error::OutOfBounds))
                    },
                },
            }
        }
    } else {
        match find_named(records, q) {
            Err(e) => Err(e),
            Ok(i) => Ok(records[i]),
        }
    }
}

/// What query `q` resolves to in view `v`: the identifier and payload of the record it
/// picks, or why there is none.
pub open spec fn locate_spec(v: DirectoryModel, q: Seq<u8>) -> Result<
    (Seq<u8>, Seq<u8>),
    LocateError,
> {
    match locate_record(v.records, q) {
        Err(e) => Err(e),
        Ok(rec) => match resolve(rec, v.payload) {
            Ok(m) => Ok(m),
            Err(e) => Err(LocateError::Wad(e)),
        },
    }
}

/// The model of a query outcome.
pub open spec fn locate_result_view(r: Result<Entry, LocateError>) -> Result<
    (Seq<u8>, Seq<u8>),
    LocateError,
> {
    match r {
        Ok(e) => Ok(e@),
        Err(e) => Err(e),
    }
}

/// A query part ends at one place only.
pub proof fn lemma_part_len(q: Seq<u8>, k: int)
    requires
        is_part_end(q, k),
    ensures
        part_len(q) == k,
{
    let n = part_len(q);
    assert(is_part_end(q, n));
    if n < k {
        assert(!is_separator(q[n]));
    } else if k < n {
        assert(!is_separator(q[k]));
    }
}

/// A record is the first with an identifier at one index only.
pub proof fn lemma_first_with_id_unique(records: Seq<Seq<u8>>, id: Seq<u8>, i: int)
    requires
        is_first_with_id(records, id, i),
    ensures
        !has_no_id(records, id),
        (choose|j: int| is_first_with_id(records, id, j)) == i,
{
    assert(records.len() > 0 && crate::directory::record_id(records[i]) == id);
    let j = choose|j: int| is_first_with_id(records, id, j);
    assert(is_first_with_id(records, id, j));
    if j < i {
        assert(crate::directory::record_id(records[j]) != id);
    } else if i < j {
        assert(crate::directory::record_id(records[i]) != id);
    }
}

/// The bytes of `part` followed by `_START` (`start`) or `_END`.
fn marker_name(part: &[u8], start: bool) -> (r: Vec<u8>)
    ensures
        r@ == part@ + if start {
            start_suffix()
        } else {
            end_suffix()
        },
{
    let mut name: Vec<u8> = Vec::new();
    let mut i: usize = 0;
    while i < part.len()
        invariant
            i <= part@.len(),
            name@ == part@.subrange(0, i as int),
        decreases part@.len() - i,
    {
        name.push(part[i]);
        i += 1;
        assert(name@ =~= part@.subrange(0, i as int));
    }
    name.push(95);
    if start {
        name.push(83);
        name.push(84);
        name.push(65);
        name.push(82);
        name.push(84);
        assert(name@ =~= part@ + start_suffix());
    } else {
        name.push(69);
        name.push(78);
        name.push(68);
        assert(name@ =~= part@ + end_suffix());
    }
    name
}

/// The index in `view` of the first entry named by the text `name`.
fn find_named_in(view: &WadSlice, name: &[u8]) -> (r: Result<usize, LocateError>)
    ensures
        match r {
            Ok(i) => find_named(view@.records, name@) == Ok::<int, LocateError>(i as int),
            Err(e) => find_named(view@.records, name@) == Err::<int, LocateError>(e),
        },
        r is Ok ==> r->Ok_0 < view@.records.len(),
{
    let id = match EntryId::from_ascii(name) {
        Some(id) => id,
        None => {
            return Err(LocateError::InvalidName);
        },
    };
    match view.index_of(id) {
        Some(i) => {
            proof {
                lemma_first_with_id_unique(view@.records, id@, i as int);
            }
            Ok(i)
        },
        None => Err(LocateError::NotFound),
    }
}

/// Resolves a locator query against `view`; see [`locate_record`] for how the query
/// narrows the view. A name may be given in any letter case.
pub fn locate<'a>(view: &WadSlice<'a>, query: &str) -> (r: Result<Entry<'a>, LocateError>)
    ensures
        locate_result_view(r) == locate_spec(view@, query.spec_bytes()),
{
    let q = query.as_bytes();
    let mut current = *view;
    let mut pos: usize = 0;
    assert(q@.subrange(0, q@.len() as int) =~= q@);
    loop
        invariant
            q@ == query.spec_bytes(),
            pos <= q@.len(),
            current@.payload == view@.payload,
            locate_spec(view@, q@) == locate_spec(current@, q@.subrange(pos as int, q@.len() as int)),
        decreases q@.len() - pos,
    {
        let ghost rest = q@.subrange(pos as int, q@.len() as int);
        let mut k = pos;
        while k < q.len() && q[k] != FOLLOWS && q[k] != WITHIN
            invariant
                pos <= k <= q@.len(),
                rest == q@.subrange(pos as int, q@.len() as int),
                forall|j: int| pos <= j < k ==> !is_separator(#[trigger] q@[j]),
            decreases q@.len() - k,
        {
            k += 1;
        }
        proof {
            assert forall|j: int| 0 <= j < k - pos implies !is_separator(#[trigger] rest[j]) by {
                assert(rest[j] == q@[pos + j]);
            }
            lemma_part_len(rest, k - pos);
        }
        let part = &q[pos..k];
        assert(part@ =~= rest.subrange(0, k - pos));
        if k == q.len() {
            assert(part@ =~= rest);
            let i = match find_named_in(&current, part) {
                Ok(i) => i,
                Err(e) => {
                    return Err(e);
                },
            };
            return match current.entry(i) {
                Ok(e) => Ok(e),
                Err(e) => Err(LocateError::Wad(e)),
            };
        }
        assert(rest.subrange(k - pos + 1, rest.len() as int) =~= q@.subrange(
            k + 1,
            q@.len() as int,
        ));
        if q[k] == FOLLOWS {
            let i = match find_named_in(&current, part) {
                Ok(i) => i,
                Err(e) => {
                    return Err(e);
                },
            };
            current = match current.slice(i..current.len()) {
                Ok(narrowed) => narrowed,
                Err(e) => {
                    return Err(LocateError::Wad(e));
                },
            };
        } else {
            let start_name = marker_name(part, true);
            let s = match find_named_in(&current, start_name.as_slice()) {
                Ok(s) => s,
                Err(e) => {
                    return Err(e);
                },
            };
            let end_name = marker_name(part, false);
            let e = match find_named_in(&current, end_name.as_slice()) {
                Ok(e) => e,
                Err(e) => {
                    return Err(e);
                },
            };
            if e <= s {
                return Err(LocateError::Wad(Error::OutOfBounds));
            }
            current = match current.slice(s + 1..e) {
                Ok(narrowed) => narrowed,
                Err(e) => {
                    return Err(LocateError::Wad(e));
                },
            };
        }
        pos = k + 1;
    }
}

} // verus!
