use byteorder::{ByteOrder, LittleEndian};
use vstd::prelude::*;

use crate::error::Error;

verus! {

/// Size in bytes of the file header: magic tag, entry count, directory offset.
pub const HEADER_BYTE_SIZE: usize = 12;

/// Size in bytes of one directory record: start, length, identifier.
pub const DIRECTORY_ENTRY_BYTE_SIZE: usize = 16;

/// One directory record as it is stored on disk.
pub type RawEntry = [u8; 16];

/// The signed 32-bit value of the first four bytes of `b`, least significant first.
pub open spec fn le_i32(b: Seq<u8>) -> int {
    let u = b[0] as int + 0x100 * (b[1] as int) + 0x1_0000 * (b[2] as int) + 0x100_0000 * (
    b[3] as int);
    if u < 0x8000_0000 {
        u
    } else {
        u - 0x1_0000_0000
    }
}

/// Relies on byteorder's `LittleEndian::read_i32`: the first four bytes of `buf`, least
/// significant first, as a two's-complement value (it panics on fewer than four).
#[verifier::external_body]
pub(crate) fn read_i32_le(buf: &[u8]) -> (r: i32)
    requires
        buf@.len() >= 4,
    ensures
        r as int == le_i32(buf@),
{
    LittleEndian::read_i32(buf)
}

/// The whole records of a directory region, in order.
pub open spec fn records_of(dir: Seq<u8>) -> Seq<Seq<u8>> {
    Seq::new(dir.len() / 16, |i: int| dir.subrange(16 * i, 16 * i + 16))
}

/// The on-disk start offset of a record.
pub open spec fn record_start(rec: Seq<u8>) -> int {
    le_i32(rec.subrange(0, 4))
}

/// The on-disk payload length of a record.
pub open spec fn record_length(rec: Seq<u8>) -> int {
    le_i32(rec.subrange(4, 8))
}

/// The identifier bytes of a record.
pub open spec fn record_id(rec: Seq<u8>) -> Seq<u8> {
    rec.subrange(8, 16)
}

/// Where the payload of a record starts: a record of length zero starts right after
/// the header, whatever its on-disk start says.
pub open spec fn effective_start(rec: Seq<u8>) -> int {
    if record_length(rec) == 0 {
        HEADER_BYTE_SIZE as int
    } else {
        record_start(rec)
    }
}

/// A record's fields are non-negative and its payload lies between the end of the
/// header and `payload_len`.
pub open spec fn record_resolves(rec: Seq<u8>, payload_len: int) -> bool {
    &&& record_length(rec) >= 0
    &&& record_start(rec) >= 0
    &&& effective_start(rec) >= HEADER_BYTE_SIZE
    &&& effective_start(rec) + record_length(rec) <= payload_len
}

/// A record resolved against a payload region: its identifier and its payload bytes, or
/// `InvalidEntry`.
pub open spec fn resolve(rec: Seq<u8>, payload: Seq<u8>) -> Result<(Seq<u8>, Seq<u8>), Error> {
    if record_resolves(rec, payload.len() as int) {
        Ok(
            (
                record_id(rec),
                payload.subrange(effective_start(rec), effective_start(rec) + record_length(rec)),
            ),
        )
    } else {
        Err(Error::InvalidEntry)
    }
}

/// A record of length zero resolves, to an empty payload, whatever its non-negative
/// on-disk start, as long as the payload region covers the header.
pub proof fn lemma_zero_length_resolves(rec: Seq<u8>, payload: Seq<u8>)
    requires
        record_length(rec) == 0,
        record_start(rec) >= 0,
        payload.len() >= HEADER_BYTE_SIZE,
    ensures
        resolve(rec, payload) is Ok,
        resolve(rec, payload)->Ok_0.0 == record_id(rec),
        resolve(rec, payload)->Ok_0.1.len() == 0,
{
}

/// A record of non-zero length whose end lies past the payload region (an end beyond the
/// machine's address range included) is rejected with `InvalidEntry`.
pub proof fn lemma_overlong_record_rejected(rec: Seq<u8>, payload: Seq<u8>)
    requires
        record_length(rec) != 0,
        record_start(rec) + record_length(rec) > payload.len(),
    ensures
        resolve(rec, payload) == Err::<(Seq<u8>, Seq<u8>), Error>(Error::InvalidEntry),
{
}

/// Records `start..end` of a directory are the records of its bytes `16 * start..16 * end`.
pub proof fn lemma_records_subrange(dir: Seq<u8>, start: int, end: int)
    requires
        0 <= start <= end <= dir.len() / 16,
    ensures
        16 * end <= dir.len(),
        records_of(dir.subrange(16 * start, 16 * end)) == records_of(dir).subrange(start, end),
{
    assert(16 * end <= dir.len()) by (nonlinear_arith)
        requires
            end <= dir.len() / 16,
    ;
    let sub = dir.subrange(16 * start, 16 * end);
    assert(sub.len() / 16 == end - start) by (nonlinear_arith)
        requires
            sub.len() == 16 * end - 16 * start,
    ;
    let lhs = records_of(sub);
    let rhs = records_of(dir).subrange(start, end);
    assert forall|i: int| 0 <= i < end - start implies lhs[i] == rhs[i] by {
        assert(lhs[i] =~= rhs[i]);
    }
    assert(lhs =~= rhs);
}

} // verus!
