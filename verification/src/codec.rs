use vstd::prelude::*;
use vstd::bytes::spec_u64_from_le_bytes;

verus! {

/// Whether every byte is zero.
pub open spec fn all_zero(bytes: Seq<u8>) -> bool {
    forall|i: int| 0 <= i < bytes.len() ==> bytes[i] == 0
}

/// The record after a write at `offset`: the bytes before the offset stay, the
/// data follows as far as the record reaches, and zeros fill the rest.
pub open spec fn overwritten(record: Seq<u8>, offset: int, data: Seq<u8>) -> Seq<u8> {
    Seq::new(
        record.len(),
        |i: int|
            if i < offset {
                record[i]
            } else if i - offset < data.len() {
                data[i - offset]
            } else {
                0u8
            },
    )
}

/// A record of `size` zero bytes.
pub open spec fn zeroed(size: nat) -> Seq<u8> {
    Seq::new(size, |i: int| 0u8)
}

/// Calls `borsh::BorshDeserialize::try_from_slice` for `u64`. The contract
/// claims: exactly eight bytes decode, as a little-endian number; any other
/// length is refused.
#[verifier::external_body]
pub(crate) fn decode_u64(bytes: &[u8]) -> (r: Option<u64>)
    ensures
        r is Some <==> bytes@.len() == 8,
        r is Some ==> r.unwrap() == spec_u64_from_le_bytes(bytes@),
{
    let decoded: Result<u64, _> = borsh::BorshDeserialize::try_from_slice(bytes);
    match decoded {
        Ok(value) => Some(value),
        Err(_) => None,
    }
}

/// Whether a record holds nothing but zeros.
pub fn is_all_zero(bytes: &[u8]) -> (r: bool)
    ensures
        r == all_zero(bytes@),
{
    let mut i: usize = 0;
    while i < bytes.len()
        invariant
            i <= bytes@.len(),
            forall|j: int| 0 <= j < i ==> bytes@[j] == 0,
        decreases bytes@.len() - i,
    {
        if bytes[i] != 0 {
            return false;
        }
        i += 1;
    }
    true
}

/// Writes `data` into a copy of `record` at `offset`, truncated to the room
/// there is and followed by zeros.
pub fn overwrite(record: &[u8], offset: usize, data: &[u8]) -> (r: Vec<u8>)
    ensures
        r@ == overwritten(record@, offset as int, data@),
{
    let mut out: Vec<u8> = Vec::new();
    let mut i: usize = 0;
    while i < record.len()
        invariant
            i <= record@.len(),
            out@.len() == i,
            forall|j: int| 0 <= j < i ==> out@[j] == overwritten(record@, offset as int, data@)[j],
        decreases record@.len() - i,
    {
        let byte: u8 = if i < offset {
            record[i]
        } else if i - offset < data.len() {
            data[i - offset]
        } else {
            0
        };
        out.push(byte);
        i += 1;
    }
    assert(out@ =~= overwritten(record@, offset as int, data@));
    out
}

/// A record of `size` zero bytes.
pub fn zero_record(size: usize) -> (r: Vec<u8>)
    ensures
        r@ == zeroed(size as nat),
{
    let mut out: Vec<u8> = Vec::new();
    let mut i: usize = 0;
    while i < size
        invariant
            i <= size,
            out@.len() == i,
            forall|j: int| 0 <= j < i ==> out@[j] == 0,
        decreases size - i,
    {
        out.push(0);
        i += 1;
    }
    assert(out@ =~= zeroed(size as nat));
    out
}

/// A second write at the same offset replaces the first: what the record holds
/// from the offset on is the later data alone, and what stands before the
/// offset is never touched.
pub proof fn overwrite_replaces(record: Seq<u8>, offset: int, first: Seq<u8>, second: Seq<u8>)
    requires
        0 <= offset <= record.len(),
    ensures
        overwritten(overwritten(record, offset, first), offset, second) == overwritten(
            record,
            offset,
            second,
        ),
        overwritten(record, offset, second).subrange(0, offset) == record.subrange(0, offset),
        overwritten(record, offset, second).len() == record.len(),
{
    assert(overwritten(overwritten(record, offset, first), offset, second) =~= overwritten(
        record,
        offset,
        second,
    ));
    assert(overwritten(record, offset, second).subrange(0, offset) =~= record.subrange(0, offset));
}

/// A write that carries a non-zero byte into the record leaves it non-zero.
pub proof fn overwrite_leaves_mark(record: Seq<u8>, offset: int, data: Seq<u8>, at: int)
    requires
        0 <= offset <= record.len(),
        0 <= at < data.len(),
        offset + at < record.len(),
        data[at] != 0,
    ensures
        !all_zero(overwritten(record, offset, data)),
{
    assert(overwritten(record, offset, data)[offset + at] == data[at]);
}

} // verus!
