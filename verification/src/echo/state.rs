use vstd::prelude::*;
use vstd::bytes::spec_u64_from_le_bytes;
use vstd::bytes::spec_u64_to_le_bytes;
use vstd::bytes::u64_to_le_bytes;
use vstd::bytes::lemma_auto_spec_u64_to_from_le_bytes;
use vstd::slice::slice_subrange;
use crate::codec::decode_u64;

verus! {

/// The number of bytes that a buffer's header takes; the payload follows it.
pub const HEADER_LEN: usize = 9;

/// The header of an authorized buffer: the discriminator of its derived
/// address and the seed value that the requester chose.
#[derive(Clone, Copy, Debug, PartialEq, Eq, Structural)]
pub struct AuthorizedBufferHeader {
    pub discriminator: u8,
    pub seed_value: u64,
}

/// The header of a vending buffer: the discriminator of its derived address
/// and the price of one write.
#[derive(Clone, Copy, Debug, PartialEq, Eq, Structural)]
pub struct VendingMachineBufferHeader {
    pub discriminator: u8,
    pub price: u64,
}

/// The nine bytes of a header: the discriminator, then the number in
/// little-endian order.
pub open spec fn header_bytes(discriminator: u8, number: u64) -> Seq<u8> {
    seq![discriminator] + spec_u64_to_le_bytes(number)
}

/// The payload of a record: what follows its header.
pub open spec fn payload_of(record: Seq<u8>) -> Seq<u8>
    recommends
        record.len() >= HEADER_LEN,
{
    record.subrange(HEADER_LEN as int, record.len() as int)
}

/// The discriminator and the number that stand at the head of a record.
pub open spec fn header_of(record: Seq<u8>) -> (u8, u64)
    recommends
        record.len() >= HEADER_LEN,
{
    (record[0], spec_u64_from_le_bytes(record.subrange(1, HEADER_LEN as int)))
}

/// The nine bytes of a header with this discriminator and this number.
pub fn encode_header(discriminator: u8, number: u64) -> (r: Vec<u8>)
    ensures
        r@ == header_bytes(discriminator, number),
        r@.len() == HEADER_LEN,
{
    let mut out: Vec<u8> = Vec::new();
    out.push(discriminator);
    let mut tail = u64_to_le_bytes(number);
    out.append(&mut tail);
    assert(out@ =~= header_bytes(discriminator, number));
    out
}

/// The discriminator and the number at the head of a record of nine bytes or more.
fn decode_header(record: &[u8]) -> (r: Option<(u8, u64)>)
    ensures
        r is Some <==> record@.len() >= HEADER_LEN,
        r is Some ==> r.unwrap() == header_of(record@),
{
    if record.len() < HEADER_LEN {
        return None;
    }
    let number = decode_u64(slice_subrange(record, 1, HEADER_LEN));
    match number {
        Some(value) => Some((record[0], value)),
        None => None,
    }
}

impl AuthorizedBufferHeader {
    /// The header as the nine bytes that a record starts with.
    pub fn encode(&self) -> (r: Vec<u8>)
        ensures
            r@ == header_bytes(self.discriminator, self.seed_value),
            r@.len() == HEADER_LEN,
    {
        encode_header(self.discriminator, self.seed_value)
    }

    /// Reads the header of a record. Any record of nine bytes or more has one.
    pub fn decode(record: &[u8]) -> (r: Option<AuthorizedBufferHeader>)
        ensures
            r is Some <==> record@.len() >= HEADER_LEN,
            r is Some ==> (r.unwrap().discriminator, r.unwrap().seed_value) == header_of(record@),
    {
        match decode_header(record) {
            Some((discriminator, seed_value)) => Some(
                AuthorizedBufferHeader { discriminator, seed_value },
            ),
            None => None,
        }
    }
}

impl VendingMachineBufferHeader {
    /// The header as the nine bytes that a record starts with.
    pub fn encode(&self) -> (r: Vec<u8>)
        ensures
            r@ == header_bytes(self.discriminator, self.price),
            r@.len() == HEADER_LEN,
    {
        encode_header(self.discriminator, self.price)
    }

    /// Reads the header of a record. Any record of nine bytes or more has one.
    pub fn decode(record: &[u8]) -> (r: Option<VendingMachineBufferHeader>)
        ensures
            r is Some <==> record@.len() >= HEADER_LEN,
            r is Some ==> (r.unwrap().discriminator, r.unwrap().price) == header_of(record@),
    {
        match decode_header(record) {
            Some((discriminator, price)) => Some(VendingMachineBufferHeader { discriminator, price }),
            None => None,
        }
    }
}

/// A record that starts with an encoded header decodes to that header,
/// whatever follows.
pub proof fn header_round_trip(discriminator: u8, number: u64, rest: Seq<u8>)
    ensures
        header_of(header_bytes(discriminator, number) + rest) == (discriminator, number),
        (header_bytes(discriminator, number) + rest).len() >= HEADER_LEN,
        payload_of(header_bytes(discriminator, number) + rest) == rest,
{
    lemma_auto_spec_u64_to_from_le_bytes();
    let record = header_bytes(discriminator, number) + rest;
    assert(record.subrange(1, HEADER_LEN as int) =~= spec_u64_to_le_bytes(number));
    assert(payload_of(record) =~= rest);
}

} // verus!
