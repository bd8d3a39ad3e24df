use vstd::prelude::*;
use vstd::bytes::lemma_auto_spec_u32_to_from_le_bytes;
use vstd::bytes::lemma_auto_spec_u64_to_from_le_bytes;
use vstd::bytes::spec_u32_from_le_bytes;
use vstd::bytes::spec_u32_to_le_bytes;
use vstd::bytes::spec_u64_from_le_bytes;
use vstd::bytes::spec_u64_to_le_bytes;
use vstd::bytes::u32_from_le_bytes;
use vstd::bytes::u32_to_le_bytes;
use vstd::bytes::u64_from_le_bytes;
use vstd::bytes::u64_to_le_bytes;
use vstd::slice::slice_subrange;
use vstd::slice::slice_to_vec;
use crate::error::ProtocolError;

verus! {

/// A request to the buffer program.
#[derive(Clone, Debug, PartialEq, Eq)]
pub enum EchoInstruction {
    /// Write to a plain buffer, which takes one write only.
    Echo { data: Vec<u8> },
    /// Create an authorized buffer of `buffer_size` bytes for the requester.
    InitializeAuthorizedEcho { buffer_seed: u64, buffer_size: usize },
    /// Replace the payload of an authorized buffer.
    AuthorizedEcho { data: Vec<u8> },
    /// Create a vending buffer of `buffer_size` bytes that charges `price` per write.
    InitializeVendingMachineEcho { price: u64, buffer_size: usize },
    /// Replace the payload of a vending buffer, for its price.
    VendingMachineEcho { data: Vec<u8> },
}

/// A request that carries data: the tag, the length in four little-endian
/// bytes, the data.
pub open spec fn data_request(tag: u8, data: Seq<u8>) -> Seq<u8> {
    seq![tag] + spec_u32_to_le_bytes(data.len() as u32) + data
}

/// A request that carries two numbers: the tag, then each in eight
/// little-endian bytes.
pub open spec fn sized_request(tag: u8, number: u64, size: usize) -> Seq<u8> {
    seq![tag] + spec_u64_to_le_bytes(number) + spec_u64_to_le_bytes(size as u64)
}

/// The bytes that stand for an instruction.
pub open spec fn encoding_of(instruction: EchoInstruction) -> Seq<u8> {
    match instruction {
        EchoInstruction::Echo { data } => data_request(0, data@),
        EchoInstruction::InitializeAuthorizedEcho { buffer_seed, buffer_size } => sized_request(
            1,
            buffer_seed,
            buffer_size,
        ),
        EchoInstruction::AuthorizedEcho { data } => data_request(2, data@),
        EchoInstruction::InitializeVendingMachineEcho { price, buffer_size } => sized_request(
            3,
            price,
            buffer_size,
        ),
        EchoInstruction::VendingMachineEcho { data } => data_request(4, data@),
    }
}

/// Whether an instruction has an encoding: its data must be short enough for
/// the length to fit in four bytes.
pub open spec fn encodable(instruction: EchoInstruction) -> bool {
    match instruction {
        EchoInstruction::Echo { data } => data@.len() <= u32::MAX,
        EchoInstruction::AuthorizedEcho { data } => data@.len() <= u32::MAX,
        EchoInstruction::VendingMachineEcho { data } => data@.len() <= u32::MAX,
        _ => true,
    }
}

/// What can be read off a request that carries data.
proof fn data_request_shape(tag: u8, data: Seq<u8>)
    requires
        data.len() <= u32::MAX,
    ensures
        data_request(tag, data).len() == 5 + data.len(),
        data_request(tag, data)[0] == tag,
        spec_u32_from_le_bytes(data_request(tag, data).subrange(1, 5)) == data.len(),
        data_request(tag, data).subrange(5, 5 + data.len() as int) == data,
{
    lemma_auto_spec_u32_to_from_le_bytes();
    let e = data_request(tag, data);
    assert(e.subrange(1, 5) =~= spec_u32_to_le_bytes(data.len() as u32));
    assert(e.subrange(5, 5 + data.len() as int) =~= data);
}

/// What can be read off a request that carries a number and a size.
proof fn sized_request_shape(tag: u8, number: u64, size: usize)
    ensures
        sized_request(tag, number, size).len() == 17,
        sized_request(tag, number, size)[0] == tag,
        spec_u64_from_le_bytes(sized_request(tag, number, size).subrange(1, 9)) == number,
        spec_u64_from_le_bytes(sized_request(tag, number, size).subrange(9, 17)) == size,
{
    lemma_auto_spec_u64_to_from_le_bytes();
    let e = sized_request(tag, number, size);
    assert(e.subrange(1, 9) =~= spec_u64_to_le_bytes(number));
    assert(e.subrange(9, 17) =~= spec_u64_to_le_bytes(size as u64));
}

/// The tag byte of an instruction.
pub open spec fn tag_of(instruction: EchoInstruction) -> u8 {
    match instruction {
        EchoInstruction::Echo { .. } => 0,
        EchoInstruction::InitializeAuthorizedEcho { .. } => 1,
        EchoInstruction::AuthorizedEcho { .. } => 2,
        EchoInstruction::InitializeVendingMachineEcho { .. } => 3,
        EchoInstruction::VendingMachineEcho { .. } => 4,
    }
}

/// What can be read off an encoding: its tag, its length and its numbers.
proof fn encoding_shape(instruction: EchoInstruction)
    requires
        encodable(instruction),
    ensures
        encoding_of(instruction).len() >= 1,
        encoding_of(instruction)[0] == tag_of(instruction),
        match instruction {
            EchoInstruction::InitializeAuthorizedEcho { buffer_seed, buffer_size } => {
                &&& encoding_of(instruction).len() == 17
                &&& spec_u64_from_le_bytes(encoding_of(instruction).subrange(1, 9)) == buffer_seed
                &&& spec_u64_from_le_bytes(encoding_of(instruction).subrange(9, 17)) == buffer_size
            },
            EchoInstruction::InitializeVendingMachineEcho { price, buffer_size } => {
                &&& encoding_of(instruction).len() == 17
                &&& spec_u64_from_le_bytes(encoding_of(instruction).subrange(1, 9)) == price
                &&& spec_u64_from_le_bytes(encoding_of(instruction).subrange(9, 17)) == buffer_size
            },
            EchoInstruction::Echo { data }
            | EchoInstruction::AuthorizedEcho { data }
            | EchoInstruction::VendingMachineEcho { data } => {
                &&& encoding_of(instruction).len() == 5 + data@.len()
                &&& spec_u32_from_le_bytes(encoding_of(instruction).subrange(1, 5)) == data@.len()
            },
        },
{
    match instruction {
        EchoInstruction::Echo { data } => data_request_shape(0, data@),
        EchoInstruction::InitializeAuthorizedEcho { buffer_seed, buffer_size } => sized_request_shape(
            1,
            buffer_seed,
            buffer_size,
        ),
        EchoInstruction::AuthorizedEcho { data } => data_request_shape(2, data@),
        EchoInstruction::InitializeVendingMachineEcho { price, buffer_size } => sized_request_shape(
            3,
            price,
            buffer_size,
        ),
        EchoInstruction::VendingMachineEcho { data } => data_request_shape(4, data@),
    }
}

/// Reads the data of a request that carries data; `None` where the length
/// field and the bytes that follow disagree.
fn unpack_data(input: &[u8]) -> (r: Option<Vec<u8>>)
    requires
        input@.len() >= 1,
    ensures
        r is Some ==> r.unwrap()@.len() <= u32::MAX && data_request(input@[0], r.unwrap()@)
            == input@,
        r is None ==> input@.len() < 5 || spec_u32_from_le_bytes(input@.subrange(1, 5))
            != input@.len() - 5,
{
    if input.len() < 5 {
        return None;
    }
    let announced: u32 = u32_from_le_bytes(slice_subrange(input, 1, 5));
    let have: usize = input.len() - 5;
    if have > u32::MAX as usize || announced != have as u32 {
        return None;
    }
    let data = slice_to_vec(slice_subrange(input, 5, input.len()));
    proof {
        lemma_auto_spec_u32_to_from_le_bytes();
        assert(spec_u32_to_le_bytes(announced) == input@.subrange(1, 5));
        assert(data_request(input@[0], data@) =~= input@);
    }
    Some(data)
}

/// Reads the two numbers of a request that carries a number and a size; `None`
/// where the input is not 17 bytes long or the size does not fit this machine.
fn unpack_sized(input: &[u8]) -> (r: Option<(u64, usize)>)
    requires
        input@.len() >= 1,
    ensures
        r is Some ==> sized_request(input@[0], r.unwrap().0, r.unwrap().1) == input@,
        r is None ==> input@.len() != 17 || spec_u64_from_le_bytes(input@.subrange(9, 17))
            > usize::MAX,
{
    if input.len() != 17 {
        return None;
    }
    let number: u64 = u64_from_le_bytes(slice_subrange(input, 1, 9));
    let size: u64 = u64_from_le_bytes(slice_subrange(input, 9, 17));
    if size > usize::MAX as u64 {
        return None;
    }
    proof {
        lemma_auto_spec_u64_to_from_le_bytes();
        assert(spec_u64_to_le_bytes(number) == input@.subrange(1, 9));
        assert(spec_u64_to_le_bytes(size) == input@.subrange(9, 17));
        assert(sized_request(input@[0], number, size as usize) =~= input@);
    }
    Some((number, size as usize))
}

impl EchoInstruction {
    /// Reads an instruction from the bytes of a request. It accepts exactly
    /// the encodings of instructions.
    pub fn unpack(input: &[u8]) -> (r: Result<EchoInstruction, ProtocolError>)
        ensures
            match r {
                Ok(instruction) => encodable(instruction) && encoding_of(instruction) == input@,
                Err(e) => e == ProtocolError::InvalidEncoding && forall|i: EchoInstruction|
                    encodable(i) ==> encoding_of(i) != input@,
            },
    {
        if input.len() == 0 {
            assert forall|i: EchoInstruction| encodable(i) implies encoding_of(i) != input@ by {
                encoding_shape(i);
            }
            return Err(ProtocolError::InvalidEncoding);
        }
        let tag: u8 = input[0];
        if tag == 0 || tag == 2 || tag == 4 {
            match unpack_data(input) {
                Some(data) => {
                    if tag == 0 {
                        Ok(EchoInstruction::Echo { data })
                    } else if tag == 2 {
                        Ok(EchoInstruction::AuthorizedEcho { data })
                    } else {
                        Ok(EchoInstruction::VendingMachineEcho { data })
                    }
                },
                None => {
                    assert forall|i: EchoInstruction| encodable(i) implies encoding_of(i)
                        != input@ by {
                        encoding_shape(i);
                    }
                    Err(ProtocolError::InvalidEncoding)
                },
            }
        } else if tag == 1 || tag == 3 {
            match unpack_sized(input) {
                Some((number, buffer_size)) => {
                    if tag == 1 {
                        Ok(EchoInstruction::InitializeAuthorizedEcho { buffer_seed: number, buffer_size })
                    } else {
                        Ok(EchoInstruction::InitializeVendingMachineEcho { price: number, buffer_size })
                    }
                },
                None => {
                    assert forall|i: EchoInstruction| encodable(i) implies encoding_of(i)
                        != input@ by {
                        encoding_shape(i);
                    }
                    Err(ProtocolError::InvalidEncoding)
                },
            }
        } else {
            assert forall|i: EchoInstruction| encodable(i) implies encoding_of(i) != input@ by {
                encoding_shape(i);
            }
            Err(ProtocolError::InvalidEncoding)
        }
    }

    /// The bytes of the request that carries this instruction. Data too long
    /// for its length field has no encoding.
    pub fn pack(&self) -> (r: Result<Vec<u8>, ProtocolError>)
        ensures
            match r {
                Ok(bytes) => encodable(*self) && bytes@ == encoding_of(*self),
                Err(e) => e == ProtocolError::InvalidEncoding && !encodable(*self),
            },
    {
        match self {
            EchoInstruction::Echo { data } => pack_data(0, data),
            EchoInstruction::InitializeAuthorizedEcho { buffer_seed, buffer_size } => Ok(
                pack_sized(1, *buffer_seed, *buffer_size),
            ),
            EchoInstruction::AuthorizedEcho { data } => pack_data(2, data),
            EchoInstruction::InitializeVendingMachineEcho { price, buffer_size } => Ok(
                pack_sized(3, *price, *buffer_size),
            ),
            EchoInstruction::VendingMachineEcho { data } => pack_data(4, data),
        }
    }
}

/// The bytes of a request that carries data.
fn pack_data(tag: u8, data: &Vec<u8>) -> (r: Result<Vec<u8>, ProtocolError>)
    ensures
        match r {
            Ok(bytes) => data@.len() <= u32::MAX && bytes@ == data_request(tag, data@),
            Err(e) => e == ProtocolError::InvalidEncoding && data@.len() > u32::MAX,
        },
{
    if data.len() > u32::MAX as usize {
        return Err(ProtocolError::InvalidEncoding);
    }
    let mut out: Vec<u8> = Vec::new();
    out.push(tag);
    let mut length = u32_to_le_bytes(data.len() as u32);
    out.append(&mut length);
    let mut i: usize = 0;
    while i < data.len()
        invariant
            i <= data@.len(),
            out@ == seq![tag] + spec_u32_to_le_bytes(data@.len() as u32) + data@.subrange(0, i as int),
        decreases data@.len() - i,
    {
        out.push(data[i]);
        assert(data@.subrange(0, i as int).push(data@[i as int]) =~= data@.subrange(0, i + 1));
        i += 1;
    }
    assert(data@.subrange(0, data@.len() as int) =~= data@);
    Ok(out)
}

/// The bytes of a request that carries a number and a size.
fn pack_sized(tag: u8, number: u64, size: usize) -> (r: Vec<u8>)
    ensures
        r@ == sized_request(tag, number, size),
{
    let mut out: Vec<u8> = Vec::new();
    out.push(tag);
    let mut first = u64_to_le_bytes(number);
    out.append(&mut first);
    let mut second = u64_to_le_bytes(size as u64);
    out.append(&mut second);
    assert(out@ =~= sized_request(tag, number, size));
    out
}

/// Reading the encoding of an instruction gives that instruction back: two
/// instructions with the same encoding hold the same values.
pub proof fn encoding_is_injective(first: EchoInstruction, second: EchoInstruction)
    requires
        encodable(first),
        encodable(second),
        encoding_of(first) == encoding_of(second),
    ensures
        tag_of(first) == tag_of(second),
        match (first, second) {
            (EchoInstruction::Echo { data: a }, EchoInstruction::Echo { data: b }) => a@ == b@,
            (
                EchoInstruction::AuthorizedEcho { data: a },
                EchoInstruction::AuthorizedEcho { data: b },
            ) => a@ == b@,
            (
                EchoInstruction::VendingMachineEcho { data: a },
                EchoInstruction::VendingMachineEcho { data: b },
            ) => a@ == b@,
            _ => first == second,
        },
{
    encoding_shape(first);
    encoding_shape(second);
    match (first, second) {
        (EchoInstruction::Echo { data: a }, EchoInstruction::Echo { data: b }) => {
            data_request_shape(0, a@);
            data_request_shape(0, b@);
        },
        (EchoInstruction::AuthorizedEcho { data: a }, EchoInstruction::AuthorizedEcho { data: b }) => {
            data_request_shape(2, a@);
            data_request_shape(2, b@);
        },
        (
            EchoInstruction::VendingMachineEcho { data: a },
            EchoInstruction::VendingMachineEcho { data: b },
        ) => {
            data_request_shape(4, a@);
            data_request_shape(4, b@);
        },
        _ => {},
    }
}

} // verus!
