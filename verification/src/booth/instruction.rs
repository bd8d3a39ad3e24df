use vstd::prelude::*;
use vstd::bytes::lemma_auto_spec_u64_to_from_le_bytes;
use vstd::bytes::spec_u64_from_le_bytes;
use vstd::bytes::spec_u64_to_le_bytes;
use vstd::bytes::u64_from_le_bytes;
use vstd::bytes::u64_to_le_bytes;
use vstd::slice::slice_subrange;
use crate::error::ProtocolError;

verus! {

/// A request to the exchange booth program.
#[derive(Clone, Copy, Debug, PartialEq, Eq, Structural)]
pub enum ExchangeBoothInstruction {
    /// Create the registry record and its two vaults.
    InitializeExchangeBooth,
    /// Move `amount` units into a vault.
    Deposit { amount: u64 },
    /// Move `amount` units out of a vault; for the administrator only.
    Withdraw { amount: u64 },
    /// Pay `amount` units of one asset and receive the other at the feed's rate.
    Exchange { amount: u64 },
    /// Destroy the registry record and return its backing balance.
    CloseExchangeBooth,
}

/// The bytes that stand for an instruction: a tag, and the amount in eight
/// little-endian bytes where there is one.
pub open spec fn encoding_of(instruction: ExchangeBoothInstruction) -> Seq<u8> {
    match instruction {
        ExchangeBoothInstruction::InitializeExchangeBooth => seq![0u8],
        ExchangeBoothInstruction::Deposit { amount } => seq![1u8] + spec_u64_to_le_bytes(amount),
        ExchangeBoothInstruction::Withdraw { amount } => seq![2u8] + spec_u64_to_le_bytes(amount),
        ExchangeBoothInstruction::Exchange { amount } => seq![3u8] + spec_u64_to_le_bytes(amount),
        ExchangeBoothInstruction::CloseExchangeBooth => seq![4u8],
    }
}

/// What can be read off an encoding: its length, its tag and its amount.
proof fn encoding_shape(instruction: ExchangeBoothInstruction)
    ensures
        match instruction {
            ExchangeBoothInstruction::InitializeExchangeBooth => {
                &&& encoding_of(instruction).len() == 1
                &&& encoding_of(instruction)[0] == 0
            },
            ExchangeBoothInstruction::CloseExchangeBooth => {
                &&& encoding_of(instruction).len() == 1
                &&& encoding_of(instruction)[0] == 4
            },
            ExchangeBoothInstruction::Deposit { amount } => {
                &&& encoding_of(instruction).len() == 9
                &&& encoding_of(instruction)[0] == 1
                &&& spec_u64_from_le_bytes(encoding_of(instruction).subrange(1, 9)) == amount
            },
            ExchangeBoothInstruction::Withdraw { amount } => {
                &&& encoding_of(instruction).len() == 9
                &&& encoding_of(instruction)[0] == 2
                &&& spec_u64_from_le_bytes(encoding_of(instruction).subrange(1, 9)) == amount
            },
            ExchangeBoothInstruction::Exchange { amount } => {
                &&& encoding_of(instruction).len() == 9
                &&& encoding_of(instruction)[0] == 3
                &&& spec_u64_from_le_bytes(encoding_of(instruction).subrange(1, 9)) == amount
            },
        },
{
    lemma_auto_spec_u64_to_from_le_bytes();
    match instruction {
        ExchangeBoothInstruction::Deposit { amount }
        | ExchangeBoothInstruction::Withdraw { amount }
        | ExchangeBoothInstruction::Exchange { amount } => {
            assert(encoding_of(instruction).subrange(1, 9) =~= spec_u64_to_le_bytes(amount));
        },
        _ => {},
    }
}

impl ExchangeBoothInstruction {
    /// Reads an instruction from the bytes of a request. It accepts exactly
    /// the encodings of instructions.
    pub fn unpack(input: &[u8]) -> (r: Result<ExchangeBoothInstruction, ProtocolError>)
        ensures
            match r {
                Ok(instruction) => encoding_of(instruction) == input@,
                Err(e) => e == ProtocolError::InvalidEncoding && forall|i: ExchangeBoothInstruction|
                    encoding_of(i) != input@,
            },
    {
        proof {
            assert forall|i: ExchangeBoothInstruction| true implies encoding_of(i).len() >= 1 by {
                encoding_shape(i);
            }
        }
        if input.len() == 0 {
            return Err(ProtocolError::InvalidEncoding);
        }
        let tag: u8 = input[0];
        if input.len() == 1 && tag == 0 {
            assert(input@ =~= seq![0u8]);
            return Ok(ExchangeBoothInstruction::InitializeExchangeBooth);
        }
        if input.len() == 1 && tag == 4 {
            assert(input@ =~= seq![4u8]);
            return Ok(ExchangeBoothInstruction::CloseExchangeBooth);
        }
        if input.len() == 9 && 1 <= tag && tag <= 3 {
            let amount: u64 = u64_from_le_bytes(slice_subrange(input, 1, 9));
            proof {
                lemma_auto_spec_u64_to_from_le_bytes();
                assert(spec_u64_to_le_bytes(amount) == input@.subrange(1, 9));
                assert(seq![tag] + spec_u64_to_le_bytes(amount) =~= input@);
            }
            if tag == 1 {
                return Ok(ExchangeBoothInstruction::Deposit { amount });
            } else if tag == 2 {
                return Ok(ExchangeBoothInstruction::Withdraw { amount });
            } else {
                return Ok(ExchangeBoothInstruction::Exchange { amount });
            }
        }
        assert forall|i: ExchangeBoothInstruction| encoding_of(i) != input@ by {
            encoding_shape(i);
        }
        Err(ProtocolError::InvalidEncoding)
    }

    /// The bytes of the request that carries this instruction.
    pub fn pack(&self) -> (r: Vec<u8>)
        ensures
            r@ == encoding_of(*self),
    {
        let mut out: Vec<u8> = Vec::new();
        match self {
            ExchangeBoothInstruction::InitializeExchangeBooth => {
                out.push(0);
                assert(out@ =~= seq![0u8]);
            },
            ExchangeBoothInstruction::Deposit { amount } => {
                out.push(1);
                let mut tail = u64_to_le_bytes(*amount);
                out.append(&mut tail);
                assert(out@ =~= seq![1u8] + spec_u64_to_le_bytes(*amount));
            },
            ExchangeBoothInstruction::Withdraw { amount } => {
                out.push(2);
                let mut tail = u64_to_le_bytes(*amount);
                out.append(&mut tail);
                assert(out@ =~= seq![2u8] + spec_u64_to_le_bytes(*amount));
            },
            ExchangeBoothInstruction::Exchange { amount } => {
                out.push(3);
                let mut tail = u64_to_le_bytes(*amount);
                out.append(&mut tail);
                assert(out@ =~= seq![3u8] + spec_u64_to_le_bytes(*amount));
            },
            ExchangeBoothInstruction::CloseExchangeBooth => {
                out.push(4);
                assert(out@ =~= seq![4u8]);
            },
        }
        out
    }
}

/// Two instructions with the same encoding are the same instruction, so
/// reading what was packed gives the instruction back.
pub proof fn encoding_is_injective(first: ExchangeBoothInstruction, second: ExchangeBoothInstruction)
    requires
        encoding_of(first) == encoding_of(second),
    ensures
        first == second,
{
    encoding_shape(first);
    encoding_shape(second);
    assert(encoding_of(first)[0] == encoding_of(second)[0]);
}

} // verus!
