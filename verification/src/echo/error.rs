use vstd::prelude::*;
use vstd::std_specs::convert::FromSpecImpl;
use crate::error::ProtocolError;

verus! {

/// The failures that are the buffer program's own.
#[derive(Clone, Copy, Debug, PartialEq, Eq, Structural)]
pub enum EchoError {
    /// The instruction is not implemented.
    NotImplemented,
    /// The plain buffer holds data already.
    Nonzero,
}

impl EchoError {
    /// The number under which the host reports this failure.
    pub fn code(&self) -> (r: u32)
        ensures
            r == match *self {
                EchoError::NotImplemented => 0u32,
                EchoError::Nonzero => 1u32,
            },
    {
        match self {
            EchoError::NotImplemented => 0,
            EchoError::Nonzero => 1,
        }
    }

    /// The failure in words.
    pub fn message(&self) -> (r: &'static str)
        ensures
            r@ == match *self {
                EchoError::NotImplemented => "Instruction not implemented."@,
                EchoError::Nonzero => "Nonzero echo account data."@,
            },
    {
        match self {
            EchoError::NotImplemented => "Instruction not implemented.",
            EchoError::Nonzero => "Nonzero echo account data.",
        }
    }
}

impl From<EchoError> for ProtocolError {
    fn from(e: EchoError) -> (r: ProtocolError) {
        match e {
            EchoError::NotImplemented => ProtocolError::InvalidEncoding,
            EchoError::Nonzero => ProtocolError::NonzeroPayload,
        }
    }
}

impl FromSpecImpl<EchoError> for ProtocolError {
    open spec fn obeys_from_spec() -> bool {
        true
    }

    open spec fn from_spec(e: EchoError) -> ProtocolError {
        match e {
            EchoError::NotImplemented => ProtocolError::InvalidEncoding,
            EchoError::Nonzero => ProtocolError::NonzeroPayload,
        }
    }
}

} // verus!
