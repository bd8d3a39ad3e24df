use vstd::prelude::*;
use vstd::bytes::lemma_auto_spec_u64_to_from_le_bytes;
use vstd::bytes::spec_u64_from_le_bytes;
use vstd::bytes::spec_u64_to_le_bytes;
use vstd::bytes::u64_to_le_bytes;
use crate::codec::decode_u64;
use crate::derivation::Identity;

verus! {

/// The number of bytes of a registry record.
pub const BOOTH_RECORD_SIZE: usize = 129;

/// What a price feed announces: how many units of the asset paid out one unit
/// of the asset paid in is worth.
#[derive(Clone, Copy, Debug, PartialEq, Eq, Structural)]
pub struct Oracle {
    pub exchange_rate: u64,
}

/// The registry record of an exchange booth. Once it is initialized its four
/// identities never change.
#[derive(Clone, Copy, Debug, PartialEq, Eq)]
pub struct ExchangeBooth {
    pub is_initialized: bool,
    pub admin: Identity,
    pub vault_a: Identity,
    pub vault_b: Identity,
    pub oracle: Identity,
}

/// What a registry record holds, as mathematical values.
pub struct BoothView {
    pub is_initialized: bool,
    pub admin: Seq<u8>,
    pub vault_a: Seq<u8>,
    pub vault_b: Seq<u8>,
    pub oracle: Seq<u8>,
}

impl View for ExchangeBooth {
    type V = BoothView;

    open spec fn view(&self) -> BoothView {
        BoothView {
            is_initialized: self.is_initialized,
            admin: self.admin@,
            vault_a: self.vault_a@,
            vault_b: self.vault_b@,
            oracle: self.oracle@,
        }
    }
}

/// The 129 bytes of a registry record: one byte for the flag, then the four
/// identities of 32 bytes each.
pub open spec fn booth_bytes(booth: BoothView) -> Seq<u8> {
    seq![if booth.is_initialized { 1u8 } else { 0u8 }] + booth.admin + booth.vault_a
        + booth.vault_b + booth.oracle
}

/// The registry record that a stored record holds, if it holds one: it must
/// be 129 bytes long and its flag byte 0 or 1.
pub open spec fn booth_of(record: Seq<u8>) -> Option<BoothView> {
    if record.len() == BOOTH_RECORD_SIZE && record[0] <= 1 {
        Some(
            BoothView {
                is_initialized: record[0] == 1,
                admin: record.subrange(1, 33),
                vault_a: record.subrange(33, 65),
                vault_b: record.subrange(65, 97),
                oracle: record.subrange(97, 129),
            },
        )
    } else {
        None
    }
}

/// The registry record of a booth that is open: the stored record must hold
/// one, and its flag must be set.
pub open spec fn live_booth(record: Seq<u8>) -> Option<BoothView> {
    match booth_of(record) {
        Some(booth) => if booth.is_initialized {
            Some(booth)
        } else {
            None
        },
        None => None,
    }
}

/// The rate that a price feed's payload holds, if it holds one: the payload
/// must be exactly the eight bytes of the rate.
pub open spec fn rate_of(payload: Seq<u8>) -> Option<u64> {
    if payload.len() == 8 {
        Some(spec_u64_from_le_bytes(payload))
    } else {
        None
    }
}

impl Oracle {
    /// The payload that announces this rate.
    pub fn encode(&self) -> (r: Vec<u8>)
        ensures
            r@ == spec_u64_to_le_bytes(self.exchange_rate),
            rate_of(r@) == Some(self.exchange_rate),
    {
        proof {
            lemma_auto_spec_u64_to_from_le_bytes();
        }
        u64_to_le_bytes(self.exchange_rate)
    }

    /// Reads the rate from a price feed's payload.
    pub fn decode(payload: &[u8]) -> (r: Option<Oracle>)
        ensures
            r is Some <==> rate_of(payload@) is Some,
            r is Some ==> Some(r.unwrap().exchange_rate) == rate_of(payload@),
    {
        match decode_u64(payload) {
            Some(exchange_rate) => Some(Oracle { exchange_rate }),
            None => None,
        }
    }
}

impl ExchangeBooth {
    /// The record as the 129 bytes in which it is stored.
    pub fn encode(&self) -> (r: Vec<u8>)
        ensures
            r@ == booth_bytes(self@),
            r@.len() == BOOTH_RECORD_SIZE,
            booth_of(r@) == Some(self@),
    {
        let mut out: Vec<u8> = Vec::new();
        out.push(if self.is_initialized { 1 } else { 0 });
        let mut admin = self.admin.to_vec();
        out.append(&mut admin);
        let mut vault_a = self.vault_a.to_vec();
        out.append(&mut vault_a);
        let mut vault_b = self.vault_b.to_vec();
        out.append(&mut vault_b);
        let mut oracle = self.oracle.to_vec();
        out.append(&mut oracle);
        proof {
            assert(out@ =~= booth_bytes(self@));
            booth_round_trip(self@);
        }
        out
    }

    /// Reads a registry record from the bytes in which it is stored.
    pub fn decode(record: &[u8]) -> (r: Option<ExchangeBooth>)
        ensures
            r is Some <==> booth_of(record@) is Some,
            r is Some ==> Some(r.unwrap()@) == booth_of(record@),
    {
        if record.len() != BOOTH_RECORD_SIZE || record[0] > 1 {
            return None;
        }
        let admin = Identity::from_slice(record, 1).unwrap();
        let vault_a = Identity::from_slice(record, 33).unwrap();
        let vault_b = Identity::from_slice(record, 65).unwrap();
        let oracle = Identity::from_slice(record, 97).unwrap();
        Some(ExchangeBooth { is_initialized: record[0] == 1, admin, vault_a, vault_b, oracle })
    }
}

/// A record whose identities are 32 bytes long is read back from its bytes as
/// it was written.
pub proof fn booth_round_trip(booth: BoothView)
    requires
        booth.admin.len() == 32,
        booth.vault_a.len() == 32,
        booth.vault_b.len() == 32,
        booth.oracle.len() == 32,
    ensures
        booth_bytes(booth).len() == BOOTH_RECORD_SIZE,
        booth_of(booth_bytes(booth)) == Some(booth),
{
    let record = booth_bytes(booth);
    assert(record.subrange(1, 33) =~= booth.admin);
    assert(record.subrange(33, 65) =~= booth.vault_a);
    assert(record.subrange(65, 97) =~= booth.vault_b);
    assert(record.subrange(97, 129) =~= booth.oracle);
}

} // verus!
