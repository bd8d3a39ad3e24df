use vstd::prelude::*;
use vstd::bytes::spec_u64_to_le_bytes;
use vstd::bytes::u64_to_le_bytes;
use vstd::slice::slice_to_vec;
use crate::error::ProtocolError;

verus! {

/// The most seeds a derivation takes, the discriminator included.
pub const MAX_SEEDS: usize = 16;

/// The most bytes a single seed holds.
pub const MAX_SEED_LEN: usize = 32;

/// A 32-byte address: of an account, a program, a mint or a derived authority.
#[derive(Clone, Copy, Debug, PartialEq, Eq, Hash)]
pub struct Identity {
    pub bytes: [u8; 32],
}

impl View for Identity {
    type V = Seq<u8>;

    open spec fn view(&self) -> Seq<u8> {
        self.bytes@
    }
}

impl Identity {
    /// The identity with these bytes.
    pub fn new(bytes: [u8; 32]) -> (r: Identity)
        ensures
            r.bytes == bytes,
            r@ == bytes@,
    {
        Identity { bytes }
    }

    /// Whether two identities are the same address.
    pub fn same(&self, other: &Identity) -> (r: bool)
        ensures
            r == (self@ == other@),
            r == (*self == *other),
    {
        proof {
            identity_by_bytes(*self, *other);
        }
        let mut i: usize = 0;
        while i < 32
            invariant
                i <= 32,
                forall|j: int| 0 <= j < i ==> self.bytes@[j] == other.bytes@[j],
            decreases 32 - i,
        {
            if self.bytes[i] != other.bytes[i] {
                return false;
            }
            i += 1;
        }
        assert(self.bytes@ =~= other.bytes@);
        true
    }

    /// The address as a vector of its 32 bytes.
    pub fn to_vec(&self) -> (r: Vec<u8>)
        ensures
            r@ == self@,
            r@.len() == 32,
    {
        let mut out: Vec<u8> = Vec::new();
        let mut i: usize = 0;
        while i < 32
            invariant
                i <= 32,
                out@.len() == i,
                forall|j: int| 0 <= j < i ==> out@[j] == self.bytes@[j],
            decreases 32 - i,
        {
            out.push(self.bytes[i]);
            i += 1;
        }
        assert(out@ =~= self.bytes@);
        out
    }

    /// The identity held in `data` at `offset`, if 32 bytes stand there.
    pub fn from_slice(data: &[u8], offset: usize) -> (r: Option<Identity>)
        ensures
            r is Some <==> offset + 32 <= data@.len(),
            r is Some ==> r.unwrap()@ == data@.subrange(offset as int, offset + 32),
    {
        let n: usize = data.len();
        if n < 32 || offset > n - 32 {
            return None;
        }
        let mut bytes: [u8; 32] = [0u8; 32];
        let mut i: usize = 0;
        while i < 32
            invariant
                i <= 32,
                n == data@.len(),
                offset + 32 <= n,
                forall|j: int| 0 <= j < i ==> bytes@[j] == data@[offset + j],
            decreases 32 - i,
        {
            bytes[i] = data[offset + i];
            i += 1;
        }
        assert(bytes@ =~= data@.subrange(offset as int, offset + 32));
        Some(Identity { bytes })
    }
}

/// Two identities with the same bytes are the same identity.
pub proof fn identity_by_bytes(a: Identity, b: Identity)
    ensures
        (a@ == b@) == (a == b),
{
    if a@ == b@ {
        assert(a.bytes =~= b.bytes);
    }
}

/// The address that the host's derivation function gives for a list of seeds
/// under a program: the hash of the seeds, the program and a fixed marker, or
/// `None` where that hash is a point of the signature curve and so may have a
/// private key.
pub uninterp spec fn program_address(seeds: Seq<Seq<u8>>, program: Seq<u8>) -> Option<Seq<u8>>;

/// A list of seeds as the byte strings it holds.
pub open spec fn seeds_view(seeds: Seq<Vec<u8>>) -> Seq<Seq<u8>> {
    Seq::new(seeds.len(), |i: int| seeds[i]@)
}

/// Whether the derivation function takes this list: at most 16 seeds of at most 32 bytes.
pub open spec fn seeds_fit(seeds: Seq<Seq<u8>>) -> bool {
    &&& seeds.len() <= MAX_SEEDS
    &&& forall|i: int| 0 <= i < seeds.len() ==> (#[trigger] seeds[i]).len() <= MAX_SEED_LEN
}

/// The identity that a full list of seeds stands for, if any.
pub open spec fn address_of(seeds: Seq<Seq<u8>>, program: Seq<u8>) -> Option<Seq<u8>> {
    if seeds_fit(seeds) {
        program_address(seeds, program)
    } else {
        None
    }
}

/// The seeds with the discriminator byte appended as a last seed of its own.
pub open spec fn with_discriminator(seeds: Seq<Seq<u8>>, discriminator: u8) -> Seq<Seq<u8>> {
    seeds.push(seq![discriminator])
}

/// `(address, discriminator)` is the derived identity of `seeds` under `program`:
/// the discriminator is the largest of 255 down to 1 that yields an address, and
/// the address is the one it yields.
pub open spec fn is_derivation(
    seeds: Seq<Seq<u8>>,
    program: Seq<u8>,
    address: Seq<u8>,
    discriminator: u8,
) -> bool {
    &&& discriminator >= 1
    &&& address_of(with_discriminator(seeds, discriminator), program) == Some(address)
    &&& forall|d: u8|
        discriminator < d ==> address_of(#[trigger] with_discriminator(seeds, d), program) is None
}

/// No discriminator from 255 down to 1 yields an address for `seeds`.
pub open spec fn underivable(seeds: Seq<Seq<u8>>, program: Seq<u8>) -> bool {
    forall|d: u8| d >= 1 ==> address_of(#[trigger] with_discriminator(seeds, d), program) is None
}

/// The derived identity of `seeds` under `program` with its discriminator, if
/// there is one.
pub open spec fn derived(seeds: Seq<Seq<u8>>, program: Seq<u8>) -> Option<(Seq<u8>, u8)> {
    if exists|p: (Seq<u8>, u8)| is_derivation(seeds, program, p.0, p.1) {
        Some(choose|p: (Seq<u8>, u8)| is_derivation(seeds, program, p.0, p.1))
    } else {
        None
    }
}

/// Whether `candidate` is the identity that `seeds` and `discriminator` stand for.
pub open spec fn verifies(
    candidate: Seq<u8>,
    seeds: Seq<Seq<u8>>,
    discriminator: u8,
    program: Seq<u8>,
) -> bool {
    address_of(with_discriminator(seeds, discriminator), program) == Some(candidate)
}

/// Why a full list of seeds has no address.
#[derive(Clone, Copy, Debug, PartialEq, Eq, Structural)]
pub enum SeedFault {
    /// More than 16 seeds, or one of more than 32 bytes.
    TooLong,
    /// The hash is a point of the signature curve.
    OnCurve,
}

/// Calls `solana_program::pubkey::Pubkey::create_program_address`. The contract
/// claims: over-long seed lists are refused as `TooLong`; otherwise the result is
/// the named address of these seeds, `OnCurve` where there is none.
#[verifier::external_body]
fn create_program_address(seeds: &Vec<Vec<u8>>, program: &Identity) -> (r: Result<Identity, SeedFault>)
    ensures
        !seeds_fit(seeds_view(seeds@)) ==> r is Err && r->Err_0 == SeedFault::TooLong,
        seeds_fit(seeds_view(seeds@)) && program_address(seeds_view(seeds@), program@) is None
            ==> r is Err && r->Err_0 == SeedFault::OnCurve,
        seeds_fit(seeds_view(seeds@)) && program_address(seeds_view(seeds@), program@) is Some
            ==> r is Ok && Some(r.unwrap()@) == program_address(seeds_view(seeds@), program@),
{
    let parts: Vec<&[u8]> = seeds.iter().map(|s| s.as_slice()).collect();
    let id = solana_program::pubkey::Pubkey::new_from_array(program.bytes);
    match solana_program::pubkey::Pubkey::create_program_address(&parts, &id) {
        Ok(key) => Ok(Identity { bytes: key.to_bytes() }),
        Err(solana_program::pubkey::PubkeyError::InvalidSeeds) => Err(SeedFault::OnCurve),
        Err(_) => Err(SeedFault::TooLong),
    }
}

/// Calls `solana_program::pubkey::Pubkey::try_find_program_address`. The contract
/// claims: it tries the discriminators 255 down to 1, each appended to the seeds,
/// and returns the first that has an address, with that address; `None` where
/// none has, which includes every seed list too long once a discriminator is
/// appended.
#[verifier::external_body]
fn try_find_program_address(seeds: &Vec<Vec<u8>>, program: &Identity) -> (r: Option<(Identity, u8)>)
    ensures
        r is Some ==> is_derivation(seeds_view(seeds@), program@, r.unwrap().0@, r.unwrap().1),
        r is None ==> underivable(seeds_view(seeds@), program@),
{
    let parts: Vec<&[u8]> = seeds.iter().map(|s| s.as_slice()).collect();
    let id = solana_program::pubkey::Pubkey::new_from_array(program.bytes);
    match solana_program::pubkey::Pubkey::try_find_program_address(&parts, &id) {
        Some((key, bump)) => Some((Identity { bytes: key.to_bytes() }, bump)),
        None => None,
    }
}

/// Derives the identity that `seeds` stand for under `program`, with its
/// discriminator byte.
pub fn derive(seeds: &Vec<Vec<u8>>, program: &Identity) -> (r: Result<(Identity, u8), ProtocolError>)
    ensures
        match r {
            Ok((address, discriminator)) => is_derivation(
                seeds_view(seeds@),
                program@,
                address@,
                discriminator,
            ),
            Err(e) => e == ProtocolError::DerivationExhausted && underivable(
                seeds_view(seeds@),
                program@,
            ),
        },
        derived(seeds_view(seeds@), program@) == match r {
            Ok((address, discriminator)) => Some((address@, discriminator)),
            Err(_) => None::<(Seq<u8>, u8)>,
        },
{
    match try_find_program_address(seeds, program) {
        Some(found) => {
            proof {
                derived_is_the_derivation(seeds_view(seeds@), program@, found.0@, found.1);
            }
            Ok(found)
        },
        None => {
            proof {
                underivable_has_none(seeds_view(seeds@), program@);
            }
            Err(ProtocolError::DerivationExhausted)
        },
    }
}

/// A copy of a list of seeds.
pub fn copy_seeds(seeds: &Vec<Vec<u8>>) -> (r: Vec<Vec<u8>>)
    ensures
        seeds_view(r@) == seeds_view(seeds@),
{
    let mut out: Vec<Vec<u8>> = Vec::new();
    let mut i: usize = 0;
    while i < seeds.len()
        invariant
            i <= seeds@.len(),
            out@.len() == i,
            forall|j: int| 0 <= j < i ==> out@[j]@ == seeds@[j]@,
        decreases seeds@.len() - i,
    {
        out.push(slice_to_vec(seeds[i].as_slice()));
        i += 1;
    }
    assert(seeds_view(out@) =~= seeds_view(seeds@));
    out
}

/// A copy of `seeds` with the discriminator appended as a last seed.
pub fn append_discriminator(seeds: &Vec<Vec<u8>>, discriminator: u8) -> (r: Vec<Vec<u8>>)
    ensures
        seeds_view(r@) == with_discriminator(seeds_view(seeds@), discriminator),
{
    let mut out = copy_seeds(seeds);
    let ghost copied = out@;
    let mut last: Vec<u8> = Vec::new();
    last.push(discriminator);
    assert(last@ =~= seq![discriminator]);
    out.push(last);
    assert(seeds_view(out@) =~= seeds_view(copied).push(seq![discriminator]));
    out
}

/// The identity that a full list of seeds, discriminator included, stands for.
pub fn address_for(seeds: &Vec<Vec<u8>>, program: &Identity) -> (r: Option<Identity>)
    ensures
        match address_of(seeds_view(seeds@), program@) {
            Some(address) => r is Some && r.unwrap()@ == address,
            None => r is None,
        },
{
    match create_program_address(seeds, program) {
        Ok(address) => Some(address),
        Err(_) => None,
    }
}

/// Recomputes the address of `seeds` with `discriminator` and compares it with
/// the candidate. It accepts exactly the identity that they stand for.
pub fn verify(candidate: &Identity, seeds: &Vec<Vec<u8>>, discriminator: u8, program: &Identity) -> (r:
    bool)
    ensures
        r == verifies(candidate@, seeds_view(seeds@), discriminator, program@),
{
    let full = append_discriminator(seeds, discriminator);
    match create_program_address(&full, program) {
        Ok(address) => address.same(candidate),
        Err(_) => false,
    }
}

/// Derivation is a function of its inputs: two derived identities of the same
/// seeds under the same program are one identity with one discriminator.
pub proof fn derivation_is_deterministic(
    seeds: Seq<Seq<u8>>,
    program: Seq<u8>,
    first: (Seq<u8>, u8),
    second: (Seq<u8>, u8),
)
    requires
        is_derivation(seeds, program, first.0, first.1),
        is_derivation(seeds, program, second.0, second.1),
    ensures
        first == second,
{
    if first.1 < second.1 {
        assert(address_of(with_discriminator(seeds, second.1), program) is None);
    } else if second.1 < first.1 {
        assert(address_of(with_discriminator(seeds, first.1), program) is None);
    }
}

/// An identity that is the derivation of its seeds is the derived identity.
pub proof fn derived_is_the_derivation(
    seeds: Seq<Seq<u8>>,
    program: Seq<u8>,
    address: Seq<u8>,
    discriminator: u8,
)
    requires
        is_derivation(seeds, program, address, discriminator),
    ensures
        derived(seeds, program) == Some((address, discriminator)),
{
    let found = (address, discriminator);
    assert(is_derivation(seeds, program, found.0, found.1));
    let chosen = choose|p: (Seq<u8>, u8)| is_derivation(seeds, program, p.0, p.1);
    derivation_is_deterministic(seeds, program, found, chosen);
}

/// The derived identity of seeds, where there is one, is their derivation.
pub proof fn derived_is_sound(seeds: Seq<Seq<u8>>, program: Seq<u8>)
    requires
        derived(seeds, program) is Some,
    ensures
        is_derivation(seeds, program, derived(seeds, program).unwrap().0, derived(seeds, program).unwrap().1),
        verifies(derived(seeds, program).unwrap().0, seeds, derived(seeds, program).unwrap().1, program),
{
}

/// Seeds for which no discriminator yields an address have no derived identity.
pub proof fn underivable_has_none(seeds: Seq<Seq<u8>>, program: Seq<u8>)
    requires
        underivable(seeds, program),
    ensures
        derived(seeds, program) is None,
{
    if exists|p: (Seq<u8>, u8)| is_derivation(seeds, program, p.0, p.1) {
        let p = choose|p: (Seq<u8>, u8)| is_derivation(seeds, program, p.0, p.1);
        derivation_excludes_exhaustion(seeds, program, p.0, p.1);
    }
}

/// Seeds that have a derived identity are not also reported as exhausted.
pub proof fn derivation_excludes_exhaustion(
    seeds: Seq<Seq<u8>>,
    program: Seq<u8>,
    address: Seq<u8>,
    discriminator: u8,
)
    requires
        is_derivation(seeds, program, address, discriminator),
    ensures
        !underivable(seeds, program),
{
    if underivable(seeds, program) {
        assert(address_of(with_discriminator(seeds, discriminator), program) is None);
    }
}

/// A derived identity passes verification with its own seeds and discriminator.
pub proof fn derived_identity_verifies(
    seeds: Seq<Seq<u8>>,
    program: Seq<u8>,
    address: Seq<u8>,
    discriminator: u8,
)
    requires
        is_derivation(seeds, program, address, discriminator),
    ensures
        verifies(address, seeds, discriminator, program),
{
}

/// Verification accepts at most one candidate for given seeds and discriminator.
pub proof fn verification_is_sound(
    candidate: Seq<u8>,
    other: Seq<u8>,
    seeds: Seq<Seq<u8>>,
    discriminator: u8,
    program: Seq<u8>,
)
    requires
        verifies(candidate, seeds, discriminator, program),
        other != candidate,
    ensures
        !verifies(other, seeds, discriminator, program),
{
}

/// The domain tag of authorized buffers: the ASCII text `authority`.
pub open spec fn authority_tag() -> Seq<u8> {
    seq![97u8, 117, 116, 104, 111, 114, 105, 116, 121]
}

/// The domain tag of vending buffers: the ASCII text `vending_machine`.
pub open spec fn vending_tag() -> Seq<u8> {
    seq![118u8, 101, 110, 100, 105, 110, 103, 95, 109, 97, 99, 104, 105, 110, 101]
}

/// The domain tag of exchange booths: the ASCII text `exchange_booth`.
pub open spec fn booth_tag() -> Seq<u8> {
    seq![101u8, 120, 99, 104, 97, 110, 103, 101, 95, 98, 111, 111, 116, 104]
}

/// The seeds of an authorized buffer: tag, requester, seed value.
pub open spec fn authority_seed_list(requester: Seq<u8>, seed_value: u64) -> Seq<Seq<u8>> {
    seq![authority_tag(), requester, spec_u64_to_le_bytes(seed_value)]
}

/// The seeds of a vending buffer: tag, mint, price.
pub open spec fn vending_seed_list(mint: Seq<u8>, price: u64) -> Seq<Seq<u8>> {
    seq![vending_tag(), mint, spec_u64_to_le_bytes(price)]
}

/// The seeds of the authority that signs for a booth's vault of one mint.
pub open spec fn vault_seed_list(registry: Seq<u8>, mint: Seq<u8>) -> Seq<Seq<u8>> {
    seq![registry, mint]
}

/// The seeds of an exchange booth's own address.
pub open spec fn booth_seed_list(
    admin: Seq<u8>,
    mint_a: Seq<u8>,
    mint_b: Seq<u8>,
    oracle: Seq<u8>,
) -> Seq<Seq<u8>> {
    seq![booth_tag(), admin, mint_a, mint_b, oracle]
}

/// The seeds of the authorized buffer that `requester` asks for with `seed_value`.
pub fn authority_seeds(requester: &Identity, seed_value: u64) -> (r: Vec<Vec<u8>>)
    ensures
        seeds_view(r@) == authority_seed_list(requester@, seed_value),
{
    let tag: Vec<u8> = vec![97u8, 117, 116, 104, 111, 114, 105, 116, 121];
    assert(tag@ =~= authority_tag());
    let r: Vec<Vec<u8>> = vec![tag, requester.to_vec(), u64_to_le_bytes(seed_value)];
    assert(seeds_view(r@) =~= authority_seed_list(requester@, seed_value));
    r
}

/// The seeds of the vending buffer that sells writes for `price` units of `mint`.
pub fn vending_seeds(mint: &Identity, price: u64) -> (r: Vec<Vec<u8>>)
    ensures
        seeds_view(r@) == vending_seed_list(mint@, price),
{
    let tag: Vec<u8> = vec![
        118u8, 101, 110, 100, 105, 110, 103, 95, 109, 97, 99, 104, 105, 110, 101,
    ];
    assert(tag@ =~= vending_tag());
    let r: Vec<Vec<u8>> = vec![tag, mint.to_vec(), u64_to_le_bytes(price)];
    assert(seeds_view(r@) =~= vending_seed_list(mint@, price));
    r
}

/// The seeds of the authority of the vault that a booth keeps for `mint`.
pub fn vault_seeds(registry: &Identity, mint: &Identity) -> (r: Vec<Vec<u8>>)
    ensures
        seeds_view(r@) == vault_seed_list(registry@, mint@),
{
    let r: Vec<Vec<u8>> = vec![registry.to_vec(), mint.to_vec()];
    assert(seeds_view(r@) =~= vault_seed_list(registry@, mint@));
    r
}

/// The seeds of the booth that `admin` runs between two mints at the rate of `oracle`.
pub fn booth_seeds(admin: &Identity, mint_a: &Identity, mint_b: &Identity, oracle: &Identity) -> (r:
    Vec<Vec<u8>>)
    ensures
        seeds_view(r@) == booth_seed_list(admin@, mint_a@, mint_b@, oracle@),
{
    let tag: Vec<u8> = vec![101u8, 120, 99, 104, 97, 110, 103, 101, 95, 98, 111, 111, 116, 104];
    assert(tag@ =~= booth_tag());
    let r: Vec<Vec<u8>> = vec![
        tag,
        admin.to_vec(),
        mint_a.to_vec(),
        mint_b.to_vec(),
        oracle.to_vec(),
    ];
    assert(seeds_view(r@) =~= booth_seed_list(admin@, mint_a@, mint_b@, oracle@));
    r
}

} // verus!
