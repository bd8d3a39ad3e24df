use vstd::prelude::*;
use crate::codec::all_zero;
use crate::codec::is_all_zero;
use crate::codec::overwrite;
use crate::codec::overwrite_leaves_mark;
use crate::codec::overwrite_replaces;
use crate::codec::overwritten;
use crate::codec::zero_record;
use crate::codec::zeroed;
use crate::derivation::append_discriminator;
use crate::derivation::authority_seed_list;
use crate::derivation::authority_seeds;
use crate::derivation::derived;
use crate::derivation::seeds_view;
use crate::derivation::vending_seed_list;
use crate::derivation::vending_seeds;
use crate::derivation::verifies;
use crate::derivation::verify;
use crate::derivation::with_discriminator;
use crate::derivation::Identity;
use crate::echo::error::EchoError;
use crate::echo::instruction::encodable;
use crate::echo::instruction::encoding_is_injective;
use crate::echo::instruction::encoding_of;
use crate::echo::instruction::EchoInstruction;
use crate::echo::state::encode_header;
use crate::echo::state::header_bytes;
use crate::echo::state::header_of;
use crate::echo::state::payload_of;
use crate::echo::state::AuthorizedBufferHeader;
use crate::echo::state::VendingMachineBufferHeader;
use crate::echo::state::HEADER_LEN;
use crate::error::ProtocolError;
use crate::host::accounts_view;
use crate::host::ended_as;
use crate::host::invocations_view;
use crate::host::unsigned;
use crate::host::Account;
use crate::host::AccountView;
use crate::host::Invocation;
use crate::host::InvocationView;
use crate::host::Request;
use crate::host::Outcome;
use crate::host::MAX_RECORD_SIZE;

verus! {

/// The buffer program: it takes a request with the accounts it names and
/// says what becomes of them.
pub struct Processor {}

/// The balance that backs a new record: the host's minimum for its size, and
/// one unit at least.
pub open spec fn backing(rent_minimum: u64) -> u64 {
    if rent_minimum == 0 {
        1
    } else {
        rent_minimum
    }
}

/// What a plain buffer holds after a write, or why the write is refused: only
/// a buffer of zeros takes one.
pub open spec fn plain_write(buffer: AccountView, data: Seq<u8>) -> Result<AccountView, EchoError> {
    if !all_zero(buffer.data) {
        Err(EchoError::Nonzero)
    } else {
        Ok(buffer.with_data(overwritten(buffer.data, 0, data)))
    }
}

/// Why a buffer cannot be created, if it cannot; the first reason that applies.
pub open spec fn creation_failure(
    program: Identity,
    seeds: Seq<Seq<u8>>,
    buffer: AccountView,
    payer: AccountView,
    size: usize,
    rent_minimum: u64,
) -> Option<ProtocolError> {
    if size < HEADER_LEN {
        Some(ProtocolError::InvalidEncoding)
    } else if !payer.is_signer {
        Some(ProtocolError::Unauthorized)
    } else if derived(seeds, program@) is None {
        Some(ProtocolError::DerivationExhausted)
    } else if derived(seeds, program@).unwrap().0 != buffer.key@ {
        Some(ProtocolError::InvalidAuthority)
    } else if !buffer.is_vacant() {
        Some(ProtocolError::AlreadyInitialized)
    } else if size > MAX_RECORD_SIZE || payer.lamports < backing(rent_minimum) {
        Some(ProtocolError::AllocationFailed)
    } else {
        None
    }
}

/// A new record: the header, then zeros up to the size.
pub open spec fn created_record(discriminator: u8, number: u64, size: usize) -> Seq<u8> {
    overwritten(zeroed(size as nat), 0, header_bytes(discriminator, number))
}

/// The creation of a buffer at the address that `seeds` derive: the buffer
/// with its new record, owned by the program and backed by the payer; the
/// payer after the charge; and the allocation that the host is asked for,
/// signed by the derived address.
pub open spec fn creation(
    program: Identity,
    seeds: Seq<Seq<u8>>,
    buffer: AccountView,
    payer: AccountView,
    number: u64,
    size: usize,
    rent_minimum: u64,
) -> Result<(AccountView, AccountView, InvocationView), ProtocolError> {
    match creation_failure(program, seeds, buffer, payer, size, rent_minimum) {
        Some(e) => Err(e),
        None => {
            let discriminator = derived(seeds, program@).unwrap().1;
            Ok(
                (
                    AccountView {
                        key: buffer.key,
                        is_signer: buffer.is_signer,
                        lamports: backing(rent_minimum),
                        data: created_record(discriminator, number, size),
                        owner: program,
                    },
                    payer.with_lamports((payer.lamports - backing(rent_minimum)) as u64),
                    InvocationView {
                        request: Request::CreateAccount {
                            payer: payer.key,
                            address: buffer.key,
                            lamports: backing(rent_minimum),
                            space: size as u64,
                            owner: program,
                        },
                        signer_seeds: with_discriminator(seeds, discriminator),
                    },
                ),
            )
        },
    }
}

/// Why a write to an authorized buffer is refused, if it is: the writer must
/// have signed, and the buffer's address must be the one derived from the
/// writer and the seed value in the header.
pub open spec fn authorized_write_failure(
    program: Identity,
    buffer: AccountView,
    authority: AccountView,
) -> Option<ProtocolError> {
    if !authority.is_signer {
        Some(ProtocolError::Unauthorized)
    } else if buffer.data.len() < HEADER_LEN {
        Some(ProtocolError::InvalidAccountData)
    } else if !verifies(
        buffer.key@,
        authority_seed_list(authority.key@, header_of(buffer.data).1),
        header_of(buffer.data).0,
        program@,
    ) {
        Some(ProtocolError::InvalidAuthority)
    } else {
        None
    }
}

/// What an authorized buffer holds after a write: the header as it was, then
/// the data, cut or filled with zeros to the buffer's capacity.
pub open spec fn authorized_write(
    program: Identity,
    buffer: AccountView,
    authority: AccountView,
    data: Seq<u8>,
) -> Result<AccountView, ProtocolError> {
    match authorized_write_failure(program, buffer, authority) {
        Some(e) => Err(e),
        None => Ok(buffer.with_data(overwritten(buffer.data, HEADER_LEN as int, data))),
    }
}

/// Why a write to a vending buffer is refused, if it is: the buffer's address
/// must be the one derived from the mint and the price in the header, and the
/// buyer must have signed.
pub open spec fn vending_write_failure(
    program: Identity,
    buffer: AccountView,
    user: AccountView,
    mint: AccountView,
) -> Option<ProtocolError> {
    if buffer.data.len() < HEADER_LEN {
        Some(ProtocolError::InvalidAccountData)
    } else if !verifies(
        buffer.key@,
        vending_seed_list(mint.key@, header_of(buffer.data).1),
        header_of(buffer.data).0,
        program@,
    ) {
        Some(ProtocolError::InvalidAuthority)
    } else if !user.is_signer {
        Some(ProtocolError::Unauthorized)
    } else {
        None
    }
}

/// A write to a vending buffer: the buffer after it, and the burning of the
/// price from the buyer's asset account, which the asset ledger is asked for.
pub open spec fn vending_write(
    program: Identity,
    buffer: AccountView,
    user: AccountView,
    user_tokens: AccountView,
    mint: AccountView,
    data: Seq<u8>,
) -> Result<(AccountView, InvocationView), ProtocolError> {
    match vending_write_failure(program, buffer, user, mint) {
        Some(e) => Err(e),
        None => Ok(
            (
                buffer.with_data(overwritten(buffer.data, HEADER_LEN as int, data)),
                unsigned(
                    Request::Burn {
                        account: user_tokens.key,
                        mint: mint.key,
                        authority: user.key,
                        amount: header_of(buffer.data).1,
                    },
                ),
            ),
        ),
    }
}

/// Writes to a plain buffer, which takes the first write and no other.
pub fn write_plain(buffer: &Account, data: &[u8]) -> (r: Result<Account, EchoError>)
    ensures
        match plain_write(buffer@, data@) {
            Ok(after) => r is Ok && r.unwrap()@ == after,
            Err(e) => r is Err && r->Err_0 == e,
        },
{
    if !is_all_zero(buffer.data.as_slice()) {
        return Err(EchoError::Nonzero);
    }
    Ok(buffer.with_data(overwrite(buffer.data.as_slice(), 0, data)))
}

/// Creates a buffer at the address that `seeds` derive under the program.
fn create_buffer(
    program: &Identity,
    seeds: &Vec<Vec<u8>>,
    buffer: &Account,
    payer: &Account,
    number: u64,
    size: usize,
    rent_minimum: u64,
) -> (r: Result<(Account, Account, Invocation), ProtocolError>)
    ensures
        match creation(*program, seeds_view(seeds@), buffer@, payer@, number, size, rent_minimum) {
            Ok((made, charged, request)) => r is Ok && r.unwrap().0@ == made && r.unwrap().1@
                == charged && r.unwrap().2@ == request,
            Err(e) => r is Err && r->Err_0 == e,
        },
{
    if size < HEADER_LEN {
        return Err(ProtocolError::InvalidEncoding);
    }
    if !payer.is_signer {
        return Err(ProtocolError::Unauthorized);
    }
    let (address, discriminator) = match crate::derivation::derive(seeds, program) {
        Ok(found) => found,
        Err(e) => {
            return Err(e);
        },
    };
    if !address.same(&buffer.key) {
        return Err(ProtocolError::InvalidAuthority);
    }
    if !buffer.vacant() {
        return Err(ProtocolError::AlreadyInitialized);
    }
    let cost: u64 = if rent_minimum == 0 {
        1
    } else {
        rent_minimum
    };
    if size as u64 > MAX_RECORD_SIZE || payer.lamports < cost {
        return Err(ProtocolError::AllocationFailed);
    }
    let header = encode_header(discriminator, number);
    let blank = zero_record(size);
    let record = overwrite(blank.as_slice(), 0, header.as_slice());
    let made = Account {
        key: buffer.key,
        is_signer: buffer.is_signer,
        lamports: cost,
        data: record,
        owner: *program,
    };
    let charged = payer.with_lamports(payer.lamports - cost);
    let request = Invocation {
        request: Request::CreateAccount {
            payer: payer.key,
            address: buffer.key,
            lamports: cost,
            space: size as u64,
            owner: *program,
        },
        signer_seeds: append_discriminator(seeds, discriminator),
    };
    Ok((made, charged, request))
}

/// Creates an authorized buffer of `size` bytes for the requester, at the
/// address derived from the requester and the seed value.
pub fn initialize_authorized(
    program: &Identity,
    buffer: &Account,
    authority: &Account,
    seed_value: u64,
    size: usize,
    rent_minimum: u64,
) -> (r: Result<(Account, Account, Invocation), ProtocolError>)
    ensures
        match creation(
            *program,
            authority_seed_list(authority.key@, seed_value),
            buffer@,
            authority@,
            seed_value,
            size,
            rent_minimum,
        ) {
            Ok((made, charged, request)) => r is Ok && r.unwrap().0@ == made && r.unwrap().1@
                == charged && r.unwrap().2@ == request,
            Err(e) => r is Err && r->Err_0 == e,
        },
{
    let seeds = authority_seeds(&authority.key, seed_value);
    create_buffer(program, &seeds, buffer, authority, seed_value, size, rent_minimum)
}

/// Creates a vending buffer of `size` bytes, at the address derived from the
/// mint and the price.
pub fn initialize_vending(
    program: &Identity,
    buffer: &Account,
    mint: &Account,
    payer: &Account,
    price: u64,
    size: usize,
    rent_minimum: u64,
) -> (r: Result<(Account, Account, Invocation), ProtocolError>)
    ensures
        match creation(
            *program,
            vending_seed_list(mint.key@, price),
            buffer@,
            payer@,
            price,
            size,
            rent_minimum,
        ) {
            Ok((made, charged, request)) => r is Ok && r.unwrap().0@ == made && r.unwrap().1@
                == charged && r.unwrap().2@ == request,
            Err(e) => r is Err && r->Err_0 == e,
        },
{
    let seeds = vending_seeds(&mint.key, price);
    create_buffer(program, &seeds, buffer, payer, price, size, rent_minimum)
}

/// Replaces the payload of an authorized buffer.
pub fn write_authorized(program: &Identity, buffer: &Account, authority: &Account, data: &[u8]) -> (r:
    Result<Account, ProtocolError>)
    ensures
        match authorized_write(*program, buffer@, authority@, data@) {
            Ok(after) => r is Ok && r.unwrap()@ == after,
            Err(e) => r is Err && r->Err_0 == e,
        },
{
    if !authority.is_signer {
        return Err(ProtocolError::Unauthorized);
    }
    let header = match AuthorizedBufferHeader::decode(buffer.data.as_slice()) {
        Some(header) => header,
        None => {
            return Err(ProtocolError::InvalidAccountData);
        },
    };
    let seeds = authority_seeds(&authority.key, header.seed_value);
    if !verify(&buffer.key, &seeds, header.discriminator, program) {
        return Err(ProtocolError::InvalidAuthority);
    }
    Ok(buffer.with_data(overwrite(buffer.data.as_slice(), HEADER_LEN, data)))
}

/// Replaces the payload of a vending buffer and charges its price.
pub fn write_vending(
    program: &Identity,
    buffer: &Account,
    user: &Account,
    user_tokens: &Account,
    mint: &Account,
    data: &[u8],
) -> (r: Result<(Account, Invocation), ProtocolError>)
    ensures
        match vending_write(*program, buffer@, user@, user_tokens@, mint@, data@) {
            Ok((after, request)) => r is Ok && r.unwrap().0@ == after && r.unwrap().1@ == request,
            Err(e) => r is Err && r->Err_0 == e,
        },
{
    let header = match VendingMachineBufferHeader::decode(buffer.data.as_slice()) {
        Some(header) => header,
        None => {
            return Err(ProtocolError::InvalidAccountData);
        },
    };
    let seeds = vending_seeds(&mint.key, header.price);
    if !verify(&buffer.key, &seeds, header.discriminator, program) {
        return Err(ProtocolError::InvalidAuthority);
    }
    if !user.is_signer {
        return Err(ProtocolError::Unauthorized);
    }
    let request = Invocation::plain(
        Request::Burn {
            account: user_tokens.key,
            mint: mint.key,
            authority: user.key,
            amount: header.price,
        },
    );
    Ok((buffer.with_data(overwrite(buffer.data.as_slice(), HEADER_LEN, data)), request))
}

/// What the program does with a request: the first account is the buffer, and
/// the ones that follow are those that the kind of request names.
pub open spec fn outcome(
    program: Identity,
    accounts: Seq<AccountView>,
    instruction: EchoInstruction,
    rent_minimum: u64,
) -> Outcome {
    match instruction {
        EchoInstruction::Echo { data } => {
            if accounts.len() < 1 {
                Err(ProtocolError::InvalidEncoding)
            } else {
                match plain_write(accounts[0], data@) {
                    Ok(after) => Ok((accounts.update(0, after), Seq::empty())),
                    Err(_) => Err(ProtocolError::NonzeroPayload),
                }
            }
        },
        EchoInstruction::InitializeAuthorizedEcho { buffer_seed, buffer_size } => {
            if accounts.len() < 2 {
                Err(ProtocolError::InvalidEncoding)
            } else {
                match creation(
                    program,
                    authority_seed_list(accounts[1].key@, buffer_seed),
                    accounts[0],
                    accounts[1],
                    buffer_seed,
                    buffer_size,
                    rent_minimum,
                ) {
                    Ok((made, charged, request)) => Ok(
                        (accounts.update(0, made).update(1, charged), seq![request]),
                    ),
                    Err(e) => Err(e),
                }
            }
        },
        EchoInstruction::AuthorizedEcho { data } => {
            if accounts.len() < 2 {
                Err(ProtocolError::InvalidEncoding)
            } else {
                match authorized_write(program, accounts[0], accounts[1], data@) {
                    Ok(after) => Ok((accounts.update(0, after), Seq::empty())),
                    Err(e) => Err(e),
                }
            }
        },
        EchoInstruction::InitializeVendingMachineEcho { price, buffer_size } => {
            if accounts.len() < 3 {
                Err(ProtocolError::InvalidEncoding)
            } else {
                match creation(
                    program,
                    vending_seed_list(accounts[1].key@, price),
                    accounts[0],
                    accounts[2],
                    price,
                    buffer_size,
                    rent_minimum,
                ) {
                    Ok((made, charged, request)) => Ok(
                        (accounts.update(0, made).update(2, charged), seq![request]),
                    ),
                    Err(e) => Err(e),
                }
            }
        },
        EchoInstruction::VendingMachineEcho { data } => {
            if accounts.len() < 4 {
                Err(ProtocolError::InvalidEncoding)
            } else {
                match vending_write(
                    program,
                    accounts[0],
                    accounts[1],
                    accounts[2],
                    accounts[3],
                    data@,
                ) {
                    Ok((after, request)) => Ok((accounts.update(0, after), seq![request])),
                    Err(e) => Err(e),
                }
            }
        },
    }
}

impl Processor {
    /// Carries out one instruction on the accounts that come with it.
    /// `rent_minimum` is the balance that the host demands for a record of
    /// the size that the instruction asks for; it counts only where a buffer
    /// is created.
    pub fn process(
        program_id: &Identity,
        accounts: &mut Vec<Account>,
        instruction: &EchoInstruction,
        rent_minimum: u64,
    ) -> (r: Result<Vec<Invocation>, ProtocolError>)
        ensures
            ended_as(
                outcome(*program_id, accounts_view(old(accounts)@), *instruction, rent_minimum),
                old(accounts)@,
                final(accounts)@,
                r,
            ),
    {
        let mut requests: Vec<Invocation> = Vec::new();
        match instruction {
            EchoInstruction::Echo { data } => {
                if accounts.len() < 1 {
                    return Err(ProtocolError::InvalidEncoding);
                }
                match write_plain(&accounts[0], data.as_slice()) {
                    Ok(after) => {
                        accounts.set(0, after);
                    },
                    Err(e) => {
                        return Err(ProtocolError::from(e));
                    },
                }
            },
            EchoInstruction::InitializeAuthorizedEcho { buffer_seed, buffer_size } => {
                if accounts.len() < 2 {
                    return Err(ProtocolError::InvalidEncoding);
                }
                match initialize_authorized(
                    program_id,
                    &accounts[0],
                    &accounts[1],
                    *buffer_seed,
                    *buffer_size,
                    rent_minimum,
                ) {
                    Ok((made, charged, request)) => {
                        accounts.set(0, made);
                        accounts.set(1, charged);
                        requests.push(request);
                    },
                    Err(e) => {
                        return Err(e);
                    },
                }
            },
            EchoInstruction::AuthorizedEcho { data } => {
                if accounts.len() < 2 {
                    return Err(ProtocolError::InvalidEncoding);
                }
                match write_authorized(program_id, &accounts[0], &accounts[1], data.as_slice()) {
                    Ok(after) => {
                        accounts.set(0, after);
                    },
                    Err(e) => {
                        return Err(e);
                    },
                }
            },
            EchoInstruction::InitializeVendingMachineEcho { price, buffer_size } => {
                if accounts.len() < 3 {
                    return Err(ProtocolError::InvalidEncoding);
                }
                match initialize_vending(
                    program_id,
                    &accounts[0],
                    &accounts[1],
                    &accounts[2],
                    *price,
                    *buffer_size,
                    rent_minimum,
                ) {
                    Ok((made, charged, request)) => {
                        accounts.set(0, made);
                        accounts.set(2, charged);
                        requests.push(request);
                    },
                    Err(e) => {
                        return Err(e);
                    },
                }
            },
            EchoInstruction::VendingMachineEcho { data } => {
                if accounts.len() < 4 {
                    return Err(ProtocolError::InvalidEncoding);
                }
                match write_vending(
                    program_id,
                    &accounts[0],
                    &accounts[1],
                    &accounts[2],
                    &accounts[3],
                    data.as_slice(),
                ) {
                    Ok((after, request)) => {
                        accounts.set(0, after);
                        requests.push(request);
                    },
                    Err(e) => {
                        return Err(e);
                    },
                }
            },
        }
        proof {
            let expected = outcome(
                *program_id,
                accounts_view(old(accounts)@),
                *instruction,
                rent_minimum,
            );
            assert(accounts_view(accounts@) =~= expected.unwrap().0);
            assert(invocations_view(requests@) =~= expected.unwrap().1);
        }
        Ok(requests)
    }

    /// Reads a request and carries it out on the accounts that come with it.
    /// A request that is no instruction is refused as malformed, and every
    /// instruction that the request encodes ends as its outcome says.
    /// `rent_minimum` is the balance that the host demands for a record of
    /// the size that the request asks for.
    pub fn process_instruction(
        program_id: &Identity,
        accounts: &mut Vec<Account>,
        instruction_data: &[u8],
        rent_minimum: u64,
    ) -> (r: Result<Vec<Invocation>, ProtocolError>)
        ensures
            (forall|i: EchoInstruction| encodable(i) ==> encoding_of(i) != instruction_data@) ==> r
                is Err && r->Err_0 == ProtocolError::InvalidEncoding && final(accounts)@ == old(
                accounts,
            )@,
            forall|i: EchoInstruction|
                encodable(i) && encoding_of(i) == instruction_data@ ==> ended_as(
                    #[trigger] outcome(*program_id, accounts_view(old(accounts)@), i, rent_minimum),
                    old(accounts)@,
                    final(accounts)@,
                    r,
                ),
    {
        let instruction = match EchoInstruction::unpack(instruction_data) {
            Ok(instruction) => instruction,
            Err(e) => {
                return Err(e);
            },
        };
        let r = Processor::process(program_id, accounts, &instruction, rent_minimum);
        proof {
            assert forall|i: EchoInstruction|
                encodable(i) && encoding_of(i) == instruction_data@ implies outcome(
                *program_id,
                accounts_view(old(accounts)@),
                i,
                rent_minimum,
            ) == outcome(*program_id, accounts_view(old(accounts)@), instruction, rent_minimum) by {
                encoding_is_injective(i, instruction);
            }
        }
        r
    }
}

/// A plain buffer takes the first write and no other: once a write has
/// carried a byte that is not zero into the buffer, every further write is
/// refused.
pub proof fn first_write_wins(buffer: AccountView, first: Seq<u8>, second: Seq<u8>, at: int)
    requires
        plain_write(buffer, first) is Ok,
        0 <= at < first.len(),
        at < buffer.data.len(),
        first[at] != 0,
    ensures
        plain_write(plain_write(buffer, first).unwrap(), second) is Err,
        plain_write(plain_write(buffer, first).unwrap(), second)->Err_0 == EchoError::Nonzero,
{
    overwrite_leaves_mark(buffer.data, 0, first, at);
}

/// An authorized buffer takes every write of its authority: a write that was
/// accepted once is accepted again with other data, and what the buffer then
/// holds is the header as it was and the later data alone, cut or filled with
/// zeros to the capacity.
pub proof fn authorized_overwrite(
    program: Identity,
    buffer: AccountView,
    authority: AccountView,
    first: Seq<u8>,
    second: Seq<u8>,
)
    requires
        authorized_write(program, buffer, authority, first) is Ok,
    ensures
        ({
            let once = authorized_write(program, buffer, authority, first).unwrap();
            let twice = authorized_write(program, once, authority, second);
            &&& twice is Ok
            &&& twice.unwrap().data == overwritten(buffer.data, HEADER_LEN as int, second)
            &&& twice.unwrap().data.subrange(0, HEADER_LEN as int) == buffer.data.subrange(
                0,
                HEADER_LEN as int,
            )
            &&& payload_of(twice.unwrap().data) == Seq::new(
                (buffer.data.len() - HEADER_LEN) as nat,
                |i: int|
                    if i < second.len() {
                        second[i]
                    } else {
                        0u8
                    },
            )
        }),
{
    let once = authorized_write(program, buffer, authority, first).unwrap();
    overwrite_replaces(buffer.data, HEADER_LEN as int, first, second);
    assert(once.data.subrange(1, HEADER_LEN as int) =~= buffer.data.subrange(1, HEADER_LEN as int));
    assert(header_of(once.data) == header_of(buffer.data));
    let twice = authorized_write(program, once, authority, second).unwrap();
    assert(payload_of(twice.data) =~= Seq::new(
        (buffer.data.len() - HEADER_LEN) as nat,
        |i: int|
            if i < second.len() {
                second[i]
            } else {
                0u8
            },
    ));
}

} // verus!
