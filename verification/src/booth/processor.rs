//! The operations of the exchange booth, one module each, and the program
//! that reads a request and hands it to the operation it names.

use vstd::prelude::*;
use crate::booth::instruction::encoding_is_injective;
use crate::booth::instruction::encoding_of;
use crate::booth::instruction::ExchangeBoothInstruction;
use crate::booth::state::live_booth;
use crate::booth::state::BoothView;
use crate::booth::state::ExchangeBooth;
use crate::derivation::append_discriminator;
use crate::derivation::derived;
use crate::derivation::seeds_view;
use crate::derivation::vault_seed_list;
use crate::derivation::vault_seeds;
use crate::derivation::with_discriminator;
use crate::derivation::Identity;
use crate::error::ProtocolError;
use crate::host::accounts_view;
use crate::host::ended_as;
use crate::host::Account;
use crate::host::AccountView;
use crate::host::Invocation;
use crate::host::Outcome;

pub mod close_exchange_booth;
pub mod deposit;
pub mod exchange;
pub mod initialize_exchange_booth;
pub mod withdraw;

verus! {

/// The exchange booth program: it takes a request with the accounts it names
/// and says what becomes of them.
pub struct Processor {}

/// The seeds with which a booth's vault signs for itself, or why it cannot:
/// the vault's address must be the one derived from the registry's address
/// and the mint.
pub open spec fn vault_signature(
    program: Identity,
    registry: Identity,
    mint: Identity,
    vault: Identity,
) -> Result<Seq<Seq<u8>>, ProtocolError> {
    match derived(vault_seed_list(registry@, mint@), program@) {
        None => Err(ProtocolError::DerivationExhausted),
        Some((address, discriminator)) => if address != vault@ {
            Err(ProtocolError::InvalidAuthority)
        } else {
            Ok(with_discriminator(vault_seed_list(registry@, mint@), discriminator))
        },
    }
}

/// Derives the authority of a booth's vault and checks the vault against it.
pub fn sign_for_vault(program: &Identity, registry: &Identity, mint: &Identity, vault: &Identity) -> (r:
    Result<Vec<Vec<u8>>, ProtocolError>)
    ensures
        match vault_signature(*program, *registry, *mint, *vault) {
            Ok(seeds) => r is Ok && seeds_view(r.unwrap()@) == seeds,
            Err(e) => r is Err && r->Err_0 == e,
        },
{
    let seeds = vault_seeds(registry, mint);
    match crate::derivation::derive(&seeds, program) {
        Ok((address, discriminator)) => {
            if !address.same(vault) {
                Err(ProtocolError::InvalidAuthority)
            } else {
                Ok(append_discriminator(&seeds, discriminator))
            }
        },
        Err(e) => Err(e),
    }
}

/// Reads the registry record of an open booth from its account.
pub fn read_booth(account: &Account) -> (r: Result<ExchangeBooth, ProtocolError>)
    ensures
        match live_booth(account@.data) {
            Some(booth) => r is Ok && r.unwrap()@ == booth,
            None => r is Err && r->Err_0 == ProtocolError::InvalidAccountData,
        },
{
    match ExchangeBooth::decode(account.data.as_slice()) {
        Some(booth) => {
            if booth.is_initialized {
                Ok(booth)
            } else {
                Err(ProtocolError::InvalidAccountData)
            }
        },
        None => Err(ProtocolError::InvalidAccountData),
    }
}

/// Whether the account is the booth's administrator and has signed.
pub open spec fn is_admin(account: AccountView, booth: BoothView) -> bool {
    account.key@ == booth.admin && account.is_signer
}

/// The outcome of a step that changes no account: the accounts as they
/// were, with the requests that the step makes.
pub open spec fn unchanged(
    accounts: Seq<AccountView>,
    requests: Result<Seq<crate::host::InvocationView>, ProtocolError>,
) -> Outcome {
    match requests {
        Ok(requests) => Ok((accounts, requests)),
        Err(e) => Err(e),
    }
}

/// What the program does with an instruction: what the operation that the
/// instruction names does with the accounts.
pub open spec fn outcome(
    program: Identity,
    accounts: Seq<AccountView>,
    instruction: ExchangeBoothInstruction,
    booth_rent: u64,
    vault_rent: u64,
) -> Outcome {
    match instruction {
        ExchangeBoothInstruction::InitializeExchangeBooth => initialize_exchange_booth::outcome(
            program,
            accounts,
            booth_rent,
            vault_rent,
        ),
        ExchangeBoothInstruction::Deposit { amount } => unchanged(
            accounts,
            deposit::requests(accounts, amount),
        ),
        ExchangeBoothInstruction::Withdraw { amount } => unchanged(
            accounts,
            withdraw::requests(program, accounts, amount),
        ),
        ExchangeBoothInstruction::Exchange { amount } => unchanged(
            accounts,
            exchange::requests(program, accounts, amount),
        ),
        ExchangeBoothInstruction::CloseExchangeBooth => close_exchange_booth::outcome(accounts),
    }
}

impl Processor {
    /// Reads a request and carries it out on the accounts that come with it.
    /// A request that is no instruction is refused as malformed; the
    /// instruction that it encodes ends as its outcome says. `booth_rent` and
    /// `vault_rent` are the host's minimum balances for a registry record and
    /// for an asset account.
    pub fn process_instruction(
        program_id: &Identity,
        accounts: &mut Vec<Account>,
        instruction_data: &[u8],
        booth_rent: u64,
        vault_rent: u64,
    ) -> (r: Result<Vec<Invocation>, ProtocolError>)
        ensures
            (forall|i: ExchangeBoothInstruction| encoding_of(i) != instruction_data@) ==> r is Err
                && r->Err_0 == ProtocolError::InvalidEncoding && final(accounts)@ == old(accounts)@,
            forall|i: ExchangeBoothInstruction|
                encoding_of(i) == instruction_data@ ==> ended_as(
                    #[trigger] outcome(
                        *program_id,
                        accounts_view(old(accounts)@),
                        i,
                        booth_rent,
                        vault_rent,
                    ),
                    old(accounts)@,
                    final(accounts)@,
                    r,
                ),
    {
        let instruction = match ExchangeBoothInstruction::unpack(instruction_data) {
            Ok(instruction) => instruction,
            Err(e) => {
                return Err(e);
            },
        };
        proof {
            assert forall|i: ExchangeBoothInstruction|
                encoding_of(i) == instruction_data@ implies i == instruction by {
                encoding_is_injective(i, instruction);
            }
        }
        match instruction {
            ExchangeBoothInstruction::InitializeExchangeBooth => initialize_exchange_booth::process(
                program_id,
                accounts,
                booth_rent,
                vault_rent,
            ),
            ExchangeBoothInstruction::Deposit { amount } => deposit::process(accounts, amount),
            ExchangeBoothInstruction::Withdraw { amount } => withdraw::process(
                program_id,
                accounts,
                amount,
            ),
            ExchangeBoothInstruction::Exchange { amount } => exchange::process(
                program_id,
                accounts,
                amount,
            ),
            ExchangeBoothInstruction::CloseExchangeBooth => close_exchange_booth::process(accounts),
        }
    }
}

/// The record of an open booth never changes while the booth lives: whatever
/// instruction succeeds, an account that held the record of an open booth
/// holds the same record afterwards, unless the instruction closed that very
/// booth.
pub proof fn open_booth_record_is_immutable(
    program: Identity,
    accounts: Seq<AccountView>,
    instruction: ExchangeBoothInstruction,
    booth_rent: u64,
    vault_rent: u64,
    at: int,
)
    requires
        outcome(program, accounts, instruction, booth_rent, vault_rent) is Ok,
        0 <= at < accounts.len(),
        live_booth(accounts[at].data) is Some,
    ensures
        ({
            let after = outcome(program, accounts, instruction, booth_rent, vault_rent).unwrap().0;
            &&& after.len() == accounts.len()
            &&& after[at].key == accounts[at].key
            &&& live_booth(after[at].data) == live_booth(accounts[at].data) || (instruction
                == ExchangeBoothInstruction::CloseExchangeBooth && at == 1)
        }),
{
}

/// An exchange asks nothing of the caller but a signature that the asset
/// ledger will check: whether it is accepted does not depend on who the
/// caller is.
pub proof fn exchange_is_open_to_all(
    program: Identity,
    accounts: Seq<AccountView>,
    caller: AccountView,
    amount: u64,
)
    requires
        accounts.len() >= 8,
    ensures
        exchange::failure(program, accounts.update(5, caller), amount) == exchange::failure(
            program,
            accounts,
            amount,
        ),
{
}

} // verus!
