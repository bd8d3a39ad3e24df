use vstd::prelude::*;
use crate::booth::processor::sign_for_vault;
use crate::booth::processor::vault_signature;
use crate::booth::state::booth_bytes;
use crate::booth::state::booth_round_trip;
use crate::booth::state::live_booth;
use crate::booth::state::BoothView;
use crate::booth::state::ExchangeBooth;
use crate::booth::state::BOOTH_RECORD_SIZE;
use crate::codec::zero_record;
use crate::codec::zeroed;
use crate::derivation::append_discriminator;
use crate::derivation::booth_seed_list;
use crate::derivation::booth_seeds;
use crate::derivation::copy_seeds;
use crate::derivation::derived;
use crate::derivation::identity_by_bytes;
use crate::derivation::with_discriminator;
use crate::derivation::Identity;
use crate::error::ProtocolError;
use crate::host::accounts_view;
use crate::host::ended_as;
use crate::host::invocations_view;
use crate::host::token_identity;
use crate::host::token_program_id;
use crate::host::vault_record_size;
use crate::host::Account;
use crate::host::AccountView;
use crate::host::Invocation;
use crate::host::InvocationView;
use crate::host::Outcome;
use crate::host::Request;
use crate::host::VAULT_RECORD_SIZE;

verus! {

/// The seeds of the booth that the accounts describe: its administrator, its
/// two mints and its price feed.
pub open spec fn registry_seeds(accounts: Seq<AccountView>) -> Seq<Seq<u8>>
    recommends
        accounts.len() >= 10,
{
    booth_seed_list(accounts[0].key@, accounts[1].key@, accounts[2].key@, accounts[5].key@)
}

/// Why a booth cannot be created, if it cannot; the first reason that applies.
/// The accounts are the administrator, the two mints, the two vaults, the
/// price feed, the registry, and three that the host wants named.
pub open spec fn failure(
    program: Identity,
    accounts: Seq<AccountView>,
    booth_rent: u64,
    vault_rent: u64,
) -> Option<ProtocolError> {
    if accounts.len() < 10 {
        Some(ProtocolError::InvalidEncoding)
    } else if !accounts[0].is_signer {
        Some(ProtocolError::Unauthorized)
    } else if derived(registry_seeds(accounts), program@) is None {
        Some(ProtocolError::DerivationExhausted)
    } else if derived(registry_seeds(accounts), program@).unwrap().0 != accounts[6].key@ {
        Some(ProtocolError::InvalidAuthority)
    } else if !accounts[6].is_vacant() {
        Some(ProtocolError::AlreadyInitialized)
    } else if vault_signature(program, accounts[6].key, accounts[1].key, accounts[3].key) is Err {
        Some(vault_signature(program, accounts[6].key, accounts[1].key, accounts[3].key)->Err_0)
    } else if vault_signature(program, accounts[6].key, accounts[2].key, accounts[4].key) is Err {
        Some(vault_signature(program, accounts[6].key, accounts[2].key, accounts[4].key)->Err_0)
    } else if !accounts[3].is_vacant() || !accounts[4].is_vacant() || accounts[3].key
        == accounts[4].key {
        Some(ProtocolError::AlreadyInitialized)
    } else if accounts[0].lamports < booth_rent + 2 * vault_rent {
        Some(ProtocolError::AllocationFailed)
    } else {
        None
    }
}

/// A vault as it is once allocated: backed by the host's minimum, of the size
/// of an asset account, and owned by the asset ledger, which fills it.
pub open spec fn new_vault(vault: AccountView, vault_rent: u64) -> AccountView {
    AccountView {
        key: vault.key,
        is_signer: vault.is_signer,
        lamports: vault_rent,
        data: zeroed(VAULT_RECORD_SIZE as nat),
        owner: token_identity(),
    }
}

/// The registry record that is written: open, with the administrator, the two
/// vaults and the price feed that the accounts name.
pub open spec fn new_record(accounts: Seq<AccountView>) -> BoothView
    recommends
        accounts.len() >= 10,
{
    BoothView {
        is_initialized: true,
        admin: accounts[0].key@,
        vault_a: accounts[3].key@,
        vault_b: accounts[4].key@,
        oracle: accounts[5].key@,
    }
}

/// The two requests that make a vault: its allocation under the asset
/// ledger's ownership, and its opening as an asset account of the mint that
/// the vault itself signs for. Both are signed by the vault's derived address.
pub open spec fn vault_requests(
    payer: Identity,
    vault: Identity,
    mint: Identity,
    vault_rent: u64,
    seeds: Seq<Seq<u8>>,
) -> Seq<InvocationView> {
    seq![
        InvocationView {
            request: Request::CreateAccount {
                payer,
                address: vault,
                lamports: vault_rent,
                space: VAULT_RECORD_SIZE,
                owner: token_identity(),
            },
            signer_seeds: seeds,
        },
        InvocationView {
            request: Request::InitializeVault { vault, mint, authority: vault },
            signer_seeds: seeds,
        },
    ]
}

/// What creating a booth does: the registry is allocated at its derived
/// address and holds the new record; each vault is allocated at the address
/// derived from the registry and its mint; the administrator pays for all
/// three; and the host is asked for the allocations and the asset ledger for
/// the opening of the vaults.
pub open spec fn outcome(
    program: Identity,
    accounts: Seq<AccountView>,
    booth_rent: u64,
    vault_rent: u64,
) -> Outcome {
    match failure(program, accounts, booth_rent, vault_rent) {
        Some(e) => Err(e),
        None => {
            let admin = accounts[0];
            let registry = accounts[6];
            let discriminator = derived(registry_seeds(accounts), program@).unwrap().1;
            let seeds_a = vault_signature(program, registry.key, accounts[1].key, accounts[3].key).unwrap();
            let seeds_b = vault_signature(program, registry.key, accounts[2].key, accounts[4].key).unwrap();
            Ok(
                (
                    accounts.update(
                        0,
                        admin.with_lamports((admin.lamports - booth_rent - 2 * vault_rent) as u64),
                    ).update(3, new_vault(accounts[3], vault_rent)).update(
                        4,
                        new_vault(accounts[4], vault_rent),
                    ).update(
                        6,
                        AccountView {
                            key: registry.key,
                            is_signer: registry.is_signer,
                            lamports: booth_rent,
                            data: booth_bytes(new_record(accounts)),
                            owner: program,
                        },
                    ),
                    seq![
                        InvocationView {
                            request: Request::CreateAccount {
                                payer: admin.key,
                                address: registry.key,
                                lamports: booth_rent,
                                space: BOOTH_RECORD_SIZE as u64,
                                owner: program,
                            },
                            signer_seeds: with_discriminator(registry_seeds(accounts), discriminator),
                        },
                    ] + vault_requests(
                        admin.key,
                        accounts[3].key,
                        accounts[1].key,
                        vault_rent,
                        seeds_a,
                    ) + vault_requests(admin.key, accounts[4].key, accounts[2].key, vault_rent, seeds_b),
                ),
            )
        },
    }
}

/// The vault as it is once allocated.
fn open_vault(vault: &Account, vault_rent: u64) -> (r: Account)
    ensures
        r@ == new_vault(vault@, vault_rent),
{
    Account {
        key: vault.key,
        is_signer: vault.is_signer,
        lamports: vault_rent,
        data: zero_record(vault_record_size() as usize),
        owner: token_program_id(),
    }
}

/// Creates a booth: its registry record and its two vaults.
pub fn process(program_id: &Identity, accounts: &mut Vec<Account>, booth_rent: u64, vault_rent: u64) -> (r: Result<Vec<Invocation>, ProtocolError>)
    ensures
        ended_as(
            outcome(*program_id, accounts_view(old(accounts)@), booth_rent, vault_rent),
            old(accounts)@,
            final(accounts)@,
            r,
        ),
{
    if accounts.len() < 10 {
        return Err(ProtocolError::InvalidEncoding);
    }
    if !accounts[0].is_signer {
        return Err(ProtocolError::Unauthorized);
    }
    let admin_key = accounts[0].key;
    let registry_key = accounts[6].key;
    let seeds = booth_seeds(&admin_key, &accounts[1].key, &accounts[2].key, &accounts[5].key);
    let (address, discriminator) = match crate::derivation::derive(&seeds, program_id) {
        Ok(found) => found,
        Err(e) => {
            return Err(e);
        },
    };
    if !address.same(&registry_key) {
        return Err(ProtocolError::InvalidAuthority);
    }
    if !accounts[6].vacant() {
        return Err(ProtocolError::AlreadyInitialized);
    }
    let seeds_a = match sign_for_vault(program_id, &registry_key, &accounts[1].key, &accounts[3].key) {
        Ok(seeds) => seeds,
        Err(e) => {
            return Err(e);
        },
    };
    let seeds_b = match sign_for_vault(program_id, &registry_key, &accounts[2].key, &accounts[4].key) {
        Ok(seeds) => seeds,
        Err(e) => {
            return Err(e);
        },
    };
    if !accounts[3].vacant() || !accounts[4].vacant() || accounts[3].key.same(&accounts[4].key) {
        return Err(ProtocolError::AlreadyInitialized);
    }
    let needed: u128 = booth_rent as u128 + 2 * (vault_rent as u128);
    if (accounts[0].lamports as u128) < needed {
        return Err(ProtocolError::AllocationFailed);
    }
    let record = ExchangeBooth {
        is_initialized: true,
        admin: admin_key,
        vault_a: accounts[3].key,
        vault_b: accounts[4].key,
        oracle: accounts[5].key,
    };
    let admin = accounts[0].with_lamports(accounts[0].lamports - booth_rent - 2 * vault_rent);
    let vault_a = open_vault(&accounts[3], vault_rent);
    let vault_b = open_vault(&accounts[4], vault_rent);
    let registry = Account {
        key: registry_key,
        is_signer: accounts[6].is_signer,
        lamports: booth_rent,
        data: record.encode(),
        owner: *program_id,
    };
    let mut out: Vec<Invocation> = Vec::new();
    out.push(
        Invocation {
            request: Request::CreateAccount {
                payer: admin_key,
                address: registry_key,
                lamports: booth_rent,
                space: BOOTH_RECORD_SIZE as u64,
                owner: *program_id,
            },
            signer_seeds: append_discriminator(&seeds, discriminator),
        },
    );
    out.push(
        Invocation {
            request: Request::CreateAccount {
                payer: admin_key,
                address: vault_a.key,
                lamports: vault_rent,
                space: vault_record_size(),
                owner: token_program_id(),
            },
            signer_seeds: copy_seeds(&seeds_a),
        },
    );
    out.push(
        Invocation {
            request: Request::InitializeVault {
                vault: vault_a.key,
                mint: accounts[1].key,
                authority: vault_a.key,
            },
            signer_seeds: seeds_a,
        },
    );
    out.push(
        Invocation {
            request: Request::CreateAccount {
                payer: admin_key,
                address: vault_b.key,
                lamports: vault_rent,
                space: vault_record_size(),
                owner: token_program_id(),
            },
            signer_seeds: copy_seeds(&seeds_b),
        },
    );
    out.push(
        Invocation {
            request: Request::InitializeVault {
                vault: vault_b.key,
                mint: accounts[2].key,
                authority: vault_b.key,
            },
            signer_seeds: seeds_b,
        },
    );
    accounts.set(0, admin);
    accounts.set(3, vault_a);
    accounts.set(4, vault_b);
    accounts.set(6, registry);
    proof {
        let before = accounts_view(old(accounts)@);
        let expected = outcome(*program_id, before, booth_rent, vault_rent);
        identity_by_bytes(old(accounts)@[3].key, old(accounts)@[4].key);
        assert(failure(*program_id, before, booth_rent, vault_rent) is None);
        assert(accounts_view(accounts@) =~= expected.unwrap().0);
        assert(invocations_view(out@) =~= expected.unwrap().1);
    }
    Ok(out)
}

/// A registry that holds an open booth is never written again: creating a
/// booth where one stands is refused.
pub proof fn open_booth_is_not_overwritten(
    program: Identity,
    accounts: Seq<AccountView>,
    booth_rent: u64,
    vault_rent: u64,
)
    requires
        accounts.len() >= 10,
        live_booth(accounts[6].data) is Some,
    ensures
        outcome(program, accounts, booth_rent, vault_rent) is Err,
        failure(program, accounts, booth_rent, vault_rent) is Some,
{
}

/// A booth that was created is open, and its record names the administrator,
/// the vaults and the price feed that came with the request.
pub proof fn created_booth_is_open(
    program: Identity,
    accounts: Seq<AccountView>,
    booth_rent: u64,
    vault_rent: u64,
)
    requires
        outcome(program, accounts, booth_rent, vault_rent) is Ok,
    ensures
        live_booth(outcome(program, accounts, booth_rent, vault_rent).unwrap().0[6].data) == Some(
            new_record(accounts),
        ),
{
    booth_round_trip(new_record(accounts));
}

} // verus!
