use vstd::prelude::*;
use crate::booth::processor::is_admin;
use crate::booth::processor::read_booth;
use crate::booth::processor::sign_for_vault;
use crate::booth::processor::vault_signature;
use crate::booth::state::live_booth;
use crate::derivation::Identity;
use crate::error::ProtocolError;
use crate::host::accounts_view;
use crate::host::invocations_view;
use crate::host::issued;
use crate::host::Account;
use crate::host::AccountView;
use crate::host::Invocation;
use crate::host::InvocationView;
use crate::host::Request;

verus! {

/// What a withdrawal asks of the asset ledger, or why it is refused. The
/// accounts are the vault, the destination, the mint, the administrator and
/// the registry. Only the administrator on record may withdraw; the transfer
/// is signed by the vault's own derived authority.
pub open spec fn requests(program: Identity, accounts: Seq<AccountView>, amount: u64) -> Result<
    Seq<InvocationView>,
    ProtocolError,
> {
    if accounts.len() < 5 {
        Err(ProtocolError::InvalidEncoding)
    } else {
        match live_booth(accounts[4].data) {
            None => Err(ProtocolError::InvalidAccountData),
            Some(booth) => if !is_admin(accounts[3], booth) {
                Err(ProtocolError::Unauthorized)
            } else {
                match vault_signature(program, accounts[4].key, accounts[2].key, accounts[0].key) {
                    Err(e) => Err(e),
                    Ok(seeds) => Ok(
                        seq![
                            InvocationView {
                                request: Request::Transfer {
                                    source: accounts[0].key,
                                    destination: accounts[1].key,
                                    authority: accounts[0].key,
                                    amount,
                                },
                                signer_seeds: seeds,
                            },
                        ],
                    ),
                }
            },
        }
    }
}

/// Withdraws `amount` units from a vault, for the administrator.
pub fn process(program_id: &Identity, accounts: &Vec<Account>, amount: u64) -> (r: Result<
    Vec<Invocation>,
    ProtocolError,
>)
    ensures
        issued(requests(*program_id, accounts_view(accounts@), amount), r),
{
    if accounts.len() < 5 {
        return Err(ProtocolError::InvalidEncoding);
    }
    let booth = match read_booth(&accounts[4]) {
        Ok(booth) => booth,
        Err(e) => {
            return Err(e);
        },
    };
    if !accounts[3].key.same(&booth.admin) || !accounts[3].is_signer {
        return Err(ProtocolError::Unauthorized);
    }
    let seeds = match sign_for_vault(program_id, &accounts[4].key, &accounts[2].key, &accounts[0].key) {
        Ok(seeds) => seeds,
        Err(e) => {
            return Err(e);
        },
    };
    let mut out: Vec<Invocation> = Vec::new();
    out.push(
        Invocation {
            request: Request::Transfer {
                source: accounts[0].key,
                destination: accounts[1].key,
                authority: accounts[0].key,
                amount,
            },
            signer_seeds: seeds,
        },
    );
    assert(invocations_view(out@) =~= requests(
        *program_id,
        accounts_view(accounts@),
        amount,
    ).unwrap());
    Ok(out)
}

/// Only the administrator withdraws: with the registry of an open booth, a
/// caller who is not its administrator, or who has not signed, is refused as
/// unauthorized, and the administrator succeeds wherever the vault is the
/// booth's own for the mint.
pub proof fn withdraw_is_for_the_admin(program: Identity, accounts: Seq<AccountView>, amount: u64)
    requires
        accounts.len() >= 5,
        live_booth(accounts[4].data) is Some,
    ensures
        !is_admin(accounts[3], live_booth(accounts[4].data).unwrap()) ==> requests(
            program,
            accounts,
            amount,
        ) == Err::<Seq<InvocationView>, ProtocolError>(ProtocolError::Unauthorized),
        is_admin(accounts[3], live_booth(accounts[4].data).unwrap()) && vault_signature(
            program,
            accounts[4].key,
            accounts[2].key,
            accounts[0].key,
        ) is Ok ==> requests(program, accounts, amount) is Ok,
{
}

} // verus!
