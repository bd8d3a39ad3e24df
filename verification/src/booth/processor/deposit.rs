use vstd::prelude::*;
use crate::error::ProtocolError;
use crate::host::accounts_view;
use crate::host::issued;
use crate::host::unsigned;
use crate::host::Account;
use crate::host::AccountView;
use crate::host::Invocation;
use crate::host::InvocationView;
use crate::host::Request;

verus! {

/// What a deposit asks of the asset ledger: one transfer from the source to
/// the vault, under the depositor's own signature. The accounts are the
/// source, the vault and the depositor.
pub open spec fn requests(accounts: Seq<AccountView>, amount: u64) -> Result<
    Seq<InvocationView>,
    ProtocolError,
> {
    if accounts.len() < 3 {
        Err(ProtocolError::InvalidEncoding)
    } else {
        Ok(
            seq![
                unsigned(
                    Request::Transfer {
                        source: accounts[0].key,
                        destination: accounts[1].key,
                        authority: accounts[2].key,
                        amount,
                    },
                ),
            ],
        )
    }
}

/// Deposits `amount` units into a vault.
pub fn process(accounts: &Vec<Account>, amount: u64) -> (r: Result<Vec<Invocation>, ProtocolError>)
    ensures
        issued(requests(accounts_view(accounts@), amount), r),
{
    if accounts.len() < 3 {
        return Err(ProtocolError::InvalidEncoding);
    }
    let mut out: Vec<Invocation> = Vec::new();
    out.push(
        Invocation::plain(
            Request::Transfer {
                source: accounts[0].key,
                destination: accounts[1].key,
                authority: accounts[2].key,
                amount,
            },
        ),
    );
    assert(crate::host::invocations_view(out@) =~= requests(
        accounts_view(accounts@),
        amount,
    ).unwrap());
    Ok(out)
}

} // verus!
