use vstd::prelude::*;
use crate::booth::processor::is_admin;
use crate::booth::processor::read_booth;
use crate::booth::state::live_booth;
use crate::codec::zero_record;
use crate::codec::zeroed;
use crate::error::ProtocolError;
use crate::host::accounts_view;
use crate::host::ended_as;
use crate::host::invocations_view;
use crate::host::Account;
use crate::host::AccountView;
use crate::host::Invocation;
use crate::host::InvocationView;
use crate::host::Outcome;

verus! {

/// What closing a booth does. The accounts are the administrator and the
/// registry. Only the administrator on record may close; the registry's whole
/// backing balance goes to the administrator and its record is zeroed.
/// Nothing is asked of the host.
pub open spec fn outcome(accounts: Seq<AccountView>) -> Outcome {
    if accounts.len() < 2 {
        Err(ProtocolError::InvalidEncoding)
    } else {
        match live_booth(accounts[1].data) {
            None => Err(ProtocolError::InvalidAccountData),
            Some(booth) => if !is_admin(accounts[0], booth) {
                Err(ProtocolError::Unauthorized)
            } else if accounts[0].lamports + accounts[1].lamports > u64::MAX {
                Err(ProtocolError::Overflow)
            } else {
                Ok(
                    (
                        accounts.update(
                            0,
                            accounts[0].with_lamports(
                                (accounts[0].lamports + accounts[1].lamports) as u64,
                            ),
                        ).update(
                            1,
                            accounts[1].with_lamports(0).with_data(zeroed(accounts[1].data.len())),
                        ),
                        Seq::<InvocationView>::empty(),
                    ),
                )
            },
        }
    }
}

/// Closes a booth, for the administrator.
pub fn process(accounts: &mut Vec<Account>) -> (r: Result<Vec<Invocation>, ProtocolError>)
    ensures
        ended_as(outcome(accounts_view(old(accounts)@)), old(accounts)@, final(accounts)@, r),
{
    if accounts.len() < 2 {
        return Err(ProtocolError::InvalidEncoding);
    }
    let booth = match read_booth(&accounts[1]) {
        Ok(booth) => booth,
        Err(e) => {
            return Err(e);
        },
    };
    if !accounts[0].key.same(&booth.admin) || !accounts[0].is_signer {
        return Err(ProtocolError::Unauthorized);
    }
    let total: u64 = match accounts[0].lamports.checked_add(accounts[1].lamports) {
        Some(total) => total,
        None => {
            return Err(ProtocolError::Overflow);
        },
    };
    let admin = accounts[0].with_lamports(total);
    let size: usize = accounts[1].data.len();
    let closed = accounts[1].with_lamports(0).with_data(zero_record(size));
    accounts.set(0, admin);
    accounts.set(1, closed);
    let out: Vec<Invocation> = Vec::new();
    proof {
        let expected = outcome(accounts_view(old(accounts)@));
        assert(accounts_view(accounts@) =~= expected.unwrap().0);
        assert(invocations_view(out@) =~= expected.unwrap().1);
    }
    Ok(out)
}

/// Only the administrator closes: with the registry of an open booth, a
/// caller who is not its administrator, or who has not signed, is refused as
/// unauthorized, and the administrator succeeds wherever the swept balance
/// stays in range.
pub proof fn close_is_for_the_admin(accounts: Seq<AccountView>)
    requires
        accounts.len() >= 2,
        live_booth(accounts[1].data) is Some,
    ensures
        !is_admin(accounts[0], live_booth(accounts[1].data).unwrap()) ==> outcome(accounts)
            == Err::<(Seq<AccountView>, Seq<InvocationView>), ProtocolError>(
            ProtocolError::Unauthorized,
        ),
        is_admin(accounts[0], live_booth(accounts[1].data).unwrap()) && accounts[0].lamports
            + accounts[1].lamports <= u64::MAX ==> outcome(accounts) is Ok,
{
}

/// Closing is final: the record that a closed booth leaves behind is no open
/// booth, so no operation that reads the registry accepts it again.
pub proof fn closed_booth_is_gone(accounts: Seq<AccountView>)
    requires
        outcome(accounts) is Ok,
    ensures
        live_booth(outcome(accounts).unwrap().0[1].data) is None,
        outcome(accounts).unwrap().0[1].lamports == 0,
{
}

} // verus!
