use vstd::prelude::*;
use vstd::slice::slice_subrange;
use crate::booth::processor::read_booth;
use crate::booth::processor::sign_for_vault;
use crate::booth::processor::vault_signature;
use crate::booth::state::live_booth;
use crate::booth::state::rate_of;
use crate::booth::state::Oracle;
use crate::derivation::derived_is_sound;
use crate::derivation::identity_by_bytes;
use crate::derivation::vault_seed_list;
use crate::derivation::Identity;
use crate::error::LedgerFault;
use crate::ledger::amount_keeps_addresses;
use crate::ledger::applied;
use crate::ledger::balance_of;
use crate::ledger::distinct;
use crate::ledger::holds;
use crate::ledger::index_of;
use crate::ledger::settled;
use crate::ledger::signs;
use crate::ledger::with_amount;
use crate::ledger::Holding;
use crate::echo::state::payload_of;
use crate::echo::state::HEADER_LEN;
use crate::error::ProtocolError;
use crate::host::accounts_view;
use crate::host::invocations_view;
use crate::host::issued;
use crate::host::unsigned;
use crate::host::Account;
use crate::host::AccountView;
use crate::host::Invocation;
use crate::host::InvocationView;
use crate::host::Request;

verus! {

/// The rate that a price feed's record announces: the payload that follows
/// the buffer's header must be exactly the rate.
pub open spec fn announced_rate(record: Seq<u8>) -> Option<u64> {
    if record.len() < HEADER_LEN {
        None
    } else {
        rate_of(payload_of(record))
    }
}

/// Why an exchange is refused before anything is asked of the asset ledger,
/// if it is. The accounts are the payer's source, the vault paid into, the
/// vault paid from, the payer's destination, the mint paid out, the payer,
/// the price feed and the registry.
pub open spec fn failure(program: Identity, accounts: Seq<AccountView>, amount: u64) -> Option<
    ProtocolError,
> {
    if accounts.len() < 8 {
        Some(ProtocolError::InvalidEncoding)
    } else if live_booth(accounts[7].data) is None {
        Some(ProtocolError::InvalidAccountData)
    } else if live_booth(accounts[7].data).unwrap().oracle != accounts[6].key@ {
        Some(ProtocolError::InvalidAccountData)
    } else if announced_rate(accounts[6].data) is None {
        Some(ProtocolError::InvalidAccountData)
    } else if announced_rate(accounts[6].data).unwrap() * amount > u64::MAX {
        Some(ProtocolError::Overflow)
    } else {
        match vault_signature(program, accounts[7].key, accounts[4].key, accounts[2].key) {
            Err(e) => Some(e),
            Ok(_) => None,
        }
    }
}

/// What an exchange asks of the asset ledger: first the payment of `amount`
/// into one vault under the payer's signature, then the payout of the rate
/// times `amount` from the other vault under that vault's derived authority.
pub open spec fn requests(program: Identity, accounts: Seq<AccountView>, amount: u64) -> Result<
    Seq<InvocationView>,
    ProtocolError,
> {
    match failure(program, accounts, amount) {
        Some(e) => Err(e),
        None => Ok(
            seq![
                unsigned(
                    Request::Transfer {
                        source: accounts[0].key,
                        destination: accounts[1].key,
                        authority: accounts[5].key,
                        amount,
                    },
                ),
                InvocationView {
                    request: Request::Transfer {
                        source: accounts[2].key,
                        destination: accounts[3].key,
                        authority: accounts[2].key,
                        amount: (announced_rate(accounts[6].data).unwrap() * amount) as u64,
                    },
                    signer_seeds: vault_signature(
                        program,
                        accounts[7].key,
                        accounts[4].key,
                        accounts[2].key,
                    ).unwrap(),
                },
            ],
        ),
    }
}

/// Reads the rate that a price feed announces.
pub fn read_rate(oracle: &Account) -> (r: Option<u64>)
    ensures
        r == announced_rate(oracle@.data),
{
    if oracle.data.len() < HEADER_LEN {
        return None;
    }
    let payload = slice_subrange(oracle.data.as_slice(), HEADER_LEN, oracle.data.len());
    match Oracle::decode(payload) {
        Some(feed) => Some(feed.exchange_rate),
        None => None,
    }
}

/// Exchanges `amount` units of one asset for the other at the feed's rate.
pub fn process(program_id: &Identity, accounts: &Vec<Account>, amount: u64) -> (r: Result<
    Vec<Invocation>,
    ProtocolError,
>)
    ensures
        issued(requests(*program_id, accounts_view(accounts@), amount), r),
{
    if accounts.len() < 8 {
        return Err(ProtocolError::InvalidEncoding);
    }
    let booth = match read_booth(&accounts[7]) {
        Ok(booth) => booth,
        Err(e) => {
            return Err(e);
        },
    };
    if !booth.oracle.same(&accounts[6].key) {
        return Err(ProtocolError::InvalidAccountData);
    }
    let rate: u64 = match read_rate(&accounts[6]) {
        Some(rate) => rate,
        None => {
            return Err(ProtocolError::InvalidAccountData);
        },
    };
    let payout: u64 = match rate.checked_mul(amount) {
        Some(payout) => payout,
        None => {
            return Err(ProtocolError::Overflow);
        },
    };
    let seeds = match sign_for_vault(program_id, &accounts[7].key, &accounts[4].key, &accounts[2].key) {
        Ok(seeds) => seeds,
        Err(e) => {
            return Err(e);
        },
    };
    let mut out: Vec<Invocation> = Vec::new();
    out.push(
        Invocation::plain(
            Request::Transfer {
                source: accounts[0].key,
                destination: accounts[1].key,
                authority: accounts[5].key,
                amount,
            },
        ),
    );
    out.push(
        Invocation {
            request: Request::Transfer {
                source: accounts[2].key,
                destination: accounts[3].key,
                authority: accounts[2].key,
                amount: payout,
            },
            signer_seeds: seeds,
        },
    );
    assert(invocations_view(out@) =~= requests(
        *program_id,
        accounts_view(accounts@),
        amount,
    ).unwrap());
    Ok(out)
}

/// The units that an exchange pays out: the announced rate times the amount
/// paid in.
pub open spec fn payout(accounts: Seq<AccountView>, amount: u64) -> u64
    recommends
        accounts.len() >= 8,
{
    (announced_rate(accounts[6].data).unwrap() * amount) as u64
}

/// Whether the ledger is in a state in which an exchange can be judged by its
/// balances alone: the four asset accounts exist and are four different
/// accounts, what is paid in and what is paid out are each of one asset, the
/// payer signs for the source and has signed the request, the vault paid from
/// signs for itself, the payer holds the amount, and neither receiving
/// account would overflow.
pub open spec fn ready_for_exchange(
    accounts: Seq<AccountView>,
    amount: u64,
    holdings: Seq<Holding>,
    signers: Seq<Identity>,
) -> bool
    recommends
        accounts.len() >= 8,
{
    let source = accounts[0].key;
    let vault_in = accounts[1].key;
    let vault_out = accounts[2].key;
    let destination = accounts[3].key;
    &&& distinct(holdings)
    &&& holds(holdings, source)
    &&& holds(holdings, vault_in)
    &&& holds(holdings, vault_out)
    &&& holds(holdings, destination)
    &&& source != vault_in
    &&& source != vault_out
    &&& source != destination
    &&& vault_in != vault_out
    &&& vault_in != destination
    &&& vault_out != destination
    &&& holdings[index_of(holdings, source)].mint == holdings[index_of(holdings, vault_in)].mint
    &&& holdings[index_of(holdings, vault_out)].mint == holdings[index_of(
        holdings,
        destination,
    )].mint
    &&& holdings[index_of(holdings, source)].authority == accounts[5].key
    &&& signers.contains(accounts[5].key)
    &&& holdings[index_of(holdings, vault_out)].authority == vault_out
    &&& holdings[index_of(holdings, source)].amount >= amount
    &&& holdings[index_of(holdings, vault_in)].amount + amount <= u64::MAX
    &&& holdings[index_of(holdings, destination)].amount + payout(accounts, amount) <= u64::MAX
}

/// An exchange is all or nothing. Where the exchange is accepted and the
/// vault paid from holds the payout, the ledger settles its two transfers:
/// the payer's source loses the amount and the vault paid into gains it, the
/// vault paid from loses the payout and the payer's destination gains it, and
/// no other balance changes. Where that vault holds less than the payout, the
/// ledger refuses the batch for want of balance, so no part of it is kept:
/// the payment into the other vault is not made either.
pub proof fn exchange_is_all_or_nothing(
    program: Identity,
    accounts: Seq<AccountView>,
    amount: u64,
    holdings: Seq<Holding>,
    signers: Seq<Identity>,
)
    requires
        failure(program, accounts, amount) is None,
        ready_for_exchange(accounts, amount, holdings, signers),
    ensures
        ({
            let source = accounts[0].key;
            let vault_in = accounts[1].key;
            let vault_out = accounts[2].key;
            let destination = accounts[3].key;
            let paid_out = payout(accounts, amount);
            let result = settled(
                holdings,
                requests(program, accounts, amount).unwrap(),
                program,
                signers,
            );
            &&& balance_of(holdings, vault_out).unwrap() < paid_out ==> result is Err
                && result->Err_0 == LedgerFault::InsufficientBalance
            &&& balance_of(holdings, vault_out).unwrap() >= paid_out ==> {
                &&& result is Ok
                &&& distinct(result.unwrap())
                &&& balance_of(result.unwrap(), source) == Some(
                    (balance_of(holdings, source).unwrap() - amount) as u64,
                )
                &&& balance_of(result.unwrap(), vault_in) == Some(
                    (balance_of(holdings, vault_in).unwrap() + amount) as u64,
                )
                &&& balance_of(result.unwrap(), vault_out) == Some(
                    (balance_of(holdings, vault_out).unwrap() - paid_out) as u64,
                )
                &&& balance_of(result.unwrap(), destination) == Some(
                    (balance_of(holdings, destination).unwrap() + paid_out) as u64,
                )
                &&& forall|other: Identity|
                    other != source && other != vault_in && other != vault_out && other
                        != destination ==> balance_of(result.unwrap(), other) == balance_of(
                        holdings,
                        other,
                    )
            }
        }),
{
    let source = accounts[0].key;
    let vault_in = accounts[1].key;
    let vault_out = accounts[2].key;
    let destination = accounts[3].key;
    let paid_out = payout(accounts, amount);
    let batch = requests(program, accounts, amount).unwrap();
    let s = index_of(holdings, source);
    let vi = index_of(holdings, vault_in);
    let vo = index_of(holdings, vault_out);
    let d = index_of(holdings, destination);
    let h1 = with_amount(holdings, s, (holdings[s].amount - amount) as u64);
    amount_keeps_addresses(holdings, s, (holdings[s].amount - amount) as u64);
    let h2 = with_amount(h1, vi, (holdings[vi].amount + amount) as u64);
    amount_keeps_addresses(h1, vi, (holdings[vi].amount + amount) as u64);
    assert(applied(holdings, batch[0], program, signers) == Ok::<Seq<Holding>, LedgerFault>(h2));
    let seeds = vault_seed_list(accounts[7].key@, accounts[4].key@);
    derived_is_sound(seeds, program@);
    identity_by_bytes(accounts[2].key, accounts[2].key);
    assert(signs(batch[1].signer_seeds, program, signers, vault_out));
    assert(index_of(h2, vault_out) == vo);
    assert(index_of(h2, destination) == d);
    assert(h2[vo].amount == holdings[vo].amount);
    assert(h2[d].amount == holdings[d].amount);
    let rest = batch.subrange(1, batch.len() as int);
    assert(rest[0] == batch[1]);
    assert(rest.subrange(1, rest.len() as int).len() == 0);
    reveal_with_fuel(settled, 3);
    if holdings[vo].amount >= paid_out {
        let h3 = with_amount(h2, vo, (holdings[vo].amount - paid_out) as u64);
        amount_keeps_addresses(h2, vo, (holdings[vo].amount - paid_out) as u64);
        let h4 = with_amount(h3, d, (holdings[d].amount + paid_out) as u64);
        amount_keeps_addresses(h3, d, (holdings[d].amount + paid_out) as u64);
        assert(applied(h2, batch[1], program, signers) == Ok::<Seq<Holding>, LedgerFault>(h4));
        assert(settled(holdings, batch, program, signers) == Ok::<Seq<Holding>, LedgerFault>(h4));
        assert forall|other: Identity|
            other != source && other != vault_in && other != vault_out && other
                != destination implies balance_of(h4, other) == balance_of(holdings, other) by {
            if holds(holdings, other) {
                let o = index_of(holdings, other);
                assert(h4[o] == holdings[o]);
            }
        }
    } else {
        assert(applied(h2, batch[1], program, signers) == Err::<Seq<Holding>, LedgerFault>(
            LedgerFault::InsufficientBalance,
        ));
    }
}

} // verus!
