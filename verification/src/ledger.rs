//! The asset ledger as the protocol sees it: accounts that hold units of one
//! asset each and that one authority signs for. The protocol only asks the
//! ledger for transfers, burns and the opening of accounts; this model says
//! what the ledger answers, so that what an exchange does to balances can be
//! stated and checked.

use vstd::prelude::*;
use vstd::slice::slice_to_vec;
use crate::derivation::address_for;
use crate::derivation::address_of;
use crate::derivation::seeds_view;
use crate::derivation::Identity;
use crate::error::LedgerFault;
use crate::host::invocations_view;
use crate::host::Invocation;
use crate::host::InvocationView;
use crate::host::Request;

verus! {

/// One asset account: where it is, the asset it holds, who signs for it, and
/// how many units it holds.
#[derive(Clone, Copy, Debug, PartialEq, Eq)]
pub struct Holding {
    pub address: Identity,
    pub mint: Identity,
    pub authority: Identity,
    pub amount: u64,
}

/// The asset accounts that exist, each address at most once.
#[derive(Clone, Debug, PartialEq, Eq)]
pub struct AssetLedger {
    pub holdings: Vec<Holding>,
}

/// Whether no address occurs twice.
pub open spec fn distinct(holdings: Seq<Holding>) -> bool {
    forall|i: int, j: int|
        0 <= i < j < holdings.len() ==> holdings[i].address != holdings[j].address
}

/// Whether an account exists at the address.
pub open spec fn holds(holdings: Seq<Holding>, address: Identity) -> bool {
    exists|i: int| 0 <= i < holdings.len() && holdings[i].address == address
}

/// Where the account at the address stands.
pub open spec fn index_of(holdings: Seq<Holding>, address: Identity) -> int {
    choose|i: int| 0 <= i < holdings.len() && holdings[i].address == address
}

/// The units held at the address, if an account exists there.
pub open spec fn balance_of(holdings: Seq<Holding>, address: Identity) -> Option<u64> {
    if holds(holdings, address) {
        Some(holdings[index_of(holdings, address)].amount)
    } else {
        None
    }
}

/// The holdings with another amount at one place.
pub open spec fn with_amount(holdings: Seq<Holding>, at: int, amount: u64) -> Seq<Holding> {
    holdings.update(at, Holding { amount, ..holdings[at] })
}

/// What a transfer does: both accounts must exist and hold the same asset,
/// the authority must be the source's, and the source must hold the amount.
pub open spec fn transferred(
    holdings: Seq<Holding>,
    source: Identity,
    destination: Identity,
    authority: Identity,
    amount: u64,
) -> Result<Seq<Holding>, LedgerFault> {
    if !holds(holdings, source) || !holds(holdings, destination) {
        Err(LedgerFault::UnknownAccount)
    } else {
        let s = index_of(holdings, source);
        let d = index_of(holdings, destination);
        if holdings[s].mint != holdings[d].mint {
            Err(LedgerFault::InvalidMint)
        } else if holdings[s].authority != authority {
            Err(LedgerFault::OwnerMismatch)
        } else if holdings[s].amount < amount {
            Err(LedgerFault::InsufficientBalance)
        } else if s == d {
            Ok(holdings)
        } else if holdings[d].amount + amount > u64::MAX {
            Err(LedgerFault::Overflow)
        } else {
            Ok(
                with_amount(
                    with_amount(holdings, s, (holdings[s].amount - amount) as u64),
                    d,
                    (holdings[d].amount + amount) as u64,
                ),
            )
        }
    }
}

/// What a burn does: the account must exist and hold the asset named, the
/// authority must be its own, and it must hold the amount.
pub open spec fn burned(
    holdings: Seq<Holding>,
    account: Identity,
    mint: Identity,
    authority: Identity,
    amount: u64,
) -> Result<Seq<Holding>, LedgerFault> {
    if !holds(holdings, account) {
        Err(LedgerFault::UnknownAccount)
    } else {
        let at = index_of(holdings, account);
        if holdings[at].mint != mint {
            Err(LedgerFault::InvalidMint)
        } else if holdings[at].authority != authority {
            Err(LedgerFault::OwnerMismatch)
        } else if holdings[at].amount < amount {
            Err(LedgerFault::InsufficientBalance)
        } else {
            Ok(with_amount(holdings, at, (holdings[at].amount - amount) as u64))
        }
    }
}

/// What minting does: the account must exist and hold the asset named, and
/// its balance must stay in range.
pub open spec fn minted(holdings: Seq<Holding>, account: Identity, mint: Identity, amount: u64) -> Result<
    Seq<Holding>,
    LedgerFault,
> {
    if !holds(holdings, account) {
        Err(LedgerFault::UnknownAccount)
    } else {
        let at = index_of(holdings, account);
        if holdings[at].mint != mint {
            Err(LedgerFault::InvalidMint)
        } else if holdings[at].amount + amount > u64::MAX {
            Err(LedgerFault::Overflow)
        } else {
            Ok(with_amount(holdings, at, (holdings[at].amount + amount) as u64))
        }
    }
}

/// What opening an account does: the address must be free, and the new
/// account is empty.
pub open spec fn opened(holdings: Seq<Holding>, address: Identity, mint: Identity, authority: Identity) -> Result<
    Seq<Holding>,
    LedgerFault,
> {
    if holds(holdings, address) {
        Err(LedgerFault::AccountInUse)
    } else {
        Ok(holdings.push(Holding { address, mint, authority, amount: 0 }))
    }
}

/// Whether `authority` signs a request: as one of the signers of the whole
/// request, or as the identity that the request's signer seeds stand for
/// under the program that makes it.
pub open spec fn signs(
    signer_seeds: Seq<Seq<u8>>,
    program: Identity,
    signers: Seq<Identity>,
    authority: Identity,
) -> bool {
    signers.contains(authority) || address_of(signer_seeds, program@) == Some(authority@)
}

/// What the ledger answers to one request of a program. Allocations are the
/// host's business and leave the ledger as it is.
pub open spec fn applied(
    holdings: Seq<Holding>,
    invocation: InvocationView,
    program: Identity,
    signers: Seq<Identity>,
) -> Result<Seq<Holding>, LedgerFault> {
    match invocation.request {
        Request::CreateAccount { .. } => Ok(holdings),
        Request::InitializeVault { vault, mint, authority } => opened(holdings, vault, mint, authority),
        Request::Transfer { source, destination, authority, amount } => {
            if !signs(invocation.signer_seeds, program, signers, authority) {
                Err(LedgerFault::OwnerMismatch)
            } else {
                transferred(holdings, source, destination, authority, amount)
            }
        },
        Request::Burn { account, mint, authority, amount } => {
            if !signs(invocation.signer_seeds, program, signers, authority) {
                Err(LedgerFault::OwnerMismatch)
            } else {
                burned(holdings, account, mint, authority, amount)
            }
        },
    }
}

/// What the ledger holds after a batch of requests, each applied to what the
/// one before left; the first refusal refuses the whole batch.
pub open spec fn settled(
    holdings: Seq<Holding>,
    invocations: Seq<InvocationView>,
    program: Identity,
    signers: Seq<Identity>,
) -> Result<Seq<Holding>, LedgerFault>
    decreases invocations.len(),
{
    if invocations.len() == 0 {
        Ok(holdings)
    } else {
        match applied(holdings, invocations[0], program, signers) {
            Ok(next) => settled(next, invocations.subrange(1, invocations.len() as int), program, signers),
            Err(e) => Err(e),
        }
    }
}

/// With distinct addresses an account stands where its address is found.
pub proof fn index_is_unique(holdings: Seq<Holding>, at: int)
    requires
        distinct(holdings),
        0 <= at < holdings.len(),
    ensures
        holds(holdings, holdings[at].address),
        index_of(holdings, holdings[at].address) == at,
{
    let found = index_of(holdings, holdings[at].address);
    if found < at {
        assert(holdings[found].address != holdings[at].address);
    } else if at < found {
        assert(holdings[at].address != holdings[found].address);
    }
}

/// Changing an amount changes no address: what was distinct stays distinct,
/// and every account is found where it was.
pub proof fn amount_keeps_addresses(holdings: Seq<Holding>, at: int, amount: u64)
    requires
        distinct(holdings),
        0 <= at < holdings.len(),
    ensures
        distinct(with_amount(holdings, at, amount)),
        with_amount(holdings, at, amount).len() == holdings.len(),
        forall|address: Identity|
            holds(with_amount(holdings, at, amount), address) == holds(holdings, address),
        forall|address: Identity|
            holds(holdings, address) ==> index_of(with_amount(holdings, at, amount), address)
                == index_of(holdings, address),
{
    let after = with_amount(holdings, at, amount);
    assert forall|i: int| 0 <= i < holdings.len() implies after[i].address == holdings[i].address by {}
    assert forall|address: Identity| holds(after, address) == holds(holdings, address) by {
        if holds(holdings, address) {
            let i = index_of(holdings, address);
            assert(after[i].address == address);
        }
        if holds(after, address) {
            let i = index_of(after, address);
            assert(holdings[i].address == address);
        }
    }
    assert forall|address: Identity| holds(holdings, address) implies index_of(after, address)
        == index_of(holdings, address) by {
        let i = index_of(holdings, address);
        assert(after[i].address == address);
        index_is_unique(after, i);
    }
}

impl AssetLedger {
    /// Whether the ledger is in order: no address occurs twice.
    pub open spec fn wf(&self) -> bool {
        distinct(self.holdings@)
    }

    /// A ledger without accounts.
    pub fn new() -> (r: AssetLedger)
        ensures
            r.wf(),
            r.holdings@.len() == 0,
    {
        AssetLedger { holdings: Vec::new() }
    }

    /// Where the account at the address stands, if there is one.
    pub fn find(&self, address: &Identity) -> (r: Option<usize>)
        requires
            self.wf(),
        ensures
            r is Some <==> holds(self.holdings@, *address),
            r is Some ==> r.unwrap() == index_of(self.holdings@, *address) && r.unwrap()
                < self.holdings@.len(),
    {
        let mut i: usize = 0;
        while i < self.holdings.len()
            invariant
                self.wf(),
                i <= self.holdings@.len(),
                forall|j: int| 0 <= j < i ==> self.holdings@[j].address != *address,
            decreases self.holdings@.len() - i,
        {
            if self.holdings[i].address.same(address) {
                proof {
                    index_is_unique(self.holdings@, i as int);
                }
                return Some(i);
            }
            i += 1;
        }
        None
    }

    /// The units held at the address, if an account exists there.
    pub fn balance(&self, address: &Identity) -> (r: Option<u64>)
        requires
            self.wf(),
        ensures
            r == balance_of(self.holdings@, *address),
    {
        match self.find(address) {
            Some(at) => Some(self.holdings[at].amount),
            None => None,
        }
    }

    /// Replaces the amount held at one place.
    fn set_amount(&mut self, at: usize, amount: u64)
        requires
            old(self).wf(),
            at < old(self).holdings@.len(),
        ensures
            final(self).wf(),
            final(self).holdings@ == with_amount(old(self).holdings@, at as int, amount),
    {
        proof {
            amount_keeps_addresses(self.holdings@, at as int, amount);
        }
        let before = self.holdings[at];
        self.holdings.set(
            at,
            Holding {
                address: before.address,
                mint: before.mint,
                authority: before.authority,
                amount,
            },
        );
    }

    /// Opens an empty account of `mint` at `address`, for `authority` to sign
    /// for.
    pub fn open(&mut self, address: &Identity, mint: &Identity, authority: &Identity) -> (r: Result<
        (),
        LedgerFault,
    >)
        requires
            old(self).wf(),
        ensures
            final(self).wf(),
            match opened(old(self).holdings@, *address, *mint, *authority) {
                Ok(after) => r is Ok && final(self).holdings@ == after,
                Err(e) => r is Err && r->Err_0 == e && final(self).holdings@ == old(self).holdings@,
            },
    {
        if self.find(address).is_some() {
            return Err(LedgerFault::AccountInUse);
        }
        self.holdings.push(
            Holding { address: *address, mint: *mint, authority: *authority, amount: 0 },
        );
        Ok(())
    }

    /// Creates `amount` new units of `mint` in the account at `address`.
    pub fn mint_to(&mut self, address: &Identity, mint: &Identity, amount: u64) -> (r: Result<
        (),
        LedgerFault,
    >)
        requires
            old(self).wf(),
        ensures
            final(self).wf(),
            match minted(old(self).holdings@, *address, *mint, amount) {
                Ok(after) => r is Ok && final(self).holdings@ == after,
                Err(e) => r is Err && r->Err_0 == e && final(self).holdings@ == old(self).holdings@,
            },
    {
        let at = match self.find(address) {
            Some(at) => at,
            None => {
                return Err(LedgerFault::UnknownAccount);
            },
        };
        if !self.holdings[at].mint.same(mint) {
            return Err(LedgerFault::InvalidMint);
        }
        let total = match self.holdings[at].amount.checked_add(amount) {
            Some(total) => total,
            None => {
                return Err(LedgerFault::Overflow);
            },
        };
        self.set_amount(at, total);
        Ok(())
    }

    /// Moves `amount` units from `source` to `destination`, signed for by
    /// `authority`.
    pub fn transfer(
        &mut self,
        source: &Identity,
        destination: &Identity,
        authority: &Identity,
        amount: u64,
    ) -> (r: Result<(), LedgerFault>)
        requires
            old(self).wf(),
        ensures
            final(self).wf(),
            match transferred(old(self).holdings@, *source, *destination, *authority, amount) {
                Ok(after) => r is Ok && final(self).holdings@ == after,
                Err(e) => r is Err && r->Err_0 == e && final(self).holdings@ == old(self).holdings@,
            },
    {
        let s = match self.find(source) {
            Some(s) => s,
            None => {
                return Err(LedgerFault::UnknownAccount);
            },
        };
        let d = match self.find(destination) {
            Some(d) => d,
            None => {
                return Err(LedgerFault::UnknownAccount);
            },
        };
        if !self.holdings[s].mint.same(&self.holdings[d].mint) {
            return Err(LedgerFault::InvalidMint);
        }
        if !self.holdings[s].authority.same(authority) {
            return Err(LedgerFault::OwnerMismatch);
        }
        if self.holdings[s].amount < amount {
            return Err(LedgerFault::InsufficientBalance);
        }
        if s == d {
            return Ok(());
        }
        let gained = match self.holdings[d].amount.checked_add(amount) {
            Some(gained) => gained,
            None => {
                return Err(LedgerFault::Overflow);
            },
        };
        let left: u64 = self.holdings[s].amount - amount;
        self.set_amount(s, left);
        self.set_amount(d, gained);
        Ok(())
    }

    /// Destroys `amount` units of `mint` held at `account`, signed for by
    /// `authority`.
    pub fn burn(&mut self, account: &Identity, mint: &Identity, authority: &Identity, amount: u64) -> (r:
        Result<(), LedgerFault>)
        requires
            old(self).wf(),
        ensures
            final(self).wf(),
            match burned(old(self).holdings@, *account, *mint, *authority, amount) {
                Ok(after) => r is Ok && final(self).holdings@ == after,
                Err(e) => r is Err && r->Err_0 == e && final(self).holdings@ == old(self).holdings@,
            },
    {
        let at = match self.find(account) {
            Some(at) => at,
            None => {
                return Err(LedgerFault::UnknownAccount);
            },
        };
        if !self.holdings[at].mint.same(mint) {
            return Err(LedgerFault::InvalidMint);
        }
        if !self.holdings[at].authority.same(authority) {
            return Err(LedgerFault::OwnerMismatch);
        }
        if self.holdings[at].amount < amount {
            return Err(LedgerFault::InsufficientBalance);
        }
        let left: u64 = self.holdings[at].amount - amount;
        self.set_amount(at, left);
        Ok(())
    }
}

/// Whether `authority` signs a request with these signer seeds.
pub fn is_signed(
    signer_seeds: &Vec<Vec<u8>>,
    program: &Identity,
    signers: &Vec<Identity>,
    authority: &Identity,
) -> (r: bool)
    ensures
        r == signs(seeds_view(signer_seeds@), *program, signers@, *authority),
{
    let mut i: usize = 0;
    while i < signers.len()
        invariant
            i <= signers@.len(),
            forall|j: int| 0 <= j < i ==> signers@[j] != *authority,
        decreases signers@.len() - i,
    {
        if signers[i].same(authority) {
            return true;
        }
        i += 1;
    }
    match address_for(signer_seeds, program) {
        Some(address) => address.same(authority),
        None => false,
    }
}

impl AssetLedger {
    /// Answers one request of a program.
    pub fn apply(&mut self, invocation: &Invocation, program: &Identity, signers: &Vec<Identity>) -> (r:
        Result<(), LedgerFault>)
        requires
            old(self).wf(),
        ensures
            final(self).wf(),
            match applied(old(self).holdings@, invocation@, *program, signers@) {
                Ok(after) => r is Ok && final(self).holdings@ == after,
                Err(e) => r is Err && r->Err_0 == e && final(self).holdings@ == old(self).holdings@,
            },
    {
        match &invocation.request {
            Request::CreateAccount { .. } => Ok(()),
            Request::InitializeVault { vault, mint, authority } => self.open(vault, mint, authority),
            Request::Transfer { source, destination, authority, amount } => {
                if !is_signed(&invocation.signer_seeds, program, signers, authority) {
                    return Err(LedgerFault::OwnerMismatch);
                }
                self.transfer(source, destination, authority, *amount)
            },
            Request::Burn { account, mint, authority, amount } => {
                if !is_signed(&invocation.signer_seeds, program, signers, authority) {
                    return Err(LedgerFault::OwnerMismatch);
                }
                self.burn(account, mint, authority, *amount)
            },
        }
    }

    /// Answers a batch of requests as one: either every request is carried
    /// out, in order, or the first refusal is reported and the ledger is as it
    /// was before the batch.
    pub fn settle(&mut self, invocations: &Vec<Invocation>, program: &Identity, signers: &Vec<Identity>) -> (r:
        Result<(), LedgerFault>)
        requires
            old(self).wf(),
        ensures
            final(self).wf(),
            match settled(old(self).holdings@, invocations_view(invocations@), *program, signers@) {
                Ok(after) => r is Ok && final(self).holdings@ == after,
                Err(e) => r is Err && r->Err_0 == e && final(self).holdings@ == old(self).holdings@,
            },
    {
        let saved: Vec<Holding> = slice_to_vec(self.holdings.as_slice());
        let ghost all = invocations_view(invocations@);
        let mut i: usize = 0;
        assert(all.subrange(0, all.len() as int) =~= all);
        while i < invocations.len()
            invariant
                self.wf(),
                i <= invocations@.len(),
                all == invocations_view(invocations@),
                saved@ == old(self).holdings@,
                distinct(saved@),
                settled(old(self).holdings@, all, *program, signers@) == settled(
                    self.holdings@,
                    all.subrange(i as int, all.len() as int),
                    *program,
                    signers@,
                ),
            decreases invocations@.len() - i,
        {
            let ghost rest = all.subrange(i as int, all.len() as int);
            assert(rest[0] == invocations@[i as int]@);
            assert(rest.subrange(1, rest.len() as int) =~= all.subrange(i + 1, all.len() as int));
            match self.apply(&invocations[i], program, signers) {
                Ok(()) => {},
                Err(e) => {
                    self.holdings = saved;
                    return Err(e);
                },
            }
            i += 1;
        }
        Ok(())
    }
}

} // verus!
