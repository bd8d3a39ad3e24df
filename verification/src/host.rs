use vstd::prelude::*;
use vstd::bytes::spec_u64_to_le_bytes;
use vstd::slice::slice_to_vec;
use crate::derivation::seeds_view;
use crate::derivation::Identity;
use crate::error::ProtocolError;

verus! {

/// The largest record the host allocates, in bytes.
pub const MAX_RECORD_SIZE: u64 = 10485760;

/// The size in bytes of an asset account's record.
pub const VAULT_RECORD_SIZE: u64 = 165;

/// An account as an operation sees it: its address, whether its holder signed
/// the request, its backing balance, its record and the program that owns it.
#[derive(Clone, Debug, PartialEq, Eq)]
pub struct Account {
    pub key: Identity,
    pub is_signer: bool,
    pub lamports: u64,
    pub data: Vec<u8>,
    pub owner: Identity,
}

/// What an account holds, as mathematical values.
pub struct AccountView {
    pub key: Identity,
    pub is_signer: bool,
    pub lamports: u64,
    pub data: Seq<u8>,
    pub owner: Identity,
}

impl View for Account {
    type V = AccountView;

    open spec fn view(&self) -> AccountView {
        AccountView {
            key: self.key,
            is_signer: self.is_signer,
            lamports: self.lamports,
            data: self.data@,
            owner: self.owner,
        }
    }
}

/// A list of accounts as the values they hold.
pub open spec fn accounts_view(accounts: Seq<Account>) -> Seq<AccountView> {
    Seq::new(accounts.len(), |i: int| accounts[i]@)
}

impl AccountView {
    /// Whether nothing has been allocated at this address yet.
    pub open spec fn is_vacant(&self) -> bool {
        self.lamports == 0 && self.data.len() == 0
    }

    /// The same account with another record.
    pub open spec fn with_data(&self, data: Seq<u8>) -> AccountView {
        AccountView { data, ..*self }
    }

    /// The same account with another balance.
    pub open spec fn with_lamports(&self, lamports: u64) -> AccountView {
        AccountView { lamports, ..*self }
    }
}

impl Account {
    /// A copy of the account with another record.
    pub fn with_data(&self, data: Vec<u8>) -> (r: Account)
        ensures
            r@ == self@.with_data(data@),
    {
        Account {
            key: self.key,
            is_signer: self.is_signer,
            lamports: self.lamports,
            data,
            owner: self.owner,
        }
    }

    /// A copy of the account with another balance.
    pub fn with_lamports(&self, lamports: u64) -> (r: Account)
        ensures
            r@ == self@.with_lamports(lamports),
    {
        Account {
            key: self.key,
            is_signer: self.is_signer,
            lamports,
            data: slice_to_vec(self.data.as_slice()),
            owner: self.owner,
        }
    }

    /// Whether nothing has been allocated at this address yet.
    pub fn vacant(&self) -> (r: bool)
        ensures
            r == self@.is_vacant(),
    {
        self.lamports == 0 && self.data.len() == 0
    }
}

/// How an instruction refers to one account.
#[derive(Clone, Copy, Debug, PartialEq, Eq)]
pub struct AccountMeta {
    pub key: Identity,
    pub is_signer: bool,
    pub is_writable: bool,
}

/// An account reference, as mathematical values.
pub struct MetaView {
    pub key: Seq<u8>,
    pub is_signer: bool,
    pub is_writable: bool,
}

impl View for AccountMeta {
    type V = MetaView;

    open spec fn view(&self) -> MetaView {
        MetaView { key: self.key@, is_signer: self.is_signer, is_writable: self.is_writable }
    }
}

/// A request to another program, in the form in which the host carries it.
#[derive(Clone, Debug, PartialEq, Eq)]
pub struct Instruction {
    pub program: Identity,
    pub accounts: Vec<AccountMeta>,
    pub data: Vec<u8>,
}

/// What an instruction holds, as mathematical values.
pub struct InstructionView {
    pub program: Seq<u8>,
    pub accounts: Seq<MetaView>,
    pub data: Seq<u8>,
}

impl View for Instruction {
    type V = InstructionView;

    open spec fn view(&self) -> InstructionView {
        InstructionView {
            program: self.program@,
            accounts: Seq::new(self.accounts@.len(), |i: int| self.accounts@[i]@),
            data: self.data@,
        }
    }
}

/// An account reference that the instruction may write to.
pub open spec fn writable(key: Seq<u8>, is_signer: bool) -> MetaView {
    MetaView { key, is_signer, is_writable: true }
}

/// An account reference that the instruction only reads.
pub open spec fn readonly(key: Seq<u8>, is_signer: bool) -> MetaView {
    MetaView { key, is_signer, is_writable: false }
}

/// The address of the host's allocator: 32 zero bytes.
pub open spec fn system_program() -> Seq<u8> {
    Seq::new(32, |i: int| 0u8)
}

/// The address of the asset ledger.
pub open spec fn token_program() -> Seq<u8> {
    seq![
        6u8, 221, 246, 225, 215, 101, 161, 147, 217, 203, 225, 70, 206, 235, 121, 172,
        28, 180, 133, 237, 95, 91, 55, 145, 58, 140, 245, 133, 126, 255, 0, 169,
    ]
}

/// The asset ledger as an identity.
pub open spec fn token_identity() -> Identity {
    Identity {
        bytes: [
            6u8, 221, 246, 225, 215, 101, 161, 147, 217, 203, 225, 70, 206, 235, 121, 172,
            28, 180, 133, 237, 95, 91, 55, 145, 58, 140, 245, 133, 126, 255, 0, 169,
        ],
    }
}

/// Calls `spl_token::id`. The contract claims: the asset ledger's address is
/// the 32 bytes of `token_identity`.
#[verifier::external_body]
fn asset_ledger_id() -> (r: Identity)
    ensures
        r == token_identity(),
{
    Identity { bytes: spl_token::id().to_bytes() }
}

/// Calls `get_packed_len` of `spl_token::state::Account`. The contract claims:
/// an asset account's record takes 165 bytes.
#[verifier::external_body]
fn asset_account_size() -> (r: u64)
    ensures
        r == VAULT_RECORD_SIZE,
{
    <spl_token::state::Account as solana_program::program_pack::Pack>::get_packed_len() as u64
}

/// The identity of the asset ledger.
pub fn token_program_id() -> (r: Identity)
    ensures
        r == token_identity(),
        r@ == token_program(),
{
    assert(token_identity()@ =~= token_program());
    asset_ledger_id()
}

/// The size in bytes of the record of an asset account.
pub fn vault_record_size() -> (r: u64)
    ensures
        r == VAULT_RECORD_SIZE,
{
    asset_account_size()
}

/// The address under which the host publishes its sizing rules.
pub open spec fn rent_sysvar() -> Seq<u8> {
    seq![
        6u8, 167, 213, 23, 25, 44, 92, 81, 33, 140, 201, 76, 61, 74, 241, 127,
        88, 218, 238, 8, 155, 161, 253, 68, 227, 219, 217, 138, 0, 0, 0, 0,
    ]
}

/// A request that the protocol makes of the host or of the asset ledger.
#[derive(Clone, Copy, Debug, PartialEq, Eq)]
pub enum Request {
    /// Allocate a zero-filled record of `space` bytes at `address`, owned by
    /// `owner` and backed by `lamports` taken from `payer`.
    CreateAccount { payer: Identity, address: Identity, lamports: u64, space: u64, owner: Identity },
    /// Make the record at `vault` an asset account of `mint` that `authority` signs for.
    InitializeVault { vault: Identity, mint: Identity, authority: Identity },
    /// Move `amount` units from `source` to `destination`, signed by `authority`.
    Transfer { source: Identity, destination: Identity, authority: Identity, amount: u64 },
    /// Destroy `amount` units of `mint` held in `account`, signed by `authority`.
    Burn { account: Identity, mint: Identity, authority: Identity, amount: u64 },
}

/// The instruction that allocates a record.
pub open spec fn create_account_instruction(
    payer: Seq<u8>,
    address: Seq<u8>,
    lamports: u64,
    space: u64,
    owner: Seq<u8>,
) -> InstructionView {
    InstructionView {
        program: system_program(),
        accounts: seq![writable(payer, true), writable(address, true)],
        data: seq![0u8, 0u8, 0u8, 0u8] + spec_u64_to_le_bytes(lamports) + spec_u64_to_le_bytes(
            space,
        ) + owner,
    }
}

/// The instruction that opens an asset account.
pub open spec fn initialize_vault_instruction(
    vault: Seq<u8>,
    mint: Seq<u8>,
    authority: Seq<u8>,
) -> InstructionView {
    InstructionView {
        program: token_program(),
        accounts: seq![
            writable(vault, false),
            readonly(mint, false),
            readonly(authority, false),
            readonly(rent_sysvar(), false),
        ],
        data: seq![1u8],
    }
}

/// The instruction that moves units between two asset accounts, signed by the
/// authority alone.
pub open spec fn transfer_instruction(
    source: Seq<u8>,
    destination: Seq<u8>,
    authority: Seq<u8>,
    amount: u64,
) -> InstructionView {
    InstructionView {
        program: token_program(),
        accounts: seq![writable(source, false), writable(destination, false), readonly(authority, true)],
        data: seq![3u8] + spec_u64_to_le_bytes(amount),
    }
}

/// The instruction that destroys units, with the authority listed once as the
/// owner and once more as the signer.
pub open spec fn burn_instruction(
    account: Seq<u8>,
    mint: Seq<u8>,
    authority: Seq<u8>,
    amount: u64,
) -> InstructionView {
    InstructionView {
        program: token_program(),
        accounts: seq![
            writable(account, false),
            writable(mint, false),
            readonly(authority, false),
            readonly(authority, true),
        ],
        data: seq![8u8] + spec_u64_to_le_bytes(amount),
    }
}

/// The instruction that carries a request.
pub open spec fn encoding(request: Request) -> InstructionView {
    match request {
        Request::CreateAccount { payer, address, lamports, space, owner } => create_account_instruction(
            payer@,
            address@,
            lamports,
            space,
            owner@,
        ),
        Request::InitializeVault { vault, mint, authority } => initialize_vault_instruction(
            vault@,
            mint@,
            authority@,
        ),
        Request::Transfer { source, destination, authority, amount } => transfer_instruction(
            source@,
            destination@,
            authority@,
            amount,
        ),
        Request::Burn { account, mint, authority, amount } => burn_instruction(
            account@,
            mint@,
            authority@,
            amount,
        ),
    }
}

/// Calls `solana_program::system_instruction::create_account`. The contract
/// claims: the instruction goes to the allocator, names payer and new address as
/// writable signers, and carries the variant number 0 in four bytes, then the
/// balance and the size in eight little-endian bytes each, then the owner.
#[verifier::external_body]
fn build_create_account(payer: &Identity, address: &Identity, lamports: u64, space: u64, owner: &Identity) -> (r: Instruction)
    ensures
        r@ == create_account_instruction(payer@, address@, lamports, space, owner@),
{
    let from = solana_program::pubkey::Pubkey::new_from_array(payer.bytes);
    let to = solana_program::pubkey::Pubkey::new_from_array(address.bytes);
    let program = solana_program::pubkey::Pubkey::new_from_array(owner.bytes);
    let built = solana_program::system_instruction::create_account(&from, &to, lamports, space, &program);
    Instruction {
        program: Identity { bytes: built.program_id.to_bytes() },
        accounts: built.accounts.iter().map(|m| AccountMeta { key: Identity { bytes: m.pubkey.to_bytes() }, is_signer: m.is_signer, is_writable: m.is_writable }).collect(),
        data: built.data,
    }
}

/// Calls `spl_token::instruction::initialize_account` for the asset ledger's own
/// address. The contract claims: the instruction goes to the asset ledger, names
/// the account as writable, then mint, owner and the sizing rules as read-only,
/// none a signer, and carries the single byte 1.
#[verifier::external_body]
fn build_initialize_vault(vault: &Identity, mint: &Identity, authority: &Identity) -> (r: Option<Instruction>)
    ensures
        r is Some,
        r.unwrap()@ == initialize_vault_instruction(vault@, mint@, authority@),
{
    let account = solana_program::pubkey::Pubkey::new_from_array(vault.bytes);
    let asset = solana_program::pubkey::Pubkey::new_from_array(mint.bytes);
    let owner = solana_program::pubkey::Pubkey::new_from_array(authority.bytes);
    let built = spl_token::instruction::initialize_account(&spl_token::id(), &account, &asset, &owner).ok()?;
    Some(Instruction {
        program: Identity { bytes: built.program_id.to_bytes() },
        accounts: built.accounts.iter().map(|m| AccountMeta { key: Identity { bytes: m.pubkey.to_bytes() }, is_signer: m.is_signer, is_writable: m.is_writable }).collect(),
        data: built.data,
    })
}

/// Calls `spl_token::instruction::transfer` for the asset ledger's own address,
/// with no further signers. The contract claims: the instruction goes to the
/// asset ledger, names source and destination as writable and the authority as a
/// read-only signer, and carries the byte 3, then the amount in eight
/// little-endian bytes.
#[verifier::external_body]
fn build_transfer(source: &Identity, destination: &Identity, authority: &Identity, amount: u64) -> (r: Option<Instruction>)
    ensures
        r is Some,
        r.unwrap()@ == transfer_instruction(source@, destination@, authority@, amount),
{
    let from = solana_program::pubkey::Pubkey::new_from_array(source.bytes);
    let to = solana_program::pubkey::Pubkey::new_from_array(destination.bytes);
    let owner = solana_program::pubkey::Pubkey::new_from_array(authority.bytes);
    let built = spl_token::instruction::transfer(&spl_token::id(), &from, &to, &owner, &[], amount).ok()?;
    Some(Instruction {
        program: Identity { bytes: built.program_id.to_bytes() },
        accounts: built.accounts.iter().map(|m| AccountMeta { key: Identity { bytes: m.pubkey.to_bytes() }, is_signer: m.is_signer, is_writable: m.is_writable }).collect(),
        data: built.data,
    })
}

/// Calls `spl_token::instruction::burn` for the asset ledger's own address, with
/// the authority as the one further signer. The contract claims: the instruction
/// goes to the asset ledger, names account and mint as writable, the authority
/// as read-only and not signing, then the authority again as a read-only signer,
/// and carries the byte 8, then the amount in eight little-endian bytes.
#[verifier::external_body]
fn build_burn(account: &Identity, mint: &Identity, authority: &Identity, amount: u64) -> (r: Option<Instruction>)
    ensures
        r is Some,
        r.unwrap()@ == burn_instruction(account@, mint@, authority@, amount),
{
    let holder = solana_program::pubkey::Pubkey::new_from_array(account.bytes);
    let asset = solana_program::pubkey::Pubkey::new_from_array(mint.bytes);
    let owner = solana_program::pubkey::Pubkey::new_from_array(authority.bytes);
    let built = spl_token::instruction::burn(&spl_token::id(), &holder, &asset, &owner, &[&owner], amount).ok()?;
    Some(Instruction {
        program: Identity { bytes: built.program_id.to_bytes() },
        accounts: built.accounts.iter().map(|m| AccountMeta { key: Identity { bytes: m.pubkey.to_bytes() }, is_signer: m.is_signer, is_writable: m.is_writable }).collect(),
        data: built.data,
    })
}

impl Request {
    /// The instruction that carries this request to the program that serves it.
    pub fn encode(&self) -> (r: Instruction)
        ensures
            r@ == encoding(*self),
    {
        match self {
            Request::CreateAccount { payer, address, lamports, space, owner } => {
                build_create_account(payer, address, *lamports, *space, owner)
            },
            Request::InitializeVault { vault, mint, authority } => {
                build_initialize_vault(vault, mint, authority).unwrap()
            },
            Request::Transfer { source, destination, authority, amount } => {
                build_transfer(source, destination, authority, *amount).unwrap()
            },
            Request::Burn { account, mint, authority, amount } => {
                build_burn(account, mint, authority, *amount).unwrap()
            },
        }
    }
}

/// A request together with the seeds of the derived identity that signs it; an
/// empty list where only the caller's own signature is needed.
#[derive(Clone, Debug, PartialEq, Eq)]
pub struct Invocation {
    pub request: Request,
    pub signer_seeds: Vec<Vec<u8>>,
}

/// What an invocation holds, as mathematical values.
pub struct InvocationView {
    pub request: Request,
    pub signer_seeds: Seq<Seq<u8>>,
}

impl View for Invocation {
    type V = InvocationView;

    open spec fn view(&self) -> InvocationView {
        InvocationView { request: self.request, signer_seeds: seeds_view(self.signer_seeds@) }
    }
}

/// A list of invocations as the values they hold.
pub open spec fn invocations_view(invocations: Seq<Invocation>) -> Seq<InvocationView> {
    Seq::new(invocations.len(), |i: int| invocations[i]@)
}

/// A request that the caller's own signature covers.
pub open spec fn unsigned(request: Request) -> InvocationView {
    InvocationView { request, signer_seeds: Seq::empty() }
}

impl Invocation {
    /// A request that needs no derived signer.
    pub fn plain(request: Request) -> (r: Invocation)
        ensures
            r@ == unsigned(request),
    {
        let r = Invocation { request, signer_seeds: Vec::new() };
        assert(seeds_view(r.signer_seeds@) =~= Seq::<Seq<u8>>::empty());
        r
    }
}

/// What a step of the program leaves behind: the accounts as they are after
/// it, and the requests that the host is to carry out for it, in order.
pub type Outcome = Result<(Seq<AccountView>, Seq<InvocationView>), ProtocolError>;

/// Whether a step ended as its outcome says: on success the accounts and the
/// requests are those of the outcome; on failure the error is, and the
/// accounts are as they were.
pub open spec fn ended_as(
    expected: Outcome,
    before: Seq<Account>,
    after: Seq<Account>,
    r: Result<Vec<Invocation>, ProtocolError>,
) -> bool {
    match expected {
        Ok((accounts, requests)) => {
            &&& r is Ok
            &&& accounts_view(after) == accounts
            &&& invocations_view(r.unwrap()@) == requests
        },
        Err(e) => r is Err && r->Err_0 == e && after == before,
    }
}

/// Whether a step that changes no account ended as expected: on success the
/// requests are the expected ones, on failure the error is.
pub open spec fn issued(
    expected: Result<Seq<InvocationView>, ProtocolError>,
    r: Result<Vec<Invocation>, ProtocolError>,
) -> bool {
    match expected {
        Ok(requests) => r is Ok && invocations_view(r.unwrap()@) == requests,
        Err(e) => r is Err && r->Err_0 == e,
    }
}

} // verus!
