use exchange_booth::derivation::Identity;
use exchange_booth::error::LedgerFault;
use exchange_booth::host::token_program_id;
use exchange_booth::host::Account;
use exchange_booth::host::AccountMeta;
use exchange_booth::host::Invocation;
use exchange_booth::host::Request;
use exchange_booth::ledger::is_signed;
use exchange_booth::ledger::AssetLedger;
use solana_program::program_pack::Pack;
use solana_program::pubkey::Pubkey;

fn key_h(tag: u8) -> Identity {
    Identity::new([tag; 32])
}

fn pubkey_h(id: &Identity) -> Pubkey {
    Pubkey::new_from_array(id.bytes)
}

fn meta_h(key: Identity, is_signer: bool, is_writable: bool) -> AccountMeta {
    AccountMeta { key, is_signer, is_writable }
}

#[test]
fn token_program_is_the_asset_ledger() {
    assert_eq!(token_program_id().bytes, spl_token::id().to_bytes());
    assert_eq!(
        token_program_id().bytes,
        [
            6, 221, 246, 225, 215, 101, 161, 147, 217, 203, 225, 70, 206, 235, 121, 172, 28, 180, 133, 237, 95,
            91, 55, 145, 58, 140, 245, 133, 126, 255, 0, 169
        ]
    );
}

#[test]
fn transfer_is_encoded_for_the_asset_ledger() {
    let request = Request::Transfer { source: key_h(1), destination: key_h(2), authority: key_h(3), amount: 21 };
    let built = request.encode();
    assert_eq!(built.program, token_program_id());
    assert_eq!(
        built.accounts,
        vec![meta_h(key_h(1), false, true), meta_h(key_h(2), false, true), meta_h(key_h(3), true, false)]
    );
    assert_eq!(built.data, vec![3, 21, 0, 0, 0, 0, 0, 0, 0]);
    let outside = spl_token::instruction::transfer(
        &spl_token::id(),
        &pubkey_h(&key_h(1)),
        &pubkey_h(&key_h(2)),
        &pubkey_h(&key_h(3)),
        &[],
        21,
    )
    .unwrap();
    assert_eq!(built.data, outside.data);
    assert_eq!(built.accounts.len(), outside.accounts.len());
}

#[test]
fn burn_is_encoded_for_the_asset_ledger() {
    let request = Request::Burn { account: key_h(1), mint: key_h(2), authority: key_h(3), amount: 42 };
    let built = request.encode();
    assert_eq!(built.program, token_program_id());
    assert_eq!(
        built.accounts,
        vec![
            meta_h(key_h(1), false, true),
            meta_h(key_h(2), false, true),
            meta_h(key_h(3), false, false),
            meta_h(key_h(3), true, false),
        ]
    );
    assert_eq!(built.data, vec![8, 42, 0, 0, 0, 0, 0, 0, 0]);
}

#[test]
fn vault_opening_is_encoded_for_the_asset_ledger() {
    let request = Request::InitializeVault { vault: key_h(1), mint: key_h(2), authority: key_h(1) };
    let built = request.encode();
    assert_eq!(built.program, token_program_id());
    let rent = Identity::new(solana_program::sysvar::rent::id().to_bytes());
    assert_eq!(
        built.accounts,
        vec![
            meta_h(key_h(1), false, true),
            meta_h(key_h(2), false, false),
            meta_h(key_h(1), false, false),
            meta_h(rent, false, false),
        ]
    );
    assert_eq!(
        rent.bytes,
        [
            6, 167, 213, 23, 25, 44, 92, 81, 33, 140, 201, 76, 61, 74, 241, 127, 88, 218, 238, 8, 155, 161, 253,
            68, 227, 219, 217, 138, 0, 0, 0, 0
        ]
    );
    assert_eq!(built.data, vec![1]);
}

#[test]
fn allocation_is_encoded_for_the_host() {
    let request = Request::CreateAccount {
        payer: key_h(1),
        address: key_h(2),
        lamports: 0x0102,
        space: 19,
        owner: key_h(3),
    };
    let built = request.encode();
    assert_eq!(built.program, Identity::new([0; 32]));
    assert_eq!(built.program.bytes, solana_program::system_program::id().to_bytes());
    assert_eq!(built.accounts, vec![meta_h(key_h(1), true, true), meta_h(key_h(2), true, true)]);
    let mut expected = vec![0u8, 0, 0, 0, 2, 1, 0, 0, 0, 0, 0, 0, 19, 0, 0, 0, 0, 0, 0, 0];
    expected.extend_from_slice(&[3u8; 32]);
    assert_eq!(built.data, expected);
    assert_eq!(built.data.len(), 52);
}

#[test]
fn vault_record_has_the_size_of_an_asset_account() {
    assert_eq!(exchange_booth::host::VAULT_RECORD_SIZE as usize, spl_token::state::Account::get_packed_len());
    assert_eq!(exchange_booth::host::vault_record_size(), 165);
    assert_eq!(exchange_booth::host::MAX_RECORD_SIZE, solana_program::system_instruction::MAX_PERMITTED_DATA_LENGTH);
}

#[test]
fn accounts_are_copied_with_one_field_changed() {
    let account = Account { key: key_h(1), is_signer: true, lamports: 5, data: vec![1, 2, 3], owner: key_h(2) };
    let richer = account.with_lamports(9);
    assert_eq!(richer, Account { lamports: 9, ..account.clone() });
    let rewritten = account.with_data(vec![4]);
    assert_eq!(rewritten, Account { data: vec![4], ..account.clone() });
    assert!(!account.vacant());
    assert!(Account { lamports: 0, data: Vec::new(), ..account.clone() }.vacant());
    assert!(!Account { lamports: 0, ..account.clone() }.vacant());
    assert!(!Account { data: Vec::new(), ..account }.vacant());
    assert_eq!(
        Invocation::plain(Request::InitializeVault { vault: key_h(1), mint: key_h(2), authority: key_h(1) })
            .signer_seeds,
        Vec::<Vec<u8>>::new()
    );
}

#[test]
fn ledger_opens_each_address_once() {
    let mut ledger = AssetLedger::new();
    assert_eq!(ledger.balance(&key_h(1)), None);
    assert_eq!(ledger.open(&key_h(1), &key_h(9), &key_h(5)), Ok(()));
    assert_eq!(ledger.balance(&key_h(1)), Some(0));
    assert_eq!(ledger.open(&key_h(1), &key_h(8), &key_h(6)), Err(LedgerFault::AccountInUse));
    assert_eq!(ledger.find(&key_h(1)), Some(0));
    assert_eq!(ledger.find(&key_h(2)), None);
    assert_eq!(ledger.holdings.len(), 1);
}

#[test]
fn ledger_mints_within_range() {
    let mut ledger = AssetLedger::new();
    ledger.open(&key_h(1), &key_h(9), &key_h(5)).unwrap();
    assert_eq!(ledger.mint_to(&key_h(1), &key_h(9), u64::MAX - 1), Ok(()));
    assert_eq!(ledger.mint_to(&key_h(1), &key_h(9), 2), Err(LedgerFault::Overflow));
    assert_eq!(ledger.mint_to(&key_h(1), &key_h(9), 1), Ok(()));
    assert_eq!(ledger.balance(&key_h(1)), Some(u64::MAX));
    assert_eq!(ledger.mint_to(&key_h(1), &key_h(8), 0), Err(LedgerFault::InvalidMint));
    assert_eq!(ledger.mint_to(&key_h(2), &key_h(9), 0), Err(LedgerFault::UnknownAccount));
}

#[test]
fn ledger_transfers_between_accounts_of_one_asset() {
    let mut ledger = AssetLedger::new();
    ledger.open(&key_h(1), &key_h(9), &key_h(5)).unwrap();
    ledger.open(&key_h(2), &key_h(9), &key_h(6)).unwrap();
    ledger.open(&key_h(3), &key_h(8), &key_h(6)).unwrap();
    ledger.mint_to(&key_h(1), &key_h(9), 10).unwrap();
    assert_eq!(ledger.transfer(&key_h(1), &key_h(2), &key_h(5), 4), Ok(()));
    assert_eq!(ledger.balance(&key_h(1)), Some(6));
    assert_eq!(ledger.balance(&key_h(2)), Some(4));
    assert_eq!(ledger.transfer(&key_h(1), &key_h(2), &key_h(5), 7), Err(LedgerFault::InsufficientBalance));
    assert_eq!(ledger.transfer(&key_h(1), &key_h(2), &key_h(6), 1), Err(LedgerFault::OwnerMismatch));
    assert_eq!(ledger.transfer(&key_h(1), &key_h(3), &key_h(5), 1), Err(LedgerFault::InvalidMint));
    assert_eq!(ledger.transfer(&key_h(1), &key_h(4), &key_h(5), 1), Err(LedgerFault::UnknownAccount));
    assert_eq!(ledger.transfer(&key_h(4), &key_h(1), &key_h(5), 1), Err(LedgerFault::UnknownAccount));
    assert_eq!(ledger.transfer(&key_h(1), &key_h(1), &key_h(5), 6), Ok(()));
    assert_eq!(ledger.balance(&key_h(1)), Some(6));
    ledger.mint_to(&key_h(2), &key_h(9), u64::MAX - 4).unwrap();
    assert_eq!(ledger.transfer(&key_h(1), &key_h(2), &key_h(5), 1), Err(LedgerFault::Overflow));
    assert_eq!(ledger.balance(&key_h(1)), Some(6));
    assert_eq!(ledger.transfer(&key_h(1), &key_h(2), &key_h(5), 0), Ok(()));
}

#[test]
fn ledger_burns_what_is_held() {
    let mut ledger = AssetLedger::new();
    ledger.open(&key_h(1), &key_h(9), &key_h(5)).unwrap();
    ledger.mint_to(&key_h(1), &key_h(9), 10).unwrap();
    assert_eq!(ledger.burn(&key_h(1), &key_h(9), &key_h(5), 11), Err(LedgerFault::InsufficientBalance));
    assert_eq!(ledger.burn(&key_h(1), &key_h(8), &key_h(5), 1), Err(LedgerFault::InvalidMint));
    assert_eq!(ledger.burn(&key_h(1), &key_h(9), &key_h(6), 1), Err(LedgerFault::OwnerMismatch));
    assert_eq!(ledger.burn(&key_h(2), &key_h(9), &key_h(5), 1), Err(LedgerFault::UnknownAccount));
    assert_eq!(ledger.burn(&key_h(1), &key_h(9), &key_h(5), 10), Ok(()));
    assert_eq!(ledger.balance(&key_h(1)), Some(0));
}

#[test]
fn ledger_settles_a_batch_or_nothing() {
    let mut ledger = AssetLedger::new();
    ledger.open(&key_h(1), &key_h(9), &key_h(5)).unwrap();
    ledger.open(&key_h(2), &key_h(9), &key_h(5)).unwrap();
    ledger.mint_to(&key_h(1), &key_h(9), 10).unwrap();
    let step = |amount: u64| {
        Invocation::plain(Request::Transfer {
            source: key_h(1),
            destination: key_h(2),
            authority: key_h(5),
            amount,
        })
    };
    let before = ledger.clone();
    assert_eq!(
        ledger.settle(&vec![step(4), step(4), step(4)], &key_h(200), &vec![key_h(5)]),
        Err(LedgerFault::InsufficientBalance)
    );
    assert_eq!(ledger, before);
    assert_eq!(ledger.settle(&vec![step(4), step(4)], &key_h(200), &vec![key_h(5)]), Ok(()));
    assert_eq!(ledger.balance(&key_h(1)), Some(2));
    assert_eq!(ledger.balance(&key_h(2)), Some(8));
    assert_eq!(ledger.settle(&Vec::new(), &key_h(200), &Vec::new()), Ok(()));
    assert_eq!(ledger.apply(&step(1), &key_h(200), &Vec::new()), Err(LedgerFault::OwnerMismatch));
    assert_eq!(ledger.apply(&step(1), &key_h(200), &vec![key_h(4), key_h(5)]), Ok(()));
    assert!(is_signed(&Vec::new(), &key_h(200), &vec![key_h(4), key_h(5)], &key_h(5)));
    assert!(!is_signed(&Vec::new(), &key_h(200), &vec![key_h(4)], &key_h(5)));
}
