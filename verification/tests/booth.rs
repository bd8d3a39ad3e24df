use exchange_booth::booth::instruction::ExchangeBoothInstruction;
use exchange_booth::booth::processor::close_exchange_booth;
use exchange_booth::booth::processor::deposit;
use exchange_booth::booth::processor::exchange;
use exchange_booth::booth::processor::initialize_exchange_booth;
use exchange_booth::booth::processor::read_booth;
use exchange_booth::booth::processor::sign_for_vault;
use exchange_booth::booth::processor::withdraw;
use exchange_booth::booth::processor::Processor;
use exchange_booth::booth::state::ExchangeBooth;
use exchange_booth::booth::state::Oracle;
use exchange_booth::booth::state::BOOTH_RECORD_SIZE;
use exchange_booth::derivation::Identity;
use exchange_booth::echo::instruction::EchoInstruction;
use exchange_booth::error::LedgerFault;
use exchange_booth::error::ProtocolError;
use exchange_booth::host::token_program_id;
use exchange_booth::host::Account;
use exchange_booth::host::Invocation;
use exchange_booth::host::Request;
use exchange_booth::host::VAULT_RECORD_SIZE;
use exchange_booth::ledger::AssetLedger;
use solana_program::pubkey::Pubkey;

const BOOTH_RENT: u64 = 1_800;
const VAULT_RENT: u64 = 2_000;

fn key_b(tag: u8) -> Identity {
    Identity::new([tag; 32])
}

fn wallet_b(key: Identity, lamports: u64, is_signer: bool) -> Account {
    Account { key, is_signer, lamports, data: Vec::new(), owner: Identity::new([0; 32]) }
}

fn derived_b(seeds: &[Vec<u8>], program: &Identity) -> (Identity, u8) {
    let parts: Vec<&[u8]> = seeds.iter().map(|s| s.as_slice()).collect();
    let (k, b) = Pubkey::find_program_address(&parts, &Pubkey::new_from_array(program.bytes));
    (Identity::new(k.to_bytes()), b)
}

struct World {
    booth_program: Identity,
    echo_program: Identity,
    admin: Identity,
    user: Identity,
    mint_a: Identity,
    mint_b: Identity,
    oracle: Identity,
    booth: Identity,
    vault_a: Identity,
    vault_b: Identity,
    admin_wallet_a: Identity,
    admin_wallet_b: Identity,
    user_wallet_a: Identity,
    user_wallet_b: Identity,
    oracle_account: Account,
    booth_account: Account,
    ledger: AssetLedger,
}

fn oracle_with_rate(echo_program: &Identity, admin: &Identity, buffer_seed: u64, rate: u64) -> Account {
    let (oracle, _) = derived_b(
        &[b"authority".to_vec(), admin.to_vec(), buffer_seed.to_le_bytes().to_vec()],
        echo_program,
    );
    let mut accounts = vec![wallet_b(oracle, 0, false), wallet_b(*admin, 10_000, true)];
    let init = EchoInstruction::InitializeAuthorizedEcho { buffer_seed, buffer_size: 17 }.pack().unwrap();
    exchange_booth::echo::processor::Processor::process_instruction(echo_program, &mut accounts, &init, 500)
        .unwrap();
    let write = EchoInstruction::AuthorizedEcho { data: Oracle { exchange_rate: rate }.encode() }
        .pack()
        .unwrap();
    exchange_booth::echo::processor::Processor::process_instruction(echo_program, &mut accounts, &write, 500)
        .unwrap();
    accounts[0].clone()
}

fn world(rate: u64) -> World {
    let booth_program = key_b(200);
    let echo_program = key_b(201);
    let admin = key_b(1);
    let user = key_b(2);
    let mint_a = key_b(3);
    let mint_b = key_b(4);
    let oracle_account = oracle_with_rate(&echo_program, &admin, 42, rate);
    let oracle = oracle_account.key;
    let (booth, _) = derived_b(
        &[b"exchange_booth".to_vec(), admin.to_vec(), mint_a.to_vec(), mint_b.to_vec(), oracle.to_vec()],
        &booth_program,
    );
    let (vault_a, _) = derived_b(&[booth.to_vec(), mint_a.to_vec()], &booth_program);
    let (vault_b, _) = derived_b(&[booth.to_vec(), mint_b.to_vec()], &booth_program);

    let mut accounts = vec![
        wallet_b(admin, 10_000, true),
        wallet_b(mint_a, 1, false),
        wallet_b(mint_b, 1, false),
        wallet_b(vault_a, 0, false),
        wallet_b(vault_b, 0, false),
        oracle_account.clone(),
        wallet_b(booth, 0, false),
        wallet_b(Identity::new([0; 32]), 1, false),
        wallet_b(token_program_id(), 1, false),
        wallet_b(key_b(99), 1, false),
    ];
    let request = ExchangeBoothInstruction::InitializeExchangeBooth.pack();
    let invocations =
        Processor::process_instruction(&booth_program, &mut accounts, &request, BOOTH_RENT, VAULT_RENT).unwrap();
    let mut ledger = AssetLedger::new();
    ledger.settle(&invocations, &booth_program, &vec![admin]).unwrap();

    let admin_wallet_a = key_b(11);
    let admin_wallet_b = key_b(12);
    let user_wallet_a = key_b(13);
    let user_wallet_b = key_b(14);
    ledger.open(&admin_wallet_a, &mint_a, &admin).unwrap();
    ledger.open(&admin_wallet_b, &mint_b, &admin).unwrap();
    ledger.open(&user_wallet_a, &mint_a, &user).unwrap();
    ledger.open(&user_wallet_b, &mint_b, &user).unwrap();

    World {
        booth_program,
        echo_program,
        admin,
        user,
        mint_a,
        mint_b,
        oracle,
        booth,
        vault_a,
        vault_b,
        admin_wallet_a,
        admin_wallet_b,
        user_wallet_a,
        user_wallet_b,
        oracle_account,
        booth_account: accounts[6].clone(),
        ledger,
    }
}

fn exchange_accounts(w: &World) -> Vec<Account> {
    vec![
        wallet_b(w.user_wallet_a, 1, false),
        wallet_b(w.vault_a, 1, false),
        wallet_b(w.vault_b, 1, false),
        wallet_b(w.user_wallet_b, 1, false),
        wallet_b(w.mint_b, 1, false),
        wallet_b(w.user, 1, true),
        w.oracle_account.clone(),
        w.booth_account.clone(),
        wallet_b(token_program_id(), 1, false),
    ]
}

fn withdraw_accounts(w: &World) -> Vec<Account> {
    vec![
        wallet_b(w.vault_a, 1, false),
        wallet_b(w.admin_wallet_a, 1, false),
        wallet_b(w.mint_a, 1, false),
        wallet_b(w.admin, 1, true),
        w.booth_account.clone(),
        wallet_b(token_program_id(), 1, false),
    ]
}

#[test]
fn test_exchange_booth() {
    let mut w = world(2);
    println!("--- Initialize Exchange Booth ---");
    println!(
        "admin: {:?}\nmint_a: {:?}\nmint_b: {:?}\noracle: {:?}\nexchange_booth: {:?}",
        w.admin, w.mint_a, w.mint_b, w.oracle, w.booth
    );
    println!("{:?}", w.echo_program);
    let record = read_booth(&w.booth_account).unwrap();
    assert_eq!(
        record,
        ExchangeBooth { is_initialized: true, admin: w.admin, vault_a: w.vault_a, vault_b: w.vault_b, oracle: w.oracle }
    );
    assert_eq!(w.ledger.balance(&w.vault_a), Some(0));
    assert_eq!(w.ledger.balance(&w.vault_b), Some(0));

    w.ledger.mint_to(&w.admin_wallet_a, &w.mint_a, 42).unwrap();
    w.ledger.mint_to(&w.admin_wallet_b, &w.mint_b, 42).unwrap();
    w.ledger.mint_to(&w.user_wallet_a, &w.mint_a, 42).unwrap();
    w.ledger.mint_to(&w.user_wallet_b, &w.mint_b, 42).unwrap();

    println!("--- Deposit ---");
    let mut accounts = vec![
        wallet_b(w.admin_wallet_a, 1, false),
        wallet_b(w.vault_a, 1, false),
        wallet_b(w.admin, 1, true),
        w.booth_account.clone(),
        wallet_b(token_program_id(), 1, false),
    ];
    let request = ExchangeBoothInstruction::Deposit { amount: 42 }.pack();
    let invocations =
        Processor::process_instruction(&w.booth_program, &mut accounts, &request, BOOTH_RENT, VAULT_RENT).unwrap();
    w.ledger.settle(&invocations, &w.booth_program, &vec![w.admin]).unwrap();
    let mut accounts = vec![
        wallet_b(w.admin_wallet_b, 1, false),
        wallet_b(w.vault_b, 1, false),
        wallet_b(w.admin, 1, true),
        w.booth_account.clone(),
        wallet_b(token_program_id(), 1, false),
    ];
    let invocations =
        Processor::process_instruction(&w.booth_program, &mut accounts, &request, BOOTH_RENT, VAULT_RENT).unwrap();
    w.ledger.settle(&invocations, &w.booth_program, &vec![w.admin]).unwrap();
    println!("\u{001b}[36m vault_a \u{001b}[0m {:?}", w.ledger.balance(&w.vault_a));
    println!("\u{001b}[36m vault_b \u{001b}[0m {:?}", w.ledger.balance(&w.vault_b));
    println!("\u{001b}[36m admin_wallet_a \u{001b}[0m {:?}", w.ledger.balance(&w.admin_wallet_a));
    println!("\u{001b}[36m admin_wallet_b \u{001b}[0m {:?}", w.ledger.balance(&w.admin_wallet_b));
    assert_eq!(w.ledger.balance(&w.vault_a), Some(42));
    assert_eq!(w.ledger.balance(&w.vault_b), Some(42));
    assert_eq!(w.ledger.balance(&w.admin_wallet_a), Some(0));
    assert_eq!(w.ledger.balance(&w.admin_wallet_b), Some(0));

    println!("--- Withdraw ---");
    let mut accounts = withdraw_accounts(&w);
    let request = ExchangeBoothInstruction::Withdraw { amount: 21 }.pack();
    let invocations =
        Processor::process_instruction(&w.booth_program, &mut accounts, &request, BOOTH_RENT, VAULT_RENT).unwrap();
    w.ledger.settle(&invocations, &w.booth_program, &vec![w.admin]).unwrap();
    assert_eq!(w.ledger.balance(&w.vault_a), Some(21));
    assert_eq!(w.ledger.balance(&w.admin_wallet_a), Some(21));

    println!("--- Oracle ---");
    println!("{:?}", Oracle { exchange_rate: 2 });
    assert_eq!(w.oracle_account.data.len(), 17);
    assert_eq!(exchange::read_rate(&w.oracle_account), Some(2));

    println!("--- Exchange ---");
    let mut accounts = exchange_accounts(&w);
    let request = ExchangeBoothInstruction::Exchange { amount: 21 }.pack();
    let invocations =
        Processor::process_instruction(&w.booth_program, &mut accounts, &request, BOOTH_RENT, VAULT_RENT).unwrap();
    w.ledger.settle(&invocations, &w.booth_program, &vec![w.user]).unwrap();
    println!("\u{001b}[36m user_wallet_a \u{001b}[0m {:?}", w.ledger.balance(&w.user_wallet_a));
    println!("\u{001b}[36m user_wallet_b \u{001b}[0m {:?}", w.ledger.balance(&w.user_wallet_b));
    assert_eq!(w.ledger.balance(&w.user_wallet_a), Some(21));
    assert_eq!(w.ledger.balance(&w.user_wallet_b), Some(84));
    assert_eq!(w.ledger.balance(&w.vault_a), Some(42));
    assert_eq!(w.ledger.balance(&w.vault_b), Some(0));

    let mut accounts = vec![wallet_b(w.admin, 7, true), w.booth_account.clone()];
    let request = ExchangeBoothInstruction::CloseExchangeBooth.pack();
    let invocations =
        Processor::process_instruction(&w.booth_program, &mut accounts, &request, BOOTH_RENT, VAULT_RENT).unwrap();
    assert!(invocations.is_empty());
    assert_eq!(accounts[0].lamports, 7 + BOOTH_RENT);
    assert_eq!(accounts[1].lamports, 0);
    assert_eq!(accounts[1].data, vec![0u8; 129]);
}

#[test]
fn exchange_scenario_balances() {
    let mut w = world(2);
    w.ledger.mint_to(&w.admin_wallet_a, &w.mint_a, 100).unwrap();
    w.ledger.mint_to(&w.admin_wallet_b, &w.mint_b, 100).unwrap();
    w.ledger.transfer(&w.admin_wallet_a, &w.vault_a, &w.admin, 100).unwrap();
    w.ledger.transfer(&w.admin_wallet_b, &w.vault_b, &w.admin, 100).unwrap();
    w.ledger.mint_to(&w.user_wallet_a, &w.mint_a, 42).unwrap();

    let invocations = exchange::process(&w.booth_program, &exchange_accounts(&w), 21).unwrap();
    w.ledger.settle(&invocations, &w.booth_program, &vec![w.user]).unwrap();

    assert_eq!(w.ledger.balance(&w.user_wallet_a), Some(21));
    assert_eq!(w.ledger.balance(&w.user_wallet_b), Some(42));
    assert_eq!(w.ledger.balance(&w.vault_a), Some(121));
    assert_eq!(w.ledger.balance(&w.vault_b), Some(58));
}

#[test]
fn exchange_without_cover_moves_nothing() {
    let mut w = world(2);
    w.ledger.mint_to(&w.vault_a, &w.mint_a, 100).unwrap();
    w.ledger.mint_to(&w.vault_b, &w.mint_b, 41).unwrap();
    w.ledger.mint_to(&w.user_wallet_a, &w.mint_a, 42).unwrap();
    let before = w.ledger.clone();

    let invocations = exchange::process(&w.booth_program, &exchange_accounts(&w), 21).unwrap();
    assert_eq!(
        w.ledger.settle(&invocations, &w.booth_program, &vec![w.user]),
        Err(LedgerFault::InsufficientBalance)
    );
    assert_eq!(w.ledger, before);
    assert_eq!(w.ledger.balance(&w.vault_a), Some(100));
    assert_eq!(w.ledger.balance(&w.user_wallet_a), Some(42));

    w.ledger.mint_to(&w.vault_b, &w.mint_b, 1).unwrap();
    w.ledger.settle(&invocations, &w.booth_program, &vec![w.user]).unwrap();
    assert_eq!(w.ledger.balance(&w.vault_b), Some(0));
    assert_eq!(w.ledger.balance(&w.user_wallet_b), Some(42));
}

#[test]
fn exchange_asks_for_payment_then_payout() {
    let w = world(3);
    let invocations = exchange::process(&w.booth_program, &exchange_accounts(&w), 7).unwrap();
    let (_, bump) = derived_b(&[w.booth.to_vec(), w.mint_b.to_vec()], &w.booth_program);
    assert_eq!(
        invocations,
        vec![
            Invocation {
                request: Request::Transfer {
                    source: w.user_wallet_a,
                    destination: w.vault_a,
                    authority: w.user,
                    amount: 7,
                },
                signer_seeds: Vec::new(),
            },
            Invocation {
                request: Request::Transfer {
                    source: w.vault_b,
                    destination: w.user_wallet_b,
                    authority: w.vault_b,
                    amount: 21,
                },
                signer_seeds: vec![w.booth.to_vec(), w.mint_b.to_vec(), vec![bump]],
            },
        ]
    );
}

#[test]
fn exchange_is_open_to_any_caller() {
    let mut w = world(1);
    w.ledger.mint_to(&w.vault_b, &w.mint_b, 5).unwrap();
    let stranger = key_b(77);
    let purse = key_b(78);
    let pocket = key_b(79);
    w.ledger.open(&purse, &w.mint_a, &stranger).unwrap();
    w.ledger.open(&pocket, &w.mint_b, &stranger).unwrap();
    w.ledger.mint_to(&purse, &w.mint_a, 5).unwrap();
    let mut accounts = exchange_accounts(&w);
    accounts[0].key = purse;
    accounts[3].key = pocket;
    accounts[5].key = stranger;
    let invocations = exchange::process(&w.booth_program, &accounts, 5).unwrap();
    w.ledger.settle(&invocations, &w.booth_program, &vec![stranger]).unwrap();
    assert_eq!(w.ledger.balance(&pocket), Some(5));
    assert_eq!(w.ledger.balance(&purse), Some(0));
}

#[test]
fn exchange_refuses_a_foreign_feed() {
    let w = world(2);
    let mut accounts = exchange_accounts(&w);
    accounts[6] = oracle_with_rate(&w.echo_program, &w.admin, 43, 1_000);
    assert_eq!(
        exchange::process(&w.booth_program, &accounts, 21),
        Err(ProtocolError::InvalidAccountData)
    );
}

#[test]
fn exchange_refuses_a_feed_it_cannot_read() {
    let w = world(2);
    let mut accounts = exchange_accounts(&w);
    accounts[6].data.push(0);
    assert_eq!(
        exchange::process(&w.booth_program, &accounts, 21),
        Err(ProtocolError::InvalidAccountData)
    );
    accounts[6].data.truncate(16);
    assert_eq!(
        exchange::process(&w.booth_program, &accounts, 21),
        Err(ProtocolError::InvalidAccountData)
    );
    accounts[6].data.truncate(4);
    assert_eq!(exchange::read_rate(&accounts[6]), None);
    assert_eq!(
        exchange::process(&w.booth_program, &accounts, 21),
        Err(ProtocolError::InvalidAccountData)
    );
}

#[test]
fn exchange_refuses_overflow() {
    let w = world(u64::MAX);
    assert_eq!(
        exchange::process(&w.booth_program, &exchange_accounts(&w), 2),
        Err(ProtocolError::Overflow)
    );
    let invocations = exchange::process(&w.booth_program, &exchange_accounts(&w), 1).unwrap();
    assert!(matches!(invocations[1].request, Request::Transfer { amount: u64::MAX, .. }));
    let invocations = exchange::process(&w.booth_program, &exchange_accounts(&w), 0).unwrap();
    assert!(matches!(invocations[1].request, Request::Transfer { amount: 0, .. }));
}

#[test]
fn exchange_refuses_a_vault_that_is_not_the_booths() {
    let w = world(2);
    let mut accounts = exchange_accounts(&w);
    accounts[2].key = w.vault_a;
    assert_eq!(
        exchange::process(&w.booth_program, &accounts, 21),
        Err(ProtocolError::InvalidAuthority)
    );
    let mut accounts = exchange_accounts(&w);
    accounts[4].key = w.mint_a;
    assert_eq!(
        exchange::process(&w.booth_program, &accounts, 21),
        Err(ProtocolError::InvalidAuthority)
    );
}

#[test]
fn exchange_refuses_a_record_that_is_no_open_booth() {
    let w = world(2);
    let mut accounts = exchange_accounts(&w);
    accounts[7].data[0] = 0;
    assert_eq!(
        exchange::process(&w.booth_program, &accounts, 21),
        Err(ProtocolError::InvalidAccountData)
    );
    accounts[7].data[0] = 2;
    assert_eq!(
        exchange::process(&w.booth_program, &accounts, 21),
        Err(ProtocolError::InvalidAccountData)
    );
    accounts[7].data = vec![1; 128];
    assert_eq!(
        exchange::process(&w.booth_program, &accounts, 21),
        Err(ProtocolError::InvalidAccountData)
    );
    accounts.truncate(7);
    assert_eq!(
        exchange::process(&w.booth_program, &accounts, 21),
        Err(ProtocolError::InvalidEncoding)
    );
}

#[test]
fn withdraw_is_for_the_admin_only() {
    let mut w = world(2);
    w.ledger.mint_to(&w.vault_a, &w.mint_a, 42).unwrap();

    let mut accounts = withdraw_accounts(&w);
    accounts[3] = wallet_b(w.user, 1, true);
    assert_eq!(withdraw::process(&w.booth_program, &accounts, 21), Err(ProtocolError::Unauthorized));

    let mut accounts = withdraw_accounts(&w);
    accounts[3].is_signer = false;
    assert_eq!(withdraw::process(&w.booth_program, &accounts, 21), Err(ProtocolError::Unauthorized));

    let invocations = withdraw::process(&w.booth_program, &withdraw_accounts(&w), 21).unwrap();
    let (_, bump) = derived_b(&[w.booth.to_vec(), w.mint_a.to_vec()], &w.booth_program);
    assert_eq!(
        invocations,
        vec![Invocation {
            request: Request::Transfer {
                source: w.vault_a,
                destination: w.admin_wallet_a,
                authority: w.vault_a,
                amount: 21,
            },
            signer_seeds: vec![w.booth.to_vec(), w.mint_a.to_vec(), vec![bump]],
        }]
    );
    w.ledger.settle(&invocations, &w.booth_program, &vec![w.admin]).unwrap();
    assert_eq!(w.ledger.balance(&w.vault_a), Some(21));
    assert_eq!(w.ledger.balance(&w.admin_wallet_a), Some(21));
}

#[test]
fn withdraw_checks_vault_and_record() {
    let w = world(2);
    let mut accounts = withdraw_accounts(&w);
    accounts[2].key = w.mint_b;
    assert_eq!(withdraw::process(&w.booth_program, &accounts, 1), Err(ProtocolError::InvalidAuthority));
    let mut accounts = withdraw_accounts(&w);
    accounts[0].key = w.admin_wallet_a;
    assert_eq!(withdraw::process(&w.booth_program, &accounts, 1), Err(ProtocolError::InvalidAuthority));
    let mut accounts = withdraw_accounts(&w);
    accounts[4].data.clear();
    assert_eq!(withdraw::process(&w.booth_program, &accounts, 1), Err(ProtocolError::InvalidAccountData));
    let mut accounts = withdraw_accounts(&w);
    accounts.truncate(4);
    assert_eq!(withdraw::process(&w.booth_program, &accounts, 1), Err(ProtocolError::InvalidEncoding));
}

#[test]
fn a_vault_signs_only_under_its_own_program() {
    let mut w = world(2);
    w.ledger.mint_to(&w.vault_a, &w.mint_a, 42).unwrap();
    let invocations = withdraw::process(&w.booth_program, &withdraw_accounts(&w), 21).unwrap();
    assert_eq!(
        w.ledger.settle(&invocations, &w.echo_program, &vec![w.admin]),
        Err(LedgerFault::OwnerMismatch)
    );
    assert_eq!(w.ledger.balance(&w.vault_a), Some(42));
}

#[test]
fn close_is_for_the_admin_only() {
    let w = world(2);
    let mut accounts = vec![wallet_b(w.user, 7, true), w.booth_account.clone()];
    let before = accounts.clone();
    assert_eq!(close_exchange_booth::process(&mut accounts), Err(ProtocolError::Unauthorized));
    assert_eq!(accounts, before);

    let mut accounts = vec![wallet_b(w.admin, 7, false), w.booth_account.clone()];
    assert_eq!(close_exchange_booth::process(&mut accounts), Err(ProtocolError::Unauthorized));

    let mut accounts = vec![wallet_b(w.admin, 7, true), w.booth_account.clone()];
    assert_eq!(close_exchange_booth::process(&mut accounts), Ok(Vec::new()));
    assert_eq!(accounts[0].lamports, 7 + BOOTH_RENT);
    assert_eq!(accounts[1].lamports, 0);
    assert!(accounts[1].data.iter().all(|b| *b == 0));
    assert_eq!(accounts[1].data.len(), BOOTH_RECORD_SIZE);

    assert_eq!(close_exchange_booth::process(&mut accounts), Err(ProtocolError::InvalidAccountData));
    let mut accounts = exchange_accounts(&w);
    accounts[7].data = vec![0; 129];
    assert_eq!(exchange::process(&w.booth_program, &accounts, 1), Err(ProtocolError::InvalidAccountData));
}

#[test]
fn close_refuses_a_balance_out_of_range() {
    let w = world(2);
    let mut accounts = vec![wallet_b(w.admin, u64::MAX - BOOTH_RENT + 1, true), w.booth_account.clone()];
    assert_eq!(close_exchange_booth::process(&mut accounts), Err(ProtocolError::Overflow));
    let mut accounts = vec![wallet_b(w.admin, u64::MAX - BOOTH_RENT, true), w.booth_account.clone()];
    assert!(close_exchange_booth::process(&mut accounts).is_ok());
    assert_eq!(accounts[0].lamports, u64::MAX);
    let mut accounts = vec![wallet_b(w.admin, 1, true)];
    assert_eq!(close_exchange_booth::process(&mut accounts), Err(ProtocolError::InvalidEncoding));
}

fn initialize_accounts(w: &World) -> Vec<Account> {
    vec![
        wallet_b(w.admin, 10_000, true),
        wallet_b(w.mint_a, 1, false),
        wallet_b(w.mint_b, 1, false),
        wallet_b(w.vault_a, 0, false),
        wallet_b(w.vault_b, 0, false),
        w.oracle_account.clone(),
        wallet_b(w.booth, 0, false),
        wallet_b(Identity::new([0; 32]), 1, false),
        wallet_b(token_program_id(), 1, false),
        wallet_b(key_b(99), 1, false),
    ]
}

#[test]
fn initialize_creates_record_and_vaults() {
    let w = world(2);
    let mut accounts = initialize_accounts(&w);
    let invocations =
        initialize_exchange_booth::process(&w.booth_program, &mut accounts, BOOTH_RENT, VAULT_RENT).unwrap();
    assert_eq!(accounts[0].lamports, 10_000 - BOOTH_RENT - 2 * VAULT_RENT);
    assert_eq!(accounts[6].lamports, BOOTH_RENT);
    assert_eq!(accounts[6].owner, w.booth_program);
    assert_eq!(accounts[6].data.len(), 129);
    assert_eq!(accounts[6].data[0], 1);
    assert_eq!(accounts[6].data[1..33], w.admin.bytes);
    assert_eq!(accounts[6].data[33..65], w.vault_a.bytes);
    assert_eq!(accounts[6].data[65..97], w.vault_b.bytes);
    assert_eq!(accounts[6].data[97..129], w.oracle.bytes);
    for i in [3usize, 4] {
        assert_eq!(accounts[i].lamports, VAULT_RENT);
        assert_eq!(accounts[i].owner, token_program_id());
        assert_eq!(accounts[i].data, vec![0u8; VAULT_RECORD_SIZE as usize]);
    }
    assert_eq!(invocations.len(), 5);
    assert_eq!(
        invocations[0].request,
        Request::CreateAccount {
            payer: w.admin,
            address: w.booth,
            lamports: BOOTH_RENT,
            space: 129,
            owner: w.booth_program,
        }
    );
    assert_eq!(invocations[0].signer_seeds.len(), 6);
    assert_eq!(invocations[0].signer_seeds[0], b"exchange_booth".to_vec());
    assert_eq!(
        invocations[1].request,
        Request::CreateAccount {
            payer: w.admin,
            address: w.vault_a,
            lamports: VAULT_RENT,
            space: 165,
            owner: token_program_id(),
        }
    );
    assert_eq!(
        invocations[2].request,
        Request::InitializeVault { vault: w.vault_a, mint: w.mint_a, authority: w.vault_a }
    );
    assert_eq!(invocations[1].signer_seeds, invocations[2].signer_seeds);
    assert_eq!(
        invocations[4].request,
        Request::InitializeVault { vault: w.vault_b, mint: w.mint_b, authority: w.vault_b }
    );
    assert_eq!(invocations[3].signer_seeds, invocations[4].signer_seeds);
    assert_eq!(invocations[3].signer_seeds[..2], [w.booth.to_vec(), w.mint_b.to_vec()]);
}

#[test]
fn initialize_refuses_a_second_time() {
    let w = world(2);
    let mut accounts = initialize_accounts(&w);
    accounts[6] = w.booth_account.clone();
    let before = accounts.clone();
    assert_eq!(
        initialize_exchange_booth::process(&w.booth_program, &mut accounts, BOOTH_RENT, VAULT_RENT),
        Err(ProtocolError::AlreadyInitialized)
    );
    assert_eq!(accounts, before);
    let mut accounts = initialize_accounts(&w);
    accounts[4].lamports = 1;
    assert_eq!(
        initialize_exchange_booth::process(&w.booth_program, &mut accounts, BOOTH_RENT, VAULT_RENT),
        Err(ProtocolError::AlreadyInitialized)
    );
}

#[test]
fn initialize_refuses_what_does_not_fit() {
    let w = world(2);
    let mut accounts = initialize_accounts(&w);
    accounts[0].is_signer = false;
    assert_eq!(
        initialize_exchange_booth::process(&w.booth_program, &mut accounts, BOOTH_RENT, VAULT_RENT),
        Err(ProtocolError::Unauthorized)
    );
    let mut accounts = initialize_accounts(&w);
    accounts[6].key = key_b(50);
    assert_eq!(
        initialize_exchange_booth::process(&w.booth_program, &mut accounts, BOOTH_RENT, VAULT_RENT),
        Err(ProtocolError::InvalidAuthority)
    );
    let mut accounts = initialize_accounts(&w);
    accounts[3].key = w.vault_b;
    assert_eq!(
        initialize_exchange_booth::process(&w.booth_program, &mut accounts, BOOTH_RENT, VAULT_RENT),
        Err(ProtocolError::InvalidAuthority)
    );
    let mut accounts = initialize_accounts(&w);
    accounts[0].lamports = BOOTH_RENT + 2 * VAULT_RENT - 1;
    assert_eq!(
        initialize_exchange_booth::process(&w.booth_program, &mut accounts, BOOTH_RENT, VAULT_RENT),
        Err(ProtocolError::AllocationFailed)
    );
    let mut accounts = initialize_accounts(&w);
    assert_eq!(
        initialize_exchange_booth::process(&w.booth_program, &mut accounts, u64::MAX, u64::MAX),
        Err(ProtocolError::AllocationFailed)
    );
    let mut accounts = initialize_accounts(&w);
    accounts.truncate(9);
    assert_eq!(
        initialize_exchange_booth::process(&w.booth_program, &mut accounts, BOOTH_RENT, VAULT_RENT),
        Err(ProtocolError::InvalidEncoding)
    );
}

#[test]
fn initialize_refuses_one_mint_twice() {
    let booth_program = key_b(200);
    let admin = key_b(1);
    let mint = key_b(3);
    let oracle = key_b(5);
    let (booth, _) = derived_b(
        &[b"exchange_booth".to_vec(), admin.to_vec(), mint.to_vec(), mint.to_vec(), oracle.to_vec()],
        &booth_program,
    );
    let (vault, _) = derived_b(&[booth.to_vec(), mint.to_vec()], &booth_program);
    let mut accounts = vec![
        wallet_b(admin, 10_000, true),
        wallet_b(mint, 1, false),
        wallet_b(mint, 1, false),
        wallet_b(vault, 0, false),
        wallet_b(vault, 0, false),
        wallet_b(oracle, 1, false),
        wallet_b(booth, 0, false),
        wallet_b(key_b(0), 1, false),
        wallet_b(token_program_id(), 1, false),
        wallet_b(key_b(99), 1, false),
    ];
    assert_eq!(
        initialize_exchange_booth::process(&booth_program, &mut accounts, BOOTH_RENT, VAULT_RENT),
        Err(ProtocolError::AlreadyInitialized)
    );
}

#[test]
fn deposit_asks_for_one_transfer() {
    let accounts = vec![wallet_b(key_b(1), 1, false), wallet_b(key_b(2), 1, false), wallet_b(key_b(3), 1, true)];
    assert_eq!(
        deposit::process(&accounts, 42),
        Ok(vec![Invocation {
            request: Request::Transfer {
                source: key_b(1),
                destination: key_b(2),
                authority: key_b(3),
                amount: 42,
            },
            signer_seeds: Vec::new(),
        }])
    );
    assert_eq!(deposit::process(&accounts[..2].to_vec(), 42), Err(ProtocolError::InvalidEncoding));
}

#[test]
fn deposit_fails_as_the_ledger_says() {
    let mut w = world(2);
    w.ledger.mint_to(&w.user_wallet_a, &w.mint_a, 5).unwrap();
    let accounts = vec![wallet_b(w.user_wallet_a, 1, false), wallet_b(w.vault_a, 1, false), wallet_b(w.user, 1, true)];
    let invocations = deposit::process(&accounts, 6).unwrap();
    assert_eq!(w.ledger.settle(&invocations, &w.booth_program, &vec![w.user]), Err(LedgerFault::InsufficientBalance));
    let accounts = vec![wallet_b(w.user_wallet_a, 1, false), wallet_b(w.vault_b, 1, false), wallet_b(w.user, 1, true)];
    let invocations = deposit::process(&accounts, 5).unwrap();
    assert_eq!(w.ledger.settle(&invocations, &w.booth_program, &vec![w.user]), Err(LedgerFault::InvalidMint));
    let accounts = vec![wallet_b(w.user_wallet_a, 1, false), wallet_b(w.vault_a, 1, false), wallet_b(w.user, 1, true)];
    let invocations = deposit::process(&accounts, 5).unwrap();
    assert_eq!(w.ledger.settle(&invocations, &w.booth_program, &vec![w.admin]), Err(LedgerFault::OwnerMismatch));
    assert_eq!(w.ledger.settle(&invocations, &w.booth_program, &vec![w.user]), Ok(()));
    assert_eq!(w.ledger.balance(&w.vault_a), Some(5));
}

#[test]
fn booth_instructions_are_packed_as_tag_and_amount() {
    assert_eq!(ExchangeBoothInstruction::InitializeExchangeBooth.pack(), vec![0]);
    assert_eq!(ExchangeBoothInstruction::Deposit { amount: 42 }.pack(), vec![1, 42, 0, 0, 0, 0, 0, 0, 0]);
    assert_eq!(ExchangeBoothInstruction::Withdraw { amount: 21 }.pack(), vec![2, 21, 0, 0, 0, 0, 0, 0, 0]);
    assert_eq!(
        ExchangeBoothInstruction::Exchange { amount: 0x0102030405060708 }.pack(),
        vec![3, 8, 7, 6, 5, 4, 3, 2, 1]
    );
    assert_eq!(ExchangeBoothInstruction::CloseExchangeBooth.pack(), vec![4]);
}

#[test]
fn booth_instructions_are_read_back_as_packed() {
    let all = [
        ExchangeBoothInstruction::InitializeExchangeBooth,
        ExchangeBoothInstruction::Deposit { amount: 0 },
        ExchangeBoothInstruction::Withdraw { amount: u64::MAX },
        ExchangeBoothInstruction::Exchange { amount: 21 },
        ExchangeBoothInstruction::CloseExchangeBooth,
    ];
    for instruction in all {
        assert_eq!(ExchangeBoothInstruction::unpack(&instruction.pack()), Ok(instruction));
    }
    let bad: Vec<Vec<u8>> = vec![
        vec![],
        vec![5],
        vec![0, 0],
        vec![4, 0, 0, 0, 0, 0, 0, 0, 0],
        vec![1],
        vec![1, 0, 0, 0, 0, 0, 0, 0],
        vec![2, 0, 0, 0, 0, 0, 0, 0, 0, 0],
        vec![0, 0, 0, 0, 0, 0, 0, 0, 0],
    ];
    for bytes in bad {
        assert_eq!(ExchangeBoothInstruction::unpack(&bytes), Err(ProtocolError::InvalidEncoding));
    }
    let mut accounts: Vec<Account> = Vec::new();
    assert_eq!(
        Processor::process_instruction(&key_b(200), &mut accounts, &[7], BOOTH_RENT, VAULT_RENT),
        Err(ProtocolError::InvalidEncoding)
    );
}

#[test]
fn registry_record_is_129_bytes() {
    let record = ExchangeBooth {
        is_initialized: true,
        admin: key_b(1),
        vault_a: key_b(2),
        vault_b: key_b(3),
        oracle: key_b(4),
    };
    let bytes = record.encode();
    assert_eq!(bytes.len(), 129);
    assert_eq!(bytes[0], 1);
    assert_eq!(bytes[1..33], [1u8; 32]);
    assert_eq!(bytes[33..65], [2u8; 32]);
    assert_eq!(bytes[65..97], [3u8; 32]);
    assert_eq!(bytes[97..129], [4u8; 32]);
    assert_eq!(ExchangeBooth::decode(&bytes), Some(record));
    let mut closed = bytes.clone();
    closed[0] = 0;
    assert_eq!(ExchangeBooth::decode(&closed).unwrap().is_initialized, false);
    closed[0] = 2;
    assert_eq!(ExchangeBooth::decode(&closed), None);
    assert_eq!(ExchangeBooth::decode(&bytes[..128]), None);
    let mut long = bytes.clone();
    long.push(0);
    assert_eq!(ExchangeBooth::decode(&long), None);
    assert_eq!(ExchangeBooth::decode(&[]), None);
}

#[test]
fn oracle_payload_is_the_rate_in_eight_bytes() {
    assert_eq!(Oracle { exchange_rate: 2 }.encode(), vec![2, 0, 0, 0, 0, 0, 0, 0]);
    assert_eq!(Oracle::decode(&[2, 0, 0, 0, 0, 0, 0, 0]), Some(Oracle { exchange_rate: 2 }));
    assert_eq!(
        Oracle::decode(&[1, 2, 3, 4, 5, 6, 7, 8]),
        Some(Oracle { exchange_rate: 0x0807060504030201 })
    );
    assert_eq!(Oracle::decode(&[2, 0, 0, 0, 0, 0, 0]), None);
    assert_eq!(Oracle::decode(&[2, 0, 0, 0, 0, 0, 0, 0, 0]), None);
    assert_eq!(Oracle::decode(&[]), None);
}

#[test]
fn vault_signature_is_for_the_booths_vault() {
    let w = world(2);
    let (_, bump) = derived_b(&[w.booth.to_vec(), w.mint_a.to_vec()], &w.booth_program);
    assert_eq!(
        sign_for_vault(&w.booth_program, &w.booth, &w.mint_a, &w.vault_a),
        Ok(vec![w.booth.to_vec(), w.mint_a.to_vec(), vec![bump]])
    );
    assert_eq!(
        sign_for_vault(&w.booth_program, &w.booth, &w.mint_a, &w.vault_b),
        Err(ProtocolError::InvalidAuthority)
    );
}
