use std::str::FromStr;

use anchor_lang::prelude::Pubkey;
use bounty_hunter::{
    accept_solution, bounty_address, cancel_bounty, create_bounty, submission_address, submit_solution,
    AcceptSolution, Address, BountyHunterErrors, CancelBounty, CreateBounty, Store, SubmitSolution,
};

const PROGRAM_ID: &str = "ELt3SqpiHUsHJ5fxZpH1ksug6nWjAvYBxxKqK5PHfkBa";

fn program_id() -> Address {
    Address { bytes: Pubkey::from_str(PROGRAM_ID).unwrap().to_bytes() }
}

fn addr(b: u8) -> Address {
    Address { bytes: [b; 32] }
}

struct Setup {
    store: Store,
    maker: Address,
    mint: Address,
    maker_token_account: Address,
}

/// A board with one maker whose token account holds 10_000 units of one mint.
fn setup() -> Setup {
    let mut store = Store::new(program_id());
    let maker = addr(1);
    let mint = addr(3);
    let maker_token_account = addr(4);
    store.open_token_account(maker_token_account, mint, maker).unwrap();
    store.mint_to(&maker_token_account, 10_000).unwrap();
    Setup { store, maker, mint, maker_token_account }
}

fn create(s: &mut Setup, seed: u64, description: &str, link: &str, reward: u64) -> Result<Address, BountyHunterErrors> {
    let accounts = CreateBounty { maker: s.maker, mint: s.mint, maker_token_account: s.maker_token_account };
    create_bounty(&mut s.store, &accounts, seed, description.to_string(), link.to_string(), reward)
}

fn submit(s: &mut Setup, hunter: Address, bounty: Address, link: &str, notes: &str) -> Result<Address, BountyHunterErrors> {
    let accounts = SubmitSolution { hunter, bounty };
    submit_solution(&mut s.store, &accounts, link.to_string(), notes.to_string())
}

fn balance(s: &Setup, account: &Address) -> u64 {
    s.store.token_account(account).unwrap().amount
}

#[test]
fn test() {
    let mut s = setup();
    let seed = 1u64;
    let bounty = create(&mut s, seed, "testeeee", "httpQQcoisa", 1).unwrap();

    let b = s.store.bounty(&bounty).unwrap();
    assert_eq!(b.maker, s.maker);
    assert_eq!(b.description, "testeeee".to_string());
    assert_eq!(b.link, "httpQQcoisa".to_string());
    assert_eq!(b.reward, 1);
    assert_eq!(b.seed, seed);

    assert_eq!(s.store.vault_balance(&bounty), Some(1));
}

#[test]
fn cancel_bounty_test() {
    let mut s = setup();
    let seed = 1u64;
    let bounty = create(&mut s, seed, "testeeee", "httpQQcoisa", 1).unwrap();
    assert_eq!(balance(&s, &s.maker_token_account), 9_999);

    let accounts = CancelBounty { maker: s.maker, bounty, maker_token_account: s.maker_token_account };
    cancel_bounty(&mut s.store, &accounts).unwrap();

    // The vault is emptied and closed.
    assert_eq!(s.store.vault_balance(&bounty).unwrap_or(0), 0);
    // The maker has the reward back.
    assert_eq!(balance(&s, &s.maker_token_account), 10_000);
    // The bounty record is closed.
    assert!(s.store.bounty(&bounty).is_none());
}

#[test]
fn submit_solution_test() {
    let mut s = setup();
    let bounty = create(&mut s, 1, "solve me", "https://bounty.link", 1).unwrap();
    let hunter = addr(7);

    let submission = submit(&mut s, hunter, bounty, "https://github.com/solution", "Here is my fix").unwrap();
    let (expected, _) = submission_address(&program_id(), &hunter, &bounty).unwrap();
    assert_eq!(submission, expected);

    let sub = s.store.submission(&submission).unwrap();
    assert_eq!(sub.bounty, bounty);
    assert_eq!(sub.hunter, hunter);
    assert_eq!(sub.link, "https://github.com/solution".to_string());
    assert_eq!(sub.notes, "Here is my fix".to_string());
}

#[test]
fn test_accept_solution() {
    let mut s = setup();
    let bounty = create(&mut s, 1, "fix this bug", "https://issue.link", 1).unwrap();
    assert_eq!(s.store.vault_balance(&bounty), Some(1));

    let hunter = addr(7);
    let submission =
        submit(&mut s, hunter, bounty, "https://github.com/hunter/solution", "This fixes everything").unwrap();
    assert_eq!(s.store.submission(&submission).unwrap().hunter, hunter);

    let hunter_token_account = addr(8);
    s.store.open_token_account(hunter_token_account, s.mint, hunter).unwrap();

    let accounts = AcceptSolution { maker: s.maker, bounty, submission, hunter_token_account };
    accept_solution(&mut s.store, &accounts).unwrap();

    // The reward went to the hunter.
    assert_eq!(balance(&s, &hunter_token_account), 1);
    // The vault is closed.
    assert_eq!(s.store.vault_balance(&bounty), None);
    // The bounty records the accepted submission.
    assert_eq!(s.store.bounty(&bounty).unwrap().accepted_submission, Some(submission));
}
