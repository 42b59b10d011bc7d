use std::str::FromStr;

use anchor_lang::prelude::Pubkey;
use bounty_hunter::client::fresh_bounty_address;
use bounty_hunter::codec::{is_bounty_record, is_submission_of};
use bounty_hunter::{
    accept_solution, bounty_address, cancel_bounty, create_bounty, submission_address, submit_solution,
    AcceptSolution, Address, Bounty, BountyHunterErrors, CancelBounty, CreateBounty, Store, Submission,
    SubmitSolution,
};

const PROGRAM_ID: &str = "ELt3SqpiHUsHJ5fxZpH1ksug6nWjAvYBxxKqK5PHfkBa";

fn program_id() -> Address {
    Address { bytes: Pubkey::from_str(PROGRAM_ID).unwrap().to_bytes() }
}

fn addr(b: u8) -> Address {
    Address { bytes: [b; 32] }
}

const MAKER: u8 = 1;
const MINT: u8 = 3;
const MAKER_ACCOUNT: u8 = 4;
const HUNTER: u8 = 7;
const HUNTER_ACCOUNT: u8 = 8;
const OTHER_HUNTER: u8 = 9;
const OTHER_HUNTER_ACCOUNT: u8 = 10;

/// A board with a maker holding `funds` of the mint, and two hunters with empty
/// accounts of it.
fn board(funds: u64) -> Store {
    let mut store = Store::new(program_id());
    store.open_token_account(addr(MAKER_ACCOUNT), addr(MINT), addr(MAKER)).unwrap();
    store.mint_to(&addr(MAKER_ACCOUNT), funds).unwrap();
    store.open_token_account(addr(HUNTER_ACCOUNT), addr(MINT), addr(HUNTER)).unwrap();
    store.open_token_account(addr(OTHER_HUNTER_ACCOUNT), addr(MINT), addr(OTHER_HUNTER)).unwrap();
    store
}

fn maker_accounts() -> CreateBounty {
    CreateBounty { maker: addr(MAKER), mint: addr(MINT), maker_token_account: addr(MAKER_ACCOUNT) }
}

fn open(store: &mut Store, seed: u64, reward: u64) -> Address {
    create_bounty(store, &maker_accounts(), seed, "fix".to_string(), "https://issue.link".to_string(), reward).unwrap()
}

fn submit(store: &mut Store, hunter: u8, bounty: Address, link: &str, notes: &str) -> Result<Address, BountyHunterErrors> {
    submit_solution(store, &SubmitSolution { hunter: addr(hunter), bounty }, link.to_string(), notes.to_string())
}

fn accept(store: &mut Store, caller: u8, bounty: Address, submission: Address, payout: u8) -> Result<(), BountyHunterErrors> {
    let accounts = AcceptSolution { maker: addr(caller), bounty, submission, hunter_token_account: addr(payout) };
    accept_solution(store, &accounts)
}

fn cancel(store: &mut Store, caller: u8, bounty: Address, refund: u8) -> Result<(), BountyHunterErrors> {
    let accounts = CancelBounty { maker: addr(caller), bounty, maker_token_account: addr(refund) };
    cancel_bounty(store, &accounts)
}

fn balance(store: &Store, account: u8) -> u64 {
    store.token_account(&addr(account)).unwrap().amount
}

#[test]
fn create_then_cancel_returns_exact_reward() {
    for reward in [0u64, 1, 777, 10_000] {
        let mut store = board(10_000);
        let bounty = open(&mut store, 5, reward);
        assert_eq!(balance(&store, MAKER_ACCOUNT), 10_000 - reward);
        assert_eq!(store.vault_balance(&bounty), Some(reward));
        cancel(&mut store, MAKER, bounty, MAKER_ACCOUNT).unwrap();
        assert_eq!(balance(&store, MAKER_ACCOUNT), 10_000);
        assert_eq!(store.vault_balance(&bounty), None);
        assert!(store.bounty(&bounty).is_none());
    }
}

#[test]
fn accept_by_other_caller_is_refused_and_moves_nothing() {
    let mut store = board(10_000);
    let bounty = open(&mut store, 1, 50);
    let submission = submit(&mut store, HUNTER, bounty, "https://github.com/solution", "fix").unwrap();
    assert_eq!(accept(&mut store, HUNTER, bounty, submission, HUNTER_ACCOUNT), Err(BountyHunterErrors::InvalidBountyAuthority));
    assert_eq!(balance(&store, HUNTER_ACCOUNT), 0);
    assert_eq!(store.vault_balance(&bounty), Some(50));
    assert_eq!(store.bounty(&bounty).unwrap().accepted_submission, None);
}

#[test]
fn second_accept_is_refused_as_closed() {
    let mut store = board(10_000);
    let bounty = open(&mut store, 1, 50);
    let first = submit(&mut store, HUNTER, bounty, "https://a", "a").unwrap();
    let second = submit(&mut store, OTHER_HUNTER, bounty, "https://b", "b").unwrap();
    accept(&mut store, MAKER, bounty, first, HUNTER_ACCOUNT).unwrap();
    assert_eq!(accept(&mut store, MAKER, bounty, first, HUNTER_ACCOUNT), Err(BountyHunterErrors::BountyClosed));
    assert_eq!(accept(&mut store, MAKER, bounty, second, OTHER_HUNTER_ACCOUNT), Err(BountyHunterErrors::BountyClosed));
    assert_eq!(balance(&store, HUNTER_ACCOUNT), 50);
    assert_eq!(balance(&store, OTHER_HUNTER_ACCOUNT), 0);
    assert_eq!(store.vault_balance(&bounty), None);
    assert_eq!(store.bounty(&bounty).unwrap().accepted_submission, Some(first));
    // A resolved bounty cannot be cancelled either.
    assert_eq!(cancel(&mut store, MAKER, bounty, MAKER_ACCOUNT), Err(BountyHunterErrors::BountyClosed));
}

#[test]
fn accept_with_submission_of_other_bounty_is_refused() {
    let mut store = board(10_000);
    let bounty = open(&mut store, 1, 50);
    let other = open(&mut store, 2, 60);
    let submission = submit(&mut store, HUNTER, other, "https://a", "a").unwrap();
    assert_eq!(
        accept(&mut store, MAKER, bounty, submission, HUNTER_ACCOUNT),
        Err(BountyHunterErrors::BountyAndSubmissionMismatch)
    );
    assert_eq!(store.vault_balance(&bounty), Some(50));
    assert_eq!(store.vault_balance(&other), Some(60));
}

#[test]
fn one_live_submission_per_hunter() {
    let mut store = board(10_000);
    let bounty = open(&mut store, 1, 50);
    let a = submit(&mut store, HUNTER, bounty, "https://first", "first notes").unwrap();
    let b = submit(&mut store, OTHER_HUNTER, bounty, "https://second", "second notes").unwrap();
    assert_ne!(a, b);
    let again = submit(&mut store, HUNTER, bounty, "https://third", "third notes").unwrap();
    assert_eq!(again, a);
    let sub = store.submission(&a).unwrap();
    assert_eq!(sub.link, "https://third".to_string());
    assert_eq!(sub.notes, "third notes".to_string());
    let other = store.submission(&b).unwrap();
    assert_eq!(other.link, "https://second".to_string());
    assert_eq!(other.notes, "second notes".to_string());
}

#[test]
fn end_to_end_accept() {
    let mut store = board(10_000);
    let bounty = create_bounty(&mut store, &maker_accounts(), 1, "solve".to_string(), "https://x".to_string(), 1).unwrap();
    let submission = submit(&mut store, HUNTER, bounty, "https://github.com/solution", "fix").unwrap();
    let before = balance(&store, HUNTER_ACCOUNT);
    accept(&mut store, MAKER, bounty, submission, HUNTER_ACCOUNT).unwrap();
    assert_eq!(balance(&store, HUNTER_ACCOUNT), before + 1);
    assert_eq!(store.vault_balance(&bounty).unwrap_or(0), 0);
    assert_eq!(store.bounty(&bounty).unwrap().accepted_submission, Some(submission));
}

#[test]
fn end_to_end_cancel() {
    let mut store = board(10_000);
    let bounty = open(&mut store, 1, 1);
    assert_eq!(balance(&store, MAKER_ACCOUNT), 9_999);
    cancel(&mut store, MAKER, bounty, MAKER_ACCOUNT).unwrap();
    assert_eq!(balance(&store, MAKER_ACCOUNT), 10_000);
    assert_eq!(store.vault_balance(&bounty), None);
    assert!(store.bounty(&bounty).is_none());
    // Not idempotent: the record is gone.
    assert_eq!(cancel(&mut store, MAKER, bounty, MAKER_ACCOUNT), Err(BountyHunterErrors::NotFound));
}

#[test]
fn text_bounds_are_inclusive() {
    let mut store = board(10_000);
    let ok = create_bounty(&mut store, &maker_accounts(), 1, "d".repeat(1024), "l".repeat(100), 1);
    assert!(ok.is_ok());
    let long_description = create_bounty(&mut store, &maker_accounts(), 2, "d".repeat(1025), "l".to_string(), 1);
    assert_eq!(long_description, Err(BountyHunterErrors::FieldTooLong));
    let long_link = create_bounty(&mut store, &maker_accounts(), 3, "d".to_string(), "l".repeat(101), 1);
    assert_eq!(long_link, Err(BountyHunterErrors::FieldTooLong));
    // Bounds count bytes: 34 two-byte characters make 68 bytes, 51 make 102.
    assert!(create_bounty(&mut store, &maker_accounts(), 4, "d".to_string(), "é".repeat(50), 1).is_ok());
    assert_eq!(
        create_bounty(&mut store, &maker_accounts(), 5, "d".to_string(), "é".repeat(51), 1),
        Err(BountyHunterErrors::FieldTooLong)
    );
    assert_eq!(balance(&store, MAKER_ACCOUNT), 10_000 - 2);

    let bounty = ok.unwrap();
    assert!(submit(&mut store, HUNTER, bounty, &"l".repeat(100), &"n".repeat(1024)).is_ok());
    assert_eq!(submit(&mut store, HUNTER, bounty, &"l".repeat(101), "n"), Err(BountyHunterErrors::FieldTooLong));
    assert_eq!(submit(&mut store, HUNTER, bounty, "l", &"n".repeat(1025)), Err(BountyHunterErrors::FieldTooLong));
}

#[test]
fn create_errors() {
    let mut store = board(100);
    open(&mut store, 1, 10);
    let again = create_bounty(&mut store, &maker_accounts(), 1, "d".to_string(), "l".to_string(), 10);
    assert_eq!(again, Err(BountyHunterErrors::AlreadyExists));
    let too_much = create_bounty(&mut store, &maker_accounts(), 2, "d".to_string(), "l".to_string(), 91);
    assert_eq!(too_much, Err(BountyHunterErrors::InsufficientFunds));
    let exact = create_bounty(&mut store, &maker_accounts(), 3, "d".to_string(), "l".to_string(), 90);
    assert!(exact.is_ok());
    assert_eq!(balance(&store, MAKER_ACCOUNT), 0);

    let missing = CreateBounty { maker_token_account: addr(99), ..maker_accounts() };
    assert_eq!(create_bounty(&mut store, &missing, 4, "d".to_string(), "l".to_string(), 0), Err(BountyHunterErrors::NotFound));
    let not_owner = CreateBounty { maker: addr(HUNTER), ..maker_accounts() };
    assert_eq!(create_bounty(&mut store, &not_owner, 4, "d".to_string(), "l".to_string(), 0), Err(BountyHunterErrors::InvalidTokenOwner));
    let wrong_mint = CreateBounty { mint: addr(42), ..maker_accounts() };
    assert_eq!(create_bounty(&mut store, &wrong_mint, 4, "d".to_string(), "l".to_string(), 0), Err(BountyHunterErrors::InvalidMint));
}

#[test]
fn accept_and_cancel_account_errors() {
    let mut store = board(10_000);
    store.open_token_account(addr(20), addr(42), addr(HUNTER)).unwrap();
    store.open_token_account(addr(21), addr(42), addr(MAKER)).unwrap();
    let bounty = open(&mut store, 1, 50);
    let submission = submit(&mut store, HUNTER, bounty, "https://a", "a").unwrap();

    assert_eq!(accept(&mut store, MAKER, addr(77), submission, HUNTER_ACCOUNT), Err(BountyHunterErrors::NotFound));
    assert_eq!(accept(&mut store, MAKER, bounty, addr(77), HUNTER_ACCOUNT), Err(BountyHunterErrors::NotFound));
    assert_eq!(accept(&mut store, MAKER, bounty, submission, 77), Err(BountyHunterErrors::NotFound));
    assert_eq!(accept(&mut store, MAKER, bounty, submission, 20), Err(BountyHunterErrors::InvalidMint));
    assert_eq!(accept(&mut store, MAKER, bounty, submission, OTHER_HUNTER_ACCOUNT), Err(BountyHunterErrors::InvalidTokenOwner));

    assert_eq!(cancel(&mut store, HUNTER, bounty, MAKER_ACCOUNT), Err(BountyHunterErrors::InvalidBountyAuthority));
    assert_eq!(cancel(&mut store, MAKER, bounty, 77), Err(BountyHunterErrors::NotFound));
    assert_eq!(cancel(&mut store, MAKER, bounty, 21), Err(BountyHunterErrors::InvalidMint));
    assert_eq!(cancel(&mut store, MAKER, bounty, HUNTER_ACCOUNT), Err(BountyHunterErrors::InvalidTokenOwner));
    assert_eq!(store.vault_balance(&bounty), Some(50));
    assert_eq!(balance(&store, MAKER_ACCOUNT), 10_000 - 50);

    assert_eq!(submit(&mut store, HUNTER, addr(77), "l", "n"), Err(BountyHunterErrors::NotFound));
}

#[test]
fn payouts_that_would_overflow_are_refused() {
    let mut store = board(10_000);
    let bounty = open(&mut store, 1, 50);
    let submission = submit(&mut store, HUNTER, bounty, "https://a", "a").unwrap();
    store.mint_to(&addr(HUNTER_ACCOUNT), u64::MAX - 49).unwrap();
    assert_eq!(accept(&mut store, MAKER, bounty, submission, HUNTER_ACCOUNT), Err(BountyHunterErrors::AmountOverflow));
    assert_eq!(store.mint_to(&addr(HUNTER_ACCOUNT), 50), Err(BountyHunterErrors::AmountOverflow));
    assert_eq!(store.mint_to(&addr(99), 1), Err(BountyHunterErrors::NotFound));
    store.mint_to(&addr(MAKER_ACCOUNT), u64::MAX - (10_000 - 50) - 49).unwrap();
    assert_eq!(cancel(&mut store, MAKER, bounty, MAKER_ACCOUNT), Err(BountyHunterErrors::AmountOverflow));
    assert_eq!(store.open_token_account(addr(MAKER_ACCOUNT), addr(MINT), addr(MAKER)), Err(BountyHunterErrors::AlreadyExists));
}

#[test]
fn late_submissions_are_kept() {
    let mut store = board(10_000);
    let bounty = open(&mut store, 1, 5);
    let first = submit(&mut store, HUNTER, bounty, "https://a", "a").unwrap();
    accept(&mut store, MAKER, bounty, first, HUNTER_ACCOUNT).unwrap();
    let late = submit(&mut store, OTHER_HUNTER, bounty, "https://late", "late").unwrap();
    assert_eq!(store.submission(&late).unwrap().hunter, addr(OTHER_HUNTER));
    assert_eq!(store.bounty(&bounty).unwrap().accepted_submission, Some(first));
}

#[test]
fn derived_addresses_match_the_runtime() {
    let program = Pubkey::from_str(PROGRAM_ID).unwrap();
    let maker = addr(MAKER);
    let seed = 42u64;
    let (expected, bump) =
        Pubkey::find_program_address(&[b"bounty", &maker.bytes, &seed.to_le_bytes()], &program);
    let (found, found_bump) = bounty_address(&program_id(), &maker, seed).unwrap();
    assert_eq!(found.bytes, expected.to_bytes());
    assert_eq!(found_bump, bump);
    assert_ne!(found, maker);

    let (sub_expected, sub_bump) =
        Pubkey::find_program_address(&[b"submission", &[HUNTER; 32], &found.bytes], &program);
    let (sub, b) = submission_address(&program_id(), &addr(HUNTER), &found).unwrap();
    assert_eq!(sub.bytes, sub_expected.to_bytes());
    assert_eq!(b, sub_bump);

    let mut store = board(10);
    let created = create_bounty(&mut store, &maker_accounts(), seed, "d".to_string(), "l".to_string(), 1).unwrap();
    assert_eq!(created, found);
    assert_eq!(store.bounty(&created).unwrap().bump, bump);
}

#[test]
fn fresh_bounty_address_matches_its_seed() {
    let (seed, derived) = fresh_bounty_address(&program_id(), &addr(MAKER));
    let (a, bump) = derived.unwrap();
    assert_eq!(bounty_address(&program_id(), &addr(MAKER), seed).unwrap(), (a, bump));
}

#[test]
fn bounty_record_round_trip() {
    let b = Bounty {
        seed: 0x0102030405060708,
        description: "répare ça".to_string(),
        link: "https://issue.link".to_string(),
        reward: 1_000,
        bump: 254,
        maker: addr(1),
        mint: addr(3),
        accepted_submission: None,
    };
    let mut data = b.to_record();
    assert_eq!(data[0], 1);
    assert_eq!(&data[1..9], &[8, 7, 6, 5, 4, 3, 2, 1]);
    assert_eq!(&data[9..13], &[11, 0, 0, 0]);
    assert_eq!(data.len(), 1 + 8 + 4 + 11 + 4 + 18 + 8 + 1 + 32 * 3);
    assert!(is_bounty_record(&data));
    data.extend_from_slice(&[0u8; 16]);
    let back = Bounty::from_record(&data).unwrap();
    assert_eq!(back.seed, b.seed);
    assert_eq!(back.description, b.description);
    assert_eq!(back.link, b.link);
    assert_eq!(back.reward, b.reward);
    assert_eq!(back.bump, b.bump);
    assert_eq!(back.maker, b.maker);
    assert_eq!(back.mint, b.mint);
    assert_eq!(back.accepted_submission, None);

    let accepted = Bounty { accepted_submission: Some(addr(9)), ..b };
    let back = Bounty::from_record(&accepted.to_record()).unwrap();
    assert_eq!(back.accepted_submission, Some(addr(9)));
}

#[test]
fn malformed_records_are_refused() {
    let b = Bounty {
        seed: 1,
        description: "d".to_string(),
        link: "l".to_string(),
        reward: 1,
        bump: 1,
        maker: addr(1),
        mint: addr(3),
        accepted_submission: None,
    };
    let data = b.to_record();
    assert!(Bounty::from_record(&data[..data.len() - 1]).is_none());
    assert!(Bounty::from_record(&[]).is_none());
    let mut wrong_tag = data.clone();
    wrong_tag[0] = 2;
    assert!(Bounty::from_record(&wrong_tag).is_none());
    assert!(!is_bounty_record(&wrong_tag));
    let mut bad_utf8 = data.clone();
    bad_utf8[13] = 0xff;
    assert!(Bounty::from_record(&bad_utf8).is_none());
    let mut long_text = data.clone();
    long_text[9] = 200;
    assert!(Bounty::from_record(&long_text).is_none());
}

#[test]
fn submission_record_round_trip() {
    let s = Submission {
        bounty: addr(5),
        link: "https://github.com/solution".to_string(),
        hunter: addr(7),
        notes: "Here is my fix".to_string(),
    };
    let data = s.to_record();
    assert_eq!(data[0], 2);
    assert_eq!(&data[1..33], &[5u8; 32]);
    assert!(is_submission_of(&data, &addr(5)));
    assert!(!is_submission_of(&data, &addr(6)));
    assert!(!is_bounty_record(&data));
    let back = Submission::from_record(&data).unwrap();
    assert_eq!(back.bounty, s.bounty);
    assert_eq!(back.link, s.link);
    assert_eq!(back.hunter, s.hunter);
    assert_eq!(back.notes, s.notes);
    assert!(Submission::from_record(&data[..40]).is_none());
}
