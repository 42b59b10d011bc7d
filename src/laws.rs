use vstd::prelude::*;

use crate::accept_solution::accept_solution_step;
use crate::address::{bounty_address_of, submission_address_of};
use crate::cancel_bounty::cancel_bounty_step;
use crate::create_bounty::create_bounty_step;
use crate::error::BountyHunterErrors;
use crate::state::{byte_len, SubmissionView, MAX_DESCRIPTION_LEN, MAX_LINK_LEN, MAX_NOTES_LEN};
use crate::store::{valid, StoreView};
use crate::submit_solution::submit_solution_step;

verus! {

/// Opening a bounty and then cancelling it gives the maker's funding account
/// back exactly the reward it paid in, and leaves no vault and no record behind,
/// for every description, link and reward within bounds that the account covers.
pub proof fn lemma_create_then_cancel_refunds(
    s: StoreView,
    maker: Seq<u8>,
    mint: Seq<u8>,
    funding: Seq<u8>,
    seed: u64,
    description: Seq<char>,
    link: Seq<char>,
    reward: u64,
)
    requires
        valid(s),
        bounty_address_of(s.program_id, maker, seed) matches Some((b, _)) && !s.bounties.contains_key(b),
        byte_len(description) <= MAX_DESCRIPTION_LEN,
        byte_len(link) <= MAX_LINK_LEN,
        s.token_accounts.contains_key(funding),
        s.token_accounts[funding].owner == maker,
        s.token_accounts[funding].mint == mint,
        s.token_accounts[funding].amount >= reward,
    ensures
        ({
            let b = bounty_address_of(s.program_id, maker, seed)->Some_0.0;
            let created = create_bounty_step(s, maker, mint, funding, seed, description, link, reward);
            &&& created is Ok
            &&& created->Ok_0.vaults[b].amount == reward
            &&& created->Ok_0.token_accounts[funding].amount == s.token_accounts[funding].amount - reward
            &&& ({
                let cancelled = cancel_bounty_step(created->Ok_0, maker, b, funding);
                &&& cancelled is Ok
                &&& cancelled->Ok_0.token_accounts[funding].amount
                    == created->Ok_0.token_accounts[funding].amount + reward
                &&& cancelled->Ok_0.token_accounts[funding].amount == s.token_accounts[funding].amount
                &&& !cancelled->Ok_0.vaults.contains_key(b)
                &&& !cancelled->Ok_0.bounties.contains_key(b)
            })
        }),
{
}

/// Only the bounty's maker can accept a solution on it: any other caller is
/// refused with `InvalidBountyAuthority`, and a refused call moves no funds.
pub proof fn lemma_accept_needs_maker(
    s: StoreView,
    caller: Seq<u8>,
    bounty: Seq<u8>,
    submission: Seq<u8>,
    payout: Seq<u8>,
)
    ensures
        accept_solution_step(s, caller, bounty, submission, payout) is Ok
            ==> s.bounties.contains_key(bounty) && s.bounties[bounty].maker == caller,
        s.bounties.contains_key(bounty) && s.bounties[bounty].maker != caller
            ==> accept_solution_step(s, caller, bounty, submission, payout)
            == Err::<StoreView, BountyHunterErrors>(BountyHunterErrors::InvalidBountyAuthority),
{
}

/// Once a solution has been accepted, a second accept on the same bounty, with
/// any submission and any payout account, fails with `BountyClosed`; being
/// refused, it leaves the vaults and balances as the first accept left them.
pub proof fn lemma_accept_once(
    s: StoreView,
    maker: Seq<u8>,
    bounty: Seq<u8>,
    submission: Seq<u8>,
    payout: Seq<u8>,
    other_submission: Seq<u8>,
    other_payout: Seq<u8>,
)
    requires
        accept_solution_step(s, maker, bounty, submission, payout) is Ok,
    ensures
        ({
            let accepted = accept_solution_step(s, maker, bounty, submission, payout)->Ok_0;
            &&& accepted.bounties[bounty].accepted_submission == Some(submission)
            &&& !accepted.vaults.contains_key(bounty)
            &&& accept_solution_step(accepted, maker, bounty, other_submission, other_payout)
                == Err::<StoreView, BountyHunterErrors>(BountyHunterErrors::BountyClosed)
        }),
{
}

/// A submission that points at another bounty is never accepted; from the
/// bounty's maker, on an open bounty, it is refused with
/// `BountyAndSubmissionMismatch`.
pub proof fn lemma_accept_needs_matching_submission(
    s: StoreView,
    maker: Seq<u8>,
    bounty: Seq<u8>,
    submission: Seq<u8>,
    payout: Seq<u8>,
)
    requires
        s.submissions.contains_key(submission),
        s.submissions[submission].bounty != bounty,
    ensures
        !(accept_solution_step(s, maker, bounty, submission, payout) is Ok),
        s.bounties.contains_key(bounty) && s.bounties[bounty].maker == maker && s.bounties[bounty].is_open()
            ==> accept_solution_step(s, maker, bounty, submission, payout)
            == Err::<StoreView, BountyHunterErrors>(BountyHunterErrors::BountyAndSubmissionMismatch),
{
}

/// Two hunters whose submission addresses differ each hold one live submission
/// against the same bounty; a further submission by the first hunter rewrites
/// that hunter's link and notes in place and adds no record.
pub proof fn lemma_one_submission_per_hunter(
    s: StoreView,
    bounty: Seq<u8>,
    first: Seq<u8>,
    second: Seq<u8>,
    link1: Seq<char>,
    notes1: Seq<char>,
    link2: Seq<char>,
    notes2: Seq<char>,
    link3: Seq<char>,
    notes3: Seq<char>,
)
    requires
        s.bounties.contains_key(bounty),
        submission_address_of(s.program_id, first, bounty) is Some,
        submission_address_of(s.program_id, second, bounty) is Some,
        submission_address_of(s.program_id, first, bounty)->Some_0.0
            != submission_address_of(s.program_id, second, bounty)->Some_0.0,
        byte_len(link1) <= MAX_LINK_LEN && byte_len(notes1) <= MAX_NOTES_LEN,
        byte_len(link2) <= MAX_LINK_LEN && byte_len(notes2) <= MAX_NOTES_LEN,
        byte_len(link3) <= MAX_LINK_LEN && byte_len(notes3) <= MAX_NOTES_LEN,
    ensures
        ({
            let a1 = submission_address_of(s.program_id, first, bounty)->Some_0.0;
            let a2 = submission_address_of(s.program_id, second, bounty)->Some_0.0;
            let r1 = submit_solution_step(s, first, bounty, link1, notes1);
            &&& r1 is Ok
            &&& ({
                let r2 = submit_solution_step(r1->Ok_0, second, bounty, link2, notes2);
                &&& r2 is Ok
                &&& r2->Ok_0.submissions.dom() == s.submissions.dom().insert(a1).insert(a2)
                &&& r2->Ok_0.submissions[a1] == (SubmissionView { bounty, link: link1, hunter: first, notes: notes1 })
                &&& r2->Ok_0.submissions[a2] == (SubmissionView { bounty, link: link2, hunter: second, notes: notes2 })
                &&& ({
                    let r3 = submit_solution_step(r2->Ok_0, first, bounty, link3, notes3);
                    &&& r3 is Ok
                    &&& r3->Ok_0.submissions.dom() == r2->Ok_0.submissions.dom()
                    &&& r3->Ok_0.submissions[a1] == (SubmissionView { bounty, link: link3, hunter: first, notes: notes3 })
                    &&& r3->Ok_0.submissions[a2] == r2->Ok_0.submissions[a2]
                })
            })
        }),
{
    let a1 = submission_address_of(s.program_id, first, bounty)->Some_0.0;
    let a2 = submission_address_of(s.program_id, second, bounty)->Some_0.0;
    let s1 = submit_solution_step(s, first, bounty, link1, notes1)->Ok_0;
    let s2 = submit_solution_step(s1, second, bounty, link2, notes2)->Ok_0;
    let s3 = submit_solution_step(s2, first, bounty, link3, notes3)->Ok_0;
    assert(s2.submissions.dom() =~= s.submissions.dom().insert(a1).insert(a2));
    assert(s3.submissions.dom() =~= s2.submissions.dom());
}

/// Every operation keeps the custody rules: from creation until it is accepted
/// or cancelled, a bounty's vault holds exactly its reward in its mint, and
/// afterwards it has no vault.
pub proof fn lemma_steps_keep_custody(
    s: StoreView,
    maker: Seq<u8>,
    mint: Seq<u8>,
    account: Seq<u8>,
    bounty: Seq<u8>,
    submission: Seq<u8>,
    seed: u64,
    text1: Seq<char>,
    text2: Seq<char>,
    amount: u64,
)
    requires
        valid(s),
    ensures
        create_bounty_step(s, maker, mint, account, seed, text1, text2, amount) matches Ok(next) ==> valid(next),
        cancel_bounty_step(s, maker, bounty, account) matches Ok(next) ==> valid(next),
        submit_solution_step(s, maker, bounty, text1, text2) matches Ok(next) ==> valid(next),
        accept_solution_step(s, maker, bounty, submission, account) matches Ok(next) ==> valid(next),
{
}

} // verus!
