use vstd::prelude::*;

use crate::address::Address;
use crate::error::BountyHunterErrors;
use crate::state::{BountyView, TokenAccount, TokenAccountView};
use crate::store::{follows, valid, Store, StoreView};

verus! {

/// The accounts that accepting a solution names: the maker who signs, the
/// bounty, the accepted submission, and the hunter's token account that takes
/// the reward.
#[derive(Clone, Copy, Debug)]
pub struct AcceptSolution {
    pub maker: Address,
    pub bounty: Address,
    pub submission: Address,
    pub hunter_token_account: Address,
}

/// Accepting a submission on an open bounty: the bounty records it, once and for
/// good, the whole vault goes to the submission's hunter, and the vault closes.
/// The bounty record stays as a receipt.
pub open spec fn accept_solution_step(
    s: StoreView,
    maker: Seq<u8>,
    bounty: Seq<u8>,
    submission: Seq<u8>,
    payout: Seq<u8>,
) -> Result<StoreView, BountyHunterErrors> {
    if !s.bounties.contains_key(bounty) {
        Err(BountyHunterErrors::NotFound)
    } else if s.bounties[bounty].maker != maker {
        Err(BountyHunterErrors::InvalidBountyAuthority)
    } else if !s.bounties[bounty].is_open() {
        Err(BountyHunterErrors::BountyClosed)
    } else if !s.submissions.contains_key(submission) {
        Err(BountyHunterErrors::NotFound)
    } else if s.submissions[submission].bounty != bounty {
        Err(BountyHunterErrors::BountyAndSubmissionMismatch)
    } else if !s.token_accounts.contains_key(payout) {
        Err(BountyHunterErrors::NotFound)
    } else if s.token_accounts[payout].mint != s.bounties[bounty].mint {
        Err(BountyHunterErrors::InvalidMint)
    } else if s.token_accounts[payout].owner != s.submissions[submission].hunter {
        Err(BountyHunterErrors::InvalidTokenOwner)
    } else if s.token_accounts[payout].amount + s.vaults[bounty].amount > u64::MAX {
        Err(BountyHunterErrors::AmountOverflow)
    } else {
        Ok(
            StoreView {
                bounties: s.bounties.insert(
                    bounty,
                    BountyView { accepted_submission: Some(submission), ..s.bounties[bounty] },
                ),
                vaults: s.vaults.remove(bounty),
                token_accounts: s.token_accounts.insert(
                    payout,
                    TokenAccountView {
                        amount: (s.token_accounts[payout].amount + s.vaults[bounty].amount) as u64,
                        ..s.token_accounts[payout]
                    },
                ),
                ..s
            },
        )
    }
}

impl AcceptSolution {
    /// Accepts `self.submission` on the open bounty `self.bounty` and pays the hunter.
    pub fn handler(&self, store: &mut Store) -> (r: Result<(), BountyHunterErrors>)
        requires
            old(store).wf(),
        ensures
            final(store).wf(),
            follows(
                r,
                accept_solution_step(
                    old(store)@,
                    self.maker@,
                    self.bounty@,
                    self.submission@,
                    self.hunter_token_account@,
                ),
                old(store)@,
                final(store)@,
            ),
    {
        proof {
            store.lemma_unfold();
        }
        let (bounty_mint, open) = match store.bounties.get(&self.bounty) {
            Some(b) => {
                if !b.maker.same(&self.maker) {
                    return Err(BountyHunterErrors::InvalidBountyAuthority);
                }
                (b.mint, b.accepted_submission.is_none())
            },
            None => {
                return Err(BountyHunterErrors::NotFound);
            },
        };
        if !open {
            return Err(BountyHunterErrors::BountyClosed);
        }
        let hunter = match store.submissions.get(&self.submission) {
            Some(sub) => {
                if !sub.bounty.same(&self.bounty) {
                    return Err(BountyHunterErrors::BountyAndSubmissionMismatch);
                }
                sub.hunter
            },
            None => {
                return Err(BountyHunterErrors::NotFound);
            },
        };
        let payout = match store.token_accounts.get(&self.hunter_token_account) {
            Some(t) => *t,
            None => {
                return Err(BountyHunterErrors::NotFound);
            },
        };
        if !payout.mint.same(&bounty_mint) {
            return Err(BountyHunterErrors::InvalidMint);
        }
        if !payout.owner.same(&hunter) {
            return Err(BountyHunterErrors::InvalidTokenOwner);
        }
        let locked = match store.vaults.get(&self.bounty) {
            Some(v) => v.amount,
            None => {
                return Err(BountyHunterErrors::NotFound);
            },
        };
        if payout.amount > u64::MAX - locked {
            return Err(BountyHunterErrors::AmountOverflow);
        }
        let ghost s0 = old(store)@;
        let mut record = match store.bounties.remove(&self.bounty) {
            Some(b) => b,
            None => {
                return Err(BountyHunterErrors::NotFound);
            },
        };
        record.accepted_submission = Some(self.submission);
        store.bounties.insert(self.bounty, record);
        proof {
            assert(store.bounties@ =~= s0.bounties.insert(
                self.bounty@,
                BountyView { accepted_submission: Some(self.submission@), ..s0.bounties[self.bounty@] },
            ));
        }
        self.transfer_reward(store, payout, locked);
        proof {
            store.lemma_unfold();
            let next = accept_solution_step(
                s0,
                self.maker@,
                self.bounty@,
                self.submission@,
                self.hunter_token_account@,
            );
            assert(next is Ok);
            assert(store@ == next->Ok_0);
            assert(valid(store@));
        }
        Ok(())
    }

    /// Empties the vault of `self.bounty` into the hunter's account and closes it.
    fn transfer_reward(&self, store: &mut Store, payout: TokenAccount, locked: u64)
        requires
            old(store).vaults.wf(),
            old(store).token_accounts.wf(),
            old(store).token_accounts@.contains_key(self.hunter_token_account@),
            old(store).token_accounts@[self.hunter_token_account@] == payout@,
            payout.amount + locked <= u64::MAX,
        ensures
            final(store).vaults.wf(),
            final(store).token_accounts.wf(),
            final(store).program_id == old(store).program_id,
            final(store).bounties == old(store).bounties,
            final(store).submissions == old(store).submissions,
            final(store).vaults@ == old(store).vaults@.remove(self.bounty@),
            final(store).token_accounts@ == old(store).token_accounts@.insert(
                self.hunter_token_account@,
                TokenAccountView { amount: (payout.amount + locked) as u64, ..payout@ },
            ),
    {
        store.token_accounts.insert(
            self.hunter_token_account,
            TokenAccount { amount: payout.amount + locked, ..payout },
        );
        store.vaults.remove(&self.bounty);
    }
}

/// Accepts a solution; see [`AcceptSolution::handler`].
pub fn accept_solution(store: &mut Store, accounts: &AcceptSolution) -> (r: Result<(), BountyHunterErrors>)
    requires
        old(store).wf(),
    ensures
        final(store).wf(),
        follows(
            r,
            accept_solution_step(
                old(store)@,
                accounts.maker@,
                accounts.bounty@,
                accounts.submission@,
                accounts.hunter_token_account@,
            ),
            old(store)@,
            final(store)@,
        ),
{
    accounts.handler(store)
}

} // verus!
