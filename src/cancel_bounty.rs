use vstd::prelude::*;

use crate::address::Address;
use crate::error::BountyHunterErrors;
use crate::state::{TokenAccount, TokenAccountView};
use crate::store::{follows, valid, Store, StoreView};

verus! {

/// The accounts that cancelling a bounty names: the maker who signs, the
/// bounty, and the maker's token account that takes the refund.
#[derive(Clone, Copy, Debug)]
pub struct CancelBounty {
    pub maker: Address,
    pub bounty: Address,
    pub maker_token_account: Address,
}

/// Cancelling an open bounty: the whole vault goes back to the maker's account,
/// and the vault and the bounty record are closed.
pub open spec fn cancel_bounty_step(s: StoreView, maker: Seq<u8>, bounty: Seq<u8>, refund: Seq<u8>) -> Result<
    StoreView,
    BountyHunterErrors,
> {
    if !s.bounties.contains_key(bounty) {
        Err(BountyHunterErrors::NotFound)
    } else if s.bounties[bounty].maker != maker {
        Err(BountyHunterErrors::InvalidBountyAuthority)
    } else if !s.bounties[bounty].is_open() {
        Err(BountyHunterErrors::BountyClosed)
    } else if !s.token_accounts.contains_key(refund) {
        Err(BountyHunterErrors::NotFound)
    } else if s.token_accounts[refund].mint != s.bounties[bounty].mint {
        Err(BountyHunterErrors::InvalidMint)
    } else if s.token_accounts[refund].owner != maker {
        Err(BountyHunterErrors::InvalidTokenOwner)
    } else if s.token_accounts[refund].amount + s.vaults[bounty].amount > u64::MAX {
        Err(BountyHunterErrors::AmountOverflow)
    } else {
        Ok(
            StoreView {
                bounties: s.bounties.remove(bounty),
                vaults: s.vaults.remove(bounty),
                token_accounts: s.token_accounts.insert(
                    refund,
                    TokenAccountView {
                        amount: (s.token_accounts[refund].amount + s.vaults[bounty].amount) as u64,
                        ..s.token_accounts[refund]
                    },
                ),
                ..s
            },
        )
    }
}

impl CancelBounty {
    /// Cancels the open bounty `self.bounty` and refunds its vault to the maker.
    pub fn handler(&self, store: &mut Store) -> (r: Result<(), BountyHunterErrors>)
        requires
            old(store).wf(),
        ensures
            final(store).wf(),
            follows(
                r,
                cancel_bounty_step(old(store)@, self.maker@, self.bounty@, self.maker_token_account@),
                old(store)@,
                final(store)@,
            ),
    {
        proof {
            store.lemma_unfold();
        }
        let (bounty_mint, open) = match store.bounties.get(&self.bounty) {
            Some(b) => {
                if !b.maker.same(&self.maker) {
                    return Err(BountyHunterErrors::InvalidBountyAuthority);
                }
                (b.mint, b.accepted_submission.is_none())
            },
            None => {
                return Err(BountyHunterErrors::NotFound);
            },
        };
        if !open {
            return Err(BountyHunterErrors::BountyClosed);
        }
        let refund = match store.token_accounts.get(&self.maker_token_account) {
            Some(t) => *t,
            None => {
                return Err(BountyHunterErrors::NotFound);
            },
        };
        if !refund.mint.same(&bounty_mint) {
            return Err(BountyHunterErrors::InvalidMint);
        }
        if !refund.owner.same(&self.maker) {
            return Err(BountyHunterErrors::InvalidTokenOwner);
        }
        let locked = match store.vaults.get(&self.bounty) {
            Some(v) => v.amount,
            None => {
                return Err(BountyHunterErrors::NotFound);
            },
        };
        if refund.amount > u64::MAX - locked {
            return Err(BountyHunterErrors::AmountOverflow);
        }
        let ghost s0 = old(store)@;
        self.refund_tokens(store, refund, locked);
        store.bounties.remove(&self.bounty);
        proof {
            store.lemma_unfold();
            let next = cancel_bounty_step(s0, self.maker@, self.bounty@, self.maker_token_account@);
            assert(next is Ok);
            assert(store@ == next->Ok_0);
            assert(valid(store@));
        }
        Ok(())
    }

    /// Empties the vault of `self.bounty` into the maker's account and closes it.
    fn refund_tokens(&self, store: &mut Store, refund: TokenAccount, locked: u64)
        requires
            old(store).vaults.wf(),
            old(store).token_accounts.wf(),
            old(store).token_accounts@.contains_key(self.maker_token_account@),
            old(store).token_accounts@[self.maker_token_account@] == refund@,
            refund.amount + locked <= u64::MAX,
        ensures
            final(store).vaults.wf(),
            final(store).token_accounts.wf(),
            final(store).program_id == old(store).program_id,
            final(store).bounties == old(store).bounties,
            final(store).submissions == old(store).submissions,
            final(store).vaults@ == old(store).vaults@.remove(self.bounty@),
            final(store).token_accounts@ == old(store).token_accounts@.insert(
                self.maker_token_account@,
                TokenAccountView { amount: (refund.amount + locked) as u64, ..refund@ },
            ),
    {
        store.token_accounts.insert(
            self.maker_token_account,
            TokenAccount { amount: refund.amount + locked, ..refund },
        );
        store.vaults.remove(&self.bounty);
    }
}

/// Cancels a bounty; see [`CancelBounty::handler`].
pub fn cancel_bounty(store: &mut Store, accounts: &CancelBounty) -> (r: Result<(), BountyHunterErrors>)
    requires
        old(store).wf(),
    ensures
        final(store).wf(),
        follows(
            r,
            cancel_bounty_step(old(store)@, accounts.maker@, accounts.bounty@, accounts.maker_token_account@),
            old(store)@,
            final(store)@,
        ),
{
    accounts.handler(store)
}

} // verus!
