use vstd::prelude::*;

use crate::address::{bounty_address, bounty_address_of, Address};
use crate::error::BountyHunterErrors;
use crate::state::{
    byte_len, text_len, Bounty, BountyView, TokenAccount, TokenAccountView, Vault, VaultView,
    MAX_DESCRIPTION_LEN, MAX_LINK_LEN,
};
use crate::store::{follows, valid, Store, StoreView};

verus! {

/// The accounts that opening a bounty names: the maker who signs, the token
/// that backs the reward, and the maker's account of it that funds the vault.
#[derive(Clone, Copy, Debug)]
pub struct CreateBounty {
    pub maker: Address,
    pub mint: Address,
    pub maker_token_account: Address,
}

/// Opening a bounty: the record at the maker's derived address, with no accepted
/// submission, and its vault holding `reward` taken from the funding account.
pub open spec fn create_bounty_step(
    s: StoreView,
    maker: Seq<u8>,
    mint: Seq<u8>,
    funding: Seq<u8>,
    seed: u64,
    description: Seq<char>,
    link: Seq<char>,
    reward: u64,
) -> Result<StoreView, BountyHunterErrors> {
    match bounty_address_of(s.program_id, maker, seed) {
        None => Err(BountyHunterErrors::AddressDerivationExhausted),
        Some((b, bump)) => {
            if s.bounties.contains_key(b) {
                Err(BountyHunterErrors::AlreadyExists)
            } else if byte_len(description) > MAX_DESCRIPTION_LEN || byte_len(link) > MAX_LINK_LEN {
                Err(BountyHunterErrors::FieldTooLong)
            } else if !s.token_accounts.contains_key(funding) {
                Err(BountyHunterErrors::NotFound)
            } else if s.token_accounts[funding].owner != maker {
                Err(BountyHunterErrors::InvalidTokenOwner)
            } else if s.token_accounts[funding].mint != mint {
                Err(BountyHunterErrors::InvalidMint)
            } else if s.token_accounts[funding].amount < reward {
                Err(BountyHunterErrors::InsufficientFunds)
            } else {
                Ok(
                    StoreView {
                        bounties: s.bounties.insert(
                            b,
                            BountyView {
                                seed,
                                description,
                                link,
                                reward,
                                bump,
                                maker,
                                mint,
                                accepted_submission: None,
                            },
                        ),
                        vaults: s.vaults.insert(b, VaultView { mint, amount: reward }),
                        token_accounts: s.token_accounts.insert(
                            funding,
                            TokenAccountView {
                                amount: (s.token_accounts[funding].amount - reward) as u64,
                                ..s.token_accounts[funding]
                            },
                        ),
                        ..s
                    },
                )
            }
        },
    }
}

impl CreateBounty {
    /// Opens the bounty of `self.maker` with nonce `seed` and returns its address.
    pub fn handler(
        &self,
        store: &mut Store,
        seed: u64,
        description: String,
        link: String,
        reward: u64,
    ) -> (r: Result<Address, BountyHunterErrors>)
        requires
            old(store).wf(),
        ensures
            final(store).wf(),
            follows(
                r,
                create_bounty_step(
                    old(store)@,
                    self.maker@,
                    self.mint@,
                    self.maker_token_account@,
                    seed,
                    description@,
                    link@,
                    reward,
                ),
                old(store)@,
                final(store)@,
            ),
            r matches Ok(b) ==> bounty_address_of(old(store)@.program_id, self.maker@, seed) matches Some(
                (a, _),
            ) && a == b@,
    {
        proof {
            store.lemma_unfold();
        }
        let (b, bump) = match bounty_address(&store.program_id, &self.maker, seed) {
            Ok(found) => found,
            Err(e) => {
                return Err(e);
            },
        };
        if store.bounties.contains(&b) {
            return Err(BountyHunterErrors::AlreadyExists);
        }
        if text_len(&description) > MAX_DESCRIPTION_LEN || text_len(&link) > MAX_LINK_LEN {
            return Err(BountyHunterErrors::FieldTooLong);
        }
        let funding = match store.token_accounts.get(&self.maker_token_account) {
            Some(t) => *t,
            None => {
                return Err(BountyHunterErrors::NotFound);
            },
        };
        if !funding.owner.same(&self.maker) {
            return Err(BountyHunterErrors::InvalidTokenOwner);
        }
        if !funding.mint.same(&self.mint) {
            return Err(BountyHunterErrors::InvalidMint);
        }
        if funding.amount < reward {
            return Err(BountyHunterErrors::InsufficientFunds);
        }
        let ghost s0 = old(store)@;
        let record = Bounty {
            seed,
            description,
            link,
            reward,
            bump,
            maker: self.maker,
            mint: self.mint,
            accepted_submission: None,
        };
        store.bounties.insert(b, record);
        self.deposit_tokens(store, b, funding, reward);
        proof {
            store.lemma_unfold();
            let next = create_bounty_step(
                s0,
                self.maker@,
                self.mint@,
                self.maker_token_account@,
                seed,
                description@,
                link@,
                reward,
            );
            assert(next is Ok);
            assert(store@ == next->Ok_0);
            assert(valid(store@));
        }
        Ok(b)
    }

    /// Moves `amount` from the maker's funding account into a new vault under `bounty`.
    fn deposit_tokens(&self, store: &mut Store, bounty: Address, funding: TokenAccount, amount: u64)
        requires
            old(store).vaults.wf(),
            old(store).token_accounts.wf(),
            old(store).token_accounts@.contains_key(self.maker_token_account@),
            old(store).token_accounts@[self.maker_token_account@] == funding@,
            funding.amount >= amount,
        ensures
            final(store).vaults.wf(),
            final(store).token_accounts.wf(),
            final(store).program_id == old(store).program_id,
            final(store).bounties == old(store).bounties,
            final(store).submissions == old(store).submissions,
            final(store).vaults@ == old(store).vaults@.insert(bounty@, VaultView { mint: self.mint@, amount }),
            final(store).token_accounts@ == old(store).token_accounts@.insert(
                self.maker_token_account@,
                TokenAccountView { amount: (funding.amount - amount) as u64, ..funding@ },
            ),
    {
        store.token_accounts.insert(
            self.maker_token_account,
            TokenAccount { amount: funding.amount - amount, ..funding },
        );
        store.vaults.insert(bounty, Vault { mint: self.mint, amount });
    }
}

/// Opens a bounty; see [`CreateBounty::handler`].
pub fn create_bounty(
    store: &mut Store,
    accounts: &CreateBounty,
    seed: u64,
    description: String,
    link: String,
    reward: u64,
) -> (r: Result<Address, BountyHunterErrors>)
    requires
        old(store).wf(),
    ensures
        final(store).wf(),
        follows(
            r,
            create_bounty_step(
                old(store)@,
                accounts.maker@,
                accounts.mint@,
                accounts.maker_token_account@,
                seed,
                description@,
                link@,
                reward,
            ),
            old(store)@,
            final(store)@,
        ),
        r matches Ok(b) ==> bounty_address_of(old(store)@.program_id, accounts.maker@, seed) matches Some(
            (a, _),
        ) && a == b@,
{
    accounts.handler(store, seed, description, link, reward)
}

} // verus!
