use vstd::prelude::*;

use crate::address::Address;
use crate::error::BountyHunterErrors;
use crate::state::{
    Bounty, BountyView, Submission, SubmissionView, TokenAccount, TokenAccountView, Vault, VaultView,
};
use crate::table::Table;

verus! {

/// Every record of the board, keyed by address: bounties, submissions, the vault
/// of each open bounty (keyed by its bounty) and the token accounts of the parties.
pub struct Store {
    pub program_id: Address,
    pub(crate) bounties: Table<Bounty>,
    pub(crate) submissions: Table<Submission>,
    pub(crate) vaults: Table<Vault>,
    pub(crate) token_accounts: Table<TokenAccount>,
}

pub struct StoreView {
    pub program_id: Seq<u8>,
    pub bounties: Map<Seq<u8>, BountyView>,
    pub submissions: Map<Seq<u8>, SubmissionView>,
    pub vaults: Map<Seq<u8>, VaultView>,
    pub token_accounts: Map<Seq<u8>, TokenAccountView>,
}

impl View for Store {
    type V = StoreView;

    closed spec fn view(&self) -> StoreView {
        StoreView {
            program_id: self.program_id@,
            bounties: self.bounties@,
            submissions: self.submissions@,
            vaults: self.vaults@,
            token_accounts: self.token_accounts@,
        }
    }
}

/// The custody rules of the board: a vault stands exactly for each open bounty,
/// in its mint, holding its reward; an accepted or cancelled bounty has none.
/// Every record's text fits its bounds.
pub open spec fn valid(s: StoreView) -> bool {
    &&& forall|b: Seq<u8>| #[trigger] s.vaults.contains_key(b)
        ==> s.bounties.contains_key(b) && s.bounties[b].is_open()
    &&& forall|b: Seq<u8>| #[trigger] s.bounties.contains_key(b) && s.bounties[b].is_open()
        ==> s.vaults.contains_key(b) && s.vaults[b].amount == s.bounties[b].reward
            && s.vaults[b].mint == s.bounties[b].mint
    &&& forall|b: Seq<u8>| #[trigger] s.bounties.contains_key(b) ==> s.bounties[b].fields_fit()
    &&& forall|k: Seq<u8>| #[trigger] s.submissions.contains_key(k) ==> s.submissions[k].fields_fit()
}

/// What an operation did, against what its step says: on success the store is
/// the step's next state, on failure it is unchanged and the error is the step's.
pub open spec fn follows<T>(
    r: Result<T, BountyHunterErrors>,
    step: Result<StoreView, BountyHunterErrors>,
    before: StoreView,
    after: StoreView,
) -> bool {
    match step {
        Ok(next) => r is Ok && after == next,
        Err(e) => r == Err::<T, BountyHunterErrors>(e) && after == before,
    }
}

/// Opening an empty token account of `mint` for `owner` at `account`.
pub open spec fn open_token_account_step(
    s: StoreView,
    account: Seq<u8>,
    mint: Seq<u8>,
    owner: Seq<u8>,
) -> Result<StoreView, BountyHunterErrors> {
    if s.token_accounts.contains_key(account) {
        Err(BountyHunterErrors::AlreadyExists)
    } else {
        Ok(
            StoreView {
                token_accounts: s.token_accounts.insert(
                    account,
                    TokenAccountView { mint, owner, amount: 0 },
                ),
                ..s
            },
        )
    }
}

/// Issuing `amount` new units into `account`.
pub open spec fn mint_to_step(s: StoreView, account: Seq<u8>, amount: u64) -> Result<
    StoreView,
    BountyHunterErrors,
> {
    if !s.token_accounts.contains_key(account) {
        Err(BountyHunterErrors::NotFound)
    } else if s.token_accounts[account].amount + amount > u64::MAX {
        Err(BountyHunterErrors::AmountOverflow)
    } else {
        Ok(
            StoreView {
                token_accounts: s.token_accounts.insert(
                    account,
                    TokenAccountView {
                        amount: (s.token_accounts[account].amount + amount) as u64,
                        ..s.token_accounts[account]
                    },
                ),
                ..s
            },
        )
    }
}

impl Store {
    /// The tables are well formed and the custody rules hold.
    pub closed spec fn wf(&self) -> bool {
        &&& self.bounties.wf()
        &&& self.submissions.wf()
        &&& self.vaults.wf()
        &&& self.token_accounts.wf()
        &&& valid(self@)
    }

    /// How the model of the store is made of its tables.
    pub(crate) proof fn lemma_unfold(&self)
        ensures
            self@ == (StoreView {
                program_id: self.program_id@,
                bounties: self.bounties@,
                submissions: self.submissions@,
                vaults: self.vaults@,
                token_accounts: self.token_accounts@,
            }),
            self.wf() == (self.bounties.wf() && self.submissions.wf() && self.vaults.wf()
                && self.token_accounts.wf() && valid(self@)),
    {
    }

    /// An empty board for the program `program_id`.
    pub fn new(program_id: Address) -> (r: Store)
        ensures
            r.wf(),
            r@.program_id == program_id@,
            r@.bounties.is_empty(),
            r@.submissions.is_empty(),
            r@.vaults.is_empty(),
            r@.token_accounts.is_empty(),
    {
        Store {
            program_id,
            bounties: Table::new(),
            submissions: Table::new(),
            vaults: Table::new(),
            token_accounts: Table::new(),
        }
    }

    /// Opens an empty token account of `mint`, held by `owner`, at `account`.
    pub fn open_token_account(&mut self, account: Address, mint: Address, owner: Address) -> (r: Result<
        (),
        BountyHunterErrors,
    >)
        requires
            old(self).wf(),
        ensures
            final(self).wf(),
            follows(r, open_token_account_step(old(self)@, account@, mint@, owner@), old(self)@, final(self)@),
    {
        if self.token_accounts.contains(&account) {
            return Err(BountyHunterErrors::AlreadyExists);
        }
        self.token_accounts.insert(account, TokenAccount { mint, owner, amount: 0 });
        Ok(())
    }

    /// Issues `amount` new units of the account's token into `account`.
    pub fn mint_to(&mut self, account: &Address, amount: u64) -> (r: Result<(), BountyHunterErrors>)
        requires
            old(self).wf(),
        ensures
            final(self).wf(),
            follows(r, mint_to_step(old(self)@, account@, amount), old(self)@, final(self)@),
    {
        let held = match self.token_accounts.get(account) {
            Some(t) => *t,
            None => {
                return Err(BountyHunterErrors::NotFound);
            },
        };
        if held.amount > u64::MAX - amount {
            return Err(BountyHunterErrors::AmountOverflow);
        }
        self.token_accounts.insert(*account, TokenAccount { amount: held.amount + amount, ..held });
        Ok(())
    }

    /// The bounty at `address`, if one stands there.
    pub fn bounty(&self, address: &Address) -> (r: Option<&Bounty>)
        requires
            self.wf(),
        ensures
            match r {
                Some(b) => self@.bounties.contains_key(address@) && self@.bounties[address@] == b@,
                None => !self@.bounties.contains_key(address@),
            },
    {
        self.bounties.get(address)
    }

    /// The submission at `address`, if one stands there.
    pub fn submission(&self, address: &Address) -> (r: Option<&Submission>)
        requires
            self.wf(),
        ensures
            match r {
                Some(s) => self@.submissions.contains_key(address@) && self@.submissions[address@] == s@,
                None => !self@.submissions.contains_key(address@),
            },
    {
        self.submissions.get(address)
    }

    /// The token account at `address`, if one is open there.
    pub fn token_account(&self, address: &Address) -> (r: Option<TokenAccount>)
        requires
            self.wf(),
        ensures
            match r {
                Some(t) => self@.token_accounts.contains_key(address@) && self@.token_accounts[address@] == t@,
                None => !self@.token_accounts.contains_key(address@),
            },
    {
        match self.token_accounts.get(address) {
            Some(t) => Some(*t),
            None => None,
        }
    }

    /// What the vault of the bounty at `bounty` holds; none once it is closed.
    pub fn vault_balance(&self, bounty: &Address) -> (r: Option<u64>)
        requires
            self.wf(),
        ensures
            match r {
                Some(n) => self@.vaults.contains_key(bounty@) && self@.vaults[bounty@].amount == n,
                None => !self@.vaults.contains_key(bounty@),
            },
    {
        match self.vaults.get(bounty) {
            Some(v) => Some(v.amount),
            None => None,
        }
    }
}

} // verus!
