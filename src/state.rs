use vstd::prelude::*;

use crate::address::Address;

verus! {

/// The longest description a bounty may carry, in bytes.
pub const MAX_DESCRIPTION_LEN: usize = 1024;

/// The longest link a bounty or a submission may carry, in bytes.
pub const MAX_LINK_LEN: usize = 100;

/// The longest notes a submission may carry, in bytes.
pub const MAX_NOTES_LEN: usize = 1024;

/// The length of a text in bytes, in UTF-8.
pub open spec fn byte_len(s: Seq<char>) -> nat {
    vstd::utf8::encode_utf8(s).len()
}

/// The length of `s` in bytes.
pub fn text_len(s: &String) -> (r: usize)
    ensures
        r == byte_len(s@),
{
    s.as_str().as_bytes().len()
}

/// The model of an optional address.
pub open spec fn opt_view(a: Option<Address>) -> Option<Seq<u8>> {
    match a {
        Some(x) => Some(x@),
        None => None,
    }
}

/// A posted task with a locked reward.
#[derive(Debug)]
pub struct Bounty {
    pub seed: u64,
    pub description: String,
    pub link: String,
    pub reward: u64,
    pub bump: u8,
    pub maker: Address,
    pub mint: Address,
    /// The submission that was accepted, or none while the bounty is open.
    pub accepted_submission: Option<Address>,
}

pub struct BountyView {
    pub seed: u64,
    pub description: Seq<char>,
    pub link: Seq<char>,
    pub reward: u64,
    pub bump: u8,
    pub maker: Seq<u8>,
    pub mint: Seq<u8>,
    pub accepted_submission: Option<Seq<u8>>,
}

impl View for Bounty {
    type V = BountyView;

    open spec fn view(&self) -> BountyView {
        BountyView {
            seed: self.seed,
            description: self.description@,
            link: self.link@,
            reward: self.reward,
            bump: self.bump,
            maker: self.maker@,
            mint: self.mint@,
            accepted_submission: opt_view(self.accepted_submission),
        }
    }
}

impl BountyView {
    /// Its text fields are within their bounds.
    pub open spec fn fields_fit(self) -> bool {
        byte_len(self.description) <= MAX_DESCRIPTION_LEN && byte_len(self.link) <= MAX_LINK_LEN
    }

    /// No submission has been accepted yet.
    pub open spec fn is_open(self) -> bool {
        self.accepted_submission is None
    }
}

/// One party's proposed solution to a bounty.
#[derive(Debug)]
pub struct Submission {
    pub bounty: Address,
    pub link: String,
    pub hunter: Address,
    pub notes: String,
}

pub struct SubmissionView {
    pub bounty: Seq<u8>,
    pub link: Seq<char>,
    pub hunter: Seq<u8>,
    pub notes: Seq<char>,
}

impl View for Submission {
    type V = SubmissionView;

    open spec fn view(&self) -> SubmissionView {
        SubmissionView { bounty: self.bounty@, link: self.link@, hunter: self.hunter@, notes: self.notes@ }
    }
}

impl SubmissionView {
    /// Its text fields are within their bounds.
    pub open spec fn fields_fit(self) -> bool {
        byte_len(self.link) <= MAX_LINK_LEN && byte_len(self.notes) <= MAX_NOTES_LEN
    }
}

/// A balance of one token, held by one owner.
#[derive(Clone, Copy, Debug)]
pub struct TokenAccount {
    pub mint: Address,
    pub owner: Address,
    pub amount: u64,
}

pub struct TokenAccountView {
    pub mint: Seq<u8>,
    pub owner: Seq<u8>,
    pub amount: u64,
}

impl View for TokenAccount {
    type V = TokenAccountView;

    open spec fn view(&self) -> TokenAccountView {
        TokenAccountView { mint: self.mint@, owner: self.owner@, amount: self.amount }
    }
}

/// The custody account of one bounty: the locked reward, in the bounty's mint.
#[derive(Clone, Copy, Debug)]
pub struct Vault {
    pub mint: Address,
    pub amount: u64,
}

pub struct VaultView {
    pub mint: Seq<u8>,
    pub amount: u64,
}

impl View for Vault {
    type V = VaultView;

    open spec fn view(&self) -> VaultView {
        VaultView { mint: self.mint@, amount: self.amount }
    }
}

} // verus!
