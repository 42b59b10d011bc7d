//! A reward-escrow board: makers post bounties backed by a locked deposit,
//! hunters submit solutions, and each maker either accepts one submission,
//! which pays the deposit to its hunter, or cancels the bounty, which refunds it.
//!
//! Each operation checks everything before it changes anything, so a refused
//! operation leaves the board as it was. Its effect is stated as a step function
//! on the board's model, and the custody rules (`store::valid`) hold after every
//! operation.
use vstd::prelude::*;

pub mod address;
pub mod error;
pub mod table;
pub mod state;
pub mod store;
pub mod create_bounty;
pub mod cancel_bounty;
pub mod submit_solution;
pub mod accept_solution;
pub mod laws;
pub mod codec;
pub mod client;

pub use accept_solution::{accept_solution, AcceptSolution};
pub use address::{bounty_address, submission_address, Address};
pub use cancel_bounty::{cancel_bounty, CancelBounty};
pub use create_bounty::{create_bounty, CreateBounty};
pub use error::BountyHunterErrors;
pub use state::{Bounty, Submission, TokenAccount};
pub use store::Store;
pub use submit_solution::{submit_solution, SubmitSolution};

verus! {

} // verus!
