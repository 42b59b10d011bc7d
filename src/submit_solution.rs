use vstd::prelude::*;

use crate::address::{submission_address, submission_address_of, Address};
use crate::error::BountyHunterErrors;
use crate::state::{byte_len, text_len, Submission, SubmissionView, MAX_LINK_LEN, MAX_NOTES_LEN};
use crate::store::{follows, valid, Store, StoreView};

verus! {

/// The accounts that submitting a solution names: the hunter who signs and the
/// bounty the solution answers.
#[derive(Clone, Copy, Debug)]
pub struct SubmitSolution {
    pub hunter: Address,
    pub bounty: Address,
}

/// Submitting a solution: the record at the derived address of the hunter and
/// the bounty is written, whether or not one stood there. A bounty that has
/// already been resolved still takes submissions, which stay as a record.
pub open spec fn submit_solution_step(
    s: StoreView,
    hunter: Seq<u8>,
    bounty: Seq<u8>,
    link: Seq<char>,
    notes: Seq<char>,
) -> Result<StoreView, BountyHunterErrors> {
    if !s.bounties.contains_key(bounty) {
        Err(BountyHunterErrors::NotFound)
    } else {
        match submission_address_of(s.program_id, hunter, bounty) {
            None => Err(BountyHunterErrors::AddressDerivationExhausted),
            Some((a, _)) => {
                if byte_len(link) > MAX_LINK_LEN || byte_len(notes) > MAX_NOTES_LEN {
                    Err(BountyHunterErrors::FieldTooLong)
                } else {
                    Ok(
                        StoreView {
                            submissions: s.submissions.insert(
                                a,
                                SubmissionView { bounty, link, hunter, notes },
                            ),
                            ..s
                        },
                    )
                }
            },
        }
    }
}

impl SubmitSolution {
    /// Writes the hunter's submission against `self.bounty` and returns its address.
    pub fn handler(&self, store: &mut Store, link: String, notes: String) -> (r: Result<
        Address,
        BountyHunterErrors,
    >)
        requires
            old(store).wf(),
        ensures
            final(store).wf(),
            follows(
                r,
                submit_solution_step(old(store)@, self.hunter@, self.bounty@, link@, notes@),
                old(store)@,
                final(store)@,
            ),
            r matches Ok(a) ==> submission_address_of(old(store)@.program_id, self.hunter@, self.bounty@)
                matches Some((x, _)) && x == a@,
    {
        proof {
            store.lemma_unfold();
        }
        if !store.bounties.contains(&self.bounty) {
            return Err(BountyHunterErrors::NotFound);
        }
        let (address, _) = match submission_address(&store.program_id, &self.hunter, &self.bounty) {
            Ok(found) => found,
            Err(e) => {
                return Err(e);
            },
        };
        if text_len(&link) > MAX_LINK_LEN || text_len(&notes) > MAX_NOTES_LEN {
            return Err(BountyHunterErrors::FieldTooLong);
        }
        let ghost s0 = old(store)@;
        let ghost link_v = link@;
        let ghost notes_v = notes@;
        store.submissions.insert(address, Submission { bounty: self.bounty, link, hunter: self.hunter, notes });
        proof {
            store.lemma_unfold();
            let next = submit_solution_step(s0, self.hunter@, self.bounty@, link_v, notes_v);
            assert(next is Ok);
            assert(store@ == next->Ok_0);
            assert(valid(store@));
        }
        Ok(address)
    }
}

/// Submits a solution; see [`SubmitSolution::handler`].
pub fn submit_solution(store: &mut Store, accounts: &SubmitSolution, link: String, notes: String) -> (r:
    Result<Address, BountyHunterErrors>)
    requires
        old(store).wf(),
    ensures
        final(store).wf(),
        follows(
            r,
            submit_solution_step(old(store)@, accounts.hunter@, accounts.bounty@, link@, notes@),
            old(store)@,
            final(store)@,
        ),
        r matches Ok(a) ==> submission_address_of(old(store)@.program_id, accounts.hunter@, accounts.bounty@)
            matches Some((x, _)) && x == a@,
{
    accounts.handler(store, link, notes)
}

} // verus!
