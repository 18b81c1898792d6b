//! The state of a vote proposal.

use vstd::prelude::*;
use crate::decimal::{Decimal, DECIMAL_FRACTIONAL};
use crate::types::{strings_view, Timestamp};

verus! {

/// A vote proposal as a mathematical value.
pub struct VoteProposalView {
    pub proposed_admin: Seq<char>,
    /// The votes still needed, in atomic units of a decimal; zero or less once
    /// the quorum is reached.
    pub votes_left: int,
    /// Only who was an admin by then may vote.
    pub created_at: Timestamp,
    /// The registry that created the proposal and admits the candidate.
    pub owner: Seq<char>,
    /// Who has voted, in the order of the ballots.
    pub ballots: Seq<Seq<char>>,
}

impl VoteProposalView {
    /// The votes that the proposal needed when it was created: each ballot
    /// has taken one whole vote from them.
    pub open spec fn required_votes(self) -> int {
        self.votes_left + DECIMAL_FRACTIONAL * self.ballots.len()
    }

    /// Nobody has voted twice, and the votes required were not negative.
    pub open spec fn wf(self) -> bool {
        &&& self.ballots.no_duplicates()
        &&& self.required_votes() >= 0
    }

    /// Whether a ballot of `voter` is counted.
    pub open spec fn has_voted(self, voter: Seq<char>) -> bool {
        self.ballots.contains(voter)
    }

    /// Open while votes are still needed.
    pub open spec fn is_open(self) -> bool {
        self.votes_left > 0
    }

    /// Closed once the quorum is reached; it stays closed.
    pub open spec fn is_closed(self) -> bool {
        self.votes_left <= 0
    }

    /// The proposal after one more ballot, by `voter`.
    pub open spec fn with_ballot(self, voter: Seq<char>) -> VoteProposalView {
        VoteProposalView {
            votes_left: self.votes_left - DECIMAL_FRACTIONAL,
            ballots: self.ballots.push(voter),
            ..self
        }
    }
}

/// A vote proposal. Its fields are private: in every value of this type
/// nobody has voted twice, and the votes required were not negative.
pub struct VoteProposal {
    proposed_admin: String,
    votes_left: Decimal,
    start_time: Timestamp,
    owner: String,
    votes: Vec<String>,
}

impl View for VoteProposal {
    type V = VoteProposalView;

    closed spec fn view(&self) -> VoteProposalView {
        VoteProposalView {
            proposed_admin: self.proposed_admin@,
            votes_left: self.votes_left.atomics as int,
            created_at: self.start_time,
            owner: self.owner@,
            ballots: strings_view(self.votes@),
        }
    }
}

impl VoteProposal {
    /// What holds of every proposal.
    #[verifier::type_invariant]
    pub open spec fn inv(self) -> bool {
        self@.wf()
    }

    /// A proposal without ballots.
    pub(crate) fn new(proposed_admin: String, required_votes: Decimal, start_time: Timestamp, owner: String) -> (proposal:
        VoteProposal)
        requires
            required_votes.atomics >= 0,
        ensures
            proposal@ == (VoteProposalView {
                proposed_admin: proposed_admin@,
                votes_left: required_votes.atomics as int,
                created_at: start_time,
                owner: owner@,
                ballots: Seq::empty(),
            }),
            proposal@.wf(),
    {
        let proposal = VoteProposal {
            proposed_admin,
            votes_left: required_votes,
            start_time,
            owner,
            votes: Vec::new(),
        };
        assert(proposal@.ballots =~= Seq::empty());
        proposal
    }

    /// The proposal that holds exactly what is given, where that is a
    /// proposal: where nobody has voted twice and the votes left, with one
    /// whole vote for each ballot, are not negative.
    pub fn restore(
        proposed_admin: String,
        votes_left: Decimal,
        start_time: Timestamp,
        owner: String,
        votes: Vec<String>,
    ) -> (restored: Option<VoteProposal>)
        ensures
            match restored {
                Some(proposal) => proposal@ == Self::restore_view(
                    proposed_admin,
                    votes_left,
                    start_time,
                    owner,
                    votes,
                ) && proposal@.wf(),
                None => !Self::restore_view(proposed_admin, votes_left, start_time, owner, votes).wf(),
            },
    {
        let ghost view = Self::restore_view(proposed_admin, votes_left, start_time, owner, votes);
        let count: usize = votes.len();
        assert(0 <= DECIMAL_FRACTIONAL * count <= i128::MAX) by (nonlinear_arith)
            requires
                0 <= count <= u64::MAX,
                DECIMAL_FRACTIONAL == 1_000_000_000_000_000_000,
        ;
        let cast: i128 = DECIMAL_FRACTIONAL * (count as i128);
        if votes_left.atomics() < -cast {
            return None;
        }
        let mut i: usize = 0;
        while i < votes.len()
            invariant
                i <= votes@.len(),
                view.ballots == strings_view(votes@),
                forall|a: int, b: int| 0 <= a < b < i ==> view.ballots[a] != view.ballots[b],
            decreases votes@.len() - i,
        {
            let mut j: usize = 0;
            while j < i
                invariant
                    j <= i < votes@.len(),
                    view.ballots == strings_view(votes@),
                    forall|b: int| 0 <= b < j ==> view.ballots[b] != view.ballots[i as int],
                decreases i - j,
            {
                if votes[j] == votes[i] {
                    assert(view.ballots[j as int] == view.ballots[i as int]);
                    return None;
                }
                j += 1;
            }
            i += 1;
        }
        Some(VoteProposal { proposed_admin, votes_left, start_time, owner, votes })
    }

    /// What `restore` is given, as a proposal.
    pub open spec fn restore_view(
        proposed_admin: String,
        votes_left: Decimal,
        start_time: Timestamp,
        owner: String,
        votes: Vec<String>,
    ) -> VoteProposalView {
        VoteProposalView {
            proposed_admin: proposed_admin@,
            votes_left: votes_left.atomics as int,
            created_at: start_time,
            owner: owner@,
            ballots: strings_view(votes@),
        }
    }

    pub fn proposed_admin(&self) -> (candidate: &String)
        ensures
            candidate@ == self@.proposed_admin,
    {
        &self.proposed_admin
    }

    pub fn votes_left(&self) -> (left: Decimal)
        ensures
            left.atomics == self@.votes_left,
    {
        self.votes_left
    }

    pub fn start_time(&self) -> (created_at: Timestamp)
        ensures
            created_at == self@.created_at,
    {
        self.start_time
    }

    pub fn owner(&self) -> (owner: &String)
        ensures
            owner@ == self@.owner,
    {
        &self.owner
    }

    /// Who has voted, in the order of the ballots.
    pub fn votes(&self) -> (voters: &Vec<String>)
        ensures
            strings_view(voters@) == self@.ballots,
    {
        &self.votes
    }

    pub fn has_voted(&self, voter: &String) -> (b: bool)
        ensures
            b == self@.has_voted(voter@),
    {
        let mut i: usize = 0;
        while i < self.votes.len()
            invariant
                i <= self.votes@.len(),
                forall|j: int| 0 <= j < i ==> self@.ballots[j] != voter@,
            decreases self.votes@.len() - i,
        {
            if self.votes[i] == *voter {
                assert(self@.ballots[i as int] == voter@);
                return true;
            }
            i += 1;
        }
        false
    }

    /// Counts the ballot of a voter who has not voted yet: one whole vote
    /// less is needed.
    pub(crate) fn cast(&mut self, voter: String)
        requires
            !old(self)@.has_voted(voter@),
        ensures
            final(self)@ == old(self)@.with_ballot(voter@),
            final(self)@.wf(),
    {
        proof {
            use_type_invariant(&*self);
        }
        let ghost before = self@;
        let mut taken = VoteProposal::new(
            String::new(),
            Decimal::zero(),
            Timestamp::from_nanos(0),
            String::new(),
        );
        core::mem::swap(self, &mut taken);
        let VoteProposal { proposed_admin, votes_left, start_time, owner, mut votes } = taken;
        let count: usize = votes.len();
        assert(votes_left.atomics - DECIMAL_FRACTIONAL >= i128::MIN) by (nonlinear_arith)
            requires
                votes_left.atomics + DECIMAL_FRACTIONAL * count >= 0,
                count <= u64::MAX,
                DECIMAL_FRACTIONAL == 1_000_000_000_000_000_000,
        ;
        votes.push(voter);
        proof {
            assert(strings_view(votes@) =~= before.ballots.push(voter@));
            assert(DECIMAL_FRACTIONAL * (count + 1) == DECIMAL_FRACTIONAL * count
                + DECIMAL_FRACTIONAL) by (nonlinear_arith);
        }
        *self = VoteProposal {
            proposed_admin,
            votes_left: votes_left.minus_one(),
            start_time,
            owner,
            votes,
        };
    }
}

} // verus!
