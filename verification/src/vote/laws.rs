//! What holds of a vote proposal over any sequence of ballots.

use vstd::prelude::*;
use crate::decimal::DECIMAL_FRACTIONAL;
use crate::error::ContractError;
use crate::types::Timestamp;
use crate::vote::contract::{accept_counts, accept_finalizes, accept_refusal, accept_state};
use crate::vote::state::VoteProposalView;

verus! {

/// One call of `accept`: who calls, and what the owning registry says of the
/// caller's admission.
pub struct Attempt {
    pub voter: Seq<char>,
    pub joined: Option<Timestamp>,
}

/// The proposal after the calls `attempts`, in order, starting from `v`.
pub open spec fn run(v: VoteProposalView, attempts: Seq<Attempt>) -> VoteProposalView
    decreases attempts.len(),
{
    if attempts.len() == 0 {
        v
    } else {
        accept_state(run(v, attempts.drop_last()), attempts.last().voter, attempts.last().joined)
    }
}

/// How many of the calls `attempts`, starting from `v`, finalize the vote.
pub open spec fn finalizations(v: VoteProposalView, attempts: Seq<Attempt>) -> nat
    decreases attempts.len(),
{
    if attempts.len() == 0 {
        0
    } else {
        let earlier = finalizations(v, attempts.drop_last());
        if accept_finalizes(
            run(v, attempts.drop_last()),
            attempts.last().voter,
            attempts.last().joined,
        ) {
            earlier + 1
        } else {
            earlier
        }
    }
}

/// A proposal is closed exactly when the ballots counted, one whole vote
/// each, are no fewer than the votes it required.
pub proof fn law_closed_iff_quorum(v: VoteProposalView)
    ensures
        v.is_closed() <==> DECIMAL_FRACTIONAL * v.ballots.len() >= v.required_votes(),
        v.is_open() <==> !v.is_closed(),
{
}

/// A call of `accept` leaves a proposal a proposal and does not change the
/// votes it required: a counted ballot takes exactly one whole vote from the
/// votes left, and any other call takes none.
pub proof fn law_accept_keeps_required_votes(
    v: VoteProposalView,
    voter: Seq<char>,
    joined: Option<Timestamp>,
)
    requires
        v.wf(),
    ensures
        accept_state(v, voter, joined).wf(),
        accept_state(v, voter, joined).required_votes() == v.required_votes(),
        accept_state(v, voter, joined).ballots.len() == v.ballots.len() + if accept_counts(
            v,
            voter,
            joined,
        ) {
            1int
        } else {
            0int
        },
{
    if accept_counts(v, voter, joined) {
        let after = v.with_ballot(voter);
        assert(DECIMAL_FRACTIONAL * (v.ballots.len() + 1) == DECIMAL_FRACTIONAL * v.ballots.len()
            + DECIMAL_FRACTIONAL) by (nonlinear_arith);
        assert(after.ballots.no_duplicates()) by {
            assert forall|i: int, j: int|
                0 <= i < after.ballots.len() && 0 <= j < after.ballots.len() && i != j implies after.ballots[i]
                != after.ballots[j] by {
                if i < v.ballots.len() && j < v.ballots.len() {
                } else if i < v.ballots.len() {
                    assert(v.ballots[i] != voter);
                } else {
                    assert(v.ballots[j] != voter);
                }
            }
        }
    }
}

/// Whatever calls are made in whatever order, the proposal stays a proposal
/// with the votes it required at first, it is closed exactly when the voters
/// counted are no fewer than those votes, and it never has fewer ballots or
/// more votes left than before.
pub proof fn law_closed_exactly_at_quorum(v: VoteProposalView, attempts: Seq<Attempt>)
    requires
        v.wf(),
    ensures
        run(v, attempts).wf(),
        run(v, attempts).required_votes() == v.required_votes(),
        run(v, attempts).is_closed() <==> DECIMAL_FRACTIONAL * run(v, attempts).ballots.len()
            >= v.required_votes(),
        run(v, attempts).ballots.len() >= v.ballots.len(),
        run(v, attempts).votes_left <= v.votes_left,
    decreases attempts.len(),
{
    if attempts.len() > 0 {
        let earlier = attempts.drop_last();
        law_closed_exactly_at_quorum(v, earlier);
        let before = run(v, earlier);
        law_accept_keeps_required_votes(before, attempts.last().voter, attempts.last().joined);
    }
}

/// No call leaves the closed state: what is closed stays closed.
pub proof fn law_closed_is_final(v: VoteProposalView, attempts: Seq<Attempt>)
    requires
        v.wf(),
        v.is_closed(),
    ensures
        run(v, attempts).is_closed(),
        finalizations(v, attempts) == 0,
    decreases attempts.len(),
{
    if attempts.len() > 0 {
        law_closed_is_final(v, attempts.drop_last());
        law_closed_exactly_at_quorum(v, attempts.drop_last());
    }
}

/// A call by someone who has voted before is accepted and changes nothing:
/// the votes left stay what they were.
pub proof fn law_repeated_vote_changes_nothing(
    v: VoteProposalView,
    voter: Seq<char>,
    joined: Option<Timestamp>,
)
    requires
        v.has_voted(voter),
    ensures
        accept_state(v, voter, joined) == v,
        accept_refusal(v, voter, joined) is None,
        !accept_finalizes(v, voter, joined),
{
}

/// Voting twice is voting once: after a call by `voter`, a second call by
/// `voter` changes nothing, whatever the registry says of the voter by then.
pub proof fn law_accept_is_idempotent(
    v: VoteProposalView,
    voter: Seq<char>,
    first: Option<Timestamp>,
    second: Option<Timestamp>,
)
    requires
        accept_refusal(v, voter, first) is None,
    ensures
        accept_state(accept_state(v, voter, first), voter, second) == accept_state(v, voter, first),
        accept_state(accept_state(v, voter, first), voter, second).votes_left == accept_state(
            v,
            voter,
            first,
        ).votes_left,
{
    let once = accept_state(v, voter, first);
    if !v.has_voted(voter) {
        assert(once.ballots[v.ballots.len() as int] == voter);
    }
    assert(once.has_voted(voter));
}

/// Someone who has not voted and whom the owning registry admitted after the
/// proposal was created is refused as ineligible, in whatever state the
/// proposal is, and the proposal does not change.
pub proof fn law_late_admin_is_refused(v: VoteProposalView, voter: Seq<char>, joined: Timestamp)
    requires
        !v.has_voted(voter),
        joined.is_after(v.created_at),
    ensures
        accept_refusal(v, voter, Some(joined)) == Some(ContractError::IneligibleVoter),
        accept_state(v, voter, Some(joined)) == v,
        !accept_finalizes(v, voter, Some(joined)),
{
}

/// Whether every call that `voter` makes among `attempts` comes with an
/// admission after `created_at`, or with none.
pub open spec fn always_late(attempts: Seq<Attempt>, voter: Seq<char>, created_at: Timestamp) -> bool {
    forall|i: int|
        0 <= i < attempts.len() && (#[trigger] attempts[i]).voter == voter ==> match attempts[i].joined {
            Some(joined) => joined.is_after(created_at),
            None => true,
        }
}

/// The order of the calls does not help: someone who has not voted, and who
/// at each call is no admin or one admitted after the proposal was created,
/// never gets a ballot counted.
pub proof fn law_late_admin_never_votes(v: VoteProposalView, attempts: Seq<Attempt>, voter: Seq<char>)
    requires
        !v.has_voted(voter),
        always_late(attempts, voter, v.created_at),
    ensures
        !run(v, attempts).has_voted(voter),
        run(v, attempts).created_at == v.created_at,
    decreases attempts.len(),
{
    if attempts.len() > 0 {
        let earlier = attempts.drop_last();
        assert forall|i: int| 0 <= i < earlier.len() && (#[trigger] earlier[i]).voter == voter implies match earlier[i].joined {
            Some(joined) => joined.is_after(v.created_at),
            None => true,
        } by {
            assert(earlier[i] == attempts[i]);
        }
        law_late_admin_never_votes(v, earlier, voter);
        let before = run(v, earlier);
        let last = attempts.last();
        assert(last == attempts[attempts.len() - 1]);
        let after = accept_state(before, last.voter, last.joined);
        if accept_counts(before, last.voter, last.joined) {
            assert(last.voter != voter);
            assert forall|i: int| 0 <= i < after.ballots.len() implies after.ballots[i] != voter by {
                if i < before.ballots.len() {
                    assert(before.ballots[i] != voter);
                }
            }
        }
    }
}

/// A call finalizes the vote exactly when it counts a ballot that takes the
/// proposal from open to closed.
pub proof fn law_finalizes_at_the_crossing(
    v: VoteProposalView,
    voter: Seq<char>,
    joined: Option<Timestamp>,
)
    ensures
        accept_finalizes(v, voter, joined) <==> v.is_open() && accept_state(
            v,
            voter,
            joined,
        ).is_closed(),
{
}

/// Over any calls in any order the vote is finalized at most once: once
/// where the calls take the proposal from open to closed, and never
/// otherwise.
pub proof fn law_finalized_at_most_once(v: VoteProposalView, attempts: Seq<Attempt>)
    requires
        v.wf(),
    ensures
        finalizations(v, attempts) <= 1,
        finalizations(v, attempts) == 1 <==> v.is_open() && run(v, attempts).is_closed(),
    decreases attempts.len(),
{
    if attempts.len() > 0 {
        let earlier = attempts.drop_last();
        law_finalized_at_most_once(v, earlier);
        law_closed_exactly_at_quorum(v, earlier);
        let before = run(v, earlier);
        law_accept_keeps_required_votes(before, attempts.last().voter, attempts.last().joined);
    }
}

} // verus!
