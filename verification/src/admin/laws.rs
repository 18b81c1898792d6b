//! What holds of the registry and of the donations it splits.

use vstd::prelude::*;
use crate::admin::contract::{add_member_state, ascending_distinct, even_split, BankSendView};
use crate::admin::state::{AdminEntryView, RegistryView};
use crate::order::{ascending, key_before, lemma_place_parts, place};
use crate::types::Timestamp;

verus! {

/// The sum of the amounts of `transfers`.
pub open spec fn total_paid(transfers: Seq<BankSendView>) -> int
    decreases transfers.len(),
{
    if transfers.len() == 0 {
        0
    } else {
        total_paid(transfers.drop_last()) + transfers.last().amount.amount
    }
}

/// The sum of `count` transfers of `share` each.
proof fn lemma_equal_shares(transfers: Seq<BankSendView>, share: int)
    requires
        forall|i: int| 0 <= i < transfers.len() ==> (#[trigger] transfers[i]).amount.amount == share,
    ensures
        total_paid(transfers) == share * transfers.len(),
    decreases transfers.len(),
{
    if transfers.len() > 0 {
        let earlier = transfers.drop_last();
        assert forall|i: int| 0 <= i < earlier.len() implies (#[trigger] earlier[i]).amount.amount
            == share by {
            assert(earlier[i] == transfers[i]);
        }
        lemma_equal_shares(earlier, share);
        assert(transfers.last() == transfers[transfers.len() - 1]);
        assert(share * transfers.len() == share * earlier.len() + share) by (nonlinear_arith)
            requires
                transfers.len() == earlier.len() + 1,
        ;
    }
}

/// A donation of `amount` among `n` admins pays each the quotient of
/// `amount` by `n`, rounded down, and never pays out more than was donated:
/// what is not paid out is the remainder of that division.
pub proof fn law_donation_split(admins: Seq<AdminEntryView>, amount: u128, denom: Seq<char>)
    requires
        admins.len() > 0,
    ensures
        even_split(admins, amount, denom).len() == admins.len(),
        forall|i: int|
            0 <= i < admins.len() ==> (#[trigger] even_split(admins, amount, denom)[i]).amount.amount
                == amount as int / admins.len() as int,
        total_paid(even_split(admins, amount, denom)) == (amount as int / admins.len() as int)
            * admins.len(),
        total_paid(even_split(admins, amount, denom)) <= amount,
        amount - total_paid(even_split(admins, amount, denom)) == amount as int % admins.len() as int,
{
    let n = admins.len() as int;
    let share = amount as int / n;
    assert(0 <= share <= amount && share * n <= amount && amount - share * n == amount as int % n)
        by (nonlinear_arith)
        requires
            n > 0,
            share == amount as int / n,
            amount >= 0,
    ;
    lemma_equal_shares(even_split(admins, amount, denom), share);
}

/// Admitting someone who is no admin yet leaves the registry a registry: the
/// new admin stands at the place of its identity, so that the admins stay in
/// ascending order. Nobody else's membership or time of admission changes.
pub proof fn law_admission_keeps_join_times(
    v: RegistryView,
    candidate: Seq<char>,
    now: Timestamp,
    other: Seq<char>,
)
    requires
        v.wf(),
        !v.is_admin(candidate),
        other != candidate,
    ensures
        v.with_admin(candidate, now).wf(),
        ascending(v.with_admin(candidate, now).addresses()),
        v.with_admin(candidate, now).addresses() == v.addresses().insert(
            place(v.addresses(), candidate),
            candidate,
        ),
        v.with_admin(candidate, now).joined_at(candidate) == Some(now),
        v.with_admin(candidate, now).joined_at(other) == v.joined_at(other),
        v.with_admin(candidate, now).admins.len() == v.admins.len() + 1,
{
    let p = place(v.addresses(), candidate);
    lemma_place_parts(v.addresses(), candidate);
    let after = v.with_admin(candidate, now);
    assert(after.addresses() =~= v.addresses().insert(p, candidate));
    v.lemma_distinct();
    after.lemma_distinct();
    assert(after.addresses()[p] == candidate);
    assert(after.is_admin(candidate));
    assert(after.addresses().index_of(candidate) == p);
    if v.is_admin(other) {
        let i = v.addresses().index_of(other);
        let k = if i < p {
            i
        } else {
            i + 1
        };
        assert(after.addresses()[k] == other);
        assert(after.is_admin(other));
        assert(after.addresses().index_of(other) == k);
        assert(after.admins[k] == v.admins[i]);
    } else {
        if after.is_admin(other) {
            let j = after.addresses().index_of(other);
            let x = if j < p {
                j
            } else {
                j - 1
            };
            assert(v.addresses()[x] == other);
        }
    }
}

/// Finalizing a vote twice is finalizing it once: a second call of
/// `add_member` by the same vote proposal changes nothing, whenever it comes.
pub proof fn law_add_member_is_idempotent(
    v: RegistryView,
    first: Timestamp,
    second: Timestamp,
    sender: Seq<char>,
)
    requires
        v.wf(),
    ensures
        add_member_state(v, first, sender).wf(),
        add_member_state(add_member_state(v, first, sender), second, sender) == add_member_state(
            v,
            first,
            sender,
        ),
        v.pending_votes.contains_key(sender) ==> add_member_state(v, first, sender).is_admin(
            v.pending_votes[sender],
        ),
{
    if v.pending_votes.contains_key(sender) {
        let candidate = v.pending_votes[sender];
        if !v.is_admin(candidate) {
            let once = v.with_admin(candidate, first);
            let p = place(v.addresses(), candidate);
            lemma_place_parts(v.addresses(), candidate);
            assert(once.addresses() =~= v.addresses().insert(p, candidate));
            assert(once.addresses()[p] == candidate);
        }
    }
}

/// After leaving, the caller is no admin; everybody else is what they were,
/// in the same order; the registry has one admin fewer if the caller was
/// one, and as many otherwise.
pub proof fn law_leave_removes_only_the_caller(v: RegistryView, caller: Seq<char>, other: Seq<char>)
    requires
        v.wf(),
        other != caller,
    ensures
        v.without(caller).wf(),
        !v.without(caller).is_admin(caller),
        v.without(caller).joined_at(other) == v.joined_at(other),
        v.without(caller).admins.len() == v.admins.len() - if v.is_admin(caller) {
            1int
        } else {
            0int
        },
{
    let after = v.without(caller);
    v.lemma_distinct();
    if v.is_admin(caller) {
        let gone = v.addresses().index_of(caller);
        assert(after.addresses() =~= v.addresses().remove(gone));
        assert forall|a: int, b: int| 0 <= a < b < after.addresses().len() implies key_before(
            after.addresses()[a],
            after.addresses()[b],
        ) by {
            let x = if a < gone {
                a
            } else {
                a + 1
            };
            let y = if b < gone {
                b
            } else {
                b + 1
            };
            assert(after.addresses()[a] == v.addresses()[x]);
            assert(after.addresses()[b] == v.addresses()[y]);
        }
        after.lemma_distinct();
        assert forall|k: int| 0 <= k < after.addresses().len() implies after.addresses()[k]
            != caller by {
            if k < gone {
                assert(after.addresses()[k] == v.addresses()[k]);
            } else {
                assert(after.addresses()[k] == v.addresses()[k + 1]);
            }
        }
        if v.is_admin(other) {
            let i = v.addresses().index_of(other);
            let k = if i < gone {
                i
            } else {
                i - 1
            };
            assert(after.addresses()[k] == other);
            assert(after.is_admin(other));
            assert(after.addresses().index_of(other) == k);
            assert(after.admins[k] == v.admins[i]);
        } else {
            if after.is_admin(other) {
                let k = after.addresses().index_of(other);
                if k < gone {
                    assert(v.addresses()[k] == other);
                } else {
                    assert(v.addresses()[k + 1] == other);
                }
            }
        }
    }
}

/// The list that a registry starts with is in strictly ascending order and
/// holds exactly the identities that it was given.
pub proof fn law_first_admins_ascend(addresses: Seq<Seq<char>>, address: Seq<char>)
    ensures
        ascending(ascending_distinct(addresses)),
        ascending_distinct(addresses).contains(address) <==> addresses.contains(address),
    decreases addresses.len(),
{
    if addresses.len() > 0 {
        let earlier = addresses.drop_last();
        let last = addresses.last();
        law_first_admins_ascend(earlier, address);
        law_first_admins_ascend(earlier, last);
        let before = ascending_distinct(earlier);
        let all = ascending_distinct(addresses);
        assert(addresses[addresses.len() - 1] == last);
        if earlier.contains(address) {
            let i = earlier.index_of(address);
            assert(addresses[i] == address);
        }
        if addresses.contains(address) && address != last {
            let i = addresses.index_of(address);
            assert(earlier[i] == address);
        }
        if !before.contains(last) {
            let p = place(before, last);
            lemma_place_parts(before, last);
            assert(all[p] == last);
            if before.contains(address) {
                let i = before.index_of(address);
                let k = if i < p {
                    i
                } else {
                    i + 1
                };
                assert(all[k] == address);
            }
            if all.contains(address) && address != last {
                let k = all.index_of(address);
                let x = if k < p {
                    k
                } else {
                    k - 1
                };
                assert(before[x] == address);
            }
        }
    }
}

/// Vote proposals that are pending at the same time never collide: noting
/// the candidate of one leaves the candidate of every other as it was.
pub proof fn law_pending_votes_do_not_collide(
    v: RegistryView,
    vote_addr: Seq<char>,
    proposed_admin: Seq<char>,
    other: Seq<char>,
)
    requires
        other != vote_addr,
    ensures
        v.with_pending(vote_addr, proposed_admin).pending_votes[vote_addr] == proposed_admin,
        v.with_pending(vote_addr, proposed_admin).pending_votes.contains_key(vote_addr),
        v.with_pending(vote_addr, proposed_admin).pending_votes.contains_key(other)
            == v.pending_votes.contains_key(other),
        v.pending_votes.contains_key(other) ==> v.with_pending(
            vote_addr,
            proposed_admin,
        ).pending_votes[other] == v.pending_votes[other],
        v.with_pending(vote_addr, proposed_admin).admins == v.admins,
{
}

} // verus!
