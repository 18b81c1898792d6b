//! The registry's state and the steps that change it.

use vstd::prelude::*;
use crate::decimal::Decimal;
use crate::order::{
    ascending, key_before, key_order, lemma_ascending_is_distinct, lemma_before_is_one_way,
    lemma_before_is_transitive, lemma_place_parts, place, KeyOrder,
};
use crate::types::Timestamp;

verus! {

/// One admin: its identity and the time of its admission.
#[derive(Debug, PartialEq, Eq)]
pub struct AdminEntry {
    pub address: String,
    pub joined_at: Timestamp,
}

/// An admin as a mathematical value.
pub struct AdminEntryView {
    pub address: Seq<char>,
    pub joined_at: Timestamp,
}

impl View for AdminEntry {
    type V = AdminEntryView;

    open spec fn view(&self) -> AdminEntryView {
        AdminEntryView { address: self.address@, joined_at: self.joined_at }
    }
}

/// A correlation record: the vote proposal that was created, and the
/// candidate that it is about.
#[derive(Debug, PartialEq, Eq)]
pub struct PendingVote {
    pub vote_addr: String,
    pub proposed_admin: String,
}

/// The views of a list of entries, in order.
pub open spec fn entries_view(entries: Seq<AdminEntry>) -> Seq<AdminEntryView> {
    Seq::new(entries.len(), |i: int| entries[i]@)
}

/// The map that a list of correlation records stands for: a later record for
/// a vote proposal replaces an earlier one.
pub open spec fn pending_map(records: Seq<PendingVote>) -> Map<Seq<char>, Seq<char>>
    decreases records.len(),
{
    if records.len() == 0 {
        Map::empty()
    } else {
        pending_map(records.drop_last()).insert(
            records.last().vote_addr@,
            records.last().proposed_admin@,
        )
    }
}

/// The registry as a mathematical value.
pub struct RegistryView {
    /// The admins in ascending order of their identities.
    pub admins: Seq<AdminEntryView>,
    pub donation_denom: Seq<char>,
    pub vote_code_id: u64,
    pub quorum: Decimal,
    /// The candidate of each vote proposal that this registry has created, by
    /// the proposal's identity.
    pub pending_votes: Map<Seq<char>, Seq<char>>,
}

impl RegistryView {
    /// The admins' identities, in the order of the admins.
    pub open spec fn addresses(self) -> Seq<Seq<char>> {
        Seq::new(self.admins.len(), |i: int| self.admins[i].address)
    }

    /// The admins' identities are strictly ascending, so that no identity is
    /// an admin twice, and the quorum is a fraction.
    pub open spec fn wf(self) -> bool {
        &&& ascending(self.addresses())
        &&& self.quorum.is_quorum()
    }

    /// No identity is an admin twice.
    pub proof fn lemma_distinct(self)
        requires
            self.wf(),
        ensures
            self.addresses().no_duplicates(),
    {
        lemma_ascending_is_distinct(self.addresses());
    }

    /// Whether `address` is among the admins.
    pub open spec fn is_admin(self, address: Seq<char>) -> bool {
        self.addresses().contains(address)
    }

    /// When `address` was admitted, if it is an admin.
    pub open spec fn joined_at(self, address: Seq<char>) -> Option<Timestamp> {
        if self.is_admin(address) {
            Some(self.admins[self.addresses().index_of(address)].joined_at)
        } else {
            None
        }
    }

    /// The registry after `address` was admitted at `now`: the new admin
    /// stands at the place of its identity among the others.
    pub open spec fn with_admin(self, address: Seq<char>, now: Timestamp) -> RegistryView {
        RegistryView {
            admins: self.admins.insert(
                place(self.addresses(), address),
                AdminEntryView { address, joined_at: now },
            ),
            ..self
        }
    }

    /// The registry without `address` among its admins.
    pub open spec fn without(self, address: Seq<char>) -> RegistryView {
        if self.is_admin(address) {
            RegistryView {
                admins: self.admins.remove(self.addresses().index_of(address)),
                ..self
            }
        } else {
            self
        }
    }

    /// The registry after it noted that `vote_addr` decides on `proposed_admin`.
    pub open spec fn with_pending(self, vote_addr: Seq<char>, proposed_admin: Seq<char>) -> RegistryView {
        RegistryView {
            pending_votes: self.pending_votes.insert(vote_addr, proposed_admin),
            ..self
        }
    }
}

/// The registry. Its fields are private: every value of this type has its
/// admins in strictly ascending order of their identities, and a quorum that
/// is a fraction.
pub struct Registry {
    admins: Vec<AdminEntry>,
    donation_denom: String,
    vote_code_id: u64,
    quorum: Decimal,
    pending_votes: Vec<PendingVote>,
}

impl View for Registry {
    type V = RegistryView;

    closed spec fn view(&self) -> RegistryView {
        RegistryView {
            admins: entries_view(self.admins@),
            donation_denom: self.donation_denom@,
            vote_code_id: self.vote_code_id,
            quorum: self.quorum,
            pending_votes: pending_map(self.pending_votes@),
        }
    }
}

impl Registry {
    /// What holds of every registry.
    #[verifier::type_invariant]
    pub open spec fn inv(self) -> bool {
        self@.wf()
    }

    /// A registry without admins and without pending votes.
    pub(crate) fn new(donation_denom: String, vote_code_id: u64, quorum: Decimal) -> (registry: Registry)
        requires
            quorum.is_quorum(),
        ensures
            registry@ == (RegistryView {
                admins: Seq::empty(),
                donation_denom: donation_denom@,
                vote_code_id,
                quorum,
                pending_votes: Map::empty(),
            }),
            registry@.wf(),
    {
        let registry = Registry {
            admins: Vec::new(),
            donation_denom,
            vote_code_id,
            quorum,
            pending_votes: Vec::new(),
        };
        assert(registry@.admins =~= Seq::empty());
        registry
    }

    /// The registry that holds exactly what is given, where that is a
    /// registry: where the admins' identities are strictly ascending and the
    /// quorum is a fraction. A later record for a vote proposal replaces an
    /// earlier one.
    pub fn restore(
        admins: Vec<AdminEntry>,
        donation_denom: String,
        vote_code_id: u64,
        quorum: Decimal,
        pending_votes: Vec<PendingVote>,
    ) -> (restored: Option<Registry>)
        ensures
            match restored {
                Some(registry) => registry@ == Self::restore_view(
                    admins,
                    donation_denom,
                    vote_code_id,
                    quorum,
                    pending_votes,
                ) && registry@.wf(),
                None => !Self::restore_view(
                    admins,
                    donation_denom,
                    vote_code_id,
                    quorum,
                    pending_votes,
                ).wf(),
            },
    {
        let ghost view = Self::restore_view(
            admins,
            donation_denom,
            vote_code_id,
            quorum,
            pending_votes,
        );
        if !quorum.valid_quorum() {
            return None;
        }
        let mut i: usize = 1;
        while i < admins.len()
            invariant
                1 <= i,
                view.admins == entries_view(admins@),
                forall|a: int, b: int|
                    0 <= a < b < i && b < admins@.len() ==> key_before(
                        view.addresses()[a],
                        view.addresses()[b],
                    ),
            decreases admins@.len() - i,
        {
            match key_order(&admins[i - 1].address, &admins[i].address) {
                KeyOrder::Before => {},
                _ => {
                    assert(view.addresses()[i - 1] == admins@[i - 1].address@);
                    assert(view.addresses()[i as int] == admins@[i as int].address@);
                    proof {
                        if key_before(view.addresses()[i - 1], view.addresses()[i as int]) {
                            lemma_before_is_one_way(
                                view.addresses()[i - 1],
                                view.addresses()[i as int],
                            );
                        }
                    }
                    return None;
                },
            }
            proof {
                assert(view.addresses()[i - 1] == admins@[i - 1].address@);
                assert(view.addresses()[i as int] == admins@[i as int].address@);
                assert forall|a: int| 0 <= a < i implies key_before(
                    view.addresses()[a],
                    view.addresses()[i as int],
                ) by {
                    if a < i - 1 {
                        lemma_before_is_transitive(
                            view.addresses()[a],
                            view.addresses()[i - 1],
                            view.addresses()[i as int],
                        );
                    }
                }
            }
            i += 1;
        }
        Some(Registry { admins, donation_denom, vote_code_id, quorum, pending_votes })
    }

    /// What `restore` is given, as a registry.
    pub open spec fn restore_view(
        admins: Vec<AdminEntry>,
        donation_denom: String,
        vote_code_id: u64,
        quorum: Decimal,
        pending_votes: Vec<PendingVote>,
    ) -> RegistryView {
        RegistryView {
            admins: entries_view(admins@),
            donation_denom: donation_denom@,
            vote_code_id,
            quorum,
            pending_votes: pending_map(pending_votes@),
        }
    }

    pub fn admin_count(&self) -> (count: usize)
        ensures
            count == self@.admins.len(),
    {
        self.admins.len()
    }

    /// Where `address` stands among the admins.
    pub fn find_admin(&self, address: &String) -> (found: Option<usize>)
        ensures
            self@.wf(),
            match found {
                Some(i) => self@.is_admin(address@) && i == self@.addresses().index_of(address@)
                    && i < self@.admins.len(),
                None => !self@.is_admin(address@),
            },
    {
        proof {
            use_type_invariant(self);
            self@.lemma_distinct();
        }
        let mut i: usize = 0;
        while i < self.admins.len()
            invariant
                self@.wf(),
                self@.addresses().no_duplicates(),
                i <= self.admins.len(),
                forall|j: int| 0 <= j < i ==> self@.addresses()[j] != address@,
            decreases self.admins.len() - i,
        {
            if self.admins[i].address == *address {
                assert(self@.addresses()[i as int] == address@);
                return Some(i);
            }
            i += 1;
        }
        None
    }

    pub fn is_admin(&self, address: &String) -> (b: bool)
        ensures
            b == self@.is_admin(address@),
    {
        self.find_admin(address).is_some()
    }

    /// When `address` was admitted, if it is an admin.
    pub fn joined_at(&self, address: &String) -> (joined: Option<Timestamp>)
        ensures
            joined == self@.joined_at(address@),
    {
        match self.find_admin(address) {
            Some(i) => Some(self.admins[i].joined_at),
            None => None,
        }
    }

    /// The admins in ascending order of their identities.
    pub fn admins(&self) -> (entries: &Vec<AdminEntry>)
        ensures
            entries_view(entries@) == self@.admins,
            self@.wf(),
    {
        proof {
            use_type_invariant(self);
        }
        &self.admins
    }

    pub fn donation_denom(&self) -> (denom: &String)
        ensures
            denom@ == self@.donation_denom,
    {
        &self.donation_denom
    }

    pub fn vote_code_id(&self) -> (id: u64)
        ensures
            id == self@.vote_code_id,
    {
        self.vote_code_id
    }

    pub fn quorum(&self) -> (quorum: Decimal)
        ensures
            quorum == self@.quorum,
            quorum.is_quorum(),
    {
        proof {
            use_type_invariant(self);
        }
        self.quorum
    }

    /// The correlation records in the order in which they were noted.
    pub fn pending_votes(&self) -> (records: &Vec<PendingVote>)
        ensures
            pending_map(records@) == self@.pending_votes,
    {
        &self.pending_votes
    }

    /// Puts an admin who is none yet at the place of its identity.
    pub(crate) fn add_admin(&mut self, address: String, now: Timestamp)
        requires
            !old(self)@.is_admin(address@),
        ensures
            final(self)@ == old(self)@.with_admin(address@, now),
            final(self)@.wf(),
    {
        proof {
            use_type_invariant(&*self);
        }
        let ghost before = self@;
        let mut admins: Vec<AdminEntry> = Vec::new();
        core::mem::swap(&mut self.admins, &mut admins);
        let mut p: usize = 0;
        let mut placed = false;
        while !placed && p < admins.len()
            invariant
                p <= admins@.len(),
                before.admins == entries_view(admins@),
                !before.is_admin(address@),
                forall|i: int| 0 <= i < p ==> key_before(#[trigger] before.addresses()[i], address@),
                placed ==> p < admins@.len() && !key_before(
                    before.addresses()[p as int],
                    address@,
                ),
            decreases admins@.len() - p + if placed { 0int } else { 1int },
        {
            assert(before.addresses()[p as int] == admins@[p as int].address@);
            match key_order(&admins[p].address, &address) {
                KeyOrder::Before => {
                    p += 1;
                },
                KeyOrder::Same => {
                    placed = true;
                },
                KeyOrder::After => {
                    proof {
                        lemma_before_is_one_way(address@, before.addresses()[p as int]);
                    }
                    placed = true;
                },
            }
        }
        proof {
            lemma_place_parts(before.addresses(), address@);
            let q = place(before.addresses(), address@);
            if q < p {
                lemma_before_is_one_way(before.addresses()[q], address@);
            }
            assert(p == q);
        }
        admins.insert(p, AdminEntry { address, joined_at: now });
        proof {
            let after = before.with_admin(address@, now);
            assert(entries_view(admins@) =~= after.admins);
            assert(after.addresses() =~= before.addresses().insert(p as int, address@));
        }
        self.admins = admins;
    }

    /// Takes `address` from the admins, if it is one.
    pub(crate) fn remove_admin(&mut self, address: &String)
        ensures
            final(self)@ == old(self)@.without(address@),
            final(self)@.wf(),
    {
        proof {
            use_type_invariant(&*self);
        }
        let ghost before = self@;
        match self.find_admin(address) {
            Some(i) => {
                let mut admins: Vec<AdminEntry> = Vec::new();
                core::mem::swap(&mut self.admins, &mut admins);
                admins.remove(i);
                proof {
                    let after = before.without(address@);
                    assert(entries_view(admins@) =~= after.admins);
                    assert(after.addresses() =~= before.addresses().remove(i as int));
                    assert forall|a: int, b: int| 0 <= a < b < after.addresses().len() implies key_before(
                        after.addresses()[a],
                        after.addresses()[b],
                    ) by {
                        let x = if a < i { a } else { a + 1 };
                        let y = if b < i { b } else { b + 1 };
                        assert(after.addresses()[a] == before.addresses()[x]);
                        assert(after.addresses()[b] == before.addresses()[y]);
                    }
                }
                self.admins = admins;
            },
            None => {},
        }
    }

    /// The candidate that the vote proposal `vote_addr` decides on, if this
    /// registry has noted one.
    pub fn pending_candidate(&self, vote_addr: &String) -> (candidate: Option<String>)
        ensures
            match candidate {
                Some(c) => self@.pending_votes.contains_key(vote_addr@)
                    && self@.pending_votes[vote_addr@] == c@,
                None => !self@.pending_votes.contains_key(vote_addr@),
            },
    {
        let ghost records = self.pending_votes@;
        let ghost key = vote_addr@;
        let mut i: usize = self.pending_votes.len();
        assert(records.take(i as int) =~= records);
        while i > 0
            invariant
                records == self.pending_votes@,
                key == vote_addr@,
                i <= records.len(),
                pending_map(records).contains_key(key) == pending_map(
                    records.take(i as int),
                ).contains_key(key),
                pending_map(records).contains_key(key) ==> pending_map(records)[key]
                    == pending_map(records.take(i as int))[key],
            decreases i,
        {
            i -= 1;
            assert(records.take(i + 1).drop_last() =~= records.take(i as int));
            if self.pending_votes[i].vote_addr == *vote_addr {
                return Some(self.pending_votes[i].proposed_admin.clone());
            }
        }
        None
    }

    /// Notes that the vote proposal `vote_addr` decides on `proposed_admin`.
    pub fn record_pending(&mut self, vote_addr: String, proposed_admin: String)
        ensures
            final(self)@ == old(self)@.with_pending(vote_addr@, proposed_admin@),
            final(self)@.wf(),
    {
        proof {
            use_type_invariant(&*self);
        }
        let ghost before = self.pending_votes@;
        let mut records: Vec<PendingVote> = Vec::new();
        core::mem::swap(&mut self.pending_votes, &mut records);
        records.push(PendingVote { vote_addr, proposed_admin });
        self.pending_votes = records;
        proof {
            assert(self.pending_votes@.drop_last() =~= before);
        }
    }
}

} // verus!
