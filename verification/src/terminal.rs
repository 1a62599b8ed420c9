//! Terminals and the table that finds them by their identifier.

use crate::revocations::{RevocationsView, WaitLeaseRevocations};
use crate::text::same;
use crate::wait_lease::{WaitLease, WaitLeaseView};
use vstd::prelude::*;

verus! {

/// What the agent in a terminal is doing, as far as the runtime tells it apart.
#[derive(Debug, Clone, Copy, PartialEq, Eq, Structural)]
pub enum AgentState {
    Idle,
    Working,
    Other,
}

/// One terminal, as the runtime sees it.
#[derive(Debug, Clone, PartialEq, Eq)]
pub struct TerminalState {
    /// Tells apart the processes that have run in this terminal one after the other.
    pub runtime_generation: u64,
    /// Counts the changes that readers of the terminal have to learn of.
    pub revision: u64,
    pub state: AgentState,
    pub wait_lease: Option<WaitLease>,
    pub wait_lease_revocations: WaitLeaseRevocations,
}

/// A terminal as a mathematical value.
#[verifier::ext_equal]
pub struct TerminalView {
    pub runtime_generation: u64,
    pub revision: u64,
    pub state: AgentState,
    pub wait_lease: Option<WaitLeaseView>,
    pub revocations: RevocationsView,
}

impl TerminalView {
    /// The lease, if it is still running.
    pub open spec fn active_lease(self, now_ms: u64) -> bool {
        self.wait_lease matches Some(lease) && lease.active(now_ms)
    }

    /// The lease is there but has run out.
    pub open spec fn expired_lease(self, now_ms: u64) -> bool {
        self.wait_lease matches Some(lease) && !lease.active(now_ms)
    }

    /// The terminal with another lease, and a revision that tells of it.
    pub open spec fn with_lease(self, lease: Option<WaitLeaseView>) -> TerminalView {
        TerminalView { wait_lease: lease, revision: self.revision.wrapping_add(1), ..self }
    }
}

/// The view of an optional lease.
pub open spec fn lease_view(lease: Option<WaitLease>) -> Option<WaitLeaseView> {
    match lease {
        Some(lease) => Some(lease@),
        None => None,
    }
}

impl View for TerminalState {
    type V = TerminalView;

    open spec fn view(&self) -> TerminalView {
        TerminalView {
            runtime_generation: self.runtime_generation,
            revision: self.revision,
            state: self.state,
            wait_lease: lease_view(self.wait_lease),
            revocations: self.wait_lease_revocations@,
        }
    }
}

impl TerminalState {
    /// A terminal without a lease, whose record of revoked tokens has room for
    /// `revocation_capacity` of them.
    pub fn new(state: AgentState, revocation_capacity: usize) -> (terminal: Self)
        ensures
            terminal@ == (TerminalView {
                runtime_generation: 0,
                revision: 0,
                state,
                wait_lease: None,
                revocations: RevocationsView {
                    entries: Seq::empty(),
                    capacity: revocation_capacity,
                    saturated_until_ms: 0,
                },
            }),
    {
        Self {
            runtime_generation: 0,
            revision: 0,
            state,
            wait_lease: None,
            wait_lease_revocations: WaitLeaseRevocations::with_capacity(revocation_capacity),
        }
    }

    /// Another process takes over the terminal: requests that name the old one are stale.
    pub fn clear_wait_lease_runtime_identity(&mut self)
        ensures
            final(self)@ == (TerminalView {
                runtime_generation: old(self)@.runtime_generation.wrapping_add(1),
                wait_lease: None,
                ..old(self)@
            }),
    {
        self.runtime_generation = self.runtime_generation.wrapping_add(1);
        self.wait_lease = None;
    }
}

#[derive(Debug, Clone, PartialEq, Eq)]
struct TerminalEntry {
    id: String,
    terminal: TerminalState,
}

/// The terminals by their identifier.
#[derive(Debug, Clone, PartialEq, Eq)]
pub struct TerminalTable {
    entries: Vec<TerminalEntry>,
}

impl View for TerminalTable {
    type V = Map<Seq<char>, TerminalView>;

    closed spec fn view(&self) -> Map<Seq<char>, TerminalView> {
        Map::new(
            |id: Seq<char>| exists|i: int| self.stands_at(id, i),
            |id: Seq<char>| self.entries@[choose|i: int| self.stands_at(id, i)].terminal@,
        )
    }
}

impl TerminalTable {
    closed spec fn stands_at(self, id: Seq<char>, i: int) -> bool {
        0 <= i < self.entries@.len() && self.entries@[i].id@ == id
    }

    /// No identifier stands in the table twice.
    pub closed spec fn wf(self) -> bool {
        forall|i: int, j: int|
            0 <= i < j < self.entries@.len() ==> (#[trigger] self.entries@[i]).id@ != (
            #[trigger] self.entries@[j]).id@
    }

    proof fn entry_shows(self, i: int)
        requires
            self.wf(),
            0 <= i < self.entries@.len(),
        ensures
            self@.contains_key(self.entries@[i].id@),
            self@[self.entries@[i].id@] == self.entries@[i].terminal@,
    {
        let id = self.entries@[i].id@;
        assert(self.stands_at(id, i));
        let k = choose|k: int| self.stands_at(id, k);
        assert(self.stands_at(id, k));
        assert(k == i) by {
            if k < i {
                assert(self.entries@[k].id@ != self.entries@[i].id@);
            } else if i < k {
                assert(self.entries@[i].id@ != self.entries@[k].id@);
            }
        }
    }

    /// The same identifiers in the same places, and the same terminals but in place `i`.
    closed spec fn differs_at(before: Self, after: Self, i: int) -> bool {
        &&& 0 <= i < before.entries@.len()
        &&& after.entries@.len() == before.entries@.len()
        &&& after.entries@[i].id@ == before.entries@[i].id@
        &&& forall|k: int|
            0 <= k < before.entries@.len() && k != i ==> after.entries@[k]
                == #[trigger] before.entries@[k]
    }

    /// Changing the terminal of one entry changes the table for that identifier alone.
    proof fn entry_changed(before: Self, after: Self, i: int)
        requires
            before.wf(),
            Self::differs_at(before, after, i),
        ensures
            after.wf(),
            after@ == before@.insert(before.entries@[i].id@, after.entries@[i].terminal@),
    {
        let id = before.entries@[i].id@;
        assert(forall|k: int|
            0 <= k < before.entries@.len() ==> (#[trigger] after.entries@[k]).id@
                == before.entries@[k].id@);
        assert(after.wf());
        after.entry_shows(i);
        let target = before@.insert(id, after.entries@[i].terminal@);
        assert forall|other: Seq<char>|
            #![trigger after@.dom().contains(other)]
            #![trigger target.dom().contains(other)]
            after@.contains_key(other) == target.contains_key(other) && (after@.contains_key(other)
                ==> after@[other] == target[other]) by {
            if exists|k: int| before.stands_at(other, k) {
                let k = choose|k: int| before.stands_at(other, k);
                assert(before.stands_at(other, k));
                assert(after.stands_at(other, k));
                before.entry_shows(k);
                after.entry_shows(k);
            } else {
                if exists|k: int| after.stands_at(other, k) {
                    let k = choose|k: int| after.stands_at(other, k);
                    assert(after.stands_at(other, k));
                    assert(before.stands_at(other, k));
                }
                assert(before.stands_at(id, i));
            }
        }
        assert(after@.dom() =~= target.dom());
        assert(after@ =~= target);
    }

    pub fn new() -> (table: Self)
        ensures
            table.wf(),
            table@ == Map::<Seq<char>, TerminalView>::empty(),
    {
        let table = Self { entries: Vec::new() };
        assert(table@ =~= Map::<Seq<char>, TerminalView>::empty()) by {
            assert forall|id: Seq<char>| !table@.contains_key(id) by {
                assert(forall|i: int| !table.stands_at(id, i));
            }
        }
        table
    }

    fn position(&self, id: &str) -> (r: Option<usize>)
        requires
            self.wf(),
        ensures
            match r {
                Some(i) => i < self.entries@.len() && self.entries@[i as int].id@ == id@,
                None => !self@.contains_key(id@),
            },
    {
        let mut i: usize = 0;
        while i < self.entries.len()
            invariant
                i <= self.entries@.len(),
                forall|k: int| 0 <= k < i ==> (#[trigger] self.entries@[k]).id@ != id@,
            decreases self.entries@.len() - i,
        {
            if same(self.entries[i].id.as_str(), id) {
                return Some(i);
            }
            i = i + 1;
        }
        assert(forall|k: int| !self.stands_at(id@, k));
        None
    }

    pub fn get(&self, id: &str) -> (r: Option<&TerminalState>)
        requires
            self.wf(),
        ensures
            match r {
                Some(terminal) => self@.contains_key(id@) && self@[id@] == terminal@,
                None => !self@.contains_key(id@),
            },
    {
        match self.position(id) {
            Some(i) => {
                proof {
                    self.entry_shows(i as int);
                }
                Some(&self.entries[i].terminal)
            },
            None => None,
        }
    }

    pub fn get_mut(&mut self, id: &str) -> (r: Option<&mut TerminalState>)
        requires
            old(self).wf(),
        ensures
            final(self).wf(),
            match r {
                Some(terminal) => {
                    &&& old(self)@.contains_key(id@)
                    &&& old(self)@[id@] == terminal@
                    &&& final(self)@ == old(self)@.insert(id@, final(terminal)@)
                },
                None => {
                    &&& !old(self)@.contains_key(id@)
                    &&& *final(self) == *old(self)
                },
            },
    {
        match self.position(id) {
            Some(i) => {
                proof {
                    self.entry_shows(i as int);
                    let before = *self;
                    assert forall|after: Self|
                        Self::differs_at(before, after, i as int) implies #[trigger] after.wf()
                        && after@ == before@.insert(
                        id@,
                        after.entries@[i as int].terminal@,
                    ) by {
                        Self::entry_changed(before, after, i as int);
                    }
                }
                let entry = &mut self.entries[i];
                Some(&mut entry.terminal)
            },
            None => None,
        }
    }

    /// Puts a terminal under an identifier, in place of the one that stood there.
    pub fn insert(&mut self, id: String, terminal: TerminalState)
        requires
            old(self).wf(),
        ensures
            final(self).wf(),
            final(self)@ == old(self)@.insert(id@, terminal@),
    {
        match self.position(id.as_str()) {
            Some(i) => {
                let ghost before = *self;
                self.entries.set(i, TerminalEntry { id, terminal });
                proof {
                    Self::entry_changed(before, *self, i as int);
                }
            },
            None => {
                let ghost before = *self;
                let ghost key = id@;
                let ghost n = self.entries@.len() as int;
                proof {
                    assert forall|k: int| 0 <= k < n implies (#[trigger] before.entries@[k]).id@
                        != key by {
                        before.entry_shows(k);
                    }
                }
                self.entries.push(TerminalEntry { id, terminal });
                proof {
                    assert(self.wf());
                    self.entry_shows(n);
                    let target = before@.insert(key, terminal@);
                    assert forall|other: Seq<char>|
                        #![trigger self@.dom().contains(other)]
                        #![trigger target.dom().contains(other)]
                        self@.contains_key(other) == target.contains_key(other) && (
                        self@.contains_key(other) ==> self@[other] == target[other]) by {
                        if exists|k: int| before.stands_at(other, k) {
                            let k = choose|k: int| before.stands_at(other, k);
                            assert(before.stands_at(other, k));
                            assert(self.stands_at(other, k));
                            before.entry_shows(k);
                            self.entry_shows(k);
                        } else if exists|k: int| self.stands_at(other, k) {
                            let k = choose|k: int| self.stands_at(other, k);
                            assert(self.stands_at(other, k));
                            if k < n {
                                assert(before.stands_at(other, k));
                            }
                        }
                    }
                    assert(self@.dom() =~= target.dom());
                    assert(self@ =~= target);
                }
            },
        }
    }
}

} // verus!
