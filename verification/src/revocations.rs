//! The record of the tokens that may not be used to acquire a lease again.
//!
//! The record has room for a fixed number of tokens. A token for which there is no
//! room is not forgotten: until its revocation runs out, the record reports itself
//! as saturated, and no lease at all is handed out.

use crate::sequences::{
    filter_extends, filter_len, filter_members, filter_push, filter_twice, filter_update_len,
};
use crate::text::same;
use vstd::prelude::*;

verus! {

#[derive(Debug, Clone, PartialEq, Eq)]
pub struct Revocation {
    token: String,
    expires_at_ms: u64,
    released: bool,
}

/// The revoked tokens of one terminal.
#[derive(Debug, Clone, PartialEq, Eq)]
pub struct WaitLeaseRevocations {
    entries: Vec<Revocation>,
    capacity: usize,
    saturated_until_ms: u64,
}

/// One revoked token: until when it is revoked, and what its release was answered.
#[verifier::ext_equal]
pub struct RevocationView {
    pub token: Seq<char>,
    pub expires_at_ms: u64,
    pub released: bool,
}

#[verifier::ext_equal]
pub struct RevocationsView {
    pub entries: Seq<RevocationView>,
    pub capacity: usize,
    pub saturated_until_ms: u64,
}

/// Where `token` stands first in `entries`.
pub open spec fn first_entry(entries: Seq<RevocationView>, token: Seq<char>) -> Option<int>
    decreases entries.len(),
{
    if entries.len() == 0 {
        None
    } else if let Some(i) = first_entry(entries.drop_last(), token) {
        Some(i)
    } else if entries.last().token == token {
        Some(entries.len() - 1)
    } else {
        None
    }
}

impl RevocationsView {
    /// The revocations that have not run out.
    pub open spec fn live(self, now_ms: u64) -> Seq<RevocationView> {
        self.entries.filter(|e: RevocationView| now_ms < e.expires_at_ms)
    }

    /// No lease may be handed out: the room is used up, or a revocation had no room.
    pub open spec fn saturated(self, now_ms: u64) -> bool {
        self.live(now_ms).len() >= self.capacity || now_ms < self.saturated_until_ms
    }

    pub open spec fn revoked(self, token: Seq<char>, now_ms: u64) -> bool {
        first_entry(self.live(now_ms), token) is Some
    }

    /// What the release of `token` was answered, as long as that is on record.
    pub open spec fn prior_release(self, token: Seq<char>, now_ms: u64) -> Option<bool> {
        match first_entry(self.live(now_ms), token) {
            Some(i) => Some(self.live(now_ms)[i].released),
            None => None,
        }
    }

    /// The record after one more revocation.
    pub open spec fn recorded(
        self,
        token: Seq<char>,
        expires_at_ms: u64,
        released: bool,
        now_ms: u64,
    ) -> RevocationsView {
        let live = self.live(now_ms);
        match first_entry(live, token) {
            Some(i) => RevocationsView {
                entries: live.update(
                    i,
                    RevocationView {
                        token,
                        expires_at_ms: later(live[i].expires_at_ms, expires_at_ms),
                        released,
                    },
                ),
                ..self
            },
            None if live.len() < self.capacity => RevocationsView {
                entries: live.push(RevocationView { token, expires_at_ms, released }),
                ..self
            },
            None => RevocationsView {
                entries: live,
                saturated_until_ms: later(self.saturated_until_ms, expires_at_ms),
                ..self
            },
        }
    }

    /// At `now_ms` nothing can be acquired with `token`.
    pub open spec fn blocks(self, token: Seq<char>, now_ms: u64) -> bool {
        self.saturated(now_ms) || self.revoked(token, now_ms)
    }
}

/// The later of two moments.
pub open spec fn later(a: u64, b: u64) -> u64 {
    if a < b {
        b
    } else {
        a
    }
}

impl View for Revocation {
    type V = RevocationView;

    closed spec fn view(&self) -> RevocationView {
        RevocationView {
            token: self.token@,
            expires_at_ms: self.expires_at_ms,
            released: self.released,
        }
    }
}

impl View for WaitLeaseRevocations {
    type V = RevocationsView;

    closed spec fn view(&self) -> RevocationsView {
        RevocationsView {
            entries: self.entries@.map_values(|e: Revocation| e@),
            capacity: self.capacity,
            saturated_until_ms: self.saturated_until_ms,
        }
    }
}

impl Revocation {
    fn duplicate(&self) -> (r: Revocation)
        ensures
            r@ == self@,
    {
        Revocation {
            token: self.token.clone(),
            expires_at_ms: self.expires_at_ms,
            released: self.released,
        }
    }
}

/// Finds `token` in a list of revocations.
fn find_entry(entries: &Vec<Revocation>, token: &str) -> (r: Option<usize>)
    ensures
        match r {
            Some(i) => {
                &&& i < entries@.len()
                &&& first_entry(entries@.map_values(|e: Revocation| e@), token@) == Some(i as int)
            },
            None => first_entry(entries@.map_values(|e: Revocation| e@), token@) is None,
        },
{
    let ghost views = entries@.map_values(|e: Revocation| e@);
    let mut i: usize = 0;
    while i < entries.len()
        invariant
            i <= entries.len(),
            views == entries@.map_values(|e: Revocation| e@),
            first_entry(views.take(i as int), token@) is None,
        decreases entries.len() - i,
    {
        proof {
            assert(views.take(i + 1).drop_last() =~= views.take(i as int));
        }
        if same(entries[i].token.as_str(), token) {
            proof {
                assert(first_entry(views.take(i + 1), token@) == Some(i as int));
                first_entry_of_prefix(views, token@, i + 1);
            }
            return Some(i);
        }
        i = i + 1;
    }
    assert(views.take(i as int) =~= views);
    None
}

proof fn first_entry_of_prefix(entries: Seq<RevocationView>, token: Seq<char>, n: int)
    requires
        0 <= n <= entries.len(),
        first_entry(entries.take(n), token) is Some,
    ensures
        first_entry(entries, token) == first_entry(entries.take(n), token),
    decreases entries.len(),
{
    if n == entries.len() {
        assert(entries.take(n) =~= entries);
    } else {
        assert(entries.drop_last().take(n) =~= entries.take(n));
        first_entry_of_prefix(entries.drop_last(), token, n);
    }
}

proof fn first_entry_names_token(entries: Seq<RevocationView>, token: Seq<char>)
    ensures
        first_entry(entries, token) matches Some(i) ==> {
            &&& 0 <= i < entries.len()
            &&& entries[i].token == token
        },
        first_entry(entries, token) is None <==> forall|i: int|
            0 <= i < entries.len() ==> (#[trigger] entries[i]).token != token,
    decreases entries.len(),
{
    if entries.len() > 0 {
        let front = entries.drop_last();
        first_entry_names_token(front, token);
        if first_entry(entries, token) is None {
            assert forall|i: int| 0 <= i < entries.len() implies (#[trigger] entries[i]).token
                != token by {
                if i < front.len() {
                    assert(front[i] == entries[i]);
                }
            }
        }
        if forall|i: int| 0 <= i < entries.len() ==> (#[trigger] entries[i]).token != token {
            assert forall|i: int| 0 <= i < front.len() implies (#[trigger] front[i]).token
                != token by {
                assert(entries[i].token != token);
            }
            assert(entries[entries.len() - 1].token != token);
        }
    }
}

impl WaitLeaseRevocations {
    /// An empty record with room for `capacity` tokens.
    pub fn with_capacity(capacity: usize) -> (r: Self)
        ensures
            r@ == (RevocationsView { entries: Seq::empty(), capacity, saturated_until_ms: 0 }),
    {
        let r = Self { entries: Vec::new(), capacity, saturated_until_ms: 0 };
        assert(r@.entries =~= Seq::empty());
        r
    }

    fn live_entries(&self, now_ms: u64) -> (live: Vec<Revocation>)
        ensures
            live@.map_values(|e: Revocation| e@) == self@.live(now_ms),
    {
        let ghost views = self@.entries;
        let ghost keep = |e: RevocationView| now_ms < e.expires_at_ms;
        let mut live: Vec<Revocation> = Vec::new();
        let mut i: usize = 0;
        proof {
            reveal(Seq::filter);
            assert(live@.map_values(|e: Revocation| e@) =~= views.take(0).filter(keep));
        }
        while i < self.entries.len()
            invariant
                i <= self.entries.len(),
                views == self.entries@.map_values(|e: Revocation| e@),
                keep == (|e: RevocationView| now_ms < e.expires_at_ms),
                live@.map_values(|e: Revocation| e@) == views.take(i as int).filter(keep),
            decreases self.entries.len() - i,
        {
            let entry = &self.entries[i];
            let ghost before = live@;
            proof {
                filter_extends(views, keep, i as int);
            }
            if now_ms < entry.expires_at_ms {
                live.push(entry.duplicate());
                assert(live@.map_values(|e: Revocation| e@) =~= before.map_values(
                    |e: Revocation| e@,
                ).push(entry@));
            }
            i = i + 1;
        }
        assert(views.take(i as int) =~= views);
        live
    }

    /// Whether no lease may be handed out until earlier revocations have run out.
    pub fn acquire_guard_saturated(&self, now_ms: u64) -> (r: bool)
        ensures
            r == self@.saturated(now_ms),
    {
        let live = self.live_entries(now_ms);
        assert(live@.map_values(|e: Revocation| e@).len() == live@.len());
        live.len() >= self.capacity || now_ms < self.saturated_until_ms
    }

    pub fn token_is_revoked(&self, token: &str, now_ms: u64) -> (r: bool)
        ensures
            r == self@.revoked(token@, now_ms),
    {
        let live = self.live_entries(now_ms);
        find_entry(&live, token).is_some()
    }

    /// What the release of `token` was answered, as long as that is on record.
    pub fn prior_release_result(&self, token: &str, now_ms: u64) -> (r: Option<bool>)
        ensures
            r == self@.prior_release(token@, now_ms),
    {
        let live = self.live_entries(now_ms);
        match find_entry(&live, token) {
            Some(i) => {
                assert(live@.map_values(|e: Revocation| e@)[i as int] == live@[i as int]@);
                Some(live[i].released)
            },
            None => None,
        }
    }

    /// Revokes `token` until `expires_at_ms`, and drops what has run out by `now_ms`.
    pub fn record(&mut self, token: String, expires_at_ms: u64, released: bool, now_ms: u64)
        ensures
            final(self)@ == old(self)@.recorded(token@, expires_at_ms, released, now_ms),
    {
        let mut live = self.live_entries(now_ms);
        let ghost views = live@.map_values(|e: Revocation| e@);
        match find_entry(&live, token.as_str()) {
            Some(i) => {
                let until: u64 = if live[i].expires_at_ms < expires_at_ms {
                    expires_at_ms
                } else {
                    live[i].expires_at_ms
                };
                assert(views[i as int] == live@[i as int]@);
                let entry = Revocation { token, expires_at_ms: until, released };
                live.set(i, entry);
                assert(live@.map_values(|e: Revocation| e@) =~= views.update(i as int, entry@));
            },
            None => {
                if live.len() < self.capacity {
                    let entry = Revocation { token, expires_at_ms, released };
                    live.push(entry);
                    assert(live@.map_values(|e: Revocation| e@) =~= views.push(entry@));
                } else if self.saturated_until_ms < expires_at_ms {
                    self.saturated_until_ms = expires_at_ms;
                }
            },
        }
        self.entries = live;
    }
}

/// A token is revoked exactly while a revocation of it has not run out.
pub proof fn revoked_while_on_record(record: RevocationsView, token: Seq<char>, now_ms: u64)
    ensures
        record.revoked(token, now_ms) <==> exists|i: int|
            {
                &&& 0 <= i < record.entries.len()
                &&& (#[trigger] record.entries[i]).token == token
                &&& now_ms < record.entries[i].expires_at_ms
            },
{
    let keep = |e: RevocationView| now_ms < e.expires_at_ms;
    let live = record.live(now_ms);
    filter_members(record.entries, keep);
    first_entry_names_token(live, token);
    if record.revoked(token, now_ms) {
        let k = first_entry(live, token)->0;
        assert(live.contains(live[k]));
        let i = choose|i: int| 0 <= i < record.entries.len() && record.entries[i] == live[k];
        assert(record.entries[i].token == token);
    }
    if exists|i: int|
        {
            &&& 0 <= i < record.entries.len()
            &&& (#[trigger] record.entries[i]).token == token
            &&& now_ms < record.entries[i].expires_at_ms
        } {
        let i = choose|i: int|
            {
                &&& 0 <= i < record.entries.len()
                &&& (#[trigger] record.entries[i]).token == token
                &&& now_ms < record.entries[i].expires_at_ms
            };
        assert(record.entries.contains(record.entries[i]));
        assert(live.contains(record.entries[i]));
        let k = choose|k: int| 0 <= k < live.len() && live[k] == record.entries[i];
        assert(live[k].token == token);
    }
}

/// From the moment it is revoked until the revocation runs out, nothing can be
/// acquired with a token, whether there was room to record it or not.
pub proof fn recorded_token_is_blocked(
    record: RevocationsView,
    token: Seq<char>,
    expires_at_ms: u64,
    released: bool,
    now_ms: u64,
    at_ms: u64,
)
    requires
        now_ms <= at_ms < expires_at_ms,
    ensures
        record.recorded(token, expires_at_ms, released, now_ms).blocks(token, at_ms),
{
    let next = record.recorded(token, expires_at_ms, released, now_ms);
    let live = record.live(now_ms);
    first_entry_names_token(live, token);
    match first_entry(live, token) {
        Some(i) => {
            revoked_while_on_record(next, token, at_ms);
            assert(next.entries[i].token == token);
        },
        None if live.len() < record.capacity => {
            revoked_while_on_record(next, token, at_ms);
            assert(next.entries[live.len() as int].token == token);
        },
        None => {},
    }
}

/// A later revocation lifts no earlier one: what was blocked stays blocked.
pub proof fn recording_keeps_blocks(
    record: RevocationsView,
    token: Seq<char>,
    expires_at_ms: u64,
    released: bool,
    now_ms: u64,
    other: Seq<char>,
    at_ms: u64,
)
    requires
        now_ms <= at_ms,
        record.blocks(other, at_ms),
    ensures
        record.recorded(token, expires_at_ms, released, now_ms).blocks(other, at_ms),
{
    let next = record.recorded(token, expires_at_ms, released, now_ms);
    let live = record.live(now_ms);
    let keep_now = |e: RevocationView| now_ms < e.expires_at_ms;
    let keep_then = |e: RevocationView| at_ms < e.expires_at_ms;
    filter_twice(record.entries, keep_now, keep_then);
    first_entry_names_token(live, token);
    if record.saturated(at_ms) {
        match first_entry(live, token) {
            Some(i) => {
                filter_update_len(live, i, next.entries[i], keep_then);
            },
            None if live.len() < record.capacity => {
                filter_push(live, next.entries.last(), keep_then);
                assert(next.entries =~= live.push(next.entries.last()));
            },
            None => {},
        }
    } else {
        revoked_while_on_record(record, other, at_ms);
        revoked_while_on_record(next, other, at_ms);
        filter_members(record.entries, keep_now);
        let i = choose|i: int|
            {
                &&& 0 <= i < record.entries.len()
                &&& (#[trigger] record.entries[i]).token == other
                &&& at_ms < record.entries[i].expires_at_ms
            };
        assert(record.entries.contains(record.entries[i]));
        assert(live.contains(record.entries[i]));
        let k = choose|k: int| 0 <= k < live.len() && live[k] == record.entries[i];
        assert(next.entries[k].token == other && at_ms < next.entries[k].expires_at_ms);
    }
}

/// Without further revocations, what is free now is still free later.
pub proof fn blocks_only_run_out(
    record: RevocationsView,
    token: Seq<char>,
    now_ms: u64,
    at_ms: u64,
)
    requires
        now_ms <= at_ms,
    ensures
        record.saturated(at_ms) ==> record.saturated(now_ms),
        record.revoked(token, at_ms) ==> record.revoked(token, now_ms),
{
    let keep_now = |e: RevocationView| now_ms < e.expires_at_ms;
    let keep_then = |e: RevocationView| at_ms < e.expires_at_ms;
    filter_twice(record.entries, keep_now, keep_then);
    filter_len(record.live(now_ms), keep_then);
    revoked_while_on_record(record, token, now_ms);
    revoked_while_on_record(record, token, at_ms);
}

proof fn first_entry_survives_filter(
    entries: Seq<RevocationView>,
    token: Seq<char>,
    keep: spec_fn(RevocationView) -> bool,
)
    requires
        first_entry(entries, token) is Some,
        keep(entries[first_entry(entries, token)->0]),
    ensures
        first_entry(entries.filter(keep), token) matches Some(k) && entries.filter(keep)[k]
            == entries[first_entry(entries, token)->0],
    decreases entries.len(),
{
    reveal(Seq::filter);
    let front = entries.drop_last();
    first_entry_names_token(front, token);
    first_entry_names_token(front.filter(keep), token);
    if first_entry(front, token) is Some {
        first_entry_survives_filter(front, token, keep);
        if keep(entries.last()) {
            assert(front.filter(keep).push(entries.last()).drop_last() =~= front.filter(keep));
        }
    } else {
        filter_members(front, keep);
        assert forall|i: int| 0 <= i < front.filter(keep).len() implies (#[trigger] front.filter(
            keep,
        )[i]).token != token by {
            assert(front.filter(keep).contains(front.filter(keep)[i]));
            let j = choose|j: int| 0 <= j < front.len() && front[j] == front.filter(keep)[i];
            assert(front[j].token != token);
        }
        assert(front.filter(keep).push(entries.last()).drop_last() =~= front.filter(keep));
    }
}

/// As long as there is room for it, a release is answered again as it was the first
/// time, until its revocation runs out.
pub proof fn recorded_release_is_repeated(
    record: RevocationsView,
    token: Seq<char>,
    expires_at_ms: u64,
    released: bool,
    now_ms: u64,
    at_ms: u64,
)
    requires
        now_ms <= at_ms < expires_at_ms,
        record.revoked(token, now_ms) || record.live(now_ms).len() < record.capacity,
    ensures
        record.recorded(token, expires_at_ms, released, now_ms).prior_release(token, at_ms) == Some(
            released,
        ),
{
    let next = record.recorded(token, expires_at_ms, released, now_ms);
    let live = record.live(now_ms);
    let keep_then = |e: RevocationView| at_ms < e.expires_at_ms;
    first_entry_names_token(live, token);
    match first_entry(live, token) {
        Some(i) => {
            first_entry_of_update(live, token, i, next.entries[i]);
            first_entry_survives_filter(next.entries, token, keep_then);
        },
        None => {
            assert(next.entries.drop_last() =~= live);
            first_entry_survives_filter(next.entries, token, keep_then);
        },
    }
}

proof fn first_entry_of_update(
    entries: Seq<RevocationView>,
    token: Seq<char>,
    i: int,
    entry: RevocationView,
)
    requires
        first_entry(entries, token) == Some(i),
        entry.token == token,
    ensures
        first_entry(entries.update(i, entry), token) == Some(i),
    decreases entries.len(),
{
    let front = entries.drop_last();
    first_entry_names_token(front, token);
    if first_entry(front, token) is Some {
        first_entry_of_update(front, token, i, entry);
        assert(entries.update(i, entry).drop_last() =~= front.update(i, entry));
    } else {
        assert(entries.update(i, entry).drop_last() =~= front);
    }
}

/// The first revocation of `token` in `entries`.
spec fn first_of(entries: Seq<RevocationView>, token: Seq<char>) -> Option<RevocationView> {
    match first_entry(entries, token) {
        Some(i) => Some(entries[i]),
        None => None,
    }
}

proof fn first_of_filter(
    entries: Seq<RevocationView>,
    token: Seq<char>,
    keep: spec_fn(RevocationView) -> bool,
)
    requires
        entries.len() > 0,
    ensures
        first_of(entries.filter(keep), token) == match first_of(
            entries.drop_last().filter(keep),
            token,
        ) {
            Some(entry) => Some(entry),
            None => if keep(entries.last()) && entries.last().token == token {
                Some(entries.last())
            } else {
                None
            },
        },
{
    reveal(Seq::filter);
    let front = entries.drop_last().filter(keep);
    first_entry_names_token(front, token);
    if keep(entries.last()) {
        assert(front.push(entries.last()).drop_last() =~= front);
    }
}

proof fn first_of_other_update(
    entries: Seq<RevocationView>,
    i: int,
    entry: RevocationView,
    token: Seq<char>,
    keep: spec_fn(RevocationView) -> bool,
)
    requires
        0 <= i < entries.len(),
        entries[i].token != token,
        entry.token != token,
    ensures
        first_of(entries.update(i, entry).filter(keep), token) == first_of(
            entries.filter(keep),
            token,
        ),
    decreases entries.len(),
{
    let changed = entries.update(i, entry);
    first_of_filter(entries, token, keep);
    first_of_filter(changed, token, keep);
    if i < entries.len() - 1 {
        first_of_other_update(entries.drop_last(), i, entry, token, keep);
        assert(changed.drop_last() =~= entries.drop_last().update(i, entry));
    } else {
        assert(changed.drop_last() =~= entries.drop_last());
    }
}

/// The revocation of one token leaves what is on record of another as it is.
pub proof fn recording_keeps_other_answers(
    record: RevocationsView,
    token: Seq<char>,
    expires_at_ms: u64,
    released: bool,
    now_ms: u64,
    other: Seq<char>,
    at_ms: u64,
)
    requires
        now_ms <= at_ms,
        other != token,
    ensures
        record.recorded(token, expires_at_ms, released, now_ms).prior_release(other, at_ms)
            == record.prior_release(other, at_ms),
{
    let next = record.recorded(token, expires_at_ms, released, now_ms);
    let live = record.live(now_ms);
    let keep_now = |e: RevocationView| now_ms < e.expires_at_ms;
    let keep_then = |e: RevocationView| at_ms < e.expires_at_ms;
    filter_twice(record.entries, keep_now, keep_then);
    first_entry_names_token(live, token);
    assert(live.filter(keep_then) == record.live(at_ms));
    match first_entry(live, token) {
        Some(i) => {
            first_of_other_update(live, i, next.entries[i], other, keep_then);
        },
        None if live.len() < record.capacity => {
            first_of_filter(next.entries, other, keep_then);
            assert(next.entries.drop_last() =~= live);
        },
        None => {},
    }
    assert(first_of(next.live(at_ms), other) == first_of(record.live(at_ms), other));
}

proof fn first_live_is_first(
    entries: Seq<RevocationView>,
    token: Seq<char>,
    keep: spec_fn(RevocationView) -> bool,
    i: int,
)
    requires
        0 <= i < entries.len(),
        entries[i].token == token,
        keep(entries[i]),
        forall|k: int| 0 <= k < i && keep(#[trigger] entries[k]) ==> entries[k].token != token,
    ensures
        first_of(entries.filter(keep), token) == Some(entries[i]),
    decreases entries.len(),
{
    let front = entries.drop_last();
    first_of_filter(entries, token, keep);
    if i < front.len() {
        assert(forall|k: int| 0 <= k < front.len() ==> #[trigger] front[k] == entries[k]);
        first_live_is_first(front, token, keep, i);
    } else {
        filter_members(front, keep);
        first_entry_names_token(front.filter(keep), token);
        if first_entry(front.filter(keep), token) is Some {
            let k = first_entry(front.filter(keep), token)->0;
            assert(front.filter(keep).contains(front.filter(keep)[k]));
            let j = choose|j: int| 0 <= j < front.len() && front[j] == front.filter(keep)[k];
            assert(keep(entries[j]));
        }
    }
}

/// What a release was answered is what stands on record in the first revocation of its
/// token that has not run out.
pub proof fn answer_is_the_one_on_record(
    record: RevocationsView,
    token: Seq<char>,
    now_ms: u64,
    i: int,
)
    requires
        0 <= i < record.entries.len(),
        record.entries[i].token == token,
        record.entries[i].expires_at_ms > now_ms,
        forall|k: int|
            0 <= k < i && (#[trigger] record.entries[k]).token == token
                ==> record.entries[k].expires_at_ms <= now_ms,
    ensures
        record.prior_release(token, now_ms) == Some(record.entries[i].released),
        record.revoked(token, now_ms),
{
    let keep = |e: RevocationView| now_ms < e.expires_at_ms;
    first_live_is_first(record.entries, token, keep, i);
    revoked_while_on_record(record, token, now_ms);
}

/// Without a revocation of it that has not run out, nothing is on record of a token.
pub proof fn no_answer_without_record(record: RevocationsView, token: Seq<char>, now_ms: u64)
    requires
        forall|k: int|
            0 <= k < record.entries.len() && (#[trigger] record.entries[k]).token == token
                ==> record.entries[k].expires_at_ms <= now_ms,
    ensures
        record.prior_release(token, now_ms) is None,
        !record.revoked(token, now_ms),
{
    revoked_while_on_record(record, token, now_ms);
    if record.revoked(token, now_ms) {
        let i = choose|i: int|
            {
                &&& 0 <= i < record.entries.len()
                &&& (#[trigger] record.entries[i]).token == token
                &&& now_ms < record.entries[i].expires_at_ms
            };
        assert(record.entries[i].expires_at_ms <= now_ms);
    }
}

/// No lease is handed out exactly while as many revocations have not run out as there is
/// room for, or while one that had no room has not.
pub proof fn guard_is_up_while_there_is_no_room(record: RevocationsView, now_ms: u64)
    ensures
        record.saturated(now_ms) <==> (record.entries.filter(
            |e: RevocationView| e.expires_at_ms > now_ms,
        ).len() >= record.capacity || record.saturated_until_ms > now_ms),
{
    let there = |e: RevocationView| e.expires_at_ms > now_ms;
    let here = |e: RevocationView| now_ms < e.expires_at_ms;
    assert(there =~= here);
}

/// Revoking a token takes up one place at most and lasts no longer than it has to: where
/// there is room the guard is not put up for it, and once it has run out the token is
/// free. Where there is no room the guard is up until then and no longer.
pub proof fn revocation_blocks_no_more_than_it_must(
    record: RevocationsView,
    token: Seq<char>,
    expires_at_ms: u64,
    released: bool,
    now_ms: u64,
    at_ms: u64,
)
    requires
        !record.revoked(token, now_ms),
        now_ms <= at_ms,
    ensures
        ({
            let next = record.recorded(token, expires_at_ms, released, now_ms);
            let has_room = record.live(now_ms).len() < record.capacity;
            &&& next.capacity == record.capacity
            &&& next.live(at_ms).len() <= record.live(at_ms).len() + 1
            &&& has_room ==> next.saturated_until_ms == record.saturated_until_ms
            &&& !has_room ==> next.live(at_ms).len() == record.live(at_ms).len()
            &&& !has_room ==> (next.saturated_until_ms > at_ms <==> expires_at_ms > at_ms
                || record.saturated_until_ms > at_ms)
            &&& at_ms >= expires_at_ms ==> !next.revoked(token, at_ms)
            &&& at_ms >= expires_at_ms ==> next.live(at_ms).len() == record.live(at_ms).len()
        }),
{
    let next = record.recorded(token, expires_at_ms, released, now_ms);
    let live = record.live(now_ms);
    let keep_now = |e: RevocationView| now_ms < e.expires_at_ms;
    let keep_then = |e: RevocationView| at_ms < e.expires_at_ms;
    filter_twice(record.entries, keep_now, keep_then);
    assert(live.filter(keep_then) == record.live(at_ms));
    first_entry_names_token(live, token);
    if live.len() < record.capacity {
        let entry = RevocationView { token, expires_at_ms, released };
        filter_push(live, entry, keep_then);
        assert(next.entries == live.push(entry));
    }
    if at_ms >= expires_at_ms {
        revoked_while_on_record(next, token, at_ms);
        if next.revoked(token, at_ms) {
            let i = choose|i: int|
                {
                    &&& 0 <= i < next.entries.len()
                    &&& (#[trigger] next.entries[i]).token == token
                    &&& at_ms < next.entries[i].expires_at_ms
                };
            if i < live.len() {
                assert(live[i].token != token);
            }
        }
    }
}

} // verus!
