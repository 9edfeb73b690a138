//! Per-identity sliding-window rate limiting.
//!
//! Each identity (a string key taken from a request header) owns an ordered
//! log of the timestamps, in milliseconds, of its admitted requests. On each
//! check the log is first pruned of entries that have aged out of the trailing
//! window; the request is admitted exactly when fewer than `MAX_REQUESTS`
//! entries remain, and an admitted request's timestamp is recorded.
//!
//! Pruning happens lazily on access and idle identities are never evicted:
//! the table grows for the lifetime of the process. That unbounded growth is
//! deliberate, not an oversight.

use vstd::prelude::*;
use vstd::pervasive::VecAdditionalExecFns;

verus! {

/// Length of the trailing window, in milliseconds.
pub const WINDOW_MILLIS: u64 = 60_000;

/// Number of requests admitted per identity within one window.
pub const MAX_REQUESTS: usize = 10;

/// The request log of one identity.
pub struct IdentityLog {
    /// The rate-limit bucket key.
    pub identity: String,
    /// Timestamps (milliseconds) of admitted requests, oldest first.
    pub times: Vec<u64>,
}

/// The rate limiter: a table from identity to its request log.
pub struct RateLimit {
    entries: Vec<IdentityLog>,
}

/// A recorded timestamp `t` is still within the trailing window at instant
/// `now`. A timestamp in the future (clock moved backward) has age zero and
/// is always kept.
pub open spec fn keeps(t: u64, now: u64) -> bool {
    now < t + WINDOW_MILLIS
}

/// The log as it stands after removing every timestamp that has aged out of
/// the window ending at `now`.
pub open spec fn pruned(log: Seq<u64>, now: u64) -> Seq<u64> {
    log.filter(|t: u64| keeps(t, now))
}

impl RateLimit {
    /// No two table entries share an identity, so each identity's log is
    /// well defined.
    pub closed spec fn wf(self) -> bool {
        forall|i: int, j: int|
            0 <= i < j < self.entries.len() ==> self.entries[i].identity@
                != self.entries[j].identity@
    }

    /// The table holds an entry for this identity.
    pub closed spec fn has_id(self, id: Seq<char>) -> bool {
        exists|i: int| 0 <= i < self.entries.len() && self.entries[i].identity@ == id
    }

    /// The index of this identity's entry.
    pub closed spec fn idx_of(self, id: Seq<char>) -> int {
        choose|i: int| 0 <= i < self.entries.len() && self.entries[i].identity@ == id
    }

    /// The request log of an identity; an identity never seen has the empty
    /// log (logs are created lazily on first request).
    pub closed spec fn log_of(self, id: Seq<char>) -> Seq<u64> {
        if self.has_id(id) {
            self.entries[self.idx_of(id)].times@
        } else {
            Seq::<u64>::empty()
        }
    }

    /// A request from `id` at instant `now` is admitted: after pruning, the
    /// identity's log holds fewer than `MAX_REQUESTS` timestamps.
    pub open spec fn admitted(self, id: Seq<char>, now: u64) -> bool {
        pruned(self.log_of(id), now).len() < MAX_REQUESTS as nat
    }

    /// How one check-and-record step at instant `now` relates the limiter
    /// state before (`pre`) and after (`post`): the result `r` is the
    /// admission decision on `pre`, the checked identity's log is pruned and,
    /// when admitted, extended by `now`, and every other identity's log is
    /// untouched.
    pub open spec fn check_post(
        pre: RateLimit,
        post: RateLimit,
        id: Seq<char>,
        now: u64,
        r: bool,
    ) -> bool {
        &&& r == pre.admitted(id, now)
        &&& post.wf()
        &&& post.log_of(id) == if r {
            pruned(pre.log_of(id), now).push(now)
        } else {
            pruned(pre.log_of(id), now)
        }
        &&& forall|other: Seq<char>| other != id ==> post.log_of(other) == pre.log_of(other)
    }

    /// Create an empty rate limiter: every identity starts with an empty log.
    pub fn new() -> (r: RateLimit)
        ensures
            r.wf(),
            forall|id: Seq<char>| r.log_of(id) == Seq::<u64>::empty(),
    {
        RateLimit { entries: Vec::new() }
    }

    /// Check-and-record for `ip` at instant `now_millis`: prune `ip`'s log,
    /// reject if `MAX_REQUESTS` timestamps remain, otherwise record
    /// `now_millis` and admit.
    pub fn is_allowed_at(&mut self, ip: &str, now_millis: u64) -> (r: bool)
        requires
            old(self).wf(),
        ensures
            RateLimit::check_post(*old(self), *final(self), ip@, now_millis, r),
    {
        let idx = self.find_or_insert(ip);
        let ghost mid = *self;
        let entry = &self.entries[idx];
        let new_times = prune(&entry.times, now_millis);
        let allowed = new_times.len() < MAX_REQUESTS;
        let mut new_times = new_times;
        if allowed {
            new_times.push(now_millis);
        }
        let new_entry = IdentityLog { identity: entry.identity.clone(), times: new_times };
        self.entries.set(idx, new_entry);
        proof {
            assert forall|i: int, j: int| 0 <= i < j < self.entries.len() implies self.entries[i]
                .identity@ != self.entries[j].identity@ by {
                assert(mid.wf());
                assert(self.entries[idx as int].identity@ == mid.entries[idx as int].identity@);
            }
            lemma_unique_idx(*self, ip@, idx);
            lemma_unique_idx(mid, ip@, idx);
            lemma_other_logs_unchanged(mid, *self, ip@, idx);
            if !old(self).has_id(ip@) {
                lemma_push_preserves_other_logs(*old(self), mid, ip@);
            }
        }
        allowed
    }

    /// Check-and-record for `ip` at the present instant, read from the system
    /// clock. The clock's value is out of this library's hands, so the
    /// contract states the step for some instant rather than a known one.
    pub fn is_allowed(&mut self, ip: &str) -> (r: bool)
        requires
            old(self).wf(),
        ensures
            final(self).wf(),
            exists|now: u64| RateLimit::check_post(*old(self), *final(self), ip@, now, r),
    {
        let now = now_millis();
        self.is_allowed_at(ip, now)
    }

    /// Index of `ip`'s entry, inserting an empty log if `ip` is new.
    fn find_or_insert(&mut self, ip: &str) -> (idx: usize)
        requires
            old(self).wf(),
        ensures
            final(self).wf(),
            idx < final(self).entries.len(),
            final(self).entries[idx as int].identity@ == ip@,
            final(self).entries[idx as int].times@ == old(self).log_of(ip@),
            old(self).has_id(ip@) ==> *final(self) == *old(self),
            !old(self).has_id(ip@) ==> final(self).entries@ == old(self).entries@.push(
                final(self).entries[idx as int],
            ),
    {
        let key: String = ip.to_owned();
        let n = self.entries.len();
        let mut i: usize = 0;
        while i < n
            invariant
                *self == *old(self),
                self.wf(),
                n == self.entries.len(),
                i <= n,
                key@ == ip@,
                forall|k: int| 0 <= k < i ==> self.entries[k].identity@ != ip@,
            decreases n - i,
        {
            if self.entries[i].identity == key {
                proof {
                    lemma_unique_idx(*self, ip@, i);
                }
                return i;
            }
            i = i + 1;
        }
        proof {
            assert(!self.has_id(ip@));
        }
        self.entries.push(IdentityLog { identity: key, times: Vec::new() });
        proof {
            assert forall|a: int, b: int| 0 <= a < b < self.entries.len() implies self.entries[a]
                .identity@ != self.entries[b].identity@ by {
                assert(old(self).wf());
                if b < n {
                    assert(self.entries[a] == old(self).entries[a]);
                    assert(self.entries[b] == old(self).entries[b]);
                } else {
                    assert(self.entries[a].identity@ != ip@);
                }
            }
            assert(self.wf());
        }
        n
    }
}

/// When an identity holds an entry at `idx`, that entry is the one `idx_of`
/// and `log_of` speak of (identities are unique in a well-formed table).
proof fn lemma_unique_idx(rl: RateLimit, id: Seq<char>, idx: usize)
    requires
        rl.wf(),
        idx < rl.entries.len(),
        rl.entries[idx as int].identity@ == id,
    ensures
        rl.has_id(id),
        rl.idx_of(id) == idx,
        rl.log_of(id) == rl.entries[idx as int].times@,
{
    assert(rl.has_id(id));
    let j = rl.idx_of(id);
    assert(0 <= j < rl.entries.len() && rl.entries[j].identity@ == id);
    if j != idx {
        if j < idx {
            assert(rl.entries[j].identity@ != rl.entries[idx as int].identity@);
        } else {
            assert(rl.entries[idx as int].identity@ != rl.entries[j].identity@);
        }
    }
}

/// Updating one entry in place, keeping its identity, leaves every other
/// identity's log unchanged.
proof fn lemma_other_logs_unchanged(pre: RateLimit, post: RateLimit, id: Seq<char>, idx: usize)
    requires
        pre.wf(),
        post.wf(),
        idx < pre.entries.len(),
        pre.entries[idx as int].identity@ == id,
        post.entries@ == pre.entries@.update(idx as int, post.entries[idx as int]),
        post.entries[idx as int].identity@ == id,
    ensures
        forall|other: Seq<char>| other != id ==> #[trigger] post.log_of(other) == pre.log_of(
            other,
        ),
{
    assert forall|other: Seq<char>| other != id implies #[trigger] post.log_of(other)
        == pre.log_of(other) by {
        assert(post.entries.len() == pre.entries.len());
        assert(forall|k: int|
            0 <= k < pre.entries.len() && k != idx ==> post.entries[k] == pre.entries[k]);
        if pre.has_id(other) {
            let j = pre.idx_of(other);
            assert(pre.entries[j].identity@ == other);
            assert(j != idx);
            assert(post.entries[j].identity@ == other);
            lemma_unique_idx(post, other, j as usize);
            assert(pre.log_of(other) == pre.entries[j].times@);
        } else {
            assert(!post.has_id(other)) by {
                if post.has_id(other) {
                    let j = post.idx_of(other);
                    assert(post.entries[j].identity@ == other);
                    assert(j != idx);
                    assert(pre.entries[j].identity@ == other);
                    assert(pre.has_id(other));
                }
            }
        }
    }
}

/// Saturation law: when an identity's log holds at least `MAX_REQUESTS`
/// timestamps that all still lie within the window ending at `now` (as after
/// `MAX_REQUESTS` admitted requests within one window), the next request from
/// that identity at `now` is rejected.
pub proof fn lemma_full_window_rejects(rl: RateLimit, id: Seq<char>, now: u64)
    requires
        rl.log_of(id).len() >= MAX_REQUESTS,
        forall|k: int| 0 <= k < rl.log_of(id).len() ==> keeps(#[trigger] rl.log_of(id)[k], now),
    ensures
        !rl.admitted(id, now),
{
    lemma_filter_all(rl.log_of(id), |t: u64| keeps(t, now));
}

/// Aging-out law: when an identity's log holds at most `MAX_REQUESTS`
/// timestamps and its oldest has aged out of the window ending at `now`, a
/// request from that identity at `now` is admitted.
pub proof fn lemma_aged_out_admits(rl: RateLimit, id: Seq<char>, now: u64)
    requires
        0 < rl.log_of(id).len() <= MAX_REQUESTS,
        !keeps(rl.log_of(id)[0], now),
    ensures
        rl.admitted(id, now),
{
    let s = rl.log_of(id);
    let pred = |t: u64| keeps(t, now);
    let head = s.take(1);
    let tail = s.skip(1);
    assert(head + tail =~= s);
    Seq::filter_distributes_over_add(head, tail, pred);
    reveal_with_fuel(Seq::filter, 2);
    assert(head.drop_last() =~= Seq::<u64>::empty());
    assert(head.last() == s[0]);
    assert(head.filter(pred) =~= Seq::<u64>::empty());
    tail.lemma_filter_len(pred);
}

/// In a run of admitted check-and-record steps for one identity, started on
/// an empty log at non-decreasing instants that all lie within one window,
/// no timestamp ages out: after `i` steps the log holds exactly the first
/// `i` instants.
proof fn lemma_run_log(states: Seq<RateLimit>, times: Seq<u64>, id: Seq<char>, i: int)
    requires
        0 <= i < states.len(),
        times.len() == states.len() - 1,
        states[0].log_of(id) == Seq::<u64>::empty(),
        forall|k: int|
            0 <= k < times.len() ==> RateLimit::check_post(
                states[k],
                states[k + 1],
                id,
                times[k],
                true,
            ),
        forall|j: int, k: int| 0 <= j <= k < times.len() ==> times[j] <= times[k],
        forall|k: int| 0 <= k < times.len() ==> #[trigger] keeps(times[k], times.last()),
    ensures
        states[i].log_of(id) =~= times.take(i),
    decreases i,
{
    if i > 0 {
        lemma_run_log(states, times, id, i - 1);
        let pred = |t: u64| keeps(t, times[i - 1]);
        assert forall|k: int| 0 <= k < times.take(i - 1).len() implies pred(
            #[trigger] times.take(i - 1)[k],
        ) by {
            assert(times[k] <= times[i - 1]);
            assert(times[i - 1] <= times.last());
            assert(keeps(times[k], times.last()));
        }
        lemma_filter_all(times.take(i - 1), pred);
        assert(states[i].log_of(id) == pruned(states[i - 1].log_of(id), times[i - 1]).push(
            times[i - 1],
        ));
    }
}

/// Saturation law over a whole run: starting from a fresh identity, when
/// `MAX_REQUESTS` consecutive check-and-record steps for it are all admitted,
/// at non-decreasing instants, and the instant `now` of the next request
/// still lies within the window of every one of them, that next request is
/// rejected.
pub proof fn lemma_window_saturation(
    states: Seq<RateLimit>,
    times: Seq<u64>,
    id: Seq<char>,
    now: u64,
)
    requires
        states.len() == MAX_REQUESTS + 1,
        times.len() == MAX_REQUESTS,
        states[0].log_of(id) == Seq::<u64>::empty(),
        forall|k: int|
            0 <= k < times.len() ==> RateLimit::check_post(
                states[k],
                states[k + 1],
                id,
                times[k],
                true,
            ),
        forall|j: int, k: int| 0 <= j <= k < times.len() ==> times[j] <= times[k],
        forall|k: int| 0 <= k < times.len() ==> times[k] <= now,
        forall|k: int| 0 <= k < times.len() ==> #[trigger] keeps(times[k], now),
    ensures
        !states[MAX_REQUESTS as int].admitted(id, now),
{
    assert forall|k: int| 0 <= k < times.len() implies #[trigger] keeps(times[k], times.last()) by {
        assert(times.last() <= now);
        assert(keeps(times[k], now));
    }
    lemma_run_log(states, times, id, MAX_REQUESTS as int);
    assert(states[MAX_REQUESTS as int].log_of(id) =~= times);
    lemma_full_window_rejects(states[MAX_REQUESTS as int], id, now);
}

/// Isolation law: a check-and-record step for one identity leaves every
/// other identity's log, and hence every other identity's admission outcome
/// at any instant, exactly as it was.
pub proof fn lemma_identity_isolation(
    pre: RateLimit,
    post: RateLimit,
    id: Seq<char>,
    now: u64,
    r: bool,
    other: Seq<char>,
    other_now: u64,
)
    requires
        RateLimit::check_post(pre, post, id, now, r),
        other != id,
    ensures
        post.log_of(other) == pre.log_of(other),
        post.admitted(other, other_now) == pre.admitted(other, other_now),
{
}

/// A filter whose predicate holds of every element keeps the whole sequence.
proof fn lemma_filter_all(s: Seq<u64>, pred: spec_fn(u64) -> bool)
    requires
        forall|k: int| 0 <= k < s.len() ==> pred(#[trigger] s[k]),
    ensures
        s.filter(pred) == s,
    decreases s.len(),
{
    reveal(Seq::filter);
    if s.len() > 0 {
        lemma_filter_all(s.drop_last(), pred);
        assert(s.drop_last().push(s.last()) =~= s);
    }
}

/// Appending a fresh entry for one identity leaves every other identity's
/// log unchanged.
proof fn lemma_push_preserves_other_logs(pre: RateLimit, post: RateLimit, id: Seq<char>)
    requires
        pre.wf(),
        post.wf(),
        post.entries@.len() == pre.entries@.len() + 1,
        post.entries@ == pre.entries@.push(post.entries[pre.entries@.len() as int]),
        post.entries[pre.entries@.len() as int].identity@ == id,
    ensures
        forall|other: Seq<char>| other != id ==> #[trigger] post.log_of(other) == pre.log_of(
            other,
        ),
{
    let n = pre.entries@.len() as int;
    assert forall|other: Seq<char>| other != id implies #[trigger] post.log_of(other)
        == pre.log_of(other) by {
        assert(forall|k: int| 0 <= k < n ==> post.entries[k] == pre.entries[k]);
        if pre.has_id(other) {
            let j = pre.idx_of(other);
            assert(pre.entries[j].identity@ == other);
            assert(post.entries[j].identity@ == other);
            lemma_unique_idx(post, other, j as usize);
            lemma_unique_idx(pre, other, j as usize);
        } else {
            assert(!post.has_id(other)) by {
                if post.has_id(other) {
                    let j = post.idx_of(other);
                    assert(post.entries[j].identity@ == other);
                    assert(j != n);
                    assert(pre.entries[j].identity@ == other);
                    assert(pre.has_id(other));
                }
            }
        }
    }
}

/// One unfolding step of `Seq::filter` along a prefix: extending the prefix
/// by one element appends it to the filtered prefix exactly when it passes
/// the predicate.
proof fn lemma_filter_take_step(s: Seq<u64>, pred: spec_fn(u64) -> bool, i: int)
    requires
        0 <= i < s.len(),
    ensures
        s.take(i + 1).filter(pred) == if pred(s[i]) {
            s.take(i).filter(pred).push(s[i])
        } else {
            s.take(i).filter(pred)
        },
{
    reveal(Seq::filter);
    let t = s.take(i + 1);
    assert(t.len() == i + 1);
    assert(t.last() == s[i]);
    assert(t.drop_last() =~= s.take(i));
}

/// Remove from `times` every timestamp that has aged out of the window
/// ending at `now`.
fn prune(times: &Vec<u64>, now: u64) -> (r: Vec<u64>)
    ensures
        r@ == pruned(times@, now),
{
    let ghost pred = |t: u64| keeps(t, now);
    let mut out: Vec<u64> = Vec::new();
    let mut i: usize = 0;
    while i < times.len()
        invariant
            i <= times@.len(),
            out@ == times@.take(i as int).filter(pred),
            pred == (|t: u64| keeps(t, now)),
        decreases times@.len() - i,
    {
        let t = times[i];
        proof {
            lemma_filter_take_step(times@, pred, i as int);
        }
        if t > now || now - t < WINDOW_MILLIS {
            out.push(t);
        }
        i = i + 1;
    }
    proof {
        assert(times@.take(times@.len() as int) =~= times@);
    }
    out
}

/// Relies on `std::time::SystemTime::now`: the present instant, converted to
/// whole milliseconds since the Unix epoch (saturating, and zero when the
/// clock reads earlier than the epoch). Nothing can be promised of the
/// clock's value.
#[verifier::external_body]
pub(crate) fn now_millis() -> u64 {
    match std::time::SystemTime::now().duration_since(std::time::UNIX_EPOCH) {
        Ok(d) => {
            let ms = d.as_millis();
            if ms > u64::MAX as u128 {
                u64::MAX
            } else {
                ms as u64
            }
        },
        Err(_) => 0,
    }
}

} // verus!
