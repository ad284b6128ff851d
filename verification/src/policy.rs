use crate::error::{HarnessError, Result};
use crate::models::{monitor_contains, Monitor, Point};
use crate::text::{decimal, decimal_string, signed_decimal, signed_decimal_string};
use std::collections::VecDeque;
use std::time::{Duration, Instant};
use vstd::prelude::*;
use vstd::string::*;

verus! {

/// `std::time::Instant`, the monotonic clock that rate-limit windows are
/// measured against.
#[verifier::external_type_specification]
#[verifier::external_body]
pub struct ExInstant(std::time::Instant);

/// Length of a rate-limit window: one minute, in nanoseconds.
pub const WINDOW_NANOS: u128 = 60_000_000_000;
/// Pointer moves allowed per window.
pub const MOVE_LIMIT: usize = 300;
/// Clicks allowed per window.
pub const CLICK_LIMIT: usize = 60;
/// Window focus and workspace switches allowed per window.
pub const FOCUS_LIMIT: usize = 120;
/// Scroll steps allowed per window.
pub const SCROLL_LIMIT: usize = 240;
/// Keyboard events allowed per window.
pub const KEYBOARD_LIMIT: usize = 2_000;

/// Calls `std::time::Instant::now`. Nothing is stated of the reading.
#[verifier::external_body]
fn clock_now() -> Instant {
    Instant::now()
}

/// Calls `std::time::Instant::elapsed`. Nothing is stated of the reading:
/// it depends on the clock.
#[verifier::external_body]
fn clock_elapsed(epoch: &Instant) -> Duration {
    epoch.elapsed()
}

/// The total nanoseconds of the longest `Duration` (`Duration::MAX`): whole
/// seconds up to `u64::MAX` and a fractional part under one billion.
pub const MAX_DURATION_NANOS: u128 = 18_446_744_073_709_551_615_999_999_999;

/// Calls `std::time::Duration::as_nanos`, the total nanoseconds that the
/// duration holds. Claimed: no more than those of `Duration::MAX`, since a
/// duration's whole seconds fit in `u64` and its fractional part is under one
/// billion nanoseconds. The exact count is not stated: Verus sees nothing
/// inside a `Duration`.
#[verifier::external_body]
fn duration_nanos(d: &Duration) -> (n: u128)
    ensures
        n <= MAX_DURATION_NANOS,
{
    d.as_nanos()
}

/// The message of a `RATE_LIMITED` error.
pub open spec fn rate_limited_text(tool: Seq<char>, limit: nat) -> Seq<char> {
    tool + " exceeded the limit of "@ + decimal(limit) + " events per minute"@
}

fn rate_limited_message(tool: &str, limit: usize) -> (s: String)
    ensures
        s@ == rate_limited_text(tool@, limit as nat),
{
    let mut s = String::from_str(tool);
    s.append(" exceeded the limit of ");
    let n = decimal_string(limit as u64);
    s.append(n.as_str());
    s.append(" events per minute");
    s
}

/// The message of an `OUT_OF_BOUNDS` error for a target point.
pub open spec fn target_out_of_bounds_text(p: Point) -> Seq<char> {
    "point ("@ + signed_decimal(p.x as int) + ", "@ + signed_decimal(p.y as int)
        + ") is outside enabled monitor bounds"@
}

fn out_of_bounds_message(point: &Point) -> (s: String)
    ensures
        s@ == target_out_of_bounds_text(*point),
{
    let mut s = String::from_str("point (");
    let x = signed_decimal_string(point.x as i64);
    s.append(x.as_str());
    s.append(", ");
    let y = signed_decimal_string(point.y as i64);
    s.append(y.as_str());
    s.append(") is outside enabled monitor bounds");
    s
}

/// Whether an event recorded at `t` has left the window at time `now`
/// (elapsed time saturates at zero when `now` precedes `t`).
pub open spec fn expired(t: u128, now: u128) -> bool {
    now >= t + WINDOW_NANOS
}

/// The queue after dropping, from its front, every event that left the window.
pub open spec fn expire(q: Seq<u128>, now: u128) -> Seq<u128>
    decreases q.len(),
{
    if q.len() > 0 && expired(q[0], now) {
        expire(q.drop_first(), now)
    } else {
        q
    }
}

/// What one admission attempt does to an event queue: expired events are
/// forgotten; the `amount` new events are accepted iff they fit under `limit`,
/// in which case they are recorded at `now`.
pub open spec fn register_outcome(
    before: Seq<u128>,
    after: Seq<u128>,
    now: u128,
    amount: nat,
    limit: nat,
    accepted: bool,
) -> bool {
    let kept = expire(before, now);
    &&& accepted == (kept.len() + amount <= limit)
    &&& after == if accepted {
        kept + Seq::new(amount, |i: int| now)
    } else {
        kept
    }
}

proof fn lemma_expire_suffix(q: Seq<u128>, now: u128)
    ensures
        expire(q, now).len() <= q.len(),
        expire(q, now) == q.subrange(q.len() - expire(q, now).len(), q.len() as int),
    decreases q.len(),
{
    if q.len() > 0 && expired(q[0], now) {
        lemma_expire_suffix(q.drop_first(), now);
        let e = expire(q.drop_first(), now);
        assert(q.drop_first().subrange(q.drop_first().len() - e.len(), q.drop_first().len() as int)
            =~= q.subrange(q.len() - e.len(), q.len() as int));
    } else {
        assert(q.subrange(0, q.len() as int) =~= q);
    }
}

/// Law: an admission attempt never leaves more events inside the window
/// than the limit allows (when it started within the limit), and a refused
/// attempt only forgets events, the oldest first.
pub proof fn lemma_admission_respects_limit(
    before: Seq<u128>,
    after: Seq<u128>,
    now: u128,
    amount: nat,
    limit: nat,
    accepted: bool,
)
    requires
        register_outcome(before, after, now, amount, limit, accepted),
    ensures
        accepted ==> after.len() <= limit,
        before.len() <= limit ==> after.len() <= limit,
        !accepted ==> after == before.subrange(before.len() - after.len(), before.len() as int),
{
    lemma_expire_suffix(before, now);
}

/// Timestamps in non-decreasing order, as a monotonic clock records them.
pub open spec fn chronological(q: Seq<u128>) -> bool {
    forall|i: int, j: int| 0 <= i <= j < q.len() ==> q[i] <= q[j]
}

proof fn lemma_expire_chronological(q: Seq<u128>, now: u128)
    requires
        chronological(q),
    ensures
        chronological(expire(q, now)),
        forall|i: int| 0 <= i < expire(q, now).len() ==> !expired(#[trigger] expire(q, now)[i], now),
        forall|i: int|
            0 <= i < q.len() && !expired(#[trigger] q[i], now) ==> expire(q, now).contains(q[i]),
    decreases q.len(),
{
    if q.len() > 0 && expired(q[0], now) {
        let rest = q.drop_first();
        assert(chronological(rest));
        lemma_expire_chronological(rest, now);
        assert forall|i: int| 0 <= i < q.len() && !expired(#[trigger] q[i], now) implies expire(
            q,
            now,
        ).contains(q[i]) by {
            assert(i > 0);
            assert(rest[i - 1] == q[i]);
        }
    } else if q.len() > 0 {
        assert forall|i: int| 0 <= i < q.len() implies !expired(#[trigger] q[i], now) by {
            assert(q[0] <= q[i]);
        }
    }
}

/// Law: with a monotonic clock, the queue stays in chronological order,
/// holds exactly the events of the last minute, and after an accepted
/// admission never holds more than the limit; no event still inside the
/// window is forgotten.
pub proof fn lemma_sliding_window(
    before: Seq<u128>,
    after: Seq<u128>,
    now: u128,
    amount: nat,
    limit: nat,
    accepted: bool,
)
    requires
        register_outcome(before, after, now, amount, limit, accepted),
        chronological(before),
        forall|i: int| 0 <= i < before.len() ==> #[trigger] before[i] <= now,
    ensures
        chronological(after),
        forall|i: int| 0 <= i < after.len() ==> !expired(#[trigger] after[i], now),
        forall|i: int| 0 <= i < after.len() ==> #[trigger] after[i] <= now,
        forall|i: int|
            0 <= i < before.len() && !expired(#[trigger] before[i], now) ==> after.contains(before[i]),
        accepted ==> after.len() <= limit,
{
    lemma_expire_chronological(before, now);
    lemma_expire_suffix(before, now);
    let kept = expire(before, now);
    assert forall|i: int| 0 <= i < kept.len() implies #[trigger] kept[i] <= now by {
        assert(kept[i] == before[before.len() - kept.len() + i]);
    }
    if accepted {
        let added = Seq::new(amount, |i: int| now);
        assert forall|i: int| 0 <= i < after.len() implies #[trigger] after[i] <= now && !expired(
            after[i],
            now,
        ) by {
            if i >= kept.len() {
                assert(after[i] == added[i - kept.len()]);
            }
        }
        assert forall|i: int, j: int| 0 <= i <= j < after.len() implies after[i] <= after[j] by {
            if j >= kept.len() {
                assert(after[j] == added[j - kept.len()]);
                if i >= kept.len() {
                    assert(after[i] == added[i - kept.len()]);
                }
            }
        }
        assert forall|i: int|
            0 <= i < before.len() && !expired(#[trigger] before[i], now) implies after.contains(
            before[i],
        ) by {
            let k = choose|k: int| 0 <= k < kept.len() && kept[k] == before[i];
            assert(after[k] == kept[k]);
        }
    }
}

proof fn lemma_expire_all(q: Seq<u128>, now: u128)
    requires
        forall|i: int| 0 <= i < q.len() ==> #[trigger] q[i] + WINDOW_NANOS <= now,
    ensures
        expire(q, now).len() == 0,
    decreases q.len(),
{
    if q.len() > 0 {
        assert(q[0] + WINDOW_NANOS <= now);
        assert forall|i: int| 0 <= i < q.drop_first().len() implies #[trigger] q.drop_first()[i]
            + WINDOW_NANOS <= now by {
            assert(q.drop_first()[i] == q[i + 1]);
        }
        lemma_expire_all(q.drop_first(), now);
    }
}

/// Law: an event counts against its limit for one minute only. After an
/// admission attempt at reading `now`, every event still held was recorded
/// less than `WINDOW_NANOS` before `now`; and once every earlier event is at
/// least that old, any request within the limit is granted.
pub proof fn lemma_minute_old_events_stop_counting(
    before: Seq<u128>,
    after: Seq<u128>,
    now: u128,
    amount: nat,
    limit: nat,
    accepted: bool,
)
    requires
        register_outcome(before, after, now, amount, limit, accepted),
        chronological(before),
    ensures
        forall|i: int| 0 <= i < after.len() ==> now < #[trigger] after[i] + WINDOW_NANOS,
        (forall|i: int| 0 <= i < before.len() ==> #[trigger] before[i] + WINDOW_NANOS <= now)
            ==> (accepted <==> amount <= limit),
{
    lemma_expire_chronological(before, now);
    let kept = expire(before, now);
    assert forall|i: int| 0 <= i < after.len() implies now < #[trigger] after[i] + WINDOW_NANOS by {
        if i < kept.len() {
            assert(after[i] == kept[i]);
            assert(!expired(kept[i], now));
        }
    }
    if forall|i: int| 0 <= i < before.len() ==> #[trigger] before[i] + WINDOW_NANOS <= now {
        lemma_expire_all(before, now);
    }
}

/// Records `amount` events at time `now` in `queue` unless that would put
/// more than `limit` events inside the window; events that left the window
/// are dropped first either way.
pub fn register(
    queue: &mut VecDeque<u128>,
    now: u128,
    amount: usize,
    limit: usize,
    tool: &str,
) -> (r: Result<()>)
    ensures
        register_outcome(old(queue)@, final(queue)@, now, amount as nat, limit as nat, r is Ok),
        r matches Err(e) ==> e.code == "RATE_LIMITED" && e.message@ == rate_limited_text(
            tool@,
            limit as nat,
        ),
{
    broadcast use vstd::std_specs::vecdeque::group_vec_dequeue_axioms;
    while queue.len() > 0 && now >= queue[0] && now - queue[0] >= WINDOW_NANOS
        invariant
            expire(queue@, now) == expire(old(queue)@, now),
        decreases queue@.len(),
    {
        let ghost before = queue@;
        queue.pop_front();
        assert(queue@ =~= before.drop_first());
    }
    assert(expire(queue@, now) == queue@);
    if (queue.len() as u128) + (amount as u128) > limit as u128 {
        return Err(HarnessError::new("RATE_LIMITED", rate_limited_message(tool, limit)));
    }
    let ghost kept = queue@;
    let mut i: usize = 0;
    while i < amount
        invariant
            i <= amount,
            queue@ == kept + Seq::new(i as nat, |k: int| now),
        decreases amount - i,
    {
        queue.push_back(now);
        i = i + 1;
        assert(queue@ =~= kept + Seq::new(i as nat, |k: int| now));
    }
    Ok(())
}

/// The abstract state of a [`SafetyPolicy`]: whether input is disabled, the
/// latest clock reading it used, and the timestamps (nanoseconds since the policy was created) of the events
/// inside each rate-limit window.
pub struct PolicyView {
    pub read_only: bool,
    pub latest: u128,
    pub moves: Seq<u128>,
    pub clicks: Seq<u128>,
    pub focuses: Seq<u128>,
    pub scrolls: Seq<u128>,
    pub keyboard: Seq<u128>,
}

/// Every queue holds no more events than its limit allows.
pub open spec fn within_limits(v: PolicyView) -> bool {
    &&& v.moves.len() <= MOVE_LIMIT
    &&& v.clicks.len() <= CLICK_LIMIT
    &&& v.focuses.len() <= FOCUS_LIMIT
    &&& v.scrolls.len() <= SCROLL_LIMIT
    &&& v.keyboard.len() <= KEYBOARD_LIMIT
}

/// A queue in chronological order whose events are all at or before `t`.
pub open spec fn ordered_before(q: Seq<u128>, t: u128) -> bool {
    &&& chronological(q)
    &&& forall|i: int| 0 <= i < q.len() ==> #[trigger] q[i] <= t
}

/// Every queue is in chronological order and holds no event later than the
/// latest clock reading.
pub open spec fn well_ordered(v: PolicyView) -> bool {
    &&& ordered_before(v.moves, v.latest)
    &&& ordered_before(v.clicks, v.latest)
    &&& ordered_before(v.focuses, v.latest)
    &&& ordered_before(v.scrolls, v.latest)
    &&& ordered_before(v.keyboard, v.latest)
}

proof fn lemma_ordered_later(v: PolicyView, t: u128)
    requires
        well_ordered(v),
        v.latest <= t,
    ensures
        ordered_before(v.moves, t),
        ordered_before(v.clicks, t),
        ordered_before(v.focuses, t),
        ordered_before(v.scrolls, t),
        ordered_before(v.keyboard, t),
{
}

/// What an admission check does to one queue: a read-only policy refuses
/// with `INPUT_DISABLED` and leaves the queue and the clock reading alone;
/// otherwise the clock is read at `after_latest`, never earlier than the
/// reading before, the queue goes through [`register_outcome`] at that
/// reading, and a refusal is `RATE_LIMITED`.
pub open spec fn admission(
    read_only: bool,
    before: Seq<u128>,
    after: Seq<u128>,
    before_latest: u128,
    after_latest: u128,
    amount: nat,
    limit: nat,
    tool: Seq<char>,
    r: Result<()>,
) -> bool {
    if read_only {
        &&& r matches Err(e) && e.code == "INPUT_DISABLED" && e.message@
            == "desktop input is disabled by --read-only"@
        &&& after == before
        &&& after_latest == before_latest
    } else {
        &&& before_latest <= after_latest
        &&& register_outcome(before, after, after_latest, amount, limit, r is Ok)
        &&& r matches Err(e) ==> e.code == "RATE_LIMITED" && e.message@ == rate_limited_text(
            tool,
            limit,
        )
    }
}

/// One admission attempt on a queue: the clock reading it was made at, the
/// number of events it asked for, and whether they were accepted.
pub struct Attempt {
    pub at: u128,
    pub amount: nat,
    pub accepted: bool,
}

/// A history of admission attempts on one queue with one `limit`: `queues[k]`
/// is the queue before attempt `k`, the queue starts empty, each attempt goes
/// through [`register_outcome`], and the clock readings never decrease.
pub open spec fn admission_history(queues: Seq<Seq<u128>>, attempts: Seq<Attempt>, limit: nat) -> bool {
    &&& queues.len() == attempts.len() + 1
    &&& queues[0].len() == 0
    &&& forall|k: int|
        0 <= k < attempts.len() ==> #[trigger] register_outcome(
            queues[k],
            queues[k + 1],
            attempts[k].at,
            attempts[k].amount,
            limit,
            attempts[k].accepted,
        )
    &&& forall|k: int| 0 < k < attempts.len() ==> attempts[k - 1].at <= #[trigger] attempts[k].at
}

/// The number of events accepted by the attempts made at readings in
/// `(lo, hi]`.
pub open spec fn accepted_between(attempts: Seq<Attempt>, lo: int, hi: int) -> nat
    decreases attempts.len(),
{
    if attempts.len() == 0 {
        0
    } else {
        let a = attempts.last();
        accepted_between(attempts.drop_last(), lo, hi) + if a.accepted && lo < a.at <= hi {
            a.amount
        } else {
            0
        }
    }
}

/// The number of timestamps in `q` later than `x`.
pub open spec fn count_later(q: Seq<u128>, x: int) -> nat
    decreases q.len(),
{
    if q.len() == 0 {
        0
    } else {
        count_later(q.drop_first(), x) + if q[0] > x {
            1nat
        } else {
            0
        }
    }
}

proof fn lemma_count_later_len(q: Seq<u128>, x: int)
    ensures
        count_later(q, x) <= q.len(),
    decreases q.len(),
{
    if q.len() > 0 {
        lemma_count_later_len(q.drop_first(), x);
    }
}

proof fn lemma_count_later_concat(a: Seq<u128>, b: Seq<u128>, x: int)
    ensures
        count_later(a + b, x) == count_later(a, x) + count_later(b, x),
    decreases a.len(),
{
    if a.len() > 0 {
        assert((a + b).drop_first() =~= a.drop_first() + b);
        lemma_count_later_concat(a.drop_first(), b, x);
    } else {
        assert(a + b =~= b);
    }
}

proof fn lemma_count_later_same(n: nat, t: u128, x: int)
    ensures
        count_later(Seq::new(n, |i: int| t), x) == if t > x {
            n
        } else {
            0
        },
    decreases n,
{
    if n > 0 {
        assert(Seq::new(n, |i: int| t).drop_first() =~= Seq::new((n - 1) as nat, |i: int| t));
        lemma_count_later_same((n - 1) as nat, t, x);
    }
}

proof fn lemma_count_later_expire(q: Seq<u128>, now: u128, x: int)
    requires
        now <= x + WINDOW_NANOS,
    ensures
        count_later(expire(q, now), x) == count_later(q, x),
    decreases q.len(),
{
    if q.len() > 0 && expired(q[0], now) {
        lemma_count_later_expire(q.drop_first(), now, x);
    }
}

/// After the attempts of a history, the queue holds, above any threshold
/// no more than one window before the last reading, exactly the events that
/// were accepted at readings above it.
proof fn lemma_history_counts(queues: Seq<Seq<u128>>, attempts: Seq<Attempt>, limit: nat, x: int)
    requires
        admission_history(queues, attempts, limit),
        attempts.len() > 0 ==> attempts.last().at <= x + WINDOW_NANOS,
    ensures
        count_later(queues.last(), x) == accepted_between(attempts, x, u128::MAX as int),
        queues.last().len() <= limit,
    decreases attempts.len(),
{
    if attempts.len() > 0 {
        let n = attempts.len() - 1;
        let qs = queues.drop_last();
        let hs = attempts.drop_last();
        assert forall|k: int| 0 <= k < hs.len() implies #[trigger] register_outcome(
            qs[k],
            qs[k + 1],
            hs[k].at,
            hs[k].amount,
            limit,
            hs[k].accepted,
        ) by {
            assert(register_outcome(
                queues[k],
                queues[k + 1],
                attempts[k].at,
                attempts[k].amount,
                limit,
                attempts[k].accepted,
            ));
        }
        assert forall|k: int| 0 < k < hs.len() implies hs[k - 1].at <= #[trigger] hs[k].at by {
            assert(attempts[k - 1].at <= attempts[k].at);
        }
        if n > 0 {
            assert(attempts[n - 1].at <= attempts[n].at);
        }
        lemma_history_counts(qs, hs, limit, x);
        let a = attempts[n];
        assert(register_outcome(queues[n], queues[n + 1], a.at, a.amount, limit, a.accepted));
        let kept = expire(queues[n], a.at);
        lemma_count_later_expire(queues[n], a.at, x);
        lemma_admission_respects_limit(queues[n], queues[n + 1], a.at, a.amount, limit, a.accepted);
        if a.accepted {
            lemma_count_later_concat(kept, Seq::new(a.amount, |i: int| a.at), x);
            lemma_count_later_same(a.amount, a.at, x);
        }
    }
}

proof fn lemma_accepted_all_before(attempts: Seq<Attempt>, lo: int, hi: int)
    requires
        forall|k: int| 0 <= k < attempts.len() ==> #[trigger] attempts[k].at <= hi,
        hi <= u128::MAX,
    ensures
        accepted_between(attempts, lo, hi) == accepted_between(attempts, lo, u128::MAX as int),
    decreases attempts.len(),
{
    if attempts.len() > 0 {
        let hs = attempts.drop_last();
        assert forall|k: int| 0 <= k < hs.len() implies #[trigger] hs[k].at <= hi by {
            assert(attempts[k].at <= hi);
        }
        lemma_accepted_all_before(hs, lo, hi);
        assert(attempts[attempts.len() - 1].at <= hi);
    }
}

/// Law: over any history of admissions on one queue at non-decreasing clock
/// readings, the events accepted within any one-minute window `(t - 60 s, t]`
/// never number more than the limit.
pub proof fn lemma_rate_limit_holds_over_history(
    queues: Seq<Seq<u128>>,
    attempts: Seq<Attempt>,
    limit: nat,
    t: u128,
)
    requires
        admission_history(queues, attempts, limit),
    ensures
        accepted_between(attempts, t - WINDOW_NANOS, t as int) <= limit,
    decreases attempts.len(),
{
    if attempts.len() > 0 {
        let n = attempts.len() - 1;
        if attempts[n].at > t {
            let qs = queues.drop_last();
            let hs = attempts.drop_last();
            assert forall|k: int| 0 <= k < hs.len() implies #[trigger] register_outcome(
                qs[k],
                qs[k + 1],
                hs[k].at,
                hs[k].amount,
                limit,
                hs[k].accepted,
            ) by {
                assert(register_outcome(
                    queues[k],
                    queues[k + 1],
                    attempts[k].at,
                    attempts[k].amount,
                    limit,
                    attempts[k].accepted,
                ));
            }
            assert forall|k: int| 0 < k < hs.len() implies hs[k - 1].at <= #[trigger] hs[k].at by {
                assert(attempts[k - 1].at <= attempts[k].at);
            }
            lemma_rate_limit_holds_over_history(qs, hs, limit, t);
        } else {
            assert forall|k: int| 0 <= k < attempts.len() implies #[trigger] attempts[k].at <= t by {
                lemma_history_sorted(attempts, k, n);
            }
            lemma_accepted_all_before(attempts, t - WINDOW_NANOS, t as int);
            lemma_history_counts(queues, attempts, limit, t - WINDOW_NANOS);
            lemma_count_later_len(queues.last(), t - WINDOW_NANOS);
        }
    }
}

proof fn lemma_history_sorted(attempts: Seq<Attempt>, i: int, j: int)
    requires
        forall|k: int| 0 < k < attempts.len() ==> attempts[k - 1].at <= #[trigger] attempts[k].at,
        0 <= i <= j < attempts.len(),
    ensures
        attempts[i].at <= attempts[j].at,
    decreases j - i,
{
    if i < j {
        lemma_history_sorted(attempts, i, j - 1);
        assert(attempts[j - 1].at <= attempts[j].at);
    }
}

/// Law: a read-only policy refuses every admission with `INPUT_DISABLED`
/// and records nothing, whatever came before.
pub proof fn lemma_read_only_refuses(
    before: Seq<u128>,
    after: Seq<u128>,
    before_latest: u128,
    after_latest: u128,
    amount: nat,
    limit: nat,
    tool: Seq<char>,
    r: Result<()>,
)
    requires
        admission(true, before, after, before_latest, after_latest, amount, limit, tool, r),
    ensures
        r matches Err(e) && e.code == "INPUT_DISABLED",
        after == before,
        after_latest == before_latest,
{
}

proof fn lemma_admission_keeps_order(
    before: Seq<u128>,
    after: Seq<u128>,
    before_latest: u128,
    now: u128,
    amount: nat,
    limit: nat,
    accepted: bool,
)
    requires
        register_outcome(before, after, now, amount, limit, accepted),
        ordered_before(before, before_latest),
        before_latest <= now,
    ensures
        ordered_before(after, now),
{
    lemma_sliding_window(before, after, now, amount, limit, accepted);
}

/// The input safety policy: a read-only switch and per-minute rate limits
/// for each action class.
#[derive(Debug)]
pub struct SafetyPolicy {
    read_only: bool,
    epoch: Instant,
    latest: u128,
    moves: VecDeque<u128>,
    clicks: VecDeque<u128>,
    focuses: VecDeque<u128>,
    scrolls: VecDeque<u128>,
    keyboard: VecDeque<u128>,
}

impl View for SafetyPolicy {
    type V = PolicyView;

    closed spec fn view(&self) -> PolicyView {
        PolicyView {
            read_only: self.read_only,
            latest: self.latest,
            moves: self.moves@,
            clicks: self.clicks@,
            focuses: self.focuses@,
            scrolls: self.scrolls@,
            keyboard: self.keyboard@,
        }
    }
}

impl SafetyPolicy {
    /// A policy with empty rate-limit windows.
    pub fn new(read_only: bool) -> (p: Self)
        ensures
            p@.read_only == read_only,
            p@.moves.len() == 0,
            p@.clicks.len() == 0,
            p@.focuses.len() == 0,
            p@.scrolls.len() == 0,
            p@.keyboard.len() == 0,
            p@.latest == 0,
            within_limits(p@),
            well_ordered(p@),
    {
        SafetyPolicy {
            read_only,
            epoch: clock_now(),
            latest: 0,
            moves: VecDeque::new(),
            clicks: VecDeque::new(),
            focuses: VecDeque::new(),
            scrolls: VecDeque::new(),
            keyboard: VecDeque::new(),
        }
    }

    /// Whether desktop input is disabled.
    pub fn read_only(&self) -> (b: bool)
        ensures
            b == self@.read_only,
    {
        self.read_only
    }

    /// The first monitor, in the given order, that is active and contains
    /// `point`; `OUT_OF_BOUNDS` when there is none.
    pub fn validate_target<'a>(&self, point: &Point, monitors: &'a [Monitor]) -> (r: Result<
        &'a Monitor,
    >)
        ensures
            r is Ok <==> exists|i: int|
                0 <= i < monitors@.len() && monitor_contains(#[trigger] monitors@[i], *point),
            r matches Ok(m) ==> exists|i: int|
                0 <= i < monitors@.len() && monitors@[i] == *m && monitor_contains(*m, *point)
                    && forall|j: int| 0 <= j < i ==> !monitor_contains(#[trigger] monitors@[j], *point),
            r matches Err(e) ==> e.code == "OUT_OF_BOUNDS" && e.message@
                == target_out_of_bounds_text(*point),
    {
        let mut i: usize = 0;
        while i < monitors.len()
            invariant
                i <= monitors@.len(),
                forall|j: int| 0 <= j < i ==> !monitor_contains(#[trigger] monitors@[j], *point),
            decreases monitors@.len() - i,
        {
            if monitors[i].contains(point) {
                return Ok(&monitors[i]);
            }
            i = i + 1;
        }
        Err(HarnessError::new("OUT_OF_BOUNDS", out_of_bounds_message(point)))
    }

    /// Nanoseconds since the policy was created, as the monotonic clock
    /// reads them now, and never less than the reading before: a clock
    /// reading, so only its range is known.
    fn now(&mut self) -> (t: u128)
        ensures
            old(self)@.latest <= t,
            old(self)@.latest <= MAX_DURATION_NANOS ==> t <= MAX_DURATION_NANOS,
            final(self)@ == (PolicyView { latest: t, ..old(self)@ }),
    {
        let elapsed = clock_elapsed(&self.epoch);
        let reading = duration_nanos(&elapsed);
        let t = if reading < self.latest {
            self.latest
        } else {
            reading
        };
        self.latest = t;
        t
    }

    fn ensure_input_enabled(&self) -> (r: Result<()>)
        ensures
            r is Ok <==> !self@.read_only,
            r matches Err(e) ==> e.code == "INPUT_DISABLED" && e.message@
                == "desktop input is disabled by --read-only"@,
    {
        if self.read_only {
            Err(
                HarnessError::new(
                    "INPUT_DISABLED",
                    "desktop input is disabled by --read-only".to_string(),
                ),
            )
        } else {
            Ok(())
        }
    }

    /// Admits one pointer move.
    pub fn allow_move(&mut self) -> (r: Result<()>)
        ensures
            admission(
                old(self)@.read_only,
                old(self)@.moves,
                final(self)@.moves,
                old(self)@.latest,
                final(self)@.latest,
                1,
                MOVE_LIMIT as nat,
                "move_pointer"@,
                r,
            ),
            final(self)@ == (PolicyView { moves: final(self)@.moves, latest: final(self)@.latest, ..old(self)@ }),
            within_limits(old(self)@) ==> within_limits(final(self)@),
            well_ordered(old(self)@) ==> well_ordered(final(self)@),
    {
        self.ensure_input_enabled()?;
        let now = self.now();
        let r = register(&mut self.moves, now, 1, MOVE_LIMIT, "move_pointer");
        proof {
            lemma_admission_respects_limit(old(self)@.moves, self@.moves, now, 1, MOVE_LIMIT as nat, r is Ok);
            if well_ordered(old(self)@) {
                lemma_admission_keeps_order(old(self)@.moves, self@.moves, old(self)@.latest, now, 1, MOVE_LIMIT as nat, r is Ok);
                lemma_ordered_later(old(self)@, now);
            }
        }
        r
    }

    /// Admits `count` clicks.
    pub fn allow_clicks(&mut self, count: usize) -> (r: Result<()>)
        ensures
            admission(
                old(self)@.read_only,
                old(self)@.clicks,
                final(self)@.clicks,
                old(self)@.latest,
                final(self)@.latest,
                count as nat,
                CLICK_LIMIT as nat,
                "click"@,
                r,
            ),
            final(self)@ == (PolicyView { clicks: final(self)@.clicks, latest: final(self)@.latest, ..old(self)@ }),
            within_limits(old(self)@) ==> within_limits(final(self)@),
            well_ordered(old(self)@) ==> well_ordered(final(self)@),
    {
        self.ensure_input_enabled()?;
        let now = self.now();
        let r = register(&mut self.clicks, now, count, CLICK_LIMIT, "click");
        proof {
            lemma_admission_respects_limit(old(self)@.clicks, self@.clicks, now, count as nat, CLICK_LIMIT as nat, r is Ok);
            if well_ordered(old(self)@) {
                lemma_admission_keeps_order(old(self)@.clicks, self@.clicks, old(self)@.latest, now, count as nat, CLICK_LIMIT as nat, r is Ok);
                lemma_ordered_later(old(self)@, now);
            }
        }
        r
    }

    /// Admits one window focus.
    pub fn allow_focus(&mut self) -> (r: Result<()>)
        ensures
            admission(
                old(self)@.read_only,
                old(self)@.focuses,
                final(self)@.focuses,
                old(self)@.latest,
                final(self)@.latest,
                1,
                FOCUS_LIMIT as nat,
                "focus_window"@,
                r,
            ),
            final(self)@ == (PolicyView { focuses: final(self)@.focuses, latest: final(self)@.latest, ..old(self)@ }),
            within_limits(old(self)@) ==> within_limits(final(self)@),
            well_ordered(old(self)@) ==> well_ordered(final(self)@),
    {
        self.ensure_input_enabled()?;
        let now = self.now();
        let r = register(&mut self.focuses, now, 1, FOCUS_LIMIT, "focus_window");
        proof {
            lemma_admission_respects_limit(old(self)@.focuses, self@.focuses, now, 1, FOCUS_LIMIT as nat, r is Ok);
            if well_ordered(old(self)@) {
                lemma_admission_keeps_order(old(self)@.focuses, self@.focuses, old(self)@.latest, now, 1, FOCUS_LIMIT as nat, r is Ok);
                lemma_ordered_later(old(self)@, now);
            }
        }
        r
    }

    /// Admits one workspace switch; it shares the focus window.
    pub fn allow_workspace(&mut self) -> (r: Result<()>)
        ensures
            admission(
                old(self)@.read_only,
                old(self)@.focuses,
                final(self)@.focuses,
                old(self)@.latest,
                final(self)@.latest,
                1,
                FOCUS_LIMIT as nat,
                "switch_workspace"@,
                r,
            ),
            final(self)@ == (PolicyView { focuses: final(self)@.focuses, latest: final(self)@.latest, ..old(self)@ }),
            within_limits(old(self)@) ==> within_limits(final(self)@),
            well_ordered(old(self)@) ==> well_ordered(final(self)@),
    {
        self.ensure_input_enabled()?;
        let now = self.now();
        let r = register(&mut self.focuses, now, 1, FOCUS_LIMIT, "switch_workspace");
        proof {
            lemma_admission_respects_limit(old(self)@.focuses, self@.focuses, now, 1, FOCUS_LIMIT as nat, r is Ok);
            if well_ordered(old(self)@) {
                lemma_admission_keeps_order(old(self)@.focuses, self@.focuses, old(self)@.latest, now, 1, FOCUS_LIMIT as nat, r is Ok);
                lemma_ordered_later(old(self)@, now);
            }
        }
        r
    }

    /// Admits `amount` scroll steps.
    pub fn allow_scroll(&mut self, amount: usize) -> (r: Result<()>)
        ensures
            admission(
                old(self)@.read_only,
                old(self)@.scrolls,
                final(self)@.scrolls,
                old(self)@.latest,
                final(self)@.latest,
                amount as nat,
                SCROLL_LIMIT as nat,
                "scroll"@,
                r,
            ),
            final(self)@ == (PolicyView { scrolls: final(self)@.scrolls, latest: final(self)@.latest, ..old(self)@ }),
            within_limits(old(self)@) ==> within_limits(final(self)@),
            well_ordered(old(self)@) ==> well_ordered(final(self)@),
    {
        self.ensure_input_enabled()?;
        let now = self.now();
        let r = register(&mut self.scrolls, now, amount, SCROLL_LIMIT, "scroll");
        proof {
            lemma_admission_respects_limit(old(self)@.scrolls, self@.scrolls, now, amount as nat, SCROLL_LIMIT as nat, r is Ok);
            if well_ordered(old(self)@) {
                lemma_admission_keeps_order(old(self)@.scrolls, self@.scrolls, old(self)@.latest, now, amount as nat, SCROLL_LIMIT as nat, r is Ok);
                lemma_ordered_later(old(self)@, now);
            }
        }
        r
    }

    /// Admits `events` keyboard events on behalf of `tool`.
    pub fn allow_keyboard(&mut self, events: usize, tool: &str) -> (r: Result<()>)
        ensures
            admission(
                old(self)@.read_only,
                old(self)@.keyboard,
                final(self)@.keyboard,
                old(self)@.latest,
                final(self)@.latest,
                events as nat,
                KEYBOARD_LIMIT as nat,
                tool@,
                r,
            ),
            final(self)@ == (PolicyView { keyboard: final(self)@.keyboard, latest: final(self)@.latest, ..old(self)@ }),
            within_limits(old(self)@) ==> within_limits(final(self)@),
            well_ordered(old(self)@) ==> well_ordered(final(self)@),
    {
        self.ensure_input_enabled()?;
        let now = self.now();
        let r = register(&mut self.keyboard, now, events, KEYBOARD_LIMIT, tool);
        proof {
            lemma_admission_respects_limit(old(self)@.keyboard, self@.keyboard, now, events as nat, KEYBOARD_LIMIT as nat, r is Ok);
            if well_ordered(old(self)@) {
                lemma_admission_keeps_order(old(self)@.keyboard, self@.keyboard, old(self)@.latest, now, events as nat, KEYBOARD_LIMIT as nat, r is Ok);
                lemma_ordered_later(old(self)@, now);
            }
        }
        r
    }
}

} // verus!
