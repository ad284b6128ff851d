use crate::error::{HarnessError, Result};
use crate::models::{div_round, is_active, logical_extent, monitor_contains, Monitor, Point, Window};
use crate::text::{hex_lower, hex_lower_string, str_eq};
use sha2::{Digest, Sha256};
use vstd::prelude::*;
use vstd::string::*;

verus! {

/// Longest animated `move_pointer` duration, in milliseconds.
pub const MAX_MOVE_DURATION_MS: u32 = 2000;
/// Animation rate of pointer moves, in updates per second.
pub const MOVE_UPDATES_PER_SECOND: u64 = 60;

/// The SHA-256 digest of a byte string, as computed by the `sha2` crate.
pub uninterp spec fn sha256(data: Seq<u8>) -> Seq<u8>;

/// Calls `sha2::Sha256::digest`. The digest is named [`sha256`] of the
/// input; the crate's output size for SHA-256 is 32 bytes.
#[verifier::external_body]
fn sha256_digest(data: &[u8]) -> (d: Vec<u8>)
    ensures
        d@ == sha256(data@),
        d@.len() == 32,
{
    Sha256::digest(data).to_vec()
}

/// The lowercase hexadecimal SHA-256 of `data`, as recorded for captures.
pub fn sha256_hex(data: &[u8]) -> (s: String)
    ensures
        s@ == hex_lower(sha256(data@)),
{
    let digest = sha256_digest(data);
    hex_lower_string(digest.as_slice())
}

/// Size and digest of a captured image (never its bytes).
#[derive(Debug, Clone)]
pub struct ImageMetadata {
    pub mime_type: String,
    pub bytes: usize,
    pub sha256: String,
}

/// The outcome of a pointer move.
#[derive(Debug, Clone)]
pub struct MoveResult {
    pub started_at: Point,
    pub ended_at: Point,
    pub requested: Point,
    pub duration_ms: u32,
    pub monitor: String,
}

/// The outcome of a click.
#[derive(Debug, Clone)]
pub struct ClickResult {
    pub position: Point,
    pub button: String,
    pub count: u8,
    pub interval_ms: u32,
}

/// The metadata recorded for a PNG capture: its MIME type, its size in
/// bytes and its SHA-256 in lowercase hexadecimal.
pub fn image_metadata(png: &[u8]) -> (m: ImageMetadata)
    ensures
        m.mime_type@ == "image/png"@,
        m.bytes == png@.len(),
        m.sha256@ == hex_lower(sha256(png@)),
{
    ImageMetadata { mime_type: "image/png".to_string(), bytes: png.len(), sha256: sha256_hex(png) }
}

/// The monitor an observation captures: the first monitor with the
/// requested name, or the first focused monitor when none is requested,
/// provided it is active.
pub open spec fn selects(ms: Seq<Monitor>, requested: Option<Seq<char>>, i: int) -> bool {
    &&& 0 <= i < ms.len()
    &&& is_active(ms[i])
    &&& match requested {
        Some(name) => ms[i].name@ == name && forall|j: int|
            0 <= j < i ==> (#[trigger] ms[j]).name@ != name,
        None => ms[i].focused && forall|j: int| 0 <= j < i ==> !(#[trigger] ms[j]).focused,
    }
}

/// The message of a failed monitor selection.
pub open spec fn missing_monitor_text(requested: Option<Seq<char>>) -> Seq<char> {
    match requested {
        Some(name) => "monitor '"@ + name + "' was not found or is inactive"@,
        None => "no focused active monitor was found"@,
    }
}

fn missing_monitor_message(name: &str) -> (s: String)
    ensures
        s@ == missing_monitor_text(Some(name@)),
{
    let mut s = String::from_str("monitor '");
    s.append(name);
    s.append("' was not found or is inactive");
    s
}

/// Whether a monitor is the candidate for the request: it has the
/// requested name, or it is focused when no name is requested.
pub open spec fn is_candidate(m: Monitor, requested: Option<Seq<char>>) -> bool {
    match requested {
        Some(name) => m.name@ == name,
        None => m.focused,
    }
}

fn first_candidate(monitors: &[Monitor], requested: Option<&str>) -> (r: Option<usize>)
    ensures
        match r {
            Some(i) => i < monitors@.len() && is_candidate(monitors@[i as int], opt_view(requested))
                && forall|j: int| 0 <= j < i ==> !is_candidate(#[trigger] monitors@[j], opt_view(requested)),
            None => forall|j: int|
                0 <= j < monitors@.len() ==> !is_candidate(#[trigger] monitors@[j], opt_view(requested)),
        },
{
    let mut i: usize = 0;
    while i < monitors.len()
        invariant
            i <= monitors@.len(),
            forall|j: int| 0 <= j < i ==> !is_candidate(#[trigger] monitors@[j], opt_view(requested)),
        decreases monitors@.len() - i,
    {
        let hit = match requested {
            Some(name) => str_eq(monitors[i].name.as_str(), name),
            None => monitors[i].focused,
        };
        if hit {
            return Some(i);
        }
        i = i + 1;
    }
    None
}

/// The index of the monitor to observe: the first one named `requested`,
/// or the first focused one when no name is given. `INVALID_ARGUMENT` when
/// there is no such monitor or it is disabled or powered off.
pub fn select_monitor_index(monitors: &[Monitor], requested: Option<&str>) -> (r: Result<usize>)
    ensures
        r matches Ok(i) ==> selects(monitors@, opt_view(requested), i as int),
        r is Err ==> forall|i: int| !selects(monitors@, opt_view(requested), i),
        r matches Err(e) ==> e.code == "INVALID_ARGUMENT" && e.message@ == missing_monitor_text(
            opt_view(requested),
        ),
{
    let found = first_candidate(monitors, requested);
    if let Some(i) = found {
        if !monitors[i].disabled && monitors[i].dpms_status {
            return Ok(i);
        }
    }
    proof {
        assert forall|k: int| !selects(monitors@, opt_view(requested), k) by {
            if selects(monitors@, opt_view(requested), k) {
                match found {
                    Some(i) => {
                        if k < i {
                            assert(is_candidate(monitors@[k], opt_view(requested)));
                        } else if k > i {
                            assert(!is_candidate(monitors@[i as int], opt_view(requested)));
                        }
                    },
                    None => {
                        assert(is_candidate(monitors@[k], opt_view(requested)));
                    },
                }
            }
        }
    }
    match requested {
        Some(name) => Err(HarnessError::invalid(missing_monitor_message(name))),
        None => Err(HarnessError::invalid("no focused active monitor was found".to_string())),
    }
}

/// The monitor to observe: the first one named `requested`, or the first
/// focused one when no name is given. `INVALID_ARGUMENT` when there is no
/// such monitor or it is disabled or powered off.
pub fn select_monitor<'a>(monitors: &'a [Monitor], requested: Option<&str>) -> (r: Result<
    &'a Monitor,
>)
    ensures
        r matches Ok(m) ==> exists|i: int|
            selects(monitors@, opt_view(requested), i) && monitors@[i] == *m,
        r is Err ==> forall|i: int| !selects(monitors@, opt_view(requested), i),
        r matches Err(e) ==> e.code == "INVALID_ARGUMENT" && e.message@ == missing_monitor_text(
            opt_view(requested),
        ),
{
    match select_monitor_index(monitors, requested) {
        Ok(i) => Ok(&monitors[i]),
        Err(e) => Err(e),
    }
}

/// The view of an optional string.
pub open spec fn opt_view(o: Option<&str>) -> Option<Seq<char>> {
    match o {
        Some(s) => Some(s@),
        None => None,
    }
}

/// The first active monitor containing `point`, as reported with a cursor
/// position.
pub fn monitor_at<'a>(monitors: &'a [Monitor], point: &Point) -> (r: Option<&'a Monitor>)
    ensures
        r is Some <==> exists|i: int|
            0 <= i < monitors@.len() && monitor_contains(#[trigger] monitors@[i], *point),
        r matches Some(m) ==> exists|i: int|
            0 <= i < monitors@.len() && monitors@[i] == *m && monitor_contains(*m, *point)
                && forall|j: int| 0 <= j < i ==> !monitor_contains(#[trigger] monitors@[j], *point),
{
    let mut i: usize = 0;
    while i < monitors.len()
        invariant
            i <= monitors@.len(),
            forall|j: int| 0 <= j < i ==> !monitor_contains(#[trigger] monitors@[j], *point),
        decreases monitors@.len() - i,
    {
        if monitors[i].contains(point) {
            return Some(&monitors[i]);
        }
        i = i + 1;
    }
    None
}

/// The first window marked focused.
pub fn focused_window(windows: &[Window]) -> (r: Option<&Window>)
    ensures
        r is Some <==> exists|i: int| 0 <= i < windows@.len() && (#[trigger] windows@[i]).focused,
        r matches Some(w) ==> exists|i: int|
            0 <= i < windows@.len() && windows@[i] == *w && w.focused && forall|j: int|
                0 <= j < i ==> !(#[trigger] windows@[j]).focused,
{
    let mut i: usize = 0;
    while i < windows.len()
        invariant
            i <= windows@.len(),
            forall|j: int| 0 <= j < i ==> !(#[trigger] windows@[j]).focused,
        decreases windows@.len() - i,
    {
        if windows[i].focused {
            return Some(&windows[i]);
        }
        i = i + 1;
    }
    None
}

/// The windows that are mapped, in the order given.
pub fn mapped_windows(windows: Vec<Window>) -> (r: Vec<Window>)
    ensures
        r@ == windows@.filter(|w: Window| w.mapped),
{
    let mut rest = windows;
    let mut out: Vec<Window> = Vec::new();
    let ghost all = rest@;
    let total = rest.len();
    let mut taken: usize = 0;
    while rest.len() > 0
        invariant
            taken + rest@.len() == all.len(),
            all.len() == total,
            rest@ == all.skip(taken as int),
            out@ == all.take(taken as int).filter(|w: Window| w.mapped),
        decreases rest@.len(),
    {
        let w = rest.remove(0);
        proof {
            assert(all.take(taken + 1).drop_last() =~= all.take(taken as int));
            assert(all.take(taken + 1).last() == w);
            reveal(Seq::filter);
        }
        if w.mapped {
            out.push(w);
        }
        taken = taken + 1;
        assert(rest@ =~= all.skip(taken as int));
    }
    assert(all.take(all.len() as int) =~= all);
    out
}

/// Checks the duration of a linear pointer move: `INVALID_ARGUMENT` beyond
/// two seconds.
pub fn validate_move_duration(duration_ms: u32) -> (r: Result<()>)
    ensures
        r is Ok <==> duration_ms <= MAX_MOVE_DURATION_MS,
        r matches Err(e) ==> e.code == "INVALID_ARGUMENT" && e.message@
            == "duration_ms must be between 0 and 2000"@,
{
    if duration_ms > MAX_MOVE_DURATION_MS {
        return Err(HarnessError::invalid("duration_ms must be between 0 and 2000".to_string()));
    }
    Ok(())
}

/// Checks click arguments: one to three clicks, 40 to 1000 ms apart;
/// `INVALID_ARGUMENT` otherwise.
pub fn validate_click(count: u8, interval_ms: u32) -> (r: Result<()>)
    ensures
        r is Ok <==> (1 <= count <= 3 && 40 <= interval_ms <= 1000),
        r matches Err(e) ==> e.code == "INVALID_ARGUMENT" && e.message@ == if 1 <= count <= 3 {
            "interval_ms must be between 40 and 1000"@
        } else {
            "count must be between 1 and 3"@
        },
{
    if count < 1 || count > 3 {
        return Err(HarnessError::invalid("count must be between 1 and 3".to_string()));
    }
    if interval_ms < 40 || interval_ms > 1000 {
        return Err(HarnessError::invalid("interval_ms must be between 40 and 1000".to_string()));
    }
    Ok(())
}

/// Refuses pointer actions while the session is locked (`SESSION_LOCKED`).
pub fn deny_if_locked(locked: bool) -> (r: Result<()>)
    ensures
        r is Ok <==> !locked,
        r matches Err(e) ==> e.code == "SESSION_LOCKED" && e.message@
            == "pointer actions are disabled while the session is locked"@,
{
    if locked {
        Err(
            HarnessError::new(
                "SESSION_LOCKED",
                "pointer actions are disabled while the session is locked".to_string(),
            ),
        )
    } else {
        Ok(())
    }
}

/// The coordinate `step / steps` of the way from `start` to `end`, rounded
/// to the nearest integer with halves away from zero.
pub open spec fn spec_interpolate(start: int, end: int, step: int, steps: int) -> int {
    div_round(start * steps + (end - start) * step, steps)
}

/// The number of 60 Hz updates an animated move of `duration_ms` takes.
pub open spec fn spec_move_steps(duration_ms: nat) -> nat {
    let s = (duration_ms * 60 + 999) / 1000;
    if s < 1 {
        1
    } else {
        s
    }
}

/// The point `step / steps` of the way from `origin` to `target`.
pub open spec fn spec_path_point(origin: Point, target: Point, step: int, steps: int) -> Point {
    Point {
        x: spec_interpolate(origin.x as int, target.x as int, step, steps) as i32,
        y: spec_interpolate(origin.y as int, target.y as int, step, steps) as i32,
    }
}

/// Law: the rounded interpolation stays between its endpoints and ends
/// exactly at the target.
pub proof fn lemma_interpolate_bounds(start: int, end: int, step: int, steps: int)
    requires
        0 <= step <= steps,
        steps > 0,
    ensures
        start <= end ==> start <= spec_interpolate(start, end, step, steps) <= end,
        end <= start ==> end <= spec_interpolate(start, end, step, steps) <= start,
        spec_interpolate(start, end, steps, steps) == end,
{
    let n = start * steps + (end - start) * step;
    assert(n == start * (steps - step) + end * step) by (nonlinear_arith)
        requires
            n == start * steps + (end - start) * step,
    ;
    assert(start * steps + (end - start) * steps == end * steps) by (nonlinear_arith);
    if end >= 0 {
        assert(end * steps >= 0) by (nonlinear_arith)
            requires
                steps > 0,
                end >= 0,
        ;
        assert((2 * (end * steps) + steps) / (2 * steps) == end) by (nonlinear_arith)
            requires
                steps > 0,
                end >= 0,
        ;
    } else {
        assert(end * steps < 0) by (nonlinear_arith)
            requires
                steps > 0,
                end < 0,
        ;
        assert((-2 * (end * steps) + steps) / (2 * steps) == -end) by (nonlinear_arith)
            requires
                steps > 0,
                end < 0,
        ;
    }
    if start <= end {
        assert(start * steps <= n <= end * steps) by (nonlinear_arith)
            requires
                n == start * (steps - step) + end * step,
                0 <= step <= steps,
                start <= end,
        ;
        lemma_div_round_between(n, steps, start, end);
    } else {
        assert(end * steps <= n <= start * steps) by (nonlinear_arith)
            requires
                n == start * (steps - step) + end * step,
                0 <= step <= steps,
                end <= start,
        ;
        lemma_div_round_between(n, steps, end, start);
    }
}

proof fn lemma_div_round_between(n: int, d: int, lo: int, hi: int)
    requires
        d > 0,
        lo * d <= n <= hi * d,
    ensures
        lo <= div_round(n, d) <= hi,
{
    if n >= 0 {
        assert(lo <= (2 * n + d) / (2 * d) <= hi) by (nonlinear_arith)
            requires
                d > 0,
                lo * d <= n <= hi * d,
                n >= 0,
        ;
    } else {
        assert(-hi <= (-2 * n + d) / (2 * d) <= -lo) by (nonlinear_arith)
            requires
                d > 0,
                lo * d <= n <= hi * d,
                n < 0,
        ;
    }
}

/// Computes [`spec_interpolate`].
pub fn interpolate(start: i32, end: i32, step: u32, steps: u32) -> (r: i32)
    requires
        0 < steps,
        step <= steps,
    ensures
        r == spec_interpolate(start as int, end as int, step as int, steps as int),
{
    proof {
        lemma_interpolate_bounds(start as int, end as int, step as int, steps as int);
    }
    let s = steps as i128;
    let a = start as i128;
    let d = (end as i128) - a;
    let t = step as i128;
    assert(-0x8000_0000_0000_0000 <= a * s <= 0x8000_0000_0000_0000) by (nonlinear_arith)
        requires
            0 < s <= 0xffff_ffff,
            -0x8000_0000 <= a < 0x8000_0000,
    ;
    assert(-0x1_0000_0000_0000_0000 <= d * t <= 0x1_0000_0000_0000_0000) by (nonlinear_arith)
        requires
            0 <= t <= 0xffff_ffff,
            -0x1_0000_0000 <= d <= 0x1_0000_0000,
    ;
    let n: i128 = a * s + d * t;
    let v = if n >= 0 {
        (2 * n + s) / (2 * s)
    } else {
        let m: i128 = 0 - n;
        let q: i128 = (2 * m + s) / (2 * s);
        assert(0 <= q <= 2 * m + s) by (nonlinear_arith)
            requires
                q == (2 * m + s) / (2 * s),
                m > 0,
                s > 0,
        ;
        0 - q
    };
    v as i32
}

/// The updates of an animated move over `steps` 60 Hz ticks, up to tick
/// `n`: each tick whose rounded point differs from the previous tick's point
/// (and the first tick) sends that point, paired with its tick number.
pub open spec fn spec_move_plan(origin: Point, target: Point, steps: nat, n: nat) -> Seq<(int, Point)>
    decreases n,
{
    if n == 0 {
        Seq::empty()
    } else {
        let prev = spec_move_plan(origin, target, steps, (n - 1) as nat);
        let p = spec_path_point(origin, target, n as int, steps as int);
        if n == 1 || p != spec_path_point(origin, target, n - 1, steps as int) {
            prev.push((n as int, p))
        } else {
            prev
        }
    }
}

/// A plan's entries as mathematical integers and points.
pub open spec fn plan_view(v: Seq<(u32, Point)>) -> Seq<(int, Point)> {
    v.map_values(|e: (u32, Point)| (e.0 as int, e.1))
}

/// The pointer updates of a linear move from `origin` to `target` over
/// `duration_ms`, with the pause per 60 Hz tick. An immediate move is the
/// target alone, at tick 1; otherwise each tick's point is the rounded
/// fraction of the way there, a point identical to the previous tick's is
/// not sent again, and each update carries the tick it belongs to. The pause
/// per tick is the duration split evenly over the ticks (in whole
/// milliseconds).
pub fn linear_move_plan(origin: Point, target: Point, duration_ms: u32) -> (r: (Vec<(u32, Point)>, u64))
    ensures
        duration_ms == 0 ==> r.0@ == seq![(1u32, target)] && r.1 == 0,
        duration_ms > 0 ==> {
            let steps = spec_move_steps(duration_ms as nat);
            &&& plan_view(r.0@) == spec_move_plan(origin, target, steps, steps)
            &&& r.1 == (duration_ms as nat) / steps
        },
{
    if duration_ms == 0 {
        let mut v: Vec<(u32, Point)> = Vec::new();
        v.push((1, target));
        return (v, 0);
    }
    let raw = ((duration_ms as u64) * MOVE_UPDATES_PER_SECOND + 999) / 1000;
    let steps: u32 = if raw < 1 {
        1
    } else {
        raw as u32
    };
    let mut plan: Vec<(u32, Point)> = Vec::new();
    let mut prev = origin;
    let mut step: u32 = 1;
    while step <= steps
        invariant
            1 <= step <= steps + 1,
            steps == spec_move_steps(duration_ms as nat),
            steps <= 300_000_000,
            plan_view(plan@) == spec_move_plan(origin, target, steps as nat, (step - 1) as nat),
            step > 1 ==> prev == spec_path_point(origin, target, step - 1, steps as int),
        decreases steps + 1 - step,
    {
        proof {
            lemma_interpolate_bounds(origin.x as int, target.x as int, step as int, steps as int);
            lemma_interpolate_bounds(origin.y as int, target.y as int, step as int, steps as int);
        }
        let p = Point {
            x: interpolate(origin.x, target.x, step, steps),
            y: interpolate(origin.y, target.y, step, steps),
        };
        let ghost before = plan@;
        if step == 1 || p.x != prev.x || p.y != prev.y {
            plan.push((step, p));
            assert(plan_view(plan@) =~= plan_view(before).push((step as int, p)));
        }
        prev = p;
        step = step + 1;
    }
    (plan, (duration_ms as u64) / (steps as u64))
}

/// Law: an animated move sends between one and `steps` updates, at strictly
/// increasing ticks starting with the first; no update repeats the point of
/// the one before it; each is the rounded point of its tick; and the last
/// one is exactly the target.
pub proof fn lemma_move_plan_deduplicated(origin: Point, target: Point, steps: nat)
    requires
        steps > 0,
    ensures
        ({
            let q = spec_move_plan(origin, target, steps, steps);
            &&& 1 <= q.len() <= steps
            &&& q[0].0 == 1
            &&& q.last().1 == target
            &&& forall|i: int| 0 <= i < q.len() ==> 1 <= #[trigger] q[i].0 <= steps
            &&& forall|i: int| 0 <= i < q.len() ==> #[trigger] q[i].1 == spec_path_point(origin, target, q[i].0, steps as int)
            &&& forall|i: int| 0 <= i < q.len() - 1 ==> #[trigger] q[i].0 < q[i + 1].0
            &&& forall|i: int| 0 <= i < q.len() - 1 ==> #[trigger] q[i].1 != q[i + 1].1
        }),
{
    lemma_move_plan_prefix(origin, target, steps, steps);
    lemma_interpolate_bounds(origin.x as int, target.x as int, steps as int, steps as int);
    lemma_interpolate_bounds(origin.y as int, target.y as int, steps as int, steps as int);
}

proof fn lemma_move_plan_prefix(origin: Point, target: Point, steps: nat, n: nat)
    requires
        steps > 0,
        n <= steps,
    ensures
        ({
            let q = spec_move_plan(origin, target, steps, n);
            &&& q.len() <= n
            &&& n >= 1 ==> q.len() >= 1 && q[0].0 == 1 && q.last().1 == spec_path_point(origin, target, n as int, steps as int)
            &&& forall|i: int| 0 <= i < q.len() ==> 1 <= #[trigger] q[i].0 <= n
            &&& forall|i: int| 0 <= i < q.len() ==> #[trigger] q[i].1 == spec_path_point(origin, target, q[i].0, steps as int)
            &&& forall|i: int| 0 <= i < q.len() - 1 ==> #[trigger] q[i].0 < q[i + 1].0
            &&& forall|i: int| 0 <= i < q.len() - 1 ==> #[trigger] q[i].1 != q[i + 1].1
        }),
    decreases n,
{
    if n > 0 {
        lemma_move_plan_prefix(origin, target, steps, (n - 1) as nat);
        let prev = spec_move_plan(origin, target, steps, (n - 1) as nat);
        let p = spec_path_point(origin, target, n as int, steps as int);
        let q = spec_move_plan(origin, target, steps, n);
        if n == 1 || p != spec_path_point(origin, target, n - 1, steps as int) {
            assert(q == prev.push((n as int, p)));
            if n > 1 {
                assert(q[prev.len() - 1] == prev.last());
            }
            assert forall|i: int| 0 <= i < q.len() - 1 implies #[trigger] q[i].0 < q[i + 1].0 by {
                if i + 1 < prev.len() {
                    assert(q[i + 1] == prev[i + 1]);
                }
                assert(q[i] == prev[i]);
            }
            assert forall|i: int| 0 <= i < q.len() - 1 implies #[trigger] q[i].1 != q[i + 1].1 by {
                if i + 1 < prev.len() {
                    assert(q[i + 1] == prev[i + 1]);
                }
                assert(q[i] == prev[i]);
            }
        }
    }
}

/// Law: a linear move ends exactly at its target, and every point on its
/// path lies in the rectangle spanned by the origin and the target.
pub proof fn lemma_linear_move_ends_at_target(origin: Point, target: Point, steps: nat, k: int)
    requires
        steps > 0,
        1 <= k <= steps,
    ensures
        spec_path_point(origin, target, steps as int, steps as int) == target,
        origin.x <= target.x ==> origin.x <= spec_path_point(origin, target, k, steps as int).x
            <= target.x,
        target.x <= origin.x ==> target.x <= spec_path_point(origin, target, k, steps as int).x
            <= origin.x,
        origin.y <= target.y ==> origin.y <= spec_path_point(origin, target, k, steps as int).y
            <= target.y,
        target.y <= origin.y ==> target.y <= spec_path_point(origin, target, k, steps as int).y
            <= origin.y,
{
    lemma_interpolate_bounds(origin.x as int, target.x as int, k, steps as int);
    lemma_interpolate_bounds(origin.y as int, target.y as int, k, steps as int);
    lemma_interpolate_bounds(origin.x as int, target.x as int, steps as int, steps as int);
    lemma_interpolate_bounds(origin.y as int, target.y as int, steps as int, steps as int);
}

} // verus!
