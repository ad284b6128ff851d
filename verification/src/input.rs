use crate::error::{HarnessError, Result};
use crate::models::{
    is_active, logical_extent, monitor_contains, Monitor, Point, ScrollDirection,
};
use crate::text::{signed_decimal, signed_decimal_string};
use vstd::prelude::*;
use vstd::string::*;

verus! {

/// The rectangle, in global logical coordinates, spanned by every active
/// monitor: the frame that absolute virtual-pointer motion is expressed in.
#[derive(Debug, Clone, Copy, PartialEq, Eq, Structural)]
pub struct DesktopBounds {
    pub x: i32,
    pub y: i32,
    pub width: u32,
    pub height: u32,
}

/// A point in the unsigned Wayland frame of a [`DesktopBounds`].
#[derive(Debug, Clone, Copy, PartialEq, Eq, Structural)]
pub struct AbsolutePoint {
    pub x: u32,
    pub y: u32,
}

pub open spec fn left_edge(m: Monitor) -> int {
    m.x as int
}

pub open spec fn top_edge(m: Monitor) -> int {
    m.y as int
}

pub open spec fn right_edge(m: Monitor) -> int {
    m.x + logical_extent(m.width, m.scale_millionths)
}

pub open spec fn bottom_edge(m: Monitor) -> int {
    m.y + logical_extent(m.height, m.scale_millionths)
}

/// The least `edge` over the active monitors, if there is one.
pub open spec fn active_min(ms: Seq<Monitor>, edge: spec_fn(Monitor) -> int) -> Option<int>
    decreases ms.len(),
{
    if ms.len() == 0 {
        None
    } else {
        let rest = active_min(ms.drop_last(), edge);
        let m = ms.last();
        if is_active(m) {
            match rest {
                None => Some(edge(m)),
                Some(v) => Some(if edge(m) < v { edge(m) } else { v }),
            }
        } else {
            rest
        }
    }
}

/// The greatest `edge` over the active monitors, if there is one.
pub open spec fn active_max(ms: Seq<Monitor>, edge: spec_fn(Monitor) -> int) -> Option<int>
    decreases ms.len(),
{
    if ms.len() == 0 {
        None
    } else {
        let rest = active_max(ms.drop_last(), edge);
        let m = ms.last();
        if is_active(m) {
            match rest {
                None => Some(edge(m)),
                Some(v) => Some(if edge(m) > v { edge(m) } else { v }),
            }
        } else {
            rest
        }
    }
}

pub open spec fn left_fn() -> spec_fn(Monitor) -> int {
    |m: Monitor| left_edge(m)
}

pub open spec fn top_fn() -> spec_fn(Monitor) -> int {
    |m: Monitor| top_edge(m)
}

pub open spec fn right_fn() -> spec_fn(Monitor) -> int {
    |m: Monitor| right_edge(m)
}

pub open spec fn bottom_fn() -> spec_fn(Monitor) -> int {
    |m: Monitor| bottom_edge(m)
}

/// The bounding box of the active monitors, when there is an active monitor
/// and the box has a width and height in `1..=u32::MAX`.
pub open spec fn spec_desktop_bounds(ms: Seq<Monitor>) -> Option<DesktopBounds> {
    match (
        active_min(ms, left_fn()),
        active_min(ms, top_fn()),
        active_max(ms, right_fn()),
        active_max(ms, bottom_fn()),
    ) {
        (Some(min_x), Some(min_y), Some(max_x), Some(max_y)) => {
            let width = max_x - min_x;
            let height = max_y - min_y;
            if 0 < width <= u32::MAX && 0 < height <= u32::MAX {
                Some(
                    DesktopBounds {
                        x: min_x as i32,
                        y: min_y as i32,
                        width: width as u32,
                        height: height as u32,
                    },
                )
            } else {
                None
            }
        },
        _ => None,
    }
}

/// The code of the error `DesktopBounds::from_monitors` reports when
/// [`spec_desktop_bounds`] is `None`.
pub open spec fn spec_desktop_bounds_error(ms: Seq<Monitor>) -> &'static str {
    if active_min(ms, left_fn()) is None {
        "OUT_OF_BOUNDS"
    } else {
        "INVALID_ARGUMENT"
    }
}

/// The message of the error `DesktopBounds::from_monitors` reports when
/// [`spec_desktop_bounds`] is `None`.
pub open spec fn spec_desktop_bounds_message(ms: Seq<Monitor>) -> Seq<char> {
    match (
        active_min(ms, left_fn()),
        active_max(ms, right_fn()),
    ) {
        (Some(min_x), Some(max_x)) => if 0 < max_x - min_x <= u32::MAX {
            "active monitor layout height is invalid"@
        } else {
            "active monitor layout width is invalid"@
        },
        _ => "no active monitors found"@,
    }
}

/// The message of an `OUT_OF_BOUNDS` error for a point outside the frame.
pub open spec fn frame_out_of_bounds_text(p: Point) -> Seq<char> {
    "point ("@ + signed_decimal(p.x as int) + ", "@ + signed_decimal(p.y as int)
        + ") is outside Wayland desktop bounds"@
}

/// `p` relative to the bounds' origin, when it lies inside them.
pub open spec fn spec_map_point(b: DesktopBounds, p: Point) -> Option<AbsolutePoint> {
    let dx = p.x - b.x;
    let dy = p.y - b.y;
    if dx < 0 || dy < 0 || dx >= b.width || dy >= b.height {
        None
    } else {
        Some(AbsolutePoint { x: dx as u32, y: dy as u32 })
    }
}

proof fn lemma_active_min_bounds(ms: Seq<Monitor>, edge: spec_fn(Monitor) -> int, i: int)
    requires
        0 <= i < ms.len(),
        is_active(ms[i]),
    ensures
        active_min(ms, edge) matches Some(v) && v <= edge(ms[i]),
    decreases ms.len(),
{
    if i < ms.len() - 1 {
        lemma_active_min_bounds(ms.drop_last(), edge, i);
    }
}

proof fn lemma_active_max_bounds(ms: Seq<Monitor>, edge: spec_fn(Monitor) -> int, i: int)
    requires
        0 <= i < ms.len(),
        is_active(ms[i]),
    ensures
        active_max(ms, edge) matches Some(v) && v >= edge(ms[i]),
    decreases ms.len(),
{
    if i < ms.len() - 1 {
        lemma_active_max_bounds(ms.drop_last(), edge, i);
    }
}

proof fn lemma_active_min_range(ms: Seq<Monitor>, edge: spec_fn(Monitor) -> int, lo: int, hi: int)
    requires
        forall|m: Monitor| lo <= #[trigger] edge(m) <= hi,
    ensures
        active_min(ms, edge) matches Some(v) ==> lo <= v <= hi,
        active_max(ms, edge) matches Some(v) ==> lo <= v <= hi,
    decreases ms.len(),
{
    if ms.len() > 0 {
        lemma_active_min_range(ms.drop_last(), edge, lo, hi);
        let m = ms.last();
        assert(lo <= edge(m) <= hi);
    }
}

proof fn lemma_edge_ranges(ms: Seq<Monitor>)
    ensures
        active_min(ms, left_fn()) matches Some(v) ==> i32::MIN <= v <= i32::MAX,
        active_min(ms, top_fn()) matches Some(v) ==> i32::MIN <= v <= i32::MAX,
        active_max(ms, right_fn()) matches Some(v) ==> 2 * i32::MIN <= v <= 2 * i32::MAX,
        active_max(ms, bottom_fn()) matches Some(v) ==> 2 * i32::MIN <= v <= 2 * i32::MAX,
{
    assert forall|m: Monitor| i32::MIN <= #[trigger] left_fn()(m) <= i32::MAX by {}
    assert forall|m: Monitor| i32::MIN <= #[trigger] top_fn()(m) <= i32::MAX by {}
    assert forall|m: Monitor| 2 * i32::MIN <= #[trigger] right_fn()(m) <= 2 * i32::MAX by {}
    assert forall|m: Monitor| 2 * i32::MIN <= #[trigger] bottom_fn()(m) <= 2 * i32::MAX by {}
    lemma_active_min_range(ms, left_fn(), i32::MIN as int, i32::MAX as int);
    lemma_active_min_range(ms, top_fn(), i32::MIN as int, i32::MAX as int);
    lemma_active_min_range(ms, right_fn(), 2 * i32::MIN, 2 * i32::MAX);
    lemma_active_min_range(ms, bottom_fn(), 2 * i32::MIN, 2 * i32::MAX);
}

proof fn lemma_active_min_witness(ms: Seq<Monitor>, edge: spec_fn(Monitor) -> int)
    requires
        active_min(ms, edge) is Some,
    ensures
        exists|i: int| 0 <= i < ms.len() && is_active(#[trigger] ms[i]),
    decreases ms.len(),
{
    if is_active(ms.last()) {
        assert(is_active(ms[ms.len() - 1]));
    } else {
        lemma_active_min_witness(ms.drop_last(), edge);
        let i = choose|i: int| 0 <= i < ms.drop_last().len() && is_active(#[trigger] ms.drop_last()[i]);
        assert(is_active(ms[i]));
    }
}

proof fn lemma_extremes_agree(ms: Seq<Monitor>, i: int)
    requires
        0 <= i < ms.len(),
        is_active(ms[i]),
    ensures
        active_min(ms, left_fn()) is Some,
        active_min(ms, top_fn()) is Some,
        active_max(ms, right_fn()) is Some,
        active_max(ms, bottom_fn()) is Some,
{
    lemma_active_min_bounds(ms, left_fn(), i);
    lemma_active_min_bounds(ms, top_fn(), i);
    lemma_active_max_bounds(ms, right_fn(), i);
    lemma_active_max_bounds(ms, bottom_fn(), i);
}

/// Law: every point of an active monitor lies inside the desktop bounds, so
/// a target accepted by the policy can always be expressed in the Wayland
/// frame that pointer motion uses.
pub proof fn lemma_contained_points_map(ms: Seq<Monitor>, i: int, p: Point)
    requires
        0 <= i < ms.len(),
        monitor_contains(ms[i], p),
        spec_desktop_bounds(ms) is Some,
    ensures
        spec_map_point(spec_desktop_bounds(ms).unwrap(), p) is Some,
{
    lemma_active_min_bounds(ms, left_fn(), i);
    lemma_active_min_bounds(ms, top_fn(), i);
    lemma_active_max_bounds(ms, right_fn(), i);
    lemma_active_max_bounds(ms, bottom_fn(), i);
    lemma_edge_ranges(ms);
    assert(left_fn()(ms[i]) == ms[i].x);
    assert(top_fn()(ms[i]) == ms[i].y);
    assert(right_fn()(ms[i]) == right_edge(ms[i]));
    assert(bottom_fn()(ms[i]) == bottom_edge(ms[i]));
}

proof fn lemma_active_min_attained(ms: Seq<Monitor>, edge: spec_fn(Monitor) -> int)
    requires
        active_min(ms, edge) is Some,
    ensures
        exists|i: int| 0 <= i < ms.len() && is_active(ms[i]) && edge(ms[i]) == active_min(ms, edge)->Some_0,
    decreases ms.len(),
{
    let rest = ms.drop_last();
    let n = ms.len() - 1;
    if is_active(ms.last()) && (active_min(rest, edge) is None || edge(ms.last()) < active_min(rest, edge)->Some_0) {
        assert(ms[n] == ms.last());
    } else {
        lemma_active_min_attained(rest, edge);
        let i = choose|i: int| 0 <= i < rest.len() && is_active(rest[i]) && edge(rest[i]) == active_min(rest, edge)->Some_0;
        assert(ms[i] == rest[i]);
        if is_active(ms.last()) {
            assert(ms[n] == ms.last());
        }
    }
}

proof fn lemma_active_max_attained(ms: Seq<Monitor>, edge: spec_fn(Monitor) -> int)
    requires
        active_max(ms, edge) is Some,
    ensures
        exists|i: int| 0 <= i < ms.len() && is_active(ms[i]) && edge(ms[i]) == active_max(ms, edge)->Some_0,
    decreases ms.len(),
{
    let rest = ms.drop_last();
    let n = ms.len() - 1;
    if is_active(ms.last()) && (active_max(rest, edge) is None || edge(ms.last()) > active_max(rest, edge)->Some_0) {
        assert(ms[n] == ms.last());
    } else {
        lemma_active_max_attained(rest, edge);
        let i = choose|i: int| 0 <= i < rest.len() && is_active(rest[i]) && edge(rest[i]) == active_max(rest, edge)->Some_0;
        assert(ms[i] == rest[i]);
        if is_active(ms.last()) {
            assert(ms[n] == ms.last());
        }
    }
}

/// Law: the desktop bounds are the tight bounding box of the enabled,
/// powered monitors. Every such monitor lies inside them, and each of the
/// four sides is the edge of one of them: the left side is the least `x`,
/// the top the least `y`, the right side the greatest right edge and the
/// bottom the greatest bottom edge.
pub proof fn lemma_desktop_bounds_tight(ms: Seq<Monitor>)
    requires
        spec_desktop_bounds(ms) is Some,
    ensures
        ({
            let b = spec_desktop_bounds(ms)->Some_0;
            &&& forall|i: int|
                0 <= i < ms.len() && !(#[trigger] ms[i]).disabled && ms[i].dpms_status ==> {
                    &&& b.x <= ms[i].x
                    &&& b.y <= ms[i].y
                    &&& ms[i].x + logical_extent(ms[i].width, ms[i].scale_millionths) <= b.x + b.width
                    &&& ms[i].y + logical_extent(ms[i].height, ms[i].scale_millionths) <= b.y + b.height
                }
            &&& exists|i: int|
                0 <= i < ms.len() && !(#[trigger] ms[i]).disabled && ms[i].dpms_status && ms[i].x == b.x
            &&& exists|i: int|
                0 <= i < ms.len() && !(#[trigger] ms[i]).disabled && ms[i].dpms_status && ms[i].y == b.y
            &&& exists|i: int|
                0 <= i < ms.len() && !(#[trigger] ms[i]).disabled && ms[i].dpms_status && ms[i].x
                    + logical_extent(ms[i].width, ms[i].scale_millionths) == b.x + b.width
            &&& exists|i: int|
                0 <= i < ms.len() && !(#[trigger] ms[i]).disabled && ms[i].dpms_status && ms[i].y
                    + logical_extent(ms[i].height, ms[i].scale_millionths) == b.y + b.height
        }),
{
    lemma_edge_ranges(ms);
    let b = spec_desktop_bounds(ms)->Some_0;
    assert forall|i: int|
        0 <= i < ms.len() && !(#[trigger] ms[i]).disabled && ms[i].dpms_status implies {
            &&& b.x <= ms[i].x
            &&& b.y <= ms[i].y
            &&& ms[i].x + logical_extent(ms[i].width, ms[i].scale_millionths) <= b.x + b.width
            &&& ms[i].y + logical_extent(ms[i].height, ms[i].scale_millionths) <= b.y + b.height
        } by {
        lemma_active_min_bounds(ms, left_fn(), i);
        lemma_active_min_bounds(ms, top_fn(), i);
        lemma_active_max_bounds(ms, right_fn(), i);
        lemma_active_max_bounds(ms, bottom_fn(), i);
        assert(left_fn()(ms[i]) == ms[i].x);
        assert(top_fn()(ms[i]) == ms[i].y);
        assert(right_fn()(ms[i]) == right_edge(ms[i]));
        assert(bottom_fn()(ms[i]) == bottom_edge(ms[i]));
    }
    lemma_active_min_attained(ms, left_fn());
    lemma_active_min_attained(ms, top_fn());
    lemma_active_max_attained(ms, right_fn());
    lemma_active_max_attained(ms, bottom_fn());
    let i1 = choose|i: int| 0 <= i < ms.len() && is_active(ms[i]) && left_fn()(ms[i]) == active_min(ms, left_fn())->Some_0;
    let i2 = choose|i: int| 0 <= i < ms.len() && is_active(ms[i]) && top_fn()(ms[i]) == active_min(ms, top_fn())->Some_0;
    let i3 = choose|i: int| 0 <= i < ms.len() && is_active(ms[i]) && right_fn()(ms[i]) == active_max(ms, right_fn())->Some_0;
    let i4 = choose|i: int| 0 <= i < ms.len() && is_active(ms[i]) && bottom_fn()(ms[i]) == active_max(ms, bottom_fn())->Some_0;
    assert(ms[i1].x == b.x);
    assert(ms[i2].y == b.y);
    assert(ms[i3].x + logical_extent(ms[i3].width, ms[i3].scale_millionths) == b.x + b.width);
    assert(ms[i4].y + logical_extent(ms[i4].height, ms[i4].scale_millionths) == b.y + b.height);
}

proof fn lemma_no_active_edges(ms: Seq<Monitor>, edge: spec_fn(Monitor) -> int)
    requires
        forall|i: int| 0 <= i < ms.len() ==> (#[trigger] ms[i]).disabled || !ms[i].dpms_status,
    ensures
        active_min(ms, edge) is None,
        active_max(ms, edge) is None,
    decreases ms.len(),
{
    if ms.len() > 0 {
        assert(ms[ms.len() - 1] == ms.last());
        assert forall|i: int| 0 <= i < ms.drop_last().len() implies (#[trigger] ms.drop_last()[i]).disabled
            || !ms.drop_last()[i].dpms_status by {
            assert(ms.drop_last()[i] == ms[i]);
        }
        lemma_no_active_edges(ms.drop_last(), edge);
    }
}

/// Law: with no enabled, powered monitor there are no desktop bounds, and
/// the failure is `OUT_OF_BOUNDS` ("no active monitors found"); with one,
/// a failure can only be an invalid layout size (`INVALID_ARGUMENT`).
pub proof fn lemma_desktop_bounds_need_an_active_monitor(ms: Seq<Monitor>)
    ensures
        (forall|i: int| 0 <= i < ms.len() ==> (#[trigger] ms[i]).disabled || !ms[i].dpms_status)
            ==> spec_desktop_bounds(ms) is None && spec_desktop_bounds_error(ms) == "OUT_OF_BOUNDS"
            && spec_desktop_bounds_message(ms) == "no active monitors found"@,
        (exists|i: int| 0 <= i < ms.len() && !(#[trigger] ms[i]).disabled && ms[i].dpms_status)
            ==> spec_desktop_bounds_error(ms) == "INVALID_ARGUMENT",
{
    if forall|i: int| 0 <= i < ms.len() ==> (#[trigger] ms[i]).disabled || !ms[i].dpms_status {
        lemma_no_active_edges(ms, left_fn());
        lemma_no_active_edges(ms, top_fn());
        lemma_no_active_edges(ms, right_fn());
        lemma_no_active_edges(ms, bottom_fn());
    }
    if exists|i: int| 0 <= i < ms.len() && !(#[trigger] ms[i]).disabled && ms[i].dpms_status {
        let i = choose|i: int| 0 <= i < ms.len() && !(#[trigger] ms[i]).disabled && ms[i].dpms_status;
        lemma_active_min_bounds(ms, left_fn(), i);
    }
}

/// Law: a point maps into the Wayland frame exactly when it lies inside the
/// bounds, half-open on the right and bottom, and it then maps to its offset
/// from the bounds' top-left corner.
pub proof fn lemma_map_point_offsets(b: DesktopBounds, p: Point)
    ensures
        spec_map_point(b, p) is Some <==> (b.x <= p.x && p.x < b.x + b.width && b.y <= p.y && p.y
            < b.y + b.height),
        spec_map_point(b, p) matches Some(a) ==> a.x + b.x == p.x && a.y + b.y == p.y,
{
}

/// The extremes of one edge over a prefix, tracked by the loop in
/// `from_monitors`.
fn fold_min(acc: Option<i64>, v: i64) -> (r: Option<i64>)
    ensures
        r == Some(match acc {
            None => v,
            Some(a) => if v < a { v } else { a },
        }),
{
    match acc {
        None => Some(v),
        Some(a) => Some(if v < a { v } else { a }),
    }
}

fn fold_max(acc: Option<i64>, v: i64) -> (r: Option<i64>)
    ensures
        r == Some(match acc {
            None => v,
            Some(a) => if v > a { v } else { a },
        }),
{
    match acc {
        None => Some(v),
        Some(a) => Some(if v > a { v } else { a }),
    }
}

pub open spec fn opt_int(o: Option<i64>) -> Option<int> {
    match o {
        None => None,
        Some(v) => Some(v as int),
    }
}

impl DesktopBounds {
    /// The bounding box of the active monitors. `OUT_OF_BOUNDS` when no
    /// monitor is active; `INVALID_ARGUMENT` when the box has no width or
    /// height or one beyond `u32::MAX`.
    pub fn from_monitors(monitors: &[Monitor]) -> (r: Result<Self>)
        ensures
            match r {
                Ok(b) => spec_desktop_bounds(monitors@) == Some(b),
                Err(e) => spec_desktop_bounds(monitors@) is None && e.code
                    == spec_desktop_bounds_error(monitors@) && e.message@
                    == spec_desktop_bounds_message(monitors@),
            },
    {
        let mut min_x: Option<i64> = None;
        let mut min_y: Option<i64> = None;
        let mut max_x: Option<i64> = None;
        let mut max_y: Option<i64> = None;
        let mut i: usize = 0;
        while i < monitors.len()
            invariant
                i <= monitors@.len(),
                opt_int(min_x) == active_min(monitors@.take(i as int), left_fn()),
                opt_int(min_y) == active_min(monitors@.take(i as int), top_fn()),
                opt_int(max_x) == active_max(monitors@.take(i as int), right_fn()),
                opt_int(max_y) == active_max(monitors@.take(i as int), bottom_fn()),
                min_x matches Some(v) ==> i32::MIN <= v <= i32::MAX,
                min_y matches Some(v) ==> i32::MIN <= v <= i32::MAX,
                max_x matches Some(v) ==> 2 * i32::MIN <= v <= 2 * i32::MAX,
                max_y matches Some(v) ==> 2 * i32::MIN <= v <= 2 * i32::MAX,
            decreases monitors@.len() - i,
        {
            let m = &monitors[i];
            assert(monitors@.take(i + 1).drop_last() =~= monitors@.take(i as int));
            assert(monitors@.take(i + 1).last() == monitors@[i as int]);
            if !m.disabled && m.dpms_status {
                let w = m.logical_width() as i64;
                let h = m.logical_height() as i64;
                min_x = fold_min(min_x, m.x as i64);
                min_y = fold_min(min_y, m.y as i64);
                max_x = fold_max(max_x, m.x as i64 + w);
                max_y = fold_max(max_y, m.y as i64 + h);
            }
            i = i + 1;
        }
        assert(monitors@.take(monitors@.len() as int) =~= monitors@);
        let (min_x, min_y, max_x, max_y) = match (min_x, min_y, max_x, max_y) {
            (Some(a), Some(b), Some(c), Some(d)) => (a, b, c, d),
            _ => {
                proof {
                    if active_min(monitors@, left_fn()) is Some {
                        lemma_active_min_witness(monitors@, left_fn());
                        let k = choose|k: int| 0 <= k < monitors@.len() && is_active(#[trigger] monitors@[k]);
                        lemma_extremes_agree(monitors@, k);
                    }
                }
                return Err(HarnessError::new("OUT_OF_BOUNDS", "no active monitors found".to_string()));
            },
        };
        let width = max_x - min_x;
        if width <= 0 || width > u32::MAX as i64 {
            return Err(HarnessError::invalid("active monitor layout width is invalid".to_string()));
        }
        let height = max_y - min_y;
        if height <= 0 || height > u32::MAX as i64 {
            return Err(HarnessError::invalid("active monitor layout height is invalid".to_string()));
        }
        Ok(DesktopBounds { x: min_x as i32, y: min_y as i32, width: width as u32, height: height as u32 })
    }

    /// `point` relative to the bounds' origin; `OUT_OF_BOUNDS` when it lies
    /// outside them.
    pub fn map_point(self, point: &Point) -> (r: Result<AbsolutePoint>)
        ensures
            match r {
                Ok(a) => spec_map_point(self, *point) == Some(a),
                Err(e) => spec_map_point(self, *point) is None && e.code == "OUT_OF_BOUNDS"
                    && e.message@ == frame_out_of_bounds_text(*point),
            },
    {
        let x = point.x as i64 - self.x as i64;
        let y = point.y as i64 - self.y as i64;
        if x < 0 || y < 0 || x >= self.width as i64 || y >= self.height as i64 {
            return Err(HarnessError::new("OUT_OF_BOUNDS", desktop_bounds_message(point)));
        }
        Ok(AbsolutePoint { x: x as u32, y: y as u32 })
    }
}

fn desktop_bounds_message(point: &Point) -> (s: String)
    ensures
        s@ == frame_out_of_bounds_text(*point),
{
    let mut s = String::from_str("point (");
    let x = signed_decimal_string(point.x as i64);
    s.append(x.as_str());
    s.append(", ");
    let y = signed_decimal_string(point.y as i64);
    s.append(y.as_str());
    s.append(") is outside Wayland desktop bounds");
    s
}

/// Maps every point of a trajectory into the Wayland frame. An empty
/// trajectory is `INVALID_ARGUMENT`; otherwise the first point outside the
/// bounds makes it `OUT_OF_BOUNDS`.
pub fn map_trajectory(bounds: DesktopBounds, points: &[Point]) -> (r: Result<Vec<AbsolutePoint>>)
    ensures
        points@.len() == 0 ==> (r matches Err(e) && e.code == "INVALID_ARGUMENT" && e.message@
            == "pointer trajectory must contain at least one point"@),
        points@.len() > 0 ==> (r is Ok <==> forall|i: int|
            0 <= i < points@.len() ==> spec_map_point(bounds, #[trigger] points@[i]) is Some),
        r matches Ok(v) ==> v@.len() == points@.len() && forall|i: int|
            0 <= i < points@.len() ==> spec_map_point(bounds, #[trigger] points@[i]) == Some(v@[i]),
        points@.len() > 0 ==> (r matches Err(e) ==> exists|i: int|
            0 <= i < points@.len() && spec_map_point(bounds, #[trigger] points@[i]) is None
                && e.code == "OUT_OF_BOUNDS" && e.message@ == frame_out_of_bounds_text(points@[i])
                && forall|j: int| 0 <= j < i ==> spec_map_point(bounds, #[trigger] points@[j]) is Some),
{
    if points.len() == 0 {
        return Err(HarnessError::invalid("pointer trajectory must contain at least one point".to_string()));
    }
    let mut out: Vec<AbsolutePoint> = Vec::new();
    let mut i: usize = 0;
    while i < points.len()
        invariant
            i <= points@.len(),
            out@.len() == i,
            forall|j: int| 0 <= j < i ==> spec_map_point(bounds, #[trigger] points@[j]) == Some(out@[j]),
        decreases points@.len() - i,
    {
        let a = bounds.map_point(&points[i])?;
        out.push(a);
        i = i + 1;
    }
    Ok(out)
}

/// The wheel axis of a scroll event.
#[derive(Debug, Clone, Copy, PartialEq, Eq, Structural)]
pub enum ScrollAxis {
    Vertical,
    Horizontal,
}

/// The axis and signed discrete step count that a scroll of `amount` wheel
/// steps in `direction` emits; up and left scroll negatively.
pub fn scroll_steps(direction: ScrollDirection, amount: u8) -> (r: (ScrollAxis, i32))
    ensures
        r == match direction {
            ScrollDirection::Up => (ScrollAxis::Vertical, -(amount as int) as i32),
            ScrollDirection::Down => (ScrollAxis::Vertical, amount as i32),
            ScrollDirection::Left => (ScrollAxis::Horizontal, -(amount as int) as i32),
            ScrollDirection::Right => (ScrollAxis::Horizontal, amount as i32),
        },
{
    let n = amount as i32;
    match direction {
        ScrollDirection::Up => (ScrollAxis::Vertical, -n),
        ScrollDirection::Down => (ScrollAxis::Vertical, n),
        ScrollDirection::Left => (ScrollAxis::Horizontal, -n),
        ScrollDirection::Right => (ScrollAxis::Horizontal, n),
    }
}

} // verus!
