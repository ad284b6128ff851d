use crate::error::{HarnessError, Result};
use crate::models::{logical_extent, monitor_contains, Monitor, Point};
use vstd::prelude::*;

verus! {

/// Checks the excursion of the pointer self-test: `INVALID_ARGUMENT`
/// outside `1..=500` logical pixels.
pub fn validate_test_distance(distance: i32) -> (r: Result<()>)
    ensures
        r is Ok <==> 1 <= distance <= 500,
        r matches Err(e) ==> e.code == "INVALID_ARGUMENT" && e.message@
            == "distance must be between 1 and 500"@,
{
    if distance < 1 || distance > 500 {
        return Err(HarnessError::invalid("distance must be between 1 and 500".to_string()));
    }
    Ok(())
}

/// `v` clamped into `lo..=hi`.
pub open spec fn clamp(v: int, lo: int, hi: int) -> int {
    if v < lo {
        lo
    } else if v > hi {
        hi
    } else {
        v
    }
}

/// The corner the self-test travels to: `distance` right and down of the
/// origin, kept on the origin's monitor.
pub open spec fn test_corner(origin: Point, m: Monitor, distance: int) -> Point {
    Point {
        x: clamp(origin.x + distance, m.x as int, m.x + logical_extent(m.width, m.scale_millionths) - 1) as i32,
        y: clamp(origin.y + distance, m.y as int, m.y + logical_extent(m.height, m.scale_millionths) - 1) as i32,
    }
}

/// The square the pointer self-test traces on the origin's monitor: right,
/// down, left, and back to the origin.
pub fn pointer_test_pattern(origin: Point, monitor: &Monitor, distance: i32) -> (v: Vec<Point>)
    requires
        monitor_contains(*monitor, origin),
        1 <= distance <= 500,
        origin.x + distance <= i32::MAX,
        origin.y + distance <= i32::MAX,
        monitor.x + logical_extent(monitor.width, monitor.scale_millionths) <= i32::MAX,
        monitor.y + logical_extent(monitor.height, monitor.scale_millionths) <= i32::MAX,
    ensures
        ({
            let c = test_corner(origin, *monitor, distance as int);
            v@ == seq![
                Point { x: c.x, y: origin.y },
                c,
                Point { x: origin.x, y: c.y },
                origin,
            ]
        }),
        forall|k: int| 0 <= k < v@.len() ==> monitor_contains(*monitor, #[trigger] v@[k]),
{
    let max_x = monitor.x as i64 + monitor.logical_width() as i64 - 1;
    let max_y = monitor.y as i64 + monitor.logical_height() as i64 - 1;
    let want_x = origin.x as i64 + distance as i64;
    let want_y = origin.y as i64 + distance as i64;
    let x = if want_x < monitor.x as i64 {
        monitor.x as i64
    } else if want_x > max_x {
        max_x
    } else {
        want_x
    };
    let y = if want_y < monitor.y as i64 {
        monitor.y as i64
    } else if want_y > max_y {
        max_y
    } else {
        want_y
    };
    assert(monitor.x <= x <= max_x && monitor.y <= y <= max_y);
    let mut v: Vec<Point> = Vec::new();
    v.push(Point { x: x as i32, y: origin.y });
    v.push(Point { x: x as i32, y: y as i32 });
    v.push(Point { x: origin.x, y: y as i32 });
    v.push(origin);
    assert(monitor_contains(*monitor, v@[0]));
    assert(monitor_contains(*monitor, v@[1]));
    assert(monitor_contains(*monitor, v@[2]));
    assert(monitor_contains(*monitor, v@[3]));
    v
}

} // verus!
