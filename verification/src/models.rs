use vstd::prelude::*;

verus! {

/// A point in Hyprland's global logical coordinate space.
#[derive(Debug, Clone, Copy, PartialEq, Eq, Structural)]
pub struct Point {
    pub x: i32,
    pub y: i32,
}

/// A workspace reference as Hyprland reports it.
#[derive(Debug, Clone, Default)]
pub struct WorkspaceRef {
    pub id: i64,
    pub name: String,
}

/// The scale factor that Hyprland's `1.0` corresponds to in
/// [`Monitor::scale_millionths`].
pub const SCALE_ONE: i64 = 1_000_000;

/// The smallest scale the geometry honours (`0.01`); smaller, zero or
/// negative scales are treated as this value.
pub const MIN_SCALE: i64 = 10_000;

/// A monitor as Hyprland reports it. Its fractional scale factor is held in
/// fixed point: `scale_millionths == 1_000_000` is a scale of `1.0`.
#[derive(Debug, Clone)]
pub struct Monitor {
    pub id: i64,
    pub name: String,
    pub description: String,
    pub width: i32,
    pub height: i32,
    pub x: i32,
    pub y: i32,
    pub scale_millionths: i64,
    pub transform: i32,
    pub focused: bool,
    pub disabled: bool,
    pub dpms_status: bool,
    pub active_workspace: WorkspaceRef,
}

/// `n / d` rounded to the nearest integer, halves away from zero.
pub open spec fn div_round(n: int, d: int) -> int
    recommends
        d > 0,
{
    if n >= 0 {
        (2 * n + d) / (2 * d)
    } else {
        -((-2 * n + d) / (2 * d))
    }
}

/// Clamps a mathematical integer into the `i32` range.
pub open spec fn saturate_i32(v: int) -> i32 {
    if v < i32::MIN {
        i32::MIN
    } else if v > i32::MAX {
        i32::MAX
    } else {
        v as i32
    }
}

/// The scale actually used for geometry: never below `MIN_SCALE`.
pub open spec fn effective_scale(scale_millionths: i64) -> int {
    if scale_millionths < MIN_SCALE {
        MIN_SCALE as int
    } else {
        scale_millionths as int
    }
}

/// A pixel extent divided by the monitor scale, rounded and saturated to `i32`.
pub open spec fn logical_extent(pixels: i32, scale_millionths: i64) -> i32 {
    saturate_i32(div_round(pixels * SCALE_ONE, effective_scale(scale_millionths)))
}

/// Whether a monitor takes part in the desktop: enabled and powered.
pub open spec fn is_active(m: Monitor) -> bool {
    !m.disabled && m.dpms_status
}

/// Whether an active monitor's logical rectangle contains `p`.
pub open spec fn monitor_contains(m: Monitor, p: Point) -> bool {
    &&& is_active(m)
    &&& p.x >= m.x
    &&& p.y >= m.y
    &&& p.x < m.x + logical_extent(m.width, m.scale_millionths)
    &&& p.y < m.y + logical_extent(m.height, m.scale_millionths)
}

/// Rounded division with halves away from zero on machine integers.
fn div_round_i128(n: i128, d: i128) -> (r: i128)
    requires
        d > 0,
        -0x1_0000_0000_0000_0000 < n < 0x1_0000_0000_0000_0000,
        d < 0x1_0000_0000_0000_0000,
    ensures
        r == div_round(n as int, d as int),
{
    if n >= 0 {
        (2 * n + d) / (2 * d)
    } else {
        let m: i128 = 0 - n;
        let q: i128 = (2 * m + d) / (2 * d);
        assert(0 <= q <= 2 * m + d) by (nonlinear_arith)
            requires
                q == (2 * m + d) / (2 * d),
                m > 0,
                d > 0,
        ;
        0 - q
    }
}

/// Computes [`logical_extent`].
fn scaled_extent(pixels: i32, scale_millionths: i64) -> (r: i32)
    ensures
        r == logical_extent(pixels, scale_millionths),
{
    let scale: i64 = if scale_millionths < MIN_SCALE {
        MIN_SCALE
    } else {
        scale_millionths
    };
    let n: i128 = (pixels as i128) * (SCALE_ONE as i128);
    let v = div_round_i128(n, scale as i128);
    if v < i32::MIN as i128 {
        i32::MIN
    } else if v > i32::MAX as i128 {
        i32::MAX
    } else {
        v as i32
    }
}

impl Monitor {
    /// Width in global logical coordinates: pixel width over scale, rounded.
    pub fn logical_width(&self) -> (w: i32)
        ensures
            w == logical_extent(self.width, self.scale_millionths),
    {
        scaled_extent(self.width, self.scale_millionths)
    }

    /// Height in global logical coordinates: pixel height over scale, rounded.
    pub fn logical_height(&self) -> (h: i32)
        ensures
            h == logical_extent(self.height, self.scale_millionths),
    {
        scaled_extent(self.height, self.scale_millionths)
    }

    /// Whether this monitor is enabled, powered, and its logical rectangle
    /// contains `point`.
    pub fn contains(&self, point: &Point) -> (b: bool)
        ensures
            b == monitor_contains(*self, *point),
    {
        if self.disabled || !self.dpms_status {
            return false;
        }
        let w = self.logical_width() as i64;
        let h = self.logical_height() as i64;
        point.x >= self.x && point.y >= self.y && (point.x as i64) < (self.x as i64) + w
            && (point.y as i64) < (self.y as i64) + h
    }
}

/// A client window as Hyprland reports it.
#[derive(Debug, Clone)]
pub struct Window {
    pub address: String,
    pub stable_id: String,
    pub mapped: bool,
    pub hidden: bool,
    pub visible: bool,
    pub accepts_input: bool,
    pub at: [i32; 2],
    pub size: [i32; 2],
    pub workspace: WorkspaceRef,
    pub monitor: i64,
    pub class: String,
    pub title: String,
    pub pid: i64,
    pub xwayland: bool,
    pub fullscreen: i32,
    pub focus_history_id: i64,
    pub focused: bool,
}

/// The cursor position as Hyprland reports it.
#[derive(Debug, Clone, Copy)]
pub struct CursorPosition {
    pub x: i32,
    pub y: i32,
}

impl From<CursorPosition> for Point {
    fn from(value: CursorPosition) -> (p: Self) {
        Point { x: value.x, y: value.y }
    }
}

impl vstd::std_specs::convert::FromSpecImpl<CursorPosition> for Point {
    open spec fn obeys_from_spec() -> bool {
        true
    }

    open spec fn from_spec(value: CursorPosition) -> Self {
        Point { x: value.x, y: value.y }
    }
}

/// Hyprland's session lock state.
#[derive(Debug, Clone, Copy, Default)]
pub struct LockStatus {
    pub locked: bool,
}

/// A pointer button.
#[derive(Debug, Clone, Copy, PartialEq, Eq, Structural)]
pub enum MouseButton {
    Left,
    Middle,
    Right,
}

impl MouseButton {
    /// The Linux input event code (`BTN_LEFT`, `BTN_RIGHT`, `BTN_MIDDLE`).
    pub fn linux_code(&self) -> (c: u32)
        ensures
            c == match *self {
                MouseButton::Left => 0x110u32,
                MouseButton::Right => 0x111u32,
                MouseButton::Middle => 0x112u32,
            },
    {
        match self {
            MouseButton::Left => 0x110,
            MouseButton::Right => 0x111,
            MouseButton::Middle => 0x112,
        }
    }

    /// The lowercase button name used in tool arguments.
    pub fn as_str(&self) -> (s: &'static str)
        ensures
            s == match *self {
                MouseButton::Left => "left",
                MouseButton::Middle => "middle",
                MouseButton::Right => "right",
            },
    {
        match self {
            MouseButton::Left => "left",
            MouseButton::Middle => "middle",
            MouseButton::Right => "right",
        }
    }
}

/// A wheel scroll direction.
#[derive(Debug, Clone, Copy, PartialEq, Eq, Structural)]
pub enum ScrollDirection {
    Up,
    Down,
    Left,
    Right,
}

/// A keyboard modifier accepted by `press_key`.
#[derive(Debug, Clone, Copy, PartialEq, Eq, Structural)]
pub enum KeyModifier {
    Ctrl,
    Alt,
    Shift,
    Super,
}

impl KeyModifier {
    /// The modifier name that `wtype -M`/`-m` understands.
    pub fn wtype_name(&self) -> (s: &'static str)
        ensures
            s == match *self {
                KeyModifier::Ctrl => "ctrl",
                KeyModifier::Alt => "alt",
                KeyModifier::Shift => "shift",
                KeyModifier::Super => "logo",
            },
    {
        match self {
            KeyModifier::Ctrl => "ctrl",
            KeyModifier::Alt => "alt",
            KeyModifier::Shift => "shift",
            KeyModifier::Super => "logo",
        }
    }
}

/// How the pointer travels to its destination.
#[derive(Debug, Clone, Copy, PartialEq, Eq, Structural)]
pub enum MotionProfile {
    Natural,
    Smooth,
    Instant,
}

impl Default for MotionProfile {
    fn default() -> (m: Self)
        ensures
            m == MotionProfile::Natural,
    {
        MotionProfile::Natural
    }
}

/// The serde default of `Monitor::dpms_status`: monitors are powered unless
/// Hyprland says otherwise.
pub fn true_value() -> (b: bool)
    ensures
        b,
{
    true
}

} // verus!
