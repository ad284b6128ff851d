use crate::error::{HarnessError, Result};
use crate::models::{Point, Window};
use crate::text::{signed_decimal, signed_decimal_string, str_eq};
use std::path::PathBuf;
use vstd::prelude::*;
use vstd::string::*;

verus! {

/// The characters `String::from_utf8_lossy` decodes a byte string to
/// (invalid sequences become U+FFFD).
pub uninterp spec fn utf8_lossy(bytes: Seq<u8>) -> Seq<char>;

/// Calls `String::from_utf8_lossy`; the text is named [`utf8_lossy`] of the
/// bytes.
#[verifier::external_body]
fn decode_lossy(bytes: &[u8]) -> (s: String)
    ensures
        s@ == utf8_lossy(bytes@),
{
    String::from_utf8_lossy(bytes).into_owned()
}

/// The request that asks Hyprland for `command` as JSON.
pub fn json_request(command: &str) -> (s: String)
    ensures
        s@ == "j/"@ + command@,
{
    let mut s = String::from_str("j/");
    s.append(command);
    s
}

/// The request that runs a Hyprland dispatcher.
pub fn dispatch_request(command: &str) -> (s: String)
    ensures
        s@ == "dispatch "@ + command@,
{
    let mut s = String::from_str("dispatch ");
    s.append(command);
    s
}

/// The dispatcher command that warps the cursor to `point`.
pub fn movecursor_command(point: &Point) -> (s: String)
    ensures
        s@ == "movecursor "@ + signed_decimal(point.x as int) + " "@ + signed_decimal(
            point.y as int,
        ),
{
    let mut s = String::from_str("movecursor ");
    let x = signed_decimal_string(point.x as i64);
    s.append(x.as_str());
    s.append(" ");
    let y = signed_decimal_string(point.y as i64);
    s.append(y.as_str());
    s
}

/// The query for a Hyprland configuration option.
pub fn getoption_command(name: &str) -> (s: String)
    ensures
        s@ == "getoption "@ + name@,
{
    let mut s = String::from_str("getoption ");
    s.append(name);
    s
}

/// Whether a character has the Unicode `White_Space` property (what
/// `char::is_whitespace` and `str::trim` go by).
pub open spec fn is_white_space(c: char) -> bool {
    let u = c as u32;
    ||| 0x09 <= u <= 0x0d
    ||| u == 0x20
    ||| u == 0x85
    ||| u == 0xa0
    ||| u == 0x1680
    ||| 0x2000 <= u <= 0x200a
    ||| u == 0x2028
    ||| u == 0x2029
    ||| u == 0x202f
    ||| u == 0x205f
    ||| u == 0x3000
}

/// The string without trailing white space.
pub open spec fn trim_end(s: Seq<char>) -> Seq<char>
    decreases s.len(),
{
    if s.len() > 0 && is_white_space(s.last()) {
        trim_end(s.drop_last())
    } else {
        s
    }
}

/// The string without leading white space.
pub open spec fn trim_start(s: Seq<char>) -> Seq<char>
    decreases s.len(),
{
    if s.len() > 0 && is_white_space(s[0]) {
        trim_start(s.drop_first())
    } else {
        s
    }
}

/// The string without leading and trailing white space.
pub open spec fn trim(s: Seq<char>) -> Seq<char> {
    trim_start(trim_end(s))
}

fn white_space(c: char) -> (b: bool)
    ensures
        b == is_white_space(c),
{
    let u = c as u32;
    (0x09 <= u && u <= 0x0d) || u == 0x20 || u == 0x85 || u == 0xa0 || u == 0x1680 || (0x2000 <= u
        && u <= 0x200a) || u == 0x2028 || u == 0x2029 || u == 0x202f || u == 0x205f || u == 0x3000
}

/// Removes leading and trailing white space.
pub fn trim_string(s: &str) -> (r: String)
    ensures
        r@ == trim(s@),
{
    let n = s.unicode_len();
    let mut j: usize = n;
    assert(s@.subrange(0, n as int) =~= s@);
    while j > 0 && white_space(s.get_char(j - 1))
        invariant
            j <= n == s@.len(),
            trim_end(s@) == trim_end(s@.subrange(0, j as int)),
        decreases j,
    {
        assert(s@.subrange(0, j as int).drop_last() =~= s@.subrange(0, j - 1));
        j = j - 1;
    }
    assert(trim_end(s@.subrange(0, j as int)) == s@.subrange(0, j as int));
    let mut i: usize = 0;
    while i < j && white_space(s.get_char(i))
        invariant
            i <= j <= n == s@.len(),
            trim_end(s@) == s@.subrange(0, j as int),
            trim(s@) == trim_start(s@.subrange(i as int, j as int)),
        decreases j - i,
    {
        assert(s@.subrange(i as int, j as int).drop_first() =~= s@.subrange(i + 1, j as int));
        i = i + 1;
    }
    assert(trim_start(s@.subrange(i as int, j as int)) == s@.subrange(i as int, j as int));
    s.substring_char(i, j).to_string()
}

/// Interprets Hyprland's reply to a dispatcher request: success is exactly
/// `ok` up to surrounding white space; anything else is `IPC_UNAVAILABLE`
/// with the trimmed reply in the message.
pub fn check_dispatch_response(bytes: &[u8]) -> (r: Result<()>)
    ensures
        r is Ok <==> trim(utf8_lossy(bytes@)) == "ok"@,
        r matches Err(e) ==> e.code == "IPC_UNAVAILABLE" && e.message@
            == "Hyprland dispatcher rejected command: "@ + trim(utf8_lossy(bytes@)),
{
    let response = decode_lossy(bytes);
    let trimmed = trim_string(response.as_str());
    if str_eq(trimmed.as_str(), "ok") {
        Ok(())
    } else {
        let mut message = String::from_str("Hyprland dispatcher rejected command: ");
        message.append(trimmed.as_str());
        Err(HarnessError::new("IPC_UNAVAILABLE", message))
    }
}

/// The window list with focus resolved: when Hyprland names an active
/// window, exactly the windows with that address are focused; otherwise the
/// first window with focus history 0 is marked focused and the rest keep
/// their flag.
pub open spec fn spec_resolve_focus(ws: Seq<Window>, active: Option<Seq<char>>) -> Seq<Window> {
    match active {
        Some(address) => Seq::new(
            ws.len(),
            |i: int| Window { focused: ws[i].address@ == address, ..ws[i] },
        ),
        None => if exists|i: int| 0 <= i < ws.len() && (#[trigger] ws[i]).focus_history_id == 0 {
            let k = choose|i: int|
                0 <= i < ws.len() && (#[trigger] ws[i]).focus_history_id == 0 && forall|j: int|
                    0 <= j < i ==> (#[trigger] ws[j]).focus_history_id != 0;
            ws.update(k, Window { focused: true, ..ws[k] })
        } else {
            ws
        },
    }
}

/// Marks which windows are focused, given the address of Hyprland's active
/// window if it reported one.
pub fn resolve_focus(windows: Vec<Window>, active_address: Option<&str>) -> (r: Vec<Window>)
    ensures
        r@ == spec_resolve_focus(windows@, crate::harness::opt_view(active_address)),
{
    let ghost orig = windows@;
    let mut ws = windows;
    match active_address {
        Some(address) => {
            let mut i: usize = 0;
            while i < ws.len()
                invariant
                    i <= ws@.len() == orig.len(),
                    forall|j: int|
                        0 <= j < i ==> #[trigger] ws@[j] == (Window {
                            focused: orig[j].address@ == address@,
                            ..orig[j]
                        }),
                    forall|j: int| i <= j < orig.len() ==> #[trigger] ws@[j] == orig[j],
                decreases orig.len() - i,
            {
                let same = str_eq(ws[i].address.as_str(), address);
                ws[i].focused = same;
                i = i + 1;
            }
            assert(ws@ =~= spec_resolve_focus(orig, Some(address@)));
            ws
        },
        None => {
            let mut i: usize = 0;
            while i < ws.len()
                invariant
                    i <= ws@.len(),
                    ws@ == orig,
                    windows@ == orig,
                    active_address is None,
                    forall|j: int| 0 <= j < i ==> (#[trigger] orig[j]).focus_history_id != 0,
                decreases orig.len() - i,
            {
                if ws[i].focus_history_id == 0 {
                    let ghost k = i as int;
                    ws[i].focused = true;
                    assert(ws@ =~= orig.update(k, (Window { focused: true, ..orig[k] })));
                    proof {
                        assert(0 <= k < orig.len() && orig[k].focus_history_id == 0);
                        let c = choose|c: int|
                            0 <= c < orig.len() && (#[trigger] orig[c]).focus_history_id == 0
                                && forall|j: int| 0 <= j < c ==> (#[trigger] orig[j]).focus_history_id != 0;
                        if c < k {
                            assert(orig[c].focus_history_id != 0);
                        } else if c > k {
                            assert(orig[k].focus_history_id != 0);
                        }
                        assert(c == k);
                        assert(ws@ =~= spec_resolve_focus(orig, None));
                    }
                    assert(ws@ == spec_resolve_focus(orig, None));
                    return ws;
                }
                i = i + 1;
            }
            ws
        },
    }
}

/// A client of Hyprland's request socket.
#[derive(Debug)]
pub struct HyprlandIpc {
    socket_path: PathBuf,
}

impl HyprlandIpc {
    /// A client of the socket at `socket_path`.
    pub fn from_socket_path(socket_path: PathBuf) -> (c: Self)
        ensures
            c.socket() == socket_path,
    {
        HyprlandIpc { socket_path }
    }

    /// The socket this client connects to.
    pub closed spec fn socket(&self) -> PathBuf {
        self.socket_path
    }

    /// The socket this client connects to.
    pub fn socket_path(&self) -> (p: &PathBuf)
        ensures
            *p == self.socket(),
    {
        &self.socket_path
    }
}

} // verus!
