use crate::models::MouseButton;
use base64::engine::general_purpose::STANDARD;
use base64::Engine;
use vstd::prelude::*;

verus! {

/// Arguments of `observe_desktop`.
#[derive(Debug, Clone)]
pub struct ObserveParams {
    /// Hyprland monitor name. Omit to capture the focused monitor.
    pub monitor: Option<String>,
}

/// Arguments of `move_pointer`.
#[derive(Debug, Clone, Copy)]
pub struct MoveParams {
    /// Global logical X coordinate.
    pub x: i32,
    /// Global logical Y coordinate.
    pub y: i32,
    /// Smooth movement duration in milliseconds, from 0 through 2000.
    pub duration_ms: u32,
}

/// Arguments of `click`.
#[derive(Debug, Clone, Copy)]
pub struct ClickParams {
    /// Mouse button to click.
    pub button: MouseButton,
    /// Click count, from 1 through 3.
    pub count: u8,
    /// Delay between clicks in milliseconds, from 40 through 1000.
    pub interval_ms: u32,
}

/// Default click button: left.
pub fn default_button() -> (b: MouseButton)
    ensures
        b == MouseButton::Left,
{
    MouseButton::Left
}

/// Default click count: one.
pub fn default_count() -> (n: u8)
    ensures
        n == 1,
{
    1
}

/// Default pause between clicks: 120 ms.
pub fn default_interval() -> (ms: u32)
    ensures
        ms == 120,
{
    120
}

/// The character of a six-bit value in the standard base64 alphabet.
pub open spec fn base64_digit(v: int) -> char {
    "ABCDEFGHIJKLMNOPQRSTUVWXYZabcdefghijklmnopqrstuvwxyz0123456789+/"@[v]
}

/// The standard base64 encoding of a byte string (RFC 4648, section 4):
/// each three-byte group becomes four characters of six bits each, and a
/// final group of one or two bytes is padded with `=` to four characters.
pub open spec fn base64_standard(bytes: Seq<u8>) -> Seq<char>
    decreases bytes.len(),
{
    if bytes.len() == 0 {
        Seq::empty()
    } else if bytes.len() == 1 {
        let b0 = bytes[0] as int;
        seq![base64_digit(b0 / 4), base64_digit((b0 % 4) * 16), '=', '=']
    } else if bytes.len() == 2 {
        let (b0, b1) = (bytes[0] as int, bytes[1] as int);
        seq![base64_digit(b0 / 4), base64_digit((b0 % 4) * 16 + b1 / 16), base64_digit((b1 % 16) * 4), '=']
    } else {
        let (b0, b1, b2) = (bytes[0] as int, bytes[1] as int, bytes[2] as int);
        seq![
            base64_digit(b0 / 4),
            base64_digit((b0 % 4) * 16 + b1 / 16),
            base64_digit((b1 % 16) * 4 + b2 / 64),
            base64_digit(b2 % 64),
        ] + base64_standard(bytes.subrange(3, bytes.len() as int))
    }
}

proof fn lemma_base64_len(bytes: Seq<u8>)
    ensures
        base64_standard(bytes).len() == (bytes.len() + 2) / 3 * 4,
    decreases bytes.len(),
{
    if bytes.len() >= 3 {
        lemma_base64_len(bytes.subrange(3, bytes.len() as int));
    }
}

/// Calls `base64::Engine::encode` with the `STANDARD` engine (standard
/// alphabet, with padding): the text is [`base64_standard`] of the bytes.
/// The crate panics when the encoded length overflows `usize`, which
/// `requires` rules out.
#[verifier::external_body]
fn base64_encode(bytes: &[u8]) -> (s: String)
    requires
        (bytes@.len() + 2) / 3 * 4 <= usize::MAX,
    ensures
        s@ == base64_standard(bytes@),
{
    STANDARD.encode(bytes)
}

/// The base64 payload of a PNG image attached to a tool result.
pub fn png_image_data(png: &[u8]) -> (s: String)
    requires
        (png@.len() + 2) / 3 * 4 <= usize::MAX,
    ensures
        s@ == base64_standard(png@),
        s@.len() == (png@.len() + 2) / 3 * 4,
{
    proof {
        lemma_base64_len(png@);
    }
    base64_encode(png)
}

} // verus!
