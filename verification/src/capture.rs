use crate::error::{HarnessError, Result};
use crate::text::contains_nul;
use std::path::PathBuf;
use vstd::prelude::*;
use vstd::string::*;

verus! {

/// `std::path::PathBuf`, the location of an external program or file.
#[verifier::external_type_specification]
#[verifier::external_body]
pub struct ExPathBuf(std::path::PathBuf);

/// A captured monitor image.
#[derive(Debug, Clone)]
pub struct Capture {
    pub png: Vec<u8>,
    pub pixel_width: u32,
    pub pixel_height: u32,
}

/// The eight-byte PNG file signature.
pub open spec fn png_signature() -> Seq<u8> {
    seq![0x89u8, 0x50u8, 0x4eu8, 0x47u8, 0x0du8, 0x0au8, 0x1au8, 0x0au8]
}

/// The chunk type of the PNG image header, `IHDR`.
pub open spec fn ihdr_tag() -> Seq<u8> {
    seq![0x49u8, 0x48u8, 0x44u8, 0x52u8]
}

/// The big-endian `u32` stored at `bytes[at..at + 4]`.
pub open spec fn be_u32(bytes: Seq<u8>, at: int) -> int {
    bytes[at] * 0x100_0000 + bytes[at + 1] * 0x1_0000 + bytes[at + 2] * 0x100 + bytes[at + 3]
}

/// Whether `bytes` start with a PNG signature followed by an `IHDR` chunk
/// holding the image width and height.
pub open spec fn png_header_ok(bytes: Seq<u8>) -> bool {
    &&& bytes.len() >= 24
    &&& bytes.subrange(0, 8) == png_signature()
    &&& bytes.subrange(12, 16) == ihdr_tag()
}

/// The dimensions a PNG header declares, when it is well formed and neither
/// is zero.
pub open spec fn spec_png_dimensions(bytes: Seq<u8>) -> Option<(u32, u32)> {
    if png_header_ok(bytes) && be_u32(bytes, 16) != 0 && be_u32(bytes, 20) != 0 {
        Some((be_u32(bytes, 16) as u32, be_u32(bytes, 20) as u32))
    } else {
        None
    }
}

fn read_be_u32(bytes: &[u8], at: usize) -> (v: u32)
    requires
        at + 4 <= bytes@.len(),
    ensures
        v == be_u32(bytes@, at as int),
{
    (bytes[at] as u32) * 0x100_0000 + (bytes[at + 1] as u32) * 0x1_0000 + (bytes[at + 2] as u32)
        * 0x100 + (bytes[at + 3] as u32)
}

/// The width and height from a PNG image header. `CAPTURE_FAILED` when the
/// data is not a PNG with an `IHDR` chunk first, or the image is empty.
pub fn png_dimensions(bytes: &[u8]) -> (r: Result<(u32, u32)>)
    ensures
        match r {
            Ok(d) => spec_png_dimensions(bytes@) == Some(d),
            Err(e) => spec_png_dimensions(bytes@) is None && e.code == "CAPTURE_FAILED" && e.message@
                == if png_header_ok(bytes@) {
                "grim returned a zero-sized image"@
            } else {
                "grim returned invalid PNG data"@
            },
        },
{
    let header_ok = bytes.len() >= 24 && bytes[0] == 0x89 && bytes[1] == 0x50 && bytes[2] == 0x4e
        && bytes[3] == 0x47 && bytes[4] == 0x0d && bytes[5] == 0x0a && bytes[6] == 0x1a
        && bytes[7] == 0x0a && bytes[12] == 0x49 && bytes[13] == 0x48 && bytes[14] == 0x44
        && bytes[15] == 0x52;
    proof {
        if bytes@.len() >= 24 {
            assert(header_ok ==> bytes@.subrange(0, 8) =~= png_signature());
            assert(header_ok ==> bytes@.subrange(12, 16) =~= ihdr_tag());
            if bytes@.subrange(0, 8) == png_signature() && bytes@.subrange(12, 16) == ihdr_tag() {
                assert(bytes@.subrange(0, 8)[0] == bytes@[0]);
                assert(bytes@.subrange(0, 8)[1] == bytes@[1]);
                assert(bytes@.subrange(0, 8)[2] == bytes@[2]);
                assert(bytes@.subrange(0, 8)[3] == bytes@[3]);
                assert(bytes@.subrange(0, 8)[4] == bytes@[4]);
                assert(bytes@.subrange(0, 8)[5] == bytes@[5]);
                assert(bytes@.subrange(0, 8)[6] == bytes@[6]);
                assert(bytes@.subrange(0, 8)[7] == bytes@[7]);
                assert(bytes@.subrange(12, 16)[0] == bytes@[12]);
                assert(bytes@.subrange(12, 16)[1] == bytes@[13]);
                assert(bytes@.subrange(12, 16)[2] == bytes@[14]);
                assert(bytes@.subrange(12, 16)[3] == bytes@[15]);
            }
        }
    }
    if !header_ok {
        return Err(HarnessError::new("CAPTURE_FAILED", "grim returned invalid PNG data".to_string()));
    }
    let width = read_be_u32(bytes, 16);
    let height = read_be_u32(bytes, 20);
    if width == 0 || height == 0 {
        return Err(HarnessError::new("CAPTURE_FAILED", "grim returned a zero-sized image".to_string()));
    }
    Ok((width, height))
}

/// The arguments that make `grim` write one monitor's image as PNG to stdout.
pub open spec fn spec_grim_args(monitor: Seq<char>) -> Seq<Seq<char>> {
    seq!["-c"@, "-t"@, "png"@, "-o"@, monitor, "-"@]
}

/// The `grim` arguments for capturing `monitor`; `INVALID_ARGUMENT` when the
/// name is empty or holds a NUL character.
pub fn grim_args(monitor: &str) -> (r: Result<Vec<String>>)
    ensures
        r is Ok <==> (monitor@.len() > 0 && !monitor@.contains('\0')),
        r matches Ok(v) ==> v@.map_values(|s: String| s@) == spec_grim_args(monitor@),
        r matches Err(e) ==> e.code == "INVALID_ARGUMENT" && e.message@ == "monitor name is invalid"@,
{
    if monitor.unicode_len() == 0 || contains_nul(monitor) {
        return Err(HarnessError::invalid("monitor name is invalid".to_string()));
    }
    let mut args: Vec<String> = Vec::new();
    args.push("-c".to_string());
    args.push("-t".to_string());
    args.push("png".to_string());
    args.push("-o".to_string());
    args.push(monitor.to_string());
    args.push("-".to_string());
    assert(args@.map_values(|s: String| s@) =~= spec_grim_args(monitor@));
    Ok(args)
}

/// Turns `grim`'s standard output into a [`Capture`], reading the image size
/// from its PNG header.
pub fn capture_from_png(png: Vec<u8>) -> (r: Result<Capture>)
    ensures
        match r {
            Ok(c) => c.png@ == png@ && spec_png_dimensions(png@) == Some(
                (c.pixel_width, c.pixel_height),
            ),
            Err(e) => spec_png_dimensions(png@) is None && e.code == "CAPTURE_FAILED" && e.message@
                == if png_header_ok(png@) {
                "grim returned a zero-sized image"@
            } else {
                "grim returned invalid PNG data"@
            },
        },
{
    let (pixel_width, pixel_height) = png_dimensions(png.as_slice())?;
    Ok(Capture { png, pixel_width, pixel_height })
}

/// Screenshot capture through the `grim` program.
#[derive(Debug)]
pub struct GrimCapture {
    executable: PathBuf,
}

impl GrimCapture {
    /// A capture backend that runs the given `grim` executable.
    pub fn from_path(executable: PathBuf) -> (g: Self)
        ensures
            g.executable() == executable,
    {
        GrimCapture { executable }
    }

    /// The `grim` executable this backend runs.
    pub closed spec fn executable(&self) -> PathBuf {
        self.executable
    }

    /// The `grim` executable this backend runs.
    pub fn executable_path(&self) -> (p: &PathBuf)
        ensures
            *p == self.executable(),
    {
        &self.executable
    }
}

} // verus!
