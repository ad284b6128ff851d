use hyprharness::capture::{capture_from_png, grim_args, png_dimensions, GrimCapture};
use std::path::PathBuf;

#[test]
fn reads_png_dimensions() {
    let mut png = b"\x89PNG\r\n\x1a\n\0\0\0\rIHDR".to_vec();
    png.extend_from_slice(&1920u32.to_be_bytes());
    png.extend_from_slice(&1080u32.to_be_bytes());
    assert_eq!(png_dimensions(&png).unwrap(), (1920, 1080));
}

#[test]
fn rejects_non_png() {
    assert_eq!(png_dimensions(b"nope").unwrap_err().code, "CAPTURE_FAILED");
}

fn header(width: u32, height: u32) -> Vec<u8> {
    let mut png = b"\x89PNG\r\n\x1a\n\0\0\0\rIHDR".to_vec();
    png.extend_from_slice(&width.to_be_bytes());
    png.extend_from_slice(&height.to_be_bytes());
    png
}

#[test]
fn rejects_zero_sized_png() {
    assert_eq!(png_dimensions(&header(0, 10)).unwrap_err().code, "CAPTURE_FAILED");
    assert_eq!(png_dimensions(&header(10, 0)).unwrap_err().code, "CAPTURE_FAILED");
}

#[test]
fn rejects_png_without_leading_ihdr() {
    let mut png = header(10, 10);
    png[12] = b'X';
    assert!(png_dimensions(&png).is_err());
    let mut png = header(10, 10);
    png[0] = 0;
    assert!(png_dimensions(&png).is_err());
    assert!(png_dimensions(&header(10, 10)[..23]).is_err());
}

#[test]
fn reads_large_big_endian_dimensions() {
    assert_eq!(png_dimensions(&header(0x0102_0304, 0xffff_ffff)).unwrap(), (0x0102_0304, 0xffff_ffff));
}

#[test]
fn capture_keeps_png_bytes_and_dimensions() {
    let mut png = header(640, 480);
    png.extend_from_slice(b"rest of the image");
    let capture = capture_from_png(png.clone()).unwrap();
    assert_eq!(capture.png, png);
    assert_eq!((capture.pixel_width, capture.pixel_height), (640, 480));
    assert_eq!(capture_from_png(b"nope".to_vec()).unwrap_err().code, "CAPTURE_FAILED");
}

#[test]
fn grim_arguments_name_one_monitor() {
    assert_eq!(grim_args("eDP-1").unwrap(), vec!["-c", "-t", "png", "-o", "eDP-1", "-"]);
    assert_eq!(grim_args("").unwrap_err().code, "INVALID_ARGUMENT");
    assert_eq!(grim_args("bad\0name").unwrap_err().code, "INVALID_ARGUMENT");
}

#[test]
fn grim_capture_remembers_its_executable() {
    let capture = GrimCapture::from_path(PathBuf::from("/usr/bin/grim"));
    assert_eq!(capture.executable_path(), &PathBuf::from("/usr/bin/grim"));
}
