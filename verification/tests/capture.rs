//! Monitors, captures and the pictures that come of them.
use image::{DynamicImage, ImageBuffer, Rgba};

use open_screen::encoding::{decode_trimmed, encode};
use open_screen::picture::Bitmap;
use open_screen::screens::{bounds, monitors_fit, ActiveWindowInfo, MonitorInfo};
use open_screen::screenshot::{
    capture_active_window, capture_region, capture_result, check_monitor, check_region, convert_image,
    decode_base64_png, decode_pixels, default_pictures_dir, default_pictures_dir_in,
    encode_image_base64, generate_filename, generate_filename_at, list_monitors, pattern_or_usual,
    region_parts, stitch, whole_region, RawMonitor, Region,
};
use open_screen::clock::Stamp;

fn monitor(index: usize, x: i32, y: i32, width: u32, height: u32) -> MonitorInfo {
    MonitorInfo { index, name: format!("Screen {}", index + 1), x, y, width, height }
}

fn plain(width: u32, height: u32, value: u8) -> Bitmap {
    let rgba = vec![value; (width * height * 4) as usize];
    Bitmap { width, height, rgba }
}

fn region(x: i32, y: i32, w: u32, h: u32) -> Region {
    Region { x, y, w, h }
}

#[test]
fn monitors_have_names_and_places() {
    let raw = vec![
        RawMonitor {
            name: Some("DELL".to_string()),
            x: Some(-1920),
            y: Some(0),
            width: Some(1920),
            height: Some(1080),
        },
        RawMonitor { name: None, x: None, y: None, width: None, height: None },
    ];
    let ms = list_monitors(&raw);
    assert_eq!(ms.len(), 2);
    assert_eq!((ms[0].index, ms[0].name.as_str(), ms[0].x, ms[0].width), (0, "DELL", -1920, 1920));
    assert_eq!((ms[1].index, ms[1].name.as_str()), (1, "Screen 2"));
    assert_eq!((ms[1].x, ms[1].y, ms[1].width, ms[1].height), (0, 0, 0, 0));
}

#[test]
fn regions_are_checked() {
    assert_eq!(check_region(&region(0, 0, 0, 5)).err().unwrap(), "Empty region");
    assert_eq!(check_region(&region(0, 0, 5, 0)).err().unwrap(), "Empty region");
    assert_eq!(check_region(&region(0, 0, 8001, 5)).err().unwrap(), "Region too large");
    assert_eq!(check_region(&region(0, 0, 5, 8001)).err().unwrap(), "Region too large");
    assert!(check_region(&region(0, 0, 8000, 8000)).is_ok());
}

#[test]
fn a_region_on_no_monitor_is_refused() {
    let none: Vec<MonitorInfo> = Vec::new();
    assert_eq!(region_parts(&region(0, 0, 4, 4), &none).err().unwrap(), "No monitors found");
    let ms = vec![monitor(0, 0, 0, 100, 100)];
    let r = region(200, 200, 10, 10);
    let parts = region_parts(&r, &ms).expect("there is a monitor");
    assert!(parts.is_empty());
    assert_eq!(
        stitch(&r, &parts, &Vec::new()).err().unwrap(),
        "Selected area is outside all monitors"
    );
}

#[test]
fn a_region_over_two_monitors_is_stitched() {
    let ms = vec![monitor(0, 0, 0, 4, 4), monitor(1, 4, 0, 4, 4)];
    let r = region(2, 1, 4, 2);
    let parts = region_parts(&r, &ms).expect("both monitors");
    assert_eq!(parts.len(), 2);
    assert_eq!((parts[0].monitor, parts[0].dx, parts[0].sx, parts[0].w), (0, 0, 2, 2));
    assert_eq!((parts[1].monitor, parts[1].dx, parts[1].sx, parts[1].w), (1, 2, 0, 2));
    let shots = vec![plain(4, 4, 10), plain(4, 4, 20)];
    let b = stitch(&r, &parts, &shots).expect("painted");
    assert_eq!((b.width, b.height), (4, 2));
    assert_eq!(b.rgba[0..8], [10; 8]);
    assert_eq!(b.rgba[8..16], [20; 8]);
    assert_eq!(b.rgba[16..24], [10; 8]);
}

#[test]
fn the_last_picture_wins_where_monitors_overlap() {
    let ms = vec![monitor(0, 0, 0, 4, 4), monitor(1, 0, 0, 4, 4)];
    let r = region(0, 0, 2, 2);
    let parts = region_parts(&r, &ms).expect("both monitors");
    let b = stitch(&r, &parts, &vec![plain(4, 4, 10), plain(4, 4, 20)]).expect("painted");
    assert_eq!(b.rgba, vec![20; 16]);
}

#[test]
fn what_no_monitor_shows_is_transparent() {
    let ms = vec![monitor(0, 0, 0, 2, 2)];
    let r = region(1, 0, 3, 1);
    let parts = region_parts(&r, &ms).expect("one monitor");
    let b = stitch(&r, &parts, &vec![plain(2, 2, 255)]).expect("painted");
    assert_eq!(b.rgba, vec![255, 255, 255, 255, 0, 0, 0, 0, 0, 0, 0, 0]);
}

#[test]
fn pixels_keep_their_place() {
    let ms = vec![monitor(0, 10, 20, 3, 2)];
    let mut shot = plain(3, 2, 0);
    for i in 0..6 {
        shot.rgba[i * 4] = i as u8 + 1;
    }
    let r = region(11, 21, 2, 1);
    let parts = region_parts(&r, &ms).expect("one monitor");
    let b = stitch(&r, &parts, &vec![shot]).expect("painted");
    assert_eq!((b.rgba[0], b.rgba[4]), (5, 6));
}

#[test]
fn a_smaller_picture_paints_less() {
    let ms = vec![monitor(0, 0, 0, 4, 1)];
    let r = region(0, 0, 4, 1);
    let parts = region_parts(&r, &ms).expect("one monitor");
    let b = stitch(&r, &parts, &vec![plain(2, 1, 9)]).expect("painted");
    assert_eq!(b.rgba, vec![9, 9, 9, 9, 9, 9, 9, 9, 0, 0, 0, 0, 0, 0, 0, 0]);
}

#[test]
fn a_capture_is_a_png_of_the_region() {
    let ms = vec![monitor(0, 0, 0, 3, 2)];
    let r = region(0, 0, 3, 2);
    let parts = region_parts(&r, &ms).expect("one monitor");
    let cap = capture_region(&r, &parts, &vec![plain(3, 2, 77)]).expect("captured");
    assert_eq!((cap.mime.as_str(), cap.width, cap.height), ("image/png", 3, 2));
    let bytes = decode_trimmed(&cap.base64).expect("base64");
    assert_eq!(bytes[0..8], [0x89, b'P', b'N', b'G', 13, 10, 26, 10]);
    let back = decode_pixels(&cap.base64).expect("png");
    assert_eq!((back.width, back.height, back.rgba), (3, 2, vec![77; 24]));
}

#[test]
fn a_bitmap_is_captured_as_it_is() {
    let cap = capture_result(plain(2, 2, 5)).expect("captured");
    assert_eq!((cap.width, cap.height), (2, 2));
    let img = decode_base64_png(&cap.base64).expect("png");
    assert_eq!((img.width(), img.height()), (2, 2));
    assert_eq!(img.to_rgba8().into_raw(), vec![5; 16]);
}

#[test]
fn the_whole_screen_spans_all_monitors() {
    let ms = vec![monitor(0, 0, 0, 1920, 1080), monitor(1, -1280, -100, 1280, 1024)];
    assert!(monitors_fit(&ms));
    let b = bounds(&ms);
    assert_eq!((b.left, b.top, b.right, b.bottom), (-1280, -100, 1920, 1080));
    let r = whole_region(&ms).expect("monitors");
    assert_eq!((r.x, r.y, r.w, r.h), (-1280, -100, 3200, 1180));
    assert_eq!(whole_region(&Vec::new()).err().unwrap(), "No monitors found");
    assert!(!monitors_fit(&vec![monitor(0, i32::MAX, 0, 10, 10)]));
}

#[test]
fn a_missing_monitor_is_told() {
    assert!(check_monitor(2, 1).is_ok());
    assert_eq!(check_monitor(2, 2).err().unwrap(), "Monitor not found");
}

#[test]
fn the_active_window_is_a_region() {
    let info =
        ActiveWindowInfo { title: "t".to_string(), x: 3, y: -4, width: 50, height: 60 };
    let r = capture_active_window(&info);
    assert_eq!((r.x, r.y, r.w, r.h), (3, -4, 50, 60));
}

#[test]
fn base64_is_read_back() {
    assert_eq!(encode(b"hello"), "aGVsbG8=");
    assert_eq!(decode_trimmed("  aGVsbG8=\n").expect("base64"), b"hello".to_vec());
    assert!(decode_trimmed("a$b").is_err());
    // Bits that are left over and missing padding are refused.
    assert!(decode_trimmed("aGVsbG9=").is_err());
    assert!(decode_trimmed("aGVsbG8").is_err());
    assert!(decode_base64_png("a$b").is_err());
    assert!(decode_base64_png("aGVsbG8=").is_err());
    assert!(decode_pixels("aGVsbG8=").is_err());
}

#[test]
fn pictures_are_encoded_in_the_format_asked_for() {
    let img =
        DynamicImage::ImageRgba8(ImageBuffer::from_pixel(8, 8, Rgba([200u8, 100, 50, 255])));
    let (jpg, mime) = encode_image_base64(&img, "JPG", 90).expect("jpeg");
    assert_eq!(mime, "image/jpeg");
    assert_eq!(decode_trimmed(&jpg).expect("base64")[0..2], [0xff, 0xd8]);
    let (low, _) = encode_image_base64(&img, "jpeg", 1).expect("jpeg");
    assert_ne!(jpg, low);
    let (png, mime) = encode_image_base64(&img, "webp", 90).expect("png");
    assert_eq!(mime, "image/png");
    assert_eq!(decode_trimmed(&png).expect("base64")[1..4], *b"PNG");
    let back = decode_base64_png(&png).expect("png");
    let usual = encode_image_base64(&back, "jpg", 90).expect("jpeg");
    assert_eq!(convert_image(&png, "jpg", None).expect("jpeg"), usual);
    assert_ne!(convert_image(&png, "jpg", Some(5)).expect("jpeg"), usual);
    assert!(convert_image("a$b", "jpg", None).is_err());
}

#[test]
fn names_are_made_of_the_pattern() {
    let stamp = Stamp { date: "2026-09-22".to_string(), time: "23-14-05".to_string() };
    assert_eq!(
        generate_filename_at("png", "OpenScreen_{date}_{time}", &stamp),
        "OpenScreen_2026-09-22_23-14-05.png"
    );
    assert_eq!(generate_filename_at("jpg", "a b/{format}:c.é", &stamp), "a_b_jpg_c.é.jpg");
    assert_eq!(generate_filename_at("png", "", &stamp), ".png");
    assert_eq!(pattern_or_usual(None), "OpenScreen_{date}_{time}");
    assert_eq!(pattern_or_usual(Some("x".to_string())), "x");
    let now = generate_filename("png", "{date}");
    assert_eq!(now.len(), "2026-09-22.png".len());
    assert!(now.starts_with("2") && now.ends_with(".png"));
}

#[test]
fn pictures_go_to_their_folder() {
    assert_eq!(default_pictures_dir_in(Some("/home/u".to_string())), "/home/u/Open Screen");
    assert_eq!(default_pictures_dir_in(None), "./Open Screen");
    assert!(default_pictures_dir().ends_with("Open Screen"));
}
