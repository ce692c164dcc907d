use cardsight::card_features::{
    detect_border_type, detect_corner_dots, detect_frame_color, detect_frame_style,
    extract_card_features, BorderType, FrameColor, FrameStyle,
};
use cardsight::hsv::rgb_to_hsv;
use cardsight::image_data::RgbImage;

use base64::Engine;

/// A solid-colour image.
fn solid(width: u32, height: u32, rgb: (u8, u8, u8)) -> RgbImage {
    let mut pixels = Vec::with_capacity((width * height * 3) as usize);
    for _ in 0..width * height {
        pixels.push(rgb.0);
        pixels.push(rgb.1);
        pixels.push(rgb.2);
    }
    RgbImage { width, height, pixels }
}

fn png_bytes(img: &RgbImage) -> Vec<u8> {
    let buffer =
        image::RgbImage::from_raw(img.width, img.height, img.pixels.clone()).expect("raw buffer");
    let mut out = Vec::new();
    image::DynamicImage::ImageRgb8(buffer)
        .write_to(&mut std::io::Cursor::new(&mut out), image::ImageFormat::Png)
        .expect("png encode");
    out
}

#[test]
fn test_rgb_to_hsv() {
    // Pure red: hue 0, full saturation and value (thousandth units).
    let (h, s, v) = rgb_to_hsv(255, 0, 0);
    assert!(h < 1000);
    assert!((s as i64 - 1000).abs() < 10);
    assert!((v as i64 - 1000).abs() < 10);

    // Pure blue: hue 240 degrees, full saturation and value.
    let (h, s, v) = rgb_to_hsv(0, 0, 255);
    assert!((h as i64 - 240_000).abs() < 1000);
    assert!((s as i64 - 1000).abs() < 10);
    assert!((v as i64 - 1000).abs() < 10);
}

#[test]
fn test_rgb_to_hsv_ranges_sampled() {
    for r in [0u8, 1, 63, 128, 254, 255] {
        for g in [0u8, 17, 99, 200, 255] {
            for b in [0u8, 5, 127, 255] {
                let (h, s, v) = rgb_to_hsv(r, g, b);
                assert!(h < 360_000);
                assert!(s <= 1000);
                assert!(v <= 1000);
            }
        }
    }
}

#[test]
fn test_rgb_to_hsv_gray_has_no_saturation() {
    let (h, s, v) = rgb_to_hsv(128, 128, 128);
    assert_eq!(h, 0);
    assert_eq!(s, 0);
    assert!((v as i64 - 502).abs() <= 1);
}

#[test]
fn test_border_white_on_white_image() {
    let img = solid(100, 100, (250, 250, 250));
    assert_eq!(detect_border_type(&img), BorderType::White);
}

#[test]
fn test_border_black_on_dark_image() {
    let img = solid(100, 100, (10, 10, 10));
    assert_eq!(detect_border_type(&img), BorderType::Black);
}

#[test]
fn test_border_black_on_saturated_image() {
    // Bright but saturated: not white, defaults to the majority class.
    let img = solid(100, 100, (200, 40, 40));
    assert_eq!(detect_border_type(&img), BorderType::Black);
}

#[test]
fn test_border_unknown_on_degenerate_image() {
    let img = solid(0, 0, (0, 0, 0));
    assert_eq!(detect_border_type(&img), BorderType::Unknown);
}

#[test]
fn test_frame_color_blue() {
    let img = solid(100, 100, (40, 90, 220));
    assert_eq!(detect_frame_color(&img), FrameColor::Blue);
}

#[test]
fn test_frame_color_black_on_dark() {
    let img = solid(100, 100, (20, 20, 20));
    assert_eq!(detect_frame_color(&img), FrameColor::Black);
}

#[test]
fn test_frame_color_green() {
    let img = solid(100, 100, (50, 180, 60));
    assert_eq!(detect_frame_color(&img), FrameColor::Green);
}

#[test]
fn test_frame_color_red() {
    let img = solid(100, 100, (220, 50, 40));
    assert_eq!(detect_frame_color(&img), FrameColor::Red);
}

#[test]
fn test_frame_color_unknown_on_empty() {
    let img = solid(0, 5, (0, 0, 0));
    assert_eq!(detect_frame_color(&img), FrameColor::Unknown);
}

#[test]
fn test_frame_style_is_reserved() {
    let img = solid(10, 10, (0, 0, 0));
    assert_eq!(detect_frame_style(&img), FrameStyle::Unknown);
}

#[test]
fn test_corner_dots_on_white_image() {
    // Every pixel counts as white, so both corners are far above 30%.
    let img = solid(100, 100, (255, 255, 255));
    assert!(detect_corner_dots(&img));
}

#[test]
fn test_corner_dots_absent_on_dark_image() {
    let img = solid(100, 100, (30, 30, 30));
    assert!(!detect_corner_dots(&img));
}

#[test]
fn test_corner_dots_forty_percent_in_each_corner() {
    // The bottom 8 of the 20 sampled rows are white, so each corner's
    // patch is 40% white: above the 30% threshold for its own region.
    let width = 100u32;
    let height = 100u32;
    let mut pixels = Vec::new();
    for y in 0..height {
        let level = if y >= 92 { 255u8 } else { 20u8 };
        for _x in 0..width {
            pixels.push(level);
            pixels.push(level);
            pixels.push(level);
        }
    }
    let img = RgbImage { width, height, pixels };
    assert!(detect_corner_dots(&img));
}

#[test]
fn test_corner_dots_need_both_corners() {
    // Only the bottom-left corner area is white: the right corner stays
    // dark, so no dots are reported.
    let width = 100u32;
    let height = 100u32;
    let mut pixels = Vec::new();
    for y in 0..height {
        for x in 0..width {
            let level = if y >= 80 && x < 20 { 255u8 } else { 20u8 };
            pixels.push(level);
            pixels.push(level);
            pixels.push(level);
        }
    }
    let img = RgbImage { width, height, pixels };
    assert!(!detect_corner_dots(&img));
}

#[test]
fn test_extract_features_from_png() {
    let img = solid(100, 100, (250, 250, 250));
    let bytes = png_bytes(&img);
    let features = extract_card_features(&bytes).expect("white png decodes");
    assert_eq!(features.border_type, BorderType::White);
    assert_eq!(features.frame_color, FrameColor::White);
    assert_eq!(features.frame_style, FrameStyle::Unknown);
    assert!(features.has_corner_dots);
    assert!(!features.is_foil);
    // A flat image has no brightness gradients at all.
    assert_eq!(features.phash, 0);
}

#[test]
fn test_extract_features_accepts_base64() {
    let img = solid(60, 80, (40, 90, 220));
    let raw = png_bytes(&img);
    let encoded = base64::engine::general_purpose::STANDARD.encode(&raw);

    let from_raw = extract_card_features(&raw).expect("raw bytes decode");
    let from_b64 = extract_card_features(encoded.as_bytes()).expect("base64 bytes decode");
    assert_eq!(from_raw.phash, from_b64.phash);
    assert_eq!(from_raw.frame_color, from_b64.frame_color);
    assert_eq!(from_raw.border_type, from_b64.border_type);
}

#[test]
fn test_extract_features_rejects_garbage() {
    let r = extract_card_features(b"certainly not an image");
    assert!(r.is_err());
}
