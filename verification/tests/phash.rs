use cardsight::card_features::extract_card_features;
use cardsight::image_data::RgbImage;
use cardsight::phash::{calculate_phash, hamming_distance};

fn png_bytes(img: &RgbImage) -> Vec<u8> {
    let buffer =
        image::RgbImage::from_raw(img.width, img.height, img.pixels.clone()).expect("raw buffer");
    let mut out = Vec::new();
    image::DynamicImage::ImageRgb8(buffer)
        .write_to(&mut std::io::Cursor::new(&mut out), image::ImageFormat::Png)
        .expect("png encode");
    out
}

/// Columns of strictly falling brightness: every left pixel is brighter.
fn falling_gradient() -> RgbImage {
    let width = 9u32;
    let height = 8u32;
    let mut pixels = Vec::new();
    for _y in 0..height {
        for x in 0..width {
            let level = 255 - (x as u8) * 28;
            pixels.push(level);
            pixels.push(level);
            pixels.push(level);
        }
    }
    RgbImage { width, height, pixels }
}

#[test]
fn test_hamming_distance_zero_on_equal() {
    for h in [0u64, 1, 0xdead_beef_cafe_f00d, u64::MAX] {
        assert_eq!(hamming_distance(h, h), 0);
    }
}

#[test]
fn test_hamming_distance_symmetric() {
    let pairs = [(0u64, u64::MAX), (0x0f0f, 0xf0f0), (12345, 67890)];
    for (a, b) in pairs {
        assert_eq!(hamming_distance(a, b), hamming_distance(b, a));
    }
}

#[test]
fn test_hamming_distance_range_and_values() {
    assert_eq!(hamming_distance(0, u64::MAX), 64);
    assert_eq!(hamming_distance(0b1011, 0b0010), 2);
    assert_eq!(hamming_distance(0b1011, 0b0110), 3);
    assert_eq!(hamming_distance(1, 2), 2);
    for (a, b) in [(0u64, 77u64), (u64::MAX, 3), (42, 42)] {
        assert!(hamming_distance(a, b) <= 64);
    }
}

#[test]
fn test_phash_of_falling_gradient_sets_every_bit() {
    let img = falling_gradient();
    assert_eq!(calculate_phash(&img), u64::MAX);
}

#[test]
fn test_phash_deterministic_on_identical_bytes() {
    let img = falling_gradient();
    let bytes = png_bytes(&img);
    let first = extract_card_features(&bytes).expect("decodes").phash;
    let second = extract_card_features(&bytes).expect("decodes").phash;
    assert_eq!(first, second);

    let copy = bytes.clone();
    let third = extract_card_features(&copy).expect("decodes").phash;
    assert_eq!(first, third);
}
