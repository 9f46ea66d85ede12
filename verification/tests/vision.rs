//! Screenshot tiles.
use base64::engine::general_purpose::STANDARD;
use base64::Engine;
use image::{DynamicImage, ImageFormat, Rgb, RgbImage};
use llm_browser_testkit::vision::{
    capture_screenshot_data_urls, jpeg_data_url, scaled_size, tile_count, DEFAULT_MAX_DIMENSION, MAX_TILES,
};
use std::io::Cursor;

#[test]
fn default_max_dimension_sane() {
    // 1280x720 viewports stay untouched; 1920-wide screens are scaled
    // down to keep vision tokens reasonable.
    assert!(DEFAULT_MAX_DIMENSION >= 1280 && DEFAULT_MAX_DIMENSION <= 1600);
}

#[test]
fn tile_count_bands_and_clamps() {
    assert_eq!(tile_count(0, 720), 0);
    assert_eq!(tile_count(720, 720), 1);
    assert_eq!(tile_count(1440, 720), 2);
    assert_eq!(tile_count(1500, 720), 3);
    assert_eq!(tile_count(2880, 720), 4);
    assert_eq!(tile_count(720, 0), 1);
    assert_eq!(tile_count(MAX_TILES * 720 + 1, 720), MAX_TILES);
}

#[test]
fn sizes_are_scaled_down_only() {
    assert_eq!(scaled_size(1280, 720, 1400), (1280, 720));
    assert_eq!(scaled_size(2800, 1400, 1400), (1400, 700));
    assert_eq!(scaled_size(100, 4000, 1000), (25, 1000));
    for (w, h, m) in [(1921_u32, 1081_u32, 1400_u32), (4096, 3, 1000), (333, 777, 500)] {
        let f = f64::from(m) / f64::from(w.max(h));
        let edge = |e: u32| ((f64::from(e) * f).round() as u32).max(1);
        assert_eq!(scaled_size(w, h, m), (edge(w), edge(h)), "{w}x{h}");
    }
}

fn png(width: u32, height: u32) -> String {
    let picture = RgbImage::from_pixel(width, height, Rgb([200, 10, 10]));
    let mut bytes = Cursor::new(Vec::new());
    DynamicImage::ImageRgb8(picture)
        .write_to(&mut bytes, ImageFormat::Png)
        .expect("a PNG");
    STANDARD.encode(bytes.into_inner())
}

fn size_of(url: &str) -> (u32, u32) {
    let data = url
        .strip_prefix("data:image/jpeg;base64,")
        .expect("a JPEG data URL");
    let picture = image::load_from_memory_with_format(
        &STANDARD.decode(data).expect("base64"),
        ImageFormat::Jpeg,
    )
    .expect("a JPEG");
    (picture.width(), picture.height())
}

#[test]
fn a_viewport_becomes_one_small_jpeg() {
    let tiles = capture_screenshot_data_urls(&png(300, 150), 100, 150, 150).expect("tiles");
    assert_eq!(tiles.len(), 1);
    assert_eq!(size_of(&tiles[0]), (100, 50));
}

#[test]
fn a_long_page_becomes_bands() {
    let tiles = capture_screenshot_data_urls(&png(40, 250), 1400, 250, 100).expect("tiles");
    let sizes: Vec<(u32, u32)> = tiles.iter().map(|t| size_of(t)).collect();
    assert_eq!(sizes, vec![(40, 100), (40, 100), (40, 50)]);
}

#[test]
fn small_bands_are_encoded_as_they_are() {
    let band = DynamicImage::ImageRgb8(RgbImage::from_pixel(40, 50, Rgb([200, 10, 10])));
    let url = jpeg_data_url(&band).expect("a data URL");
    assert_eq!(size_of(&url), (40, 50));
    for max_dimension in [0, 50, 1400] {
        let tiles = capture_screenshot_data_urls(&png(40, 100), max_dimension, 100, 50);
        assert_eq!(tiles, Ok(vec![url.clone(), url.clone()]));
    }
}

#[test]
fn no_tile_is_longer_than_asked_for() {
    let tiles = capture_screenshot_data_urls(&png(64, 100), 48, 100, 33).expect("tiles");
    assert_eq!(tiles.len(), 4);
    for tile in &tiles {
        let (width, height) = size_of(tile);
        assert!(width <= 48 && height <= 48, "{width}x{height}");
    }
    assert_eq!(size_of(&tiles[0]), (48, 25));
    assert_eq!(size_of(&tiles[3]), (48, 1));
}

#[test]
fn downscaled_tiles_show_their_own_bands() {
    let mut picture = RgbImage::from_pixel(300, 200, Rgb([250, 0, 0]));
    for y in 100..200 {
        for x in 0..300 {
            picture.put_pixel(x, y, Rgb([0, 0, 250]));
        }
    }
    let mut bytes = Cursor::new(Vec::new());
    DynamicImage::ImageRgb8(picture)
        .write_to(&mut bytes, ImageFormat::Png)
        .expect("a PNG");
    let capture = STANDARD.encode(bytes.into_inner());
    let tiles = capture_screenshot_data_urls(&capture, 60, 200, 100).expect("tiles");
    assert_eq!(tiles.len(), 2);
    for (tile, red) in tiles.iter().zip([true, false]) {
        assert_eq!(size_of(tile), (60, 20));
        let data = tile.trim_start_matches("data:image/jpeg;base64,");
        let shown = image::load_from_memory(&STANDARD.decode(data).expect("base64"))
            .expect("a JPEG")
            .to_rgb8();
        for pixel in shown.pixels() {
            let [r, _, b] = pixel.0;
            assert_eq!(r > b, red);
        }
    }
}

#[test]
fn broken_pictures_are_reported() {
    let error = capture_screenshot_data_urls("%%%", 1400, 10, 10).expect_err("no base64");
    assert!(error.starts_with("screenshot base64 decode failed: "), "{error}");
    let error = capture_screenshot_data_urls("AAAA", 1400, 10, 10).expect_err("no picture");
    assert!(error.starts_with("screenshot decode failed: "), "{error}");
}
