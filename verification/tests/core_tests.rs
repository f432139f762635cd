use quokka::bitmap::{Bitmap, Pixel};
use quokka::config::{Config, IndivisualSetting};
use quokka::diff::diff;

fn px(r: u8, g: u8, b: u8, a: u8) -> Pixel {
    Pixel { r, g, b, a }
}

fn solid(width: u32, height: u32, p: Pixel) -> Bitmap {
    Bitmap::new(width, height, vec![p; (width * height) as usize]).unwrap()
}

#[test]
fn test_new_indivisual_setting() {
    let expected = IndivisualSetting {
        name: "index_pc.png".to_string(),
        path: "/".to_string(),
    };
    assert_eq!(expected, IndivisualSetting::new("index_pc.png", "/"));
}

#[test]
fn config_from_parts_keeps_fields() {
    let config = Config::new(
        "design_camp".to_string(),
        "src".to_string(),
        "http://127.0.0.1:9001".to_string(),
        vec![
            IndivisualSetting::new("index_pc.png", "/"),
            IndivisualSetting::new("posts_pc.png", "/posts"),
        ],
    );
    assert_eq!(config.images, "design_camp");
    assert_eq!(config.watch, "src");
    assert_eq!(config.url, "http://127.0.0.1:9001");
    assert_eq!(config.settings.len(), 2);
    assert!(config.validate());
}

#[test]
fn config_rejects_relative_url() {
    let config = Config::new(
        "design_camp".to_string(),
        "src".to_string(),
        "127.0.0.1:9001".to_string(),
        vec![],
    );
    assert!(!config.validate());
    let config = Config::new(
        "images".to_string(),
        "src".to_string(),
        "invalidurl".to_string(),
        vec![],
    );
    assert!(!config.validate());
}

#[test]
fn config_rejects_empty_directories() {
    let config = Config::new(
        "".to_string(),
        "src".to_string(),
        "http://localhost/".to_string(),
        vec![],
    );
    assert!(!config.validate());
    let config = Config::new(
        "images".to_string(),
        "".to_string(),
        "http://localhost/".to_string(),
        vec![],
    );
    assert!(!config.validate());
}

#[test]
fn bitmap_new_checks_pixel_count() {
    assert!(Bitmap::new(2, 2, vec![px(0, 0, 0, 255); 4]).is_some());
    assert!(Bitmap::new(2, 2, vec![px(0, 0, 0, 255); 3]).is_none());
    assert!(Bitmap::new(0, 5, vec![]).is_some());
}

#[test]
fn diff_identical_images_zero_changed() {
    let a = solid(3, 2, px(10, 20, 30, 255));
    let b = solid(3, 2, px(10, 20, 30, 255));
    let d = diff("home.png".to_string(), &a, &b, 0);
    assert_eq!(d.setting_name, "home.png");
    assert_eq!(d.changed_pixel_count, 0);
    assert_eq!(d.total_pixel_count, 6);
    assert_eq!(d.diff_image.width(), 3);
    assert_eq!(d.diff_image.height(), 2);
}

#[test]
fn diff_within_tolerance_zero_changed() {
    let a = solid(2, 2, px(100, 100, 100, 255));
    let b = solid(2, 2, px(104, 97, 100, 255));
    let d = diff("t.png".to_string(), &a, &b, 5);
    assert_eq!(d.changed_pixel_count, 0);
    let d = diff("t.png".to_string(), &a, &b, 2);
    assert_eq!(d.changed_pixel_count, 4);
}

#[test]
fn diff_all_different_all_changed() {
    let a = solid(4, 3, px(255, 0, 0, 255));
    let b = solid(4, 3, px(0, 0, 255, 255));
    let d = diff("page.png".to_string(), &a, &b, 16);
    assert_eq!(d.total_pixel_count, 12);
    assert_eq!(d.changed_pixel_count, 12);
}

#[test]
fn diff_unchanged_pixels_are_dimmed() {
    let a = solid(1, 1, px(30, 60, 90, 255));
    let b = solid(1, 1, px(30, 60, 90, 255));
    let d = diff("g.png".to_string(), &a, &b, 0);
    assert_eq!(d.diff_image.pixel(0, 0), px(60, 60, 60, 255));
}

#[test]
fn diff_changed_pixels_keep_captured_color() {
    let a = solid(1, 1, px(0, 0, 0, 255));
    let b = solid(1, 1, px(200, 10, 20, 255));
    let d = diff("c.png".to_string(), &a, &b, 0);
    assert_eq!(d.diff_image.pixel(0, 0), px(200, 10, 20, 255));
}

#[test]
fn diff_dimension_mismatch_bounding_box() {
    // reference 2x1, captured 1x2: bounding box 2x2, common region 1x1 equal
    let a = solid(2, 1, px(5, 5, 5, 255));
    let b = solid(1, 2, px(5, 5, 5, 255));
    let d = diff("m.png".to_string(), &a, &b, 0);
    assert_eq!(d.total_pixel_count, 4);
    assert_eq!(d.changed_pixel_count, 3);
    // every out-of-bounds cell carries the marker color
    let marker = px(255, 0, 255, 255);
    assert_eq!(d.diff_image.pixel(1, 0), marker);
    assert_eq!(d.diff_image.pixel(0, 1), marker);
    assert_eq!(d.diff_image.pixel(1, 1), marker);
    // the common cell is equal, hence dimmed
    assert_eq!(d.diff_image.pixel(0, 0), px(5, 5, 5, 255));
}

#[test]
fn diff_empty_bitmaps_zero_total() {
    let a = Bitmap::new(0, 0, vec![]).unwrap();
    let b = Bitmap::new(0, 0, vec![]).unwrap();
    let d = diff("empty.png".to_string(), &a, &b, 0);
    assert_eq!(d.total_pixel_count, 0);
    assert_eq!(d.changed_pixel_count, 0);
    assert_eq!(d.diff_image.width(), 0);
    assert_eq!(d.diff_image.height(), 0);
}
