use pixelguard::diff::{build_diff_result, parse_shot_name, reconcile, ChangedShot, DiffResult};
use pixelguard::image_diff::{compare_rasters, is_changed, pixels_differ, DiffRatio, Pixel, Raster, Threshold};

fn px(r: u8, g: u8, b: u8, a: u8) -> Pixel {
    Pixel { r, g, b, a }
}

fn t(millionths: u32) -> Threshold {
    Threshold { millionths }
}

fn names(v: &[&str]) -> Vec<String> {
    v.iter().map(|s| s.to_string()).collect()
}

fn changed(name: &str) -> ChangedShot {
    ChangedShot {
        name: name.to_string(),
        baseline_path: String::new(),
        current_path: String::new(),
        diff_path: String::new(),
        ratio: DiffRatio { differing: 1, total: 100 },
        viewport: None,
    }
}

#[test]
fn identical_pixels_do_not_differ() {
    let a = px(100, 150, 200, 255);
    let b = px(100, 150, 200, 255);
    assert!(!pixels_differ(&a, &b, t(100_000)));
}

#[test]
fn very_different_pixels_differ() {
    let a = px(0, 0, 0, 255);
    let b = px(255, 255, 255, 255);
    assert!(pixels_differ(&a, &b, t(100_000)));
}

#[test]
fn slightly_different_pixels_within_threshold() {
    let a = px(100, 100, 100, 255);
    let b = px(102, 101, 99, 255);
    assert!(!pixels_differ(&a, &b, t(500_000)));
}

#[test]
fn pixel_tolerance_is_a_tenth_of_the_threshold() {
    // distance 3 of 510 is about 0.00588: beyond 0.05 / 10, within 0.06 / 10
    let a = px(0, 0, 0, 0);
    let b = px(3, 0, 0, 0);
    assert!(pixels_differ(&a, &b, t(50_000)));
    assert!(!pixels_differ(&a, &b, t(60_000)));
    assert!(!pixels_differ(&a, &a, t(0)));
    assert!(pixels_differ(&a, &b, t(0)));
}

#[test]
fn diff_result_starts_empty() {
    let result = DiffResult { unchanged: Vec::new(), changed: Vec::new(), added: Vec::new(), removed: Vec::new() };

    assert!(result.unchanged.is_empty());
    assert!(result.changed.is_empty());
    assert!(result.added.is_empty());
    assert!(result.removed.is_empty());
}

#[test]
fn has_changes_returns_false_for_empty_result() {
    let result = DiffResult { unchanged: vec!["test".to_string()], changed: Vec::new(), added: Vec::new(), removed: Vec::new() };
    assert!(!result.has_changes());
}

#[test]
fn has_changes_returns_true_when_changed() {
    let result = DiffResult { unchanged: Vec::new(), changed: vec![changed("test")], added: Vec::new(), removed: Vec::new() };
    assert!(result.has_changes());
}

#[test]
fn has_changes_returns_true_when_added() {
    let result = DiffResult { unchanged: Vec::new(), changed: Vec::new(), added: vec!["new".to_string()], removed: Vec::new() };
    assert!(result.has_changes());
}

#[test]
fn has_changes_returns_true_when_removed() {
    let result = DiffResult { unchanged: Vec::new(), changed: Vec::new(), added: Vec::new(), removed: vec!["old".to_string()] };
    assert!(result.has_changes());
}

#[test]
fn identical_images_have_no_difference_and_no_diff_image() {
    let a = Raster::solid(3, 2, px(10, 20, 30, 255));
    let b = a.clone();
    let c = compare_rasters(&a, &b, t(10_000));
    assert_eq!(c.ratio, DiffRatio { differing: 0, total: 6 });
    assert!(c.diff_image.is_none());
}

#[test]
fn size_mismatch_is_full_difference_with_placeholder() {
    let a = Raster::solid(3, 2, px(1, 1, 1, 255));
    let b = Raster::solid(2, 4, px(1, 1, 1, 255));
    let c = compare_rasters(&a, &b, t(10_000));
    assert_eq!(c.ratio, DiffRatio { differing: 1, total: 1 });
    assert!(is_changed(c.ratio, t(10_000)));
    let img = c.diff_image.unwrap();
    assert_eq!((img.width, img.height), (3, 4));
    assert_eq!(img.pixels.len(), 12);
    assert!(img.pixels.iter().all(|p| *p == px(255, 0, 0, 255)));
}

#[test]
fn diff_image_highlights_and_dims() {
    let base = Raster { width: 2, height: 1, pixels: vec![px(0, 0, 0, 255), px(100, 100, 100, 200)] };
    let cur = Raster { width: 2, height: 1, pixels: vec![px(255, 200, 100, 255), px(100, 100, 100, 200)] };
    let c = compare_rasters(&base, &cur, t(10_000));
    assert_eq!(c.ratio, DiffRatio { differing: 1, total: 2 });
    let img = c.diff_image.unwrap();
    assert_eq!(img.pixels[0], px(255, 60, 30, 255));
    assert_eq!(img.pixels[1], px(50, 50, 50, 200));
}

#[test]
fn shot_level_threshold_compares_percentage_with_threshold_value() {
    // 1 of 100 pixels is 1%, above a threshold of 0.01
    assert!(is_changed(DiffRatio { differing: 1, total: 100 }, t(10_000)));
    // 1 of 10000 pixels is 0.01%: not above 0.01
    assert!(!is_changed(DiffRatio { differing: 1, total: 10_000 }, t(10_000)));
    assert!(!is_changed(DiffRatio { differing: 0, total: 0 }, t(0)));
}

fn compare_home(current: Pixel) -> DiffResult {
    let sets = reconcile(names(&["home"]), names(&["home"]));
    let baseline = Raster::solid(100, 100, px(255, 255, 255, 255));
    let cur = Raster::solid(100, 100, current);
    let c = compare_rasters(&baseline, &cur, t(10_000));
    build_diff_result(sets, &vec![c.ratio], t(10_000))
}

#[test]
fn white_home_against_white_home_is_unchanged() {
    let r = compare_home(px(255, 255, 255, 255));
    assert_eq!(r.unchanged, vec!["home"]);
    assert!(r.changed.is_empty());
}

#[test]
fn black_home_against_white_home_changes_fully() {
    let r = compare_home(px(0, 0, 0, 255));
    assert!(r.unchanged.is_empty());
    assert_eq!(r.changed.len(), 1);
    assert_eq!(r.changed[0].name, "home");
    let ratio = r.changed[0].ratio;
    assert_eq!(ratio, DiffRatio { differing: 10_000, total: 10_000 });
    assert_eq!(ratio.differing as f64 / ratio.total as f64 * 100.0, 100.0);
    assert_eq!(r.changed[0].diff_path, "diff/home.png");
    assert_eq!(r.changed[0].baseline_path, "baseline/home.png");
}

#[test]
fn new_shot_without_baseline_is_added() {
    let sets = reconcile(names(&["nav"]), Vec::new());
    assert_eq!(sets.added, vec!["nav"]);
    assert!(sets.common.is_empty());
    let r = build_diff_result(sets, &Vec::new(), t(10_000));
    assert_eq!(r.added, vec!["nav"]);
    assert!(r.changed.is_empty() && r.unchanged.is_empty() && r.removed.is_empty());
}

#[test]
fn reconcile_partitions_and_sorts() {
    let sets = reconcile(
        names(&["zeta", "b@mobile", "alpha", "b", "alpha"]),
        names(&["old", "alpha", "b", "gone"]),
    );
    assert_eq!(sets.added, vec!["b@mobile", "zeta"]);
    assert_eq!(sets.removed, vec!["gone", "old"]);
    assert_eq!(sets.common, vec!["alpha", "b"]);
    let r = build_diff_result(
        sets,
        &vec![DiffRatio { differing: 0, total: 4 }, DiffRatio { differing: 4, total: 4 }],
        t(10_000),
    );
    assert_eq!(r.unchanged, vec!["alpha"]);
    assert_eq!(r.changed.len(), 1);
    assert_eq!(r.changed[0].name, "b");
}

#[test]
fn viewport_is_taken_from_the_last_at() {
    assert_eq!(parse_shot_name("button@mobile"), ("button".to_string(), Some("mobile".to_string())));
    assert_eq!(parse_shot_name("a@b@c"), ("a@b".to_string(), Some("c".to_string())));
    assert_eq!(parse_shot_name("plain"), ("plain".to_string(), None));
    let sets = reconcile(names(&["card@tablet"]), names(&["card@tablet"]));
    let r = build_diff_result(sets, &vec![DiffRatio { differing: 1, total: 1 }], t(10_000));
    assert_eq!(r.changed[0].viewport, Some("tablet".to_string()));
}
