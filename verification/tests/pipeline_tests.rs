use quokka::bitmap::{Bitmap, Pixel};
use quokka::config::{Config, IndivisualSetting};
use quokka::pipeline::{FailureReason, PipelineAction, PipelineRun};

fn solid(width: u32, height: u32, p: Pixel) -> Bitmap {
    Bitmap::new(width, height, vec![p; (width * height) as usize]).unwrap()
}

fn gray(v: u8) -> Pixel {
    Pixel { r: v, g: v, b: v, a: 255 }
}

fn config(settings: Vec<IndivisualSetting>) -> Config {
    Config::new(
        "images".to_string(),
        "src".to_string(),
        "http://127.0.0.1:9001".to_string(),
        settings,
    )
}

#[test]
fn pipeline_asks_for_references_in_order() {
    let run = PipelineRun::new(
        config(vec![
            IndivisualSetting::new("a.png", "/"),
            IndivisualSetting::new("b.png", "/posts"),
        ]),
        2,
        0,
    );
    match run.next_action() {
        PipelineAction::LoadReference { dir, name } => {
            assert_eq!(dir, "images");
            assert_eq!(name, "a.png");
        }
        _ => panic!("expected a reference load"),
    }
}

#[test]
fn pipeline_capture_request_joins_url_and_scales_viewport() {
    let mut run = PipelineRun::new(
        config(vec![IndivisualSetting::new("home.png", "/posts")]),
        2,
        0,
    );
    run.on_reference_loaded(solid(100, 80, gray(7)));
    match run.next_action() {
        PipelineAction::Capture { width, height, url } => {
            assert_eq!(width, 50);
            assert_eq!(height, 40);
            assert_eq!(url, "http://127.0.0.1:9001/posts");
        }
        _ => panic!("expected a capture request"),
    }
}

#[test]
fn pipeline_never_aborts_early_on_missing_reference() {
    // three settings; the middle reference image is missing
    let mut run = PipelineRun::new(
        config(vec![
            IndivisualSetting::new("a.png", "/"),
            IndivisualSetting::new("b.png", "/b"),
            IndivisualSetting::new("c.png", "/c"),
        ]),
        1,
        0,
    );
    run.on_reference_loaded(solid(2, 2, gray(1)));
    run.on_capture_ok(solid(2, 2, gray(1)));
    run.on_reference_missing();
    run.on_reference_loaded(solid(2, 2, gray(9)));
    run.on_capture_ok(solid(2, 2, gray(9)));
    assert!(matches!(run.next_action(), PipelineAction::Finished));
    let outcome = run.into_outcome();
    assert_eq!(outcome.results.len() + outcome.failures.len(), 3);
    assert_eq!(outcome.results.len(), 2);
    assert_eq!(outcome.results[0].setting_name, "a.png");
    assert_eq!(outcome.results[1].setting_name, "c.png");
    assert_eq!(outcome.failures.len(), 1);
    assert_eq!(outcome.failures[0].setting_name, "b.png");
    assert_eq!(
        outcome.failures[0].reason,
        FailureReason::ReferenceImageMissing
    );
}

#[test]
fn pipeline_records_undecodable_reference() {
    let mut run = PipelineRun::new(config(vec![IndivisualSetting::new("bad.png", "/")]), 1, 0);
    run.on_reference_undecodable();
    let outcome = run.into_outcome();
    assert_eq!(outcome.results.len(), 0);
    assert_eq!(outcome.failures.len(), 1);
    assert_eq!(
        outcome.failures[0].reason,
        FailureReason::ReferenceImageUndecodable
    );
}

#[test]
fn pipeline_records_capture_failure() {
    let mut run = PipelineRun::new(config(vec![IndivisualSetting::new("home.png", "/")]), 2, 0);
    run.on_reference_loaded(solid(4, 4, gray(3)));
    run.on_capture_failed();
    assert!(matches!(run.next_action(), PipelineAction::Finished));
    let outcome = run.into_outcome();
    assert_eq!(outcome.results.len(), 0);
    assert_eq!(outcome.failures.len(), 1);
    assert_eq!(outcome.failures[0].setting_name, "home.png");
    assert_eq!(outcome.failures[0].reason, FailureReason::CaptureFailed);
}

#[test]
fn pipeline_unjoinable_base_url_is_a_capture_failure() {
    let mut run = PipelineRun::new(
        Config::new(
            "images".to_string(),
            "src".to_string(),
            "invalidurl".to_string(),
            vec![IndivisualSetting::new("home.png", "/")],
        ),
        1,
        0,
    );
    run.on_reference_loaded(solid(2, 2, gray(0)));
    let outcome = run.into_outcome();
    assert_eq!(outcome.failures.len(), 1);
    assert_eq!(outcome.failures[0].reason, FailureReason::CaptureFailed);
}

#[test]
fn pipeline_identical_capture_yields_zero_changed() {
    // one setting, a 100x100 reference identical to the captured page
    let mut run = PipelineRun::new(config(vec![IndivisualSetting::new("home.png", "/")]), 1, 0);
    run.on_reference_loaded(solid(100, 100, gray(128)));
    match run.next_action() {
        PipelineAction::Capture { width, height, url } => {
            assert_eq!(width, 100);
            assert_eq!(height, 100);
            assert_eq!(url, "http://127.0.0.1:9001/");
        }
        _ => panic!("expected a capture request"),
    }
    run.on_capture_ok(solid(100, 100, gray(128)));
    let outcome = run.into_outcome();
    assert_eq!(outcome.results.len(), 1);
    assert_eq!(outcome.results[0].setting_name, "home.png");
    assert_eq!(outcome.results[0].changed_pixel_count, 0);
    assert_eq!(outcome.results[0].total_pixel_count, 10000);
}
