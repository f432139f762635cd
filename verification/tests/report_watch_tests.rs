use base64::engine::Engine;
use quokka::bitmap::{Bitmap, Pixel};
use quokka::config::{Config, IndivisualSetting};
use quokka::diff::DiffResult;
use quokka::pipeline::{Failure, FailureReason, PipelineRun, RunOutcome};
use quokka::report::generate_html;
use quokka::watch::{LoopAction, LoopState, WatchServe};

fn solid(width: u32, height: u32, p: Pixel) -> Bitmap {
    Bitmap::new(width, height, vec![p; (width * height) as usize]).unwrap()
}

fn gray(v: u8) -> Pixel {
    Pixel { r: v, g: v, b: v, a: 255 }
}

fn one_setting_config() -> Config {
    Config::new(
        "images".to_string(),
        "src".to_string(),
        "http://127.0.0.1:9001".to_string(),
        vec![IndivisualSetting::new("home.png", "/")],
    )
}

#[test]
fn report_identical_run_shows_zero_percent() {
    let mut run = PipelineRun::new(one_setting_config(), 1, 0);
    run.on_reference_loaded(solid(100, 100, gray(200)));
    run.on_capture_ok(solid(100, 100, gray(200)));
    let outcome = run.into_outcome();
    let report = generate_html(&outcome);
    assert!(report.html.contains("home.png: 0% changed"));
    assert!(report.html.starts_with("<html>"));
    assert!(report.html.ends_with("</body></html>\n"));
}

#[test]
fn report_failed_capture_shows_failed_indicator() {
    let mut run = PipelineRun::new(one_setting_config(), 1, 0);
    run.on_reference_loaded(solid(10, 10, gray(0)));
    run.on_capture_failed();
    let outcome = run.into_outcome();
    assert_eq!(outcome.results.len(), 0);
    assert_eq!(outcome.failures.len(), 1);
    let report = generate_html(&outcome);
    assert!(report.html.contains("home.png: failed (capture failed)"));
    assert!(!report.html.contains("<img"));
}

#[test]
fn report_percentages_are_exact() {
    let outcome = RunOutcome {
        results: vec![
            DiffResult {
                setting_name: "half.png".to_string(),
                diff_image: solid(2, 1, gray(0)),
                changed_pixel_count: 1,
                total_pixel_count: 2,
            },
            DiffResult {
                setting_name: "full.png".to_string(),
                diff_image: solid(2, 1, gray(0)),
                changed_pixel_count: 2,
                total_pixel_count: 2,
            },
            DiffResult {
                setting_name: "third.png".to_string(),
                diff_image: solid(3, 1, gray(0)),
                changed_pixel_count: 1,
                total_pixel_count: 3,
            },
        ],
        failures: vec![],
    };
    let report = generate_html(&outcome);
    assert!(report.html.contains("half.png: 50% changed"));
    assert!(report.html.contains("full.png: 100% changed"));
    assert!(report.html.contains("third.png: 33% changed"));
}

#[test]
fn report_failure_labels_cover_every_reason() {
    let outcome = RunOutcome {
        results: vec![],
        failures: vec![
            Failure {
                setting_name: "a".to_string(),
                reason: FailureReason::ReferenceImageMissing,
            },
            Failure {
                setting_name: "b".to_string(),
                reason: FailureReason::ReferenceImageUndecodable,
            },
            Failure {
                setting_name: "c".to_string(),
                reason: FailureReason::CaptureFailed,
            },
            Failure {
                setting_name: "d".to_string(),
                reason: FailureReason::DiffFailed,
            },
        ],
    };
    let report = generate_html(&outcome);
    assert!(report.html.contains("a: failed (reference image missing)"));
    assert!(report.html.contains("b: failed (reference image undecodable)"));
    assert!(report.html.contains("c: failed (capture failed)"));
    assert!(report.html.contains("d: failed (diff failed)"));
}

#[test]
fn report_is_deterministic() {
    let make = || {
        let mut run = PipelineRun::new(one_setting_config(), 1, 4);
        run.on_reference_loaded(solid(8, 8, gray(10)));
        run.on_capture_ok(solid(8, 8, gray(90)));
        generate_html(&run.into_outcome())
    };
    assert_eq!(make().html, make().html);
}

#[test]
fn report_embeds_real_png_base64() {
    // the embedded data URI must hold the actual base64 of the actual PNG
    let outcome = RunOutcome {
        results: vec![DiffResult {
            setting_name: "tiny.png".to_string(),
            diff_image: Bitmap::new(
                1,
                1,
                vec![Pixel { r: 1, g: 2, b: 3, a: 4 }],
            )
            .unwrap(),
            changed_pixel_count: 0,
            total_pixel_count: 1,
        }],
        failures: vec![],
    };
    let report = generate_html(&outcome);
    let img = image::RgbaImage::from_raw(1, 1, vec![1, 2, 3, 4]).unwrap();
    let mut bytes = std::io::Cursor::new(Vec::new());
    img.write_to(&mut bytes, image::ImageFormat::Png).unwrap();
    let expected = base64::engine::general_purpose::STANDARD.encode(bytes.into_inner());
    assert!(!expected.is_empty());
    assert!(report
        .html
        .contains(&format!("data:image/png;base64,{}\"", expected)));
}

#[test]
fn watch_serve_coalesces_event_bursts() {
    let mut ws = WatchServe::new();
    assert_eq!(ws.state, LoopState::Idle);
    ws.on_watch_started();
    assert_eq!(ws.state, LoopState::Watching);
    // the first change starts a run
    assert_eq!(ws.on_file_changed(), LoopAction::StartRun);
    // a burst of changes while running starts nothing
    assert_eq!(ws.on_file_changed(), LoopAction::Stay);
    assert_eq!(ws.on_file_changed(), LoopAction::Stay);
    assert_eq!(ws.on_file_changed(), LoopAction::Stay);
    // completion publishes and starts exactly one follow-up run
    let first = quokka::watch::Report { html: "<html>first</html>".to_string() };
    assert_eq!(ws.on_run_finished(first), LoopAction::StartRun);
    // the follow-up run completes with nothing pending: back to watching
    let second = quokka::watch::Report { html: "<html>second</html>".to_string() };
    assert_eq!(ws.on_run_finished(second), LoopAction::Stay);
    assert_eq!(ws.state, LoopState::Watching);
    assert_eq!(ws.serve_html(), "<html>second</html>");
}

#[test]
fn watch_serve_placeholder_before_first_run() {
    let ws = WatchServe::new();
    assert_eq!(ws.serve_html(), "<html><body>no report yet</body></html>\n");
}

#[test]
fn report_of_empty_outcome_is_bare_page() {
    let outcome = RunOutcome { results: vec![], failures: vec![] };
    let report = generate_html(&outcome);
    assert_eq!(
        report.html,
        "<html><head><title>quokka report</title></head><body>\n</body></html>\n"
    );
}

#[test]
fn report_zero_total_counts_as_zero_percent() {
    let outcome = RunOutcome {
        results: vec![DiffResult {
            setting_name: "empty.png".to_string(),
            diff_image: Bitmap::new(0, 0, vec![]).unwrap(),
            changed_pixel_count: 0,
            total_pixel_count: 0,
        }],
        failures: vec![],
    };
    let report = generate_html(&outcome);
    assert!(report.html.contains("empty.png: 0% changed"));
}
