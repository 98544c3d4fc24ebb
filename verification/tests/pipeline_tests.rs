use screen_ghost::config::clamp_interval;
use screen_ghost::device_pool::ResourcePoolState;
use screen_ghost::frame::Image;
use screen_ghost::mask::Mosaic;
use screen_ghost::monitor::list_monitors;
use screen_ghost::monitor::output_matches;
use screen_ghost::monitor::EnumerationError;
use screen_ghost::monitor::MonitorInfo;
use screen_ghost::pipeline::accept_capture_result;
use screen_ghost::pipeline::convert_to_rects;
use screen_ghost::pipeline::finish_tick;
use screen_ghost::pipeline::prepare_detection;
use screen_ghost::pipeline::tick_capture_failed;
use screen_ghost::pipeline::CaptureError;
use screen_ghost::pipeline::DetectError;
use screen_ghost::pipeline::PrefetchState;
use screen_ghost::pipeline::TickOutcome;
use screen_ghost::rect::Rect;
use screen_ghost::scale::Ratio;
use screen_ghost::scripting::get_installation_guide;
use screen_ghost::scripting::initialize_python_environment;
use screen_ghost::selector::CaptureMethod;
use screen_ghost::selector::SelectorState;

fn monitor(id: usize, x: i32, y: i32) -> MonitorInfo {
    MonitorInfo { id, x, y, width: 1920, height: 1080 }
}

// Scenario: two displays side by side come back sorted by x when y ties.
#[test]
fn monitors_sorted_y_then_x() {
    let raw = vec![monitor(0, 1920, 0), monitor(1, 0, 0)];
    let sorted = list_monitors(raw).unwrap();
    assert_eq!(sorted.len(), 2);
    assert_eq!((sorted[0].x, sorted[0].y), (0, 0));
    assert_eq!((sorted[1].x, sorted[1].y), (1920, 0));
}

#[test]
fn monitors_sorted_by_y_first() {
    let raw = vec![monitor(0, 0, 1080), monitor(1, 500, 0), monitor(2, 0, 0)];
    let sorted = list_monitors(raw).unwrap();
    assert_eq!((sorted[0].x, sorted[0].y), (0, 0));
    assert_eq!((sorted[1].x, sorted[1].y), (500, 0));
    assert_eq!((sorted[2].x, sorted[2].y), (0, 1080));
}

#[test]
fn no_monitors_is_an_error() {
    assert_eq!(list_monitors(Vec::new()).unwrap_err(), EnumerationError::NoDisplays);
}

#[test]
fn output_matching_tolerates_small_size_gap() {
    let m = monitor(0, 0, 0);
    assert!(output_matches(&m, 0, 0, 1920, 1080));
    assert!(output_matches(&m, 0, 0, 1910, 1090), "10 pixels of tolerance");
    assert!(!output_matches(&m, 0, 0, 1900, 1080), "20 pixels is too far");
    assert!(!output_matches(&m, 1, 0, 1920, 1080), "position must match exactly");
}

// Scenario: a tick at downscale ratio 0.5 with a detector hit at
// (100,100,40,40) on the 960x540 buffer publishes (200,200,80,80) native.
#[test]
fn tick_maps_detection_back_to_native() {
    let native = Image { width: 1920, height: 1080, data: vec![0; 1920 * 1080 * 4] };
    let half = Ratio::new(1, 2);
    let (detection_image, ratio) = prepare_detection(&native, &Some(half)).unwrap();
    assert_eq!((detection_image.width, detection_image.height), (960, 540));
    assert_eq!(ratio, half);

    let detections = Ok(vec![Rect::new(100, 100, 40, 40)]);
    let outcome = finish_tick(
        detections,
        detection_image.width,
        detection_image.height,
        Some(ratio),
        Ratio::new(1, 1),
    );
    match outcome {
        TickOutcome::Published { regions, mosaics } => {
            assert_eq!(regions, vec![Rect::new(200, 200, 80, 80)]);
            assert_eq!(mosaics, vec![Mosaic { x: 200, y: 200, width: 80, height: 80 }]);
        }
        other => panic!("expected a published tick, got {other:?}"),
    }
}

#[test]
fn prepare_detection_without_scale_uses_frame_as_is() {
    let native = Image { width: 16, height: 16, data: vec![0; 16 * 16 * 4] };
    assert!(prepare_detection(&native, &None).is_none());
    // a scale of one (or more) is not a downscale
    assert!(prepare_detection(&native, &Some(Ratio::new(1, 1))).is_none());
    assert!(prepare_detection(&native, &Some(Ratio::new(3, 2))).is_none());
}

#[test]
fn prepare_detection_clamps_tiny_scales() {
    let native = Image { width: 100, height: 100, data: vec![0; 100 * 100 * 4] };
    let (img, ratio) = prepare_detection(&native, &Some(Ratio::new(1, 100))).unwrap();
    assert_eq!(ratio, Ratio::new(1, 10), "scales below one tenth are clamped");
    assert_eq!((img.width, img.height), (10, 10));
}

#[test]
fn detector_failure_skips_the_tick() {
    let outcome = finish_tick(
        Err(DetectError { message: "backend offline".to_string() }),
        960,
        540,
        None,
        Ratio::new(1, 1),
    );
    match outcome {
        TickOutcome::SkippedDetector { error } => {
            assert_eq!(error.message, "backend offline");
        }
        other => panic!("expected a skipped tick, got {other:?}"),
    }
}

// Scenario: a second prefetch trigger while one is in flight is a no-op.
#[test]
fn only_one_prefetch_in_flight() {
    let mut p = PrefetchState::new();
    assert!(p.try_begin_prefetch(), "first trigger starts a capture");
    assert!(!p.try_begin_prefetch(), "second trigger is a no-op");
    let frame = Image { width: 1, height: 1, data: vec![1, 2, 3, 4] };
    p.finish_prefetch(Some(frame));
    assert!(p.try_begin_prefetch(), "after completion a new prefetch may start");
}

#[test]
fn prefetch_slot_keeps_only_newest() {
    let mut p = PrefetchState::new();
    assert!(p.take_prefetched().is_none());
    assert!(p.try_begin_prefetch());
    p.finish_prefetch(Some(Image { width: 1, height: 1, data: vec![1, 1, 1, 1] }));
    assert!(p.try_begin_prefetch());
    p.finish_prefetch(Some(Image { width: 1, height: 1, data: vec![2, 2, 2, 2] }));
    let got = p.take_prefetched().unwrap();
    assert_eq!(got.data, vec![2, 2, 2, 2], "the older frame was overwritten");
    assert!(p.take_prefetched().is_none(), "taking empties the slot");
}

#[test]
fn failed_prefetch_keeps_previous_frame() {
    let mut p = PrefetchState::new();
    assert!(p.try_begin_prefetch());
    p.finish_prefetch(Some(Image { width: 1, height: 1, data: vec![9, 9, 9, 9] }));
    assert!(p.try_begin_prefetch());
    p.finish_prefetch(None);
    assert_eq!(p.take_prefetched().unwrap().data, vec![9, 9, 9, 9]);
}

// Scenario: all four backends fail in one tick; nothing is published, the
// method counters are reset, and the next tick can plan attempts again.
#[test]
fn all_backends_failing_publishes_nothing() {
    let mut selector = SelectorState::new();
    let display: usize = 0;
    let mut obtained = None;
    for method in selector.plan_attempts(display) {
        let result: Result<Image, CaptureError> = Err(CaptureError::AcquireTimeout);
        if let Some(frame) = accept_capture_result(&mut selector, display, method, result) {
            obtained = Some(frame);
            break;
        }
    }
    assert!(obtained.is_none());
    // the unconditional fallback fails as well
    let outcome = tick_capture_failed(CaptureError::GdiFailed);
    assert!(matches!(outcome, TickOutcome::SkippedCapture { error: CaptureError::GdiFailed }));
    // every adaptive method recorded a failure; the loop is not dead: the
    // next tick plans the full chain again
    assert_eq!(selector.consecutive_successes(display, CaptureMethod::Optimized), 0);
    assert_eq!(selector.consecutive_successes(display, CaptureMethod::Standard), 0);
    assert_eq!(selector.consecutive_successes(display, CaptureMethod::Alternative), 0);
    assert_eq!(selector.plan_attempts(display).len(), 3);
}

#[test]
fn valid_frame_ends_the_method_chain() {
    let mut selector = SelectorState::new();
    let mut img = Image { width: 8, height: 8, data: vec![0; 8 * 8 * 4] };
    img.data[0] = 77; // non-uniform, non-zero: the validator accepts it
    let got = accept_capture_result(&mut selector, 0, CaptureMethod::Optimized, Ok(img));
    assert!(got.is_some());
    assert_eq!(selector.consecutive_successes(0, CaptureMethod::Optimized), 1);
}

#[test]
fn blank_frame_counts_as_failure() {
    let mut selector = SelectorState::new();
    selector.record_result(0, CaptureMethod::Optimized, true);
    let blank = Image { width: 8, height: 8, data: vec![0; 8 * 8 * 4] };
    let got = accept_capture_result(&mut selector, 0, CaptureMethod::Optimized, Ok(blank));
    assert!(got.is_none());
    assert_eq!(selector.consecutive_successes(0, CaptureMethod::Optimized), 0);
}

#[test]
fn interval_clamping() {
    assert_eq!(clamp_interval(0), 8);
    assert_eq!(clamp_interval(7), 8);
    assert_eq!(clamp_interval(8), 8);
    assert_eq!(clamp_interval(500), 500);
    assert_eq!(clamp_interval(1000), 1000);
    assert_eq!(clamp_interval(60_000), 1000);
}

#[test]
fn detector_rects_are_clamped_into_the_image() {
    let faces = vec![(-10, 5, 30, 30), (90, 90, 30, 30), (10, 10, 20, 20)];
    let rects = convert_to_rects(faces, 100, 100);
    assert_eq!(rects[0], Rect::new(0, 5, 30, 30));
    assert_eq!(rects[1], Rect::new(70, 70, 30, 30));
    assert_eq!(rects[2], Rect::new(10, 10, 20, 20));
}

#[test]
fn resource_pool_reuses_device_and_staging() {
    let mut pool = ResourcePoolState::new();
    assert!(pool.needs_device());
    pool.note_device_created();
    assert!(!pool.needs_device(), "the device is created once and reused");

    assert!(pool.needs_new_staging(1920, 1080));
    pool.note_staging_created(1920, 1080);
    assert!(!pool.needs_new_staging(1920, 1080), "same extent reuses the surface");
    assert!(pool.needs_new_staging(1280, 720), "a new extent forces recreation");

    assert_eq!(pool.grow_buffer(100), 100);
    assert_eq!(pool.grow_buffer(50), 100, "the output buffer never shrinks");
    assert_eq!(pool.grow_buffer(200), 200);
}

#[test]
fn scripting_shims() {
    assert_eq!(initialize_python_environment(), Ok(()));
    let guide = get_installation_guide();
    assert!(guide.contains("pip install"));
}
