use gesture_control::units::frame_time_us;
use gesture_control::webcam::detector::{Config, Event, GestureDetector};
use gesture_control::webcam::config;
use gesture_control::webcam::grid::{active_cells, count_active, flow_rect, zone_ratio, zone_ratios, FlowGate, SceneMonitor};
use gesture_control::webcam::launcher::{
    camera_row, cancel_button, demo_button, real_button, rescan_button, CameraInfo, LaunchConfig, Launcher,
    LauncherDecision, LauncherInput,
};
use gesture_control::webcam::sources::{ManualSource, MockSource};
use gesture_control::webcam::zones::{ZoneActivity, Zones, RATIO_ONE};

fn grid_with(cols: usize, rows: usize, on: &[(usize, usize)]) -> Vec<bool> {
    let mut g = vec![false; cols * rows];
    for &(r, c) in on {
        g[r * cols + c] = true;
    }
    g
}

#[test]
fn cells_are_active_from_the_threshold_on() {
    assert_eq!(active_cells(&vec![0, 39, 40, 255]), vec![false, false, true, true]);
    assert_eq!(count_active(&vec![true, false, true]), 2);
}

fn configured_grid(on: &[(usize, usize)]) -> Vec<bool> {
    grid_with(config::GRID_COLS as usize, config::GRID_ROWS as usize, on)
}

fn block(rows: std::ops::Range<usize>, cols: std::ops::Range<usize>) -> Vec<(usize, usize)> {
    let mut on = Vec::new();
    for r in rows {
        for c in cols.clone() {
            on.push((r, c));
        }
    }
    on
}

#[test]
fn zone_ratio_counts_cells_of_each_zone() {
    // left zone: columns 0..10, rows 0..16 -> 160 cells
    let g = configured_grid(&block(0..16, 0..10));
    assert_eq!(zone_ratio(&g, 0), RATIO_ONE);
    assert_eq!(zone_ratio(&g, 1), 0);
    // right zone: columns 21..32, rows 0..16 -> 176 cells; 11 of them
    let g = configured_grid(&block(0..1, 21..32));
    assert_eq!(zone_ratio(&g, 1), RATIO_ONE / 16);
    // the centre column block 10..21 below row 9 belongs to no zone
    let g = configured_grid(&block(9..16, 10..21));
    assert_eq!(zone_ratios(&g), Zones::new(0, 0, 0, 0));
}

#[test]
fn zone_ratios_on_the_configured_grid() {
    // left zone: 40 of 160 cells
    let mut on = block(0..4, 0..10);
    // down band: rows 16..24, all 32 columns -> 256 cells; fill one row
    on.extend(block(20..21, 0..32));
    let g = configured_grid(&on);
    let z = zone_ratios(&g);
    assert_eq!(z, Zones::new(RATIO_ONE / 4, 0, 0, RATIO_ONE / 8));
    assert_eq!(z, Zones::new(99_000_000, 0, 0, 49_500_000));
}

#[test]
fn a_third_of_the_up_zone_is_exact() {
    // up zone: columns 10..21, rows 0..9 -> 99 cells; 33 of them active
    let g = configured_grid(&block(0..3, 10..21));
    let z = zone_ratios(&g);
    assert_eq!(z.up, RATIO_ONE / 3);
    assert_eq!(z.up, 132_000_000);
    // a threshold just below one third (0.333333) is exceeded
    let enter = (0.333333 * RATIO_ONE as f64).round() as i32;
    assert_eq!(enter, 131_999_868);
    let mut det = GestureDetector::new(Config {
        calib_frames: 1,
        confirm_frames: 1,
        enter_ratio: [enter; 4],
        ..Config::default()
    });
    det.update(ZoneActivity::new(Zones::default(), 0));
    assert_eq!(det.update(ZoneActivity::new(z, 1)), vec![Event::TapUp]);
}

#[test]
fn scene_change_triggers_recalibration_after_45_frames() {
    let mut m = SceneMonitor::new();
    for _ in 0..60 {
        assert!(m.learning());
    }
    assert!(!m.learning());
    for _ in 0..44 {
        assert!(!m.observe(500, 768));
        assert!(m.scene_suspect());
    }
    assert!(m.observe(500, 768));
    // the monitor restarted: warm-up again
    assert!(m.learning());
    // exactly 60% is not a scene change
    assert!(!m.observe(6, 10));
    assert!(!m.scene_suspect());
    assert!(m.observe(7, 10) == false && m.scene_suspect());
}

#[test]
fn flow_gate_remembers_direction_for_three_frames() {
    let mut g = FlowGate::new();
    assert_eq!(g.gate(None), [true, true, true]);
    assert_eq!(g.gate(Some([false, false, false])), [false, false, false]);
    assert_eq!(g.gate(Some([true, false, false])), [true, false, false]);
    assert_eq!(g.gate(Some([false, false, true])), [true, false, true]);
    assert_eq!(g.gate(Some([false, false, false])), [true, false, true]);
    assert_eq!(g.gate(Some([false, false, false])), [false, false, true]);
    // no flow information: gate open, memory untouched
    assert_eq!(g.gate(None), [true, true, true]);
    assert_eq!(g.gate(Some([false, false, false])), [false, false, false]);
}

#[test]
fn flow_rectangles() {
    assert_eq!(flow_rect(0, 160, 120), (0, 0, 54, 84));
    assert_eq!(flow_rect(1, 160, 120), (105, 0, 55, 84));
    assert_eq!(flow_rect(2, 160, 120), (54, 0, 51, 45));
    assert_eq!(flow_rect(0, 0, 0), (0, 0, 1, 1));
}

#[test]
fn buttons_and_rows() {
    let b = real_button();
    assert!(b.hit(20, 342));
    assert!(b.hit(159, 389));
    assert!(!b.hit(160, 350));
    assert!(!b.hit(100, 390));
    assert_eq!(camera_row(0).y, 104);
    assert_eq!(camera_row(2).y, 188);
    assert!(rescan_button().hit(400, 70));
    assert!(demo_button().hit(200, 350));
    assert!(cancel_button().hit(400, 350));
}

fn cams() -> Vec<CameraInfo> {
    vec![
        CameraInfo { index: 0, width: 640, height: 480 },
        CameraInfo { index: 2, width: 1920, height: 1080 },
    ]
}

fn input(mouse: Option<(i32, i32)>, down: bool) -> LauncherInput {
    LauncherInput { escape: false, enter: false, mouse, down }
}

#[test]
fn launcher_preselects_and_launches() {
    let mut l = Launcher::new(cams(), 2);
    assert_eq!(l.selected(), 1);
    assert_eq!(
        l.frame(LauncherInput { escape: false, enter: true, mouse: None, down: false }),
        LauncherDecision::Launch(LaunchConfig { camera: 2, send: false })
    );
    // click on the first row, release, click "real"
    assert_eq!(l.frame(input(Some((30, 110)), true)), LauncherDecision::Continue);
    assert_eq!(l.selected(), 0);
    assert_eq!(l.frame(input(Some((30, 110)), true)), LauncherDecision::Continue);
    assert_eq!(l.frame(input(Some((30, 350)), true)), LauncherDecision::Continue);
    assert_eq!(l.frame(input(Some((30, 350)), false)), LauncherDecision::Continue);
    assert_eq!(
        l.frame(input(Some((30, 350)), true)),
        LauncherDecision::Launch(LaunchConfig { camera: 0, send: true })
    );
}

#[test]
fn launcher_without_cameras_only_cancels() {
    let mut l = Launcher::new(vec![], 0);
    assert_eq!(l.frame(LauncherInput { escape: false, enter: true, mouse: None, down: false }), LauncherDecision::Continue);
    assert_eq!(l.frame(input(Some((30, 350)), true)), LauncherDecision::Continue);
    assert_eq!(l.frame(input(Some((400, 350)), false)), LauncherDecision::Continue);
    assert_eq!(l.frame(input(Some((400, 350)), true)), LauncherDecision::Cancel);
    assert_eq!(
        l.frame(LauncherInput { escape: true, enter: true, mouse: None, down: false }),
        LauncherDecision::Cancel
    );
}

#[test]
fn launcher_rescan_resets_selection() {
    let mut l = Launcher::new(cams(), 2);
    assert_eq!(l.frame(input(Some((400, 70)), true)), LauncherDecision::Rescan);
    let d = l.after_rescan(vec![CameraInfo { index: 5, width: 1, height: 1 }], 400, 70);
    assert_eq!(d, LauncherDecision::Continue);
    assert_eq!(l.selected(), 0);
    assert_eq!(l.cams().len(), 1);
}

#[test]
fn mock_script_plays_back() {
    let mut m = MockSource::new(false);
    assert!(!m.realtime());
    let first = m.next().unwrap();
    assert_eq!(first.label, Some("Ruhe (Kalibrierung)..."));
    assert_eq!(first.activity.zones, Zones::default());
    assert_eq!(first.activity.t, 0);
    let mut frames = 1;
    let mut labels = Vec::new();
    let mut up_frames = 0;
    while let Some(f) = m.next() {
        if f.activity.zones.up == 237_600_000 {
            up_frames += 1;
        }
        if let Some(l) = f.label {
            labels.push(l);
        }
        frames += 1;
    }
    assert_eq!(frames, 45 + 9 + 30 + 9 + 30 + 9 + 30 + 36 + 30 + 9 + 15);
    assert_eq!(up_frames, 9);
    assert_eq!(labels.len(), 6);
    assert_eq!(labels[0], "Arme HOCH -> Sprung");
    assert!(m.next().is_none());
}

#[test]
fn manual_keys_fill_zones() {
    let mut m = ManualSource::new();
    let a = m.next(b"wx").unwrap();
    assert_eq!(a.zones, Zones::new(0, 0, 356_400_000, 0));
    assert_eq!(a.t, 0);
    let a = m.next(b"sA").unwrap();
    assert_eq!(a.zones, Zones::new(356_400_000, 0, 0, 356_400_000));
    assert_eq!(a.t, 33_333);
    let a = m.next(b"c").unwrap();
    assert!(m.want_recalib());
    assert_eq!(a.zones, Zones::new(0, 0, 0, 356_400_000));
    let a = m.next(b"").unwrap();
    assert!(!m.want_recalib());
    assert_eq!(a.t, 100_000);
    assert!(m.next(b"dQw").is_none());
}

#[test]
fn mock_script_triggers_each_gesture_once() {
    let mut det = GestureDetector::new(config::detector_config());
    let mut m = MockSource::new(false);
    let mut events = Vec::new();
    while let Some(f) = m.next() {
        events.extend(det.update(f.activity));
    }
    assert_eq!(
        events,
        vec![
            Event::TapUp,
            Event::TapLeft,
            Event::TapRight,
            Event::HoldDownStart,
            Event::HoldDownEnd,
            Event::TapLeft,
        ]
    );
}

#[test]
fn frame_times() {
    assert_eq!(frame_time_us(0), 0);
    assert_eq!(frame_time_us(1), 33_333);
    assert_eq!(frame_time_us(30), 1_000_000);
    assert_eq!(frame_time_us(u64::MAX), i64::MAX);
}

#[test]
fn a_calm_frame_or_recalibration_restarts_the_change_count() {
    let mut m = SceneMonitor::new();
    for _ in 0..44 {
        assert!(m.learning());
        assert!(!m.observe(700, 768));
    }
    // a calm frame ends the streak
    assert!(!m.observe(10, 768));
    for _ in 0..44 {
        assert!(!m.observe(700, 768));
    }
    m.recalibrate();
    for _ in 0..44 {
        assert!(!m.observe(700, 768));
    }
    // the 45th changed frame in a row asks for relearning, and so does the 90th
    assert!(m.observe(700, 768));
    for _ in 0..44 {
        assert!(!m.observe(700, 768));
    }
    assert!(m.observe(700, 768));
    // learning counts frames since the last relearning
    for _ in 0..60 {
        assert!(m.learning());
    }
    assert!(!m.learning());
}
