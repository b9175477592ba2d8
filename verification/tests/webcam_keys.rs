use gesture_control::webcam::detector::Event;
use gesture_control::webcam::keysender::{vk_code, Key, KeyOutput, KeySender};
use gesture_control::webcam::overlay::{handle_keys, key_banner, pack_bgr, send_status, zone_name, Action, OverlayKey};
use gesture_control::webcam::detector::{Config, GestureDetector};
use gesture_control::webcam::pipeline::{dispatch, event_zone, filter_scene_events, handle_events, webcam_frame, FrameStep};
use gesture_control::webcam::zones::{ZoneActivity, Zones, RATIO_ONE};

#[test]
fn dry_run_only_reports() {
    let mut s = KeySender::new(false);
    assert_eq!(s.tap(Key::A), vec![KeyOutput::ReportTap { key: Key::A }]);
    assert_eq!(s.hold(Key::S, true), vec![KeyOutput::ReportHold { key: Key::S, down: true }]);
    assert!(s.held_keys().is_empty());
    assert!(s.release_all().is_empty());
}

#[test]
fn real_tap_pauses_between_down_and_up() {
    let s = KeySender::new(true);
    assert_eq!(
        s.tap(Key::W),
        vec![
            KeyOutput::Send { key: Key::W, keyup: false },
            KeyOutput::Pause { ms: 40 },
            KeyOutput::Send { key: Key::W, keyup: true },
        ]
    );
}

#[test]
fn held_keys_are_recorded_once_and_released() {
    let mut s = KeySender::new(true);
    assert_eq!(s.hold(Key::S, true), vec![KeyOutput::Send { key: Key::S, keyup: false }]);
    s.hold(Key::S, true);
    s.hold(Key::A, true);
    assert_eq!(s.held_keys(), &vec![Key::S, Key::A]);
    assert_eq!(s.hold(Key::S, false), vec![KeyOutput::Send { key: Key::S, keyup: true }]);
    assert_eq!(s.held_keys(), &vec![Key::A]);
    assert_eq!(s.release_all(), vec![KeyOutput::Send { key: Key::A, keyup: true }]);
    assert!(s.held_keys().is_empty());
}

#[test]
fn switching_off_releases_held_keys() {
    let mut s = KeySender::new(true);
    s.hold(Key::S, true);
    s.hold(Key::D, true);
    assert_eq!(
        s.set_send(false),
        vec![
            KeyOutput::Send { key: Key::S, keyup: true },
            KeyOutput::Send { key: Key::D, keyup: true },
            KeyOutput::Mode { enabled: false },
        ]
    );
    assert!(!s.send_enabled());
    assert!(s.held_keys().is_empty());
    assert_eq!(s.set_send(true), vec![KeyOutput::Mode { enabled: true }]);
    assert!(s.send_enabled());
}

#[test]
fn webcam_key_names_and_codes() {
    assert_eq!(Key::W.as_str(), "w");
    assert_eq!(Key::A.as_str(), "a");
    assert_eq!(Key::D.as_str(), "d");
    assert_eq!(Key::S.as_str(), "s");
    assert_eq!(vk_code(Key::W), 0x57);
    assert_eq!(vk_code(Key::A), 0x41);
    assert_eq!(vk_code(Key::D), 0x44);
    assert_eq!(vk_code(Key::S), 0x53);
}

#[test]
fn events_map_to_keys() {
    let mut s = KeySender::new(true);
    let (k, out) = dispatch(Event::TapLeft, &mut s);
    assert_eq!(k, Some(Key::A));
    assert_eq!(out.len(), 3);
    let (k, _) = dispatch(Event::TapRight, &mut s);
    assert_eq!(k, Some(Key::D));
    let (k, _) = dispatch(Event::TapUp, &mut s);
    assert_eq!(k, Some(Key::W));
    let (k, out) = dispatch(Event::HoldDownStart, &mut s);
    assert_eq!(k, Some(Key::S));
    assert_eq!(out, vec![KeyOutput::Send { key: Key::S, keyup: false }]);
    assert_eq!(s.held_keys(), &vec![Key::S]);
    let (k, out) = dispatch(Event::HoldDownEnd, &mut s);
    assert_eq!(k, None);
    assert_eq!(out, vec![KeyOutput::Send { key: Key::S, keyup: true }]);
    assert!(s.held_keys().is_empty());
    assert_eq!(event_zone(Event::TapLeft), Some(0));
    assert_eq!(event_zone(Event::TapRight), Some(1));
    assert_eq!(event_zone(Event::TapUp), Some(2));
    assert_eq!(event_zone(Event::HoldDownStart), Some(3));
    assert_eq!(event_zone(Event::HoldDownEnd), None);
}

#[test]
fn handling_a_frame_keeps_last_key_and_zone() {
    let mut s = KeySender::new(false);
    let h = handle_events(&vec![Event::TapUp, Event::HoldDownEnd], &mut s);
    assert_eq!(h.current_key, Some(Key::W));
    assert_eq!(h.triggered, Some(2));
    assert_eq!(
        h.outputs,
        vec![
            KeyOutput::ReportTap { key: Key::W },
            KeyOutput::ReportHold { key: Key::S, down: false },
        ]
    );
    let h = handle_events(&vec![], &mut s);
    assert_eq!(h.current_key, None);
    assert_eq!(h.triggered, None);
    assert!(h.outputs.is_empty());
}

#[test]
fn scene_change_lets_only_hold_end_through() {
    let ev = vec![Event::TapLeft, Event::HoldDownEnd, Event::HoldDownStart];
    assert_eq!(filter_scene_events(ev.clone(), true), vec![Event::HoldDownEnd]);
    assert_eq!(filter_scene_events(ev.clone(), false), ev);
}

#[test]
fn overlay_keys() {
    assert_eq!(handle_keys(false, false, false, &vec![OverlayKey::K], false), (Action::Quit, false));
    assert_eq!(handle_keys(true, true, false, &vec![], true), (Action::Quit, true));
    assert_eq!(handle_keys(true, false, true, &vec![], false), (Action::Quit, false));
    assert_eq!(handle_keys(true, false, false, &vec![], false), (Action::Idle, false));
    assert_eq!(
        handle_keys(true, false, false, &vec![OverlayKey::M, OverlayKey::Other, OverlayKey::M, OverlayKey::M], false),
        (Action::Idle, true)
    );
    assert_eq!(
        handle_keys(true, false, false, &vec![OverlayKey::M, OverlayKey::C, OverlayKey::M], false),
        (Action::Recalibrate, true)
    );
    assert_eq!(handle_keys(true, false, false, &vec![OverlayKey::K, OverlayKey::C], true), (Action::ToggleSend, true));
}

#[test]
fn overlay_texts() {
    assert_eq!(key_banner(Key::A), "<- A");
    assert_eq!(key_banner(Key::D), "D ->");
    assert_eq!(key_banner(Key::W), "[ SPRUNG ]");
    assert_eq!(key_banner(Key::S), "v S");
    assert_eq!(send_status(true), "SEND: AN");
    assert_eq!(send_status(false), "SEND: AUS");
    assert_eq!(zone_name(0), "left");
    assert_eq!(zone_name(1), "right");
    assert_eq!(zone_name(2), "up");
    assert_eq!(zone_name(3), "down");
}

#[test]
fn bgr_is_packed_as_0rgb() {
    let bytes = [0x01u8, 0x02, 0x03, 0xff, 0x00, 0x80, 9];
    assert_eq!(pack_bgr(&bytes, 2), vec![0x030201, 0x8000ff]);
    assert!(pack_bgr(&bytes, 0).is_empty());
}

#[test]
fn webcam_frame_relearns_or_passes_events_on() {
    let mut det = GestureDetector::new(Config { calib_frames: 1, confirm_frames: 1, ..Config::default() });
    let mut sender = KeySender::new(true);
    let idle = ZoneActivity::new(Zones::default(), 0);
    let down = ZoneActivity::new(Zones::new(0, 0, 0, RATIO_ONE), 100_000);
    match webcam_frame(&mut det, &mut sender, idle, false, false) {
        FrameStep::Events(ev) => assert!(ev.is_empty()),
        FrameStep::Relearned(_) => panic!("no relearn was asked for"),
    }
    let outs = match webcam_frame(&mut det, &mut sender, down, false, false) {
        FrameStep::Events(ev) => ev,
        FrameStep::Relearned(_) => panic!("no relearn was asked for"),
    };
    assert_eq!(outs, vec![Event::HoldDownStart]);
    handle_events(&outs, &mut sender);
    assert_eq!(sender.held_keys(), &vec![Key::S]);
    // a relearn releases the held key and restarts the calibration
    match webcam_frame(&mut det, &mut sender, down, true, false) {
        FrameStep::Relearned(outputs) => assert_eq!(outputs, vec![KeyOutput::Send { key: Key::S, keyup: true }]),
        FrameStep::Events(_) => panic!("the frame must be skipped"),
    }
    assert!(sender.held_keys().is_empty());
    assert!(!det.calibrated());
    // during a suspected scene change only the end of a hold passes
    match webcam_frame(&mut det, &mut sender, idle, false, true) {
        FrameStep::Events(ev) => assert!(ev.is_empty()),
        FrameStep::Relearned(_) => panic!("no relearn was asked for"),
    }
    match webcam_frame(&mut det, &mut sender, ZoneActivity::new(Zones::new(RATIO_ONE, 0, 0, RATIO_ONE), 900_000), false, true) {
        FrameStep::Events(ev) => assert!(ev.is_empty()),
        FrameStep::Relearned(_) => panic!("no relearn was asked for"),
    }
    match webcam_frame(&mut det, &mut sender, ZoneActivity::new(Zones::default(), 1_000_000), false, true) {
        FrameStep::Events(ev) => assert_eq!(ev, vec![Event::HoldDownEnd]),
        FrameStep::Relearned(_) => panic!("no relearn was asked for"),
    }
}
