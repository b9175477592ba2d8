use gesture_control::kinect::actions::{action_for, action_kind_str, perform, Action, ActionKind};
use gesture_control::kinect::cli::parse_args;
use gesture_control::kinect::gesture_detector::Gesture;
use gesture_control::kinect::key_sender::{report_label, vk_code, Key, KeyOutput, KeySender};
use gesture_control::kinect::sources::{Lcg, ManualSource};

#[test]
fn key_sender_modes() {
    let dry = KeySender::new(true);
    assert!(dry.dry_run());
    assert_eq!(dry.press(Key::Ctrl), KeyOutput::Report { key: Key::Ctrl, keyup: false });
    assert_eq!(dry.release(Key::Ctrl), KeyOutput::Report { key: Key::Ctrl, keyup: true });
    assert_eq!(
        dry.tap(Key::Space),
        vec![KeyOutput::Report { key: Key::Space, keyup: false }, KeyOutput::Report { key: Key::Space, keyup: true }]
    );
    let real = KeySender::new(false);
    assert_eq!(
        real.tap(Key::A),
        vec![
            KeyOutput::Send { key: Key::A, keyup: false },
            KeyOutput::Pause { ms: 40 },
            KeyOutput::Send { key: Key::A, keyup: true },
        ]
    );
    assert_eq!(report_label(true), "RELEASE");
    assert_eq!(report_label(false), "PRESS  ");
}

#[test]
fn kinect_key_names_and_codes() {
    assert_eq!(Key::Space.as_str(), "space");
    assert_eq!(Key::Ctrl.as_str(), "ctrl");
    assert_eq!(Key::A.as_str(), "a");
    assert_eq!(Key::D.as_str(), "d");
    assert_eq!(vk_code(Key::Space), 0x20);
    assert_eq!(vk_code(Key::Ctrl), 0xA2);
    assert_eq!(vk_code(Key::A), 0x41);
    assert_eq!(vk_code(Key::D), 0x44);
}

#[test]
fn gestures_map_to_key_actions() {
    assert_eq!(action_for(Gesture::Jump), Action { kind: ActionKind::Tap, key: Key::Space });
    assert_eq!(action_for(Gesture::LaneLeft), Action { kind: ActionKind::Tap, key: Key::A });
    assert_eq!(action_for(Gesture::LaneRight), Action { kind: ActionKind::Tap, key: Key::D });
    assert_eq!(action_for(Gesture::CrouchStart), Action { kind: ActionKind::Press, key: Key::Ctrl });
    assert_eq!(action_for(Gesture::CrouchEnd), Action { kind: ActionKind::Release, key: Key::Ctrl });
    assert_eq!(action_kind_str(ActionKind::Tap), "tap");
    assert_eq!(action_kind_str(ActionKind::Press), "press");
    assert_eq!(action_kind_str(ActionKind::Release), "release");
    let real = KeySender::new(false);
    assert_eq!(
        perform(&real, action_for(Gesture::CrouchStart)),
        vec![KeyOutput::Send { key: Key::Ctrl, keyup: false }]
    );
    assert_eq!(perform(&real, action_for(Gesture::Jump)).len(), 3);
}

fn args(a: &[&str]) -> Vec<String> {
    a.iter().map(|s| s.to_string()).collect()
}

#[test]
fn command_line() {
    let o = parse_args(&args(&["prog"])).unwrap();
    assert_eq!(o.source, "mock");
    assert!(!o.send);
    let o = parse_args(&args(&["prog", "--send", "--source", "manual"])).unwrap();
    assert_eq!(o.source, "manual");
    assert!(o.send);
    assert!(parse_args(&args(&["prog", "--source"])).is_err());
    assert!(parse_args(&args(&["prog", "--source", "kinect"])).is_err());
    assert!(parse_args(&args(&["prog", "--verbose"])).is_err());
    assert!(parse_args(&args(&[])).is_ok());
}

#[test]
fn lcg_steps() {
    let mut g = Lcg::new(0x5eed_1234);
    let expected_state = 0x5eed_1234u64.wrapping_mul(6364136223846793005).wrapping_add(1);
    assert_eq!(g.next_bits(), expected_state >> 11);
    let second = expected_state.wrapping_mul(6364136223846793005).wrapping_add(1);
    assert_eq!(g.next_bits(), second >> 11);
}

#[test]
fn manual_control() {
    let mut m = ManualSource::new();
    let f = m.next(&['a', 'a']).unwrap();
    assert_eq!(f.x, -550_000);
    assert_eq!(f.height, 1_750_000);
    assert_eq!(f.jump_frames, None);
    assert_eq!(f.t, 0);
    let f = m.next(&['D', 's', 'w']).unwrap();
    assert_eq!(f.x, 0);
    assert_eq!(f.height, 1_300_000);
    assert_eq!(f.jump_frames, Some(0));
    // the jump lasts 13.5 frames: frames 0..=13 are in the air
    let mut last = None;
    for _ in 0..13 {
        last = m.next(&['w']).unwrap().jump_frames;
    }
    assert_eq!(last, Some(13));
    assert_eq!(m.next(&[]).unwrap().jump_frames, None);
    assert_eq!(m.next(&['w']).unwrap().jump_frames, Some(0));
    assert!(m.next(&['d', 'q']).is_none());
    assert!(m.next(&['a']).is_none());
}

#[test]
fn manual_offset_stays_on_the_three_lanes() {
    let mut m = ManualSource::new();
    let keys = [vec!['a'], vec!['a', 'a', 'a'], vec!['d'], vec!['d', 'D', 'd'], vec!['A', 'x', 'd']];
    let expected = [-550_000, -550_000, 0, 550_000, 550_000];
    for (k, e) in keys.iter().zip(expected) {
        let f = m.next(k).unwrap();
        assert_eq!(f.x, e);
        assert!([-550_000, 0, 550_000].contains(&f.x));
    }
}
