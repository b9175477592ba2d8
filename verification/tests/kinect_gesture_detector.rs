use gesture_control::kinect::body_state::BodyState;
use gesture_control::kinect::gesture_detector::{Config, Gesture, GestureDetector};

const FPS: f64 = 30.0;
const DT: f64 = 1.0 / FPS;
const STAND: f64 = 1.75;

fn micro(v: f64) -> i32 {
    (v * 1_000_000.0).round() as i32
}

fn micros(t: f64) -> i64 {
    (t * 1_000_000.0).round() as i64
}

struct Feeder {
    det: GestureDetector,
    t: f64,
}

impl Feeder {
    fn new() -> Self {
        Self {
            det: GestureDetector::new(Config { calib_frames: 10, ..Config::default() }),
            t: 0.0,
        }
    }

    fn feed(&mut self, x: f64, height: f64, frames: usize) -> Vec<Gesture> {
        let mut events = Vec::new();
        for _ in 0..frames {
            events.extend(self.det.update(BodyState::new(micro(x), micro(height), micros(self.t))));
            self.t += DT;
        }
        events
    }

    fn calibrate(&mut self) {
        self.feed(0.0, STAND, 10);
        assert!(self.det.calibrated());
    }
}

fn count(events: &[Gesture], needle: Gesture) -> usize {
    events.iter().filter(|&&event| event == needle).count()
}

#[test]
fn gesture_detector_keine_events_waehrend_kalibrierung() {
    let mut f = Feeder::new();
    let events = f.feed(0.0, STAND, 9);
    assert_eq!(events.len(), 0);
    assert!(!f.det.calibrated());
}

#[test]
fn sprung_feuert_genau_einmal() {
    let mut f = Feeder::new();
    f.calibrate();
    let mut events = f.feed(0.0, STAND + 0.25, 8);
    events.extend(f.feed(0.0, STAND, 5));
    assert_eq!(count(&events, Gesture::Jump), 1);
}

#[test]
fn sprung_cooldown_blockt_doppelausloesung() {
    let mut f = Feeder::new();
    f.calibrate();
    let mut events = f.feed(0.0, STAND + 0.25, 3);
    events.extend(f.feed(0.0, STAND, 2));
    events.extend(f.feed(0.0, STAND + 0.25, 3));
    assert_eq!(count(&events, Gesture::Jump), 1);
}

#[test]
fn zwei_spruenge_nach_cooldown() {
    let mut f = Feeder::new();
    f.calibrate();
    let mut events = f.feed(0.0, STAND + 0.25, 5);
    events.extend(f.feed(0.0, STAND, 20));
    events.extend(f.feed(0.0, STAND + 0.25, 5));
    assert_eq!(count(&events, Gesture::Jump), 2);
}

#[test]
fn ducken_start_und_ende() {
    let mut f = Feeder::new();
    f.calibrate();
    let events = f.feed(0.0, STAND - 0.40, 10);
    assert_eq!(count(&events, Gesture::CrouchStart), 1);
    assert_eq!(count(&events, Gesture::CrouchEnd), 0);

    let events = f.feed(0.0, STAND, 5);
    assert_eq!(count(&events, Gesture::CrouchEnd), 1);
}

#[test]
fn spurwechsel_links_und_zurueck() {
    let mut f = Feeder::new();
    f.calibrate();
    let events = f.feed(-0.50, STAND, 5);
    assert_eq!(count(&events, Gesture::LaneLeft), 1);

    let events = f.feed(0.0, STAND, 5);
    assert_eq!(count(&events, Gesture::LaneRight), 1);
}

#[test]
fn hysterese_kein_flackern_an_der_spurgrenze() {
    let mut f = Feeder::new();
    f.calibrate();
    let mut events = f.feed(-0.30, STAND, 3);
    events.extend(f.feed(-0.20, STAND, 3));
    events.extend(f.feed(-0.30, STAND, 3));
    assert_eq!(count(&events, Gesture::LaneLeft), 1);
    assert_eq!(count(&events, Gesture::LaneRight), 0);
}

#[test]
fn gesture_detector_kleine_bewegungen_loesen_nichts_aus() {
    let mut f = Feeder::new();
    f.calibrate();
    let events = f.feed(0.05, STAND + 0.03, 30);
    assert_eq!(events.len(), 0);
}

// --- further scenarios ---

#[test]
fn baseline_is_the_calibration_average() {
    let mut det = GestureDetector::new(Config { calib_frames: 4, ..Config::default() });
    assert_eq!(det.baseline_x(), 0);
    assert_eq!(det.baseline_height(), 0);
    for (i, h) in [1_700_000, 1_800_000, 1_750_000, 1_750_001].iter().enumerate() {
        let ev = det.update(BodyState::new(-1 - i as i32, *h, i as i64));
        assert!(ev.is_empty());
    }
    assert!(det.calibrated());
    // (1_700_000 + 1_800_000 + 1_750_000 + 1_750_001) / 4 = 1_750_000.25
    assert_eq!(det.baseline_height(), 1_750_000);
    // (-1 - 2 - 3 - 4) / 4 = -2.5, rounded down
    assert_eq!(det.baseline_x(), -3);
}

#[test]
fn zero_calibration_frames_calibrate_on_first_sample() {
    let mut det = GestureDetector::new(Config { calib_frames: 0, ..Config::default() });
    assert!(det.update(BodyState::new(0, 1_750_000, 0)).is_empty());
    assert!(det.calibrated());
    assert_eq!(det.baseline_height(), 1_750_000);
}

#[test]
fn jump_and_crouch_and_lane_in_one_sample_are_ordered() {
    let mut det = GestureDetector::new(Config { calib_frames: 1, ..Config::default() });
    det.update(BodyState::new(0, 1_750_000, 0));
    // jump and lane change in the same sample: jump first
    let ev = det.update(BodyState::new(300_000, 1_900_000, 1_000_000));
    assert_eq!(ev, vec![Gesture::Jump, Gesture::LaneRight]);
    // landing and going straight into a crouch, back to the centre
    let ev = det.update(BodyState::new(0, 1_400_000, 2_000_000));
    assert_eq!(ev, vec![Gesture::CrouchStart, Gesture::LaneLeft]);
}

#[test]
fn crouch_ends_above_seventy_percent_of_threshold() {
    let mut det = GestureDetector::new(Config { calib_frames: 1, ..Config::default() });
    det.update(BodyState::new(0, 1_000_000, 0));
    assert_eq!(det.update(BodyState::new(0, 740_000, 1)), vec![Gesture::CrouchStart]);
    // -0.175 m is exactly 70% of the threshold: still crouching
    assert!(det.update(BodyState::new(0, 825_000, 2)).is_empty());
    assert_eq!(det.update(BodyState::new(0, 825_001, 3)), vec![Gesture::CrouchEnd]);
}

#[test]
fn jump_cooldown_is_inclusive() {
    let mut det = GestureDetector::new(Config { calib_frames: 1, ..Config::default() });
    det.update(BodyState::new(0, 1_000_000, 0));
    assert_eq!(det.update(BodyState::new(0, 1_200_000, 1_000_000)), vec![Gesture::Jump]);
    assert!(det.update(BodyState::new(0, 1_000_000, 1_100_000)).is_empty());
    // exactly one cooldown later
    assert_eq!(det.update(BodyState::new(0, 1_200_000, 1_500_000)), vec![Gesture::Jump]);
}

#[test]
fn gesture_names() {
    assert_eq!(Gesture::Jump.as_str(), "jump");
    assert_eq!(Gesture::CrouchStart.as_str(), "crouch_start");
    assert_eq!(Gesture::CrouchEnd.as_str(), "crouch_end");
    assert_eq!(Gesture::LaneLeft.as_str(), "lane_left");
    assert_eq!(Gesture::LaneRight.as_str(), "lane_right");
}

#[test]
fn default_detector_uses_thirty_calibration_frames() {
    let mut det = GestureDetector::default();
    for i in 0..29 {
        det.update(BodyState::new(0, 1_750_000, i));
    }
    assert!(!det.calibrated());
    det.update(BodyState::new(0, 1_750_000, 29));
    assert!(det.calibrated());
}

#[test]
fn a_run_keeps_lane_and_crouch_balance() {
    let mut f = Feeder::new();
    f.calibrate();
    let mut all = Vec::new();
    // right, far left (through the centre), back to the centre
    for x in [0.4, 0.4, -0.4, -0.4, -0.4, 0.0, 0.0] {
        let ev = f.feed(x, STAND, 1);
        all.extend(ev.clone());
        let right = count(&all, Gesture::LaneRight) as i64;
        let left = count(&all, Gesture::LaneLeft) as i64;
        assert!((-1..=1).contains(&(right - left)));
    }
    assert_eq!(all, vec![Gesture::LaneRight, Gesture::LaneLeft, Gesture::LaneLeft, Gesture::LaneRight]);
    // crouch, stay down, stand, crouch again: start and end alternate
    let mut crouch = Vec::new();
    for h in [STAND - 0.4, STAND - 0.4, STAND, STAND - 0.4, STAND] {
        crouch.extend(f.feed(0.0, h, 1));
    }
    assert_eq!(
        crouch,
        vec![Gesture::CrouchStart, Gesture::CrouchEnd, Gesture::CrouchStart, Gesture::CrouchEnd]
    );
}

#[test]
fn jump_crouch_and_lane_in_one_result_come_in_order() {
    let mut det = GestureDetector::new(Config { calib_frames: 1, ..Config::default() });
    det.update(BodyState::new(0, 1_750_000, 0));
    // a crouch and a lane change at once: crouch first
    let ev = det.update(BodyState::new(400_000, 1_400_000, 1_000_000));
    assert_eq!(ev, vec![Gesture::CrouchStart, Gesture::LaneRight]);
    // standing up high out of the crouch, back to the centre: jump, crouch end, lane
    let ev = det.update(BodyState::new(0, 1_900_000, 2_000_000));
    assert_eq!(ev, vec![Gesture::Jump, Gesture::CrouchEnd, Gesture::LaneLeft]);
}
