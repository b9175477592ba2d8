use gesture_control::webcam::config;
use gesture_control::webcam::detector::{Config, Event, GestureDetector};
use gesture_control::webcam::zones::{ZoneActivity, Zones, RATIO_ONE};

const FPS: f64 = 30.0;
const DT: f64 = 1.0 / FPS;

fn ratio(v: f64) -> i32 {
    (v * RATIO_ONE as f64).round() as i32
}

fn zones(left: f64, right: f64, up: f64, down: f64) -> Zones {
    Zones::new(ratio(left), ratio(right), ratio(up), ratio(down))
}

fn idle() -> Zones {
    Zones::default()
}

struct Feeder {
    det: GestureDetector,
    t: f64,
}

impl Feeder {
    fn new() -> Self {
        Self::with_cfg(Config { calib_frames: 10, ..Config::default() })
    }

    fn with_cfg(cfg: Config) -> Self {
        Self { det: GestureDetector::new(cfg), t: 0.0 }
    }

    fn feed(&mut self, z: Zones, frames: usize) -> Vec<Event> {
        self.feed_gated(z, [true; 3], frames)
    }

    fn feed_gated(&mut self, z: Zones, dir_ok: [bool; 3], frames: usize) -> Vec<Event> {
        let mut events = Vec::new();
        for _ in 0..frames {
            let t = (self.t * 1_000_000.0).round() as i64;
            events.extend(self.det.update(ZoneActivity::new(z, t).with_dir_ok(dir_ok)));
            self.t += DT;
        }
        events
    }

    fn calibrate(&mut self) {
        self.feed(idle(), 10);
        assert!(self.det.calibrated());
    }
}

fn count(events: &[Event], needle: Event) -> usize {
    events.iter().filter(|&&e| e == needle).count()
}

#[test]
fn detector_keine_events_waehrend_kalibrierung() {
    let mut f = Feeder::new();
    let ev = f.feed(idle(), 9);
    assert_eq!(ev.len(), 0);
    assert!(!f.det.calibrated());
}

#[test]
fn right_feuert_genau_einmal() {
    let mut f = Feeder::new();
    f.calibrate();
    let ev = f.feed(zones(0.0, 0.7, 0.0, 0.0), 8);
    assert_eq!(count(&ev, Event::TapRight), 1);
}

#[test]
fn cooldown_blockt_doppelausloesung() {
    let mut f = Feeder::new();
    f.calibrate();
    let mut ev = f.feed(zones(0.0, 0.7, 0.0, 0.0), 3);
    ev.extend(f.feed(idle(), 2));
    ev.extend(f.feed(zones(0.0, 0.7, 0.0, 0.0), 3));
    assert_eq!(count(&ev, Event::TapRight), 1);
}

#[test]
fn zwei_taps_nach_cooldown() {
    let mut f = Feeder::new();
    f.calibrate();
    let mut ev = f.feed(zones(0.0, 0.7, 0.0, 0.0), 3);
    ev.extend(f.feed(idle(), 18));
    ev.extend(f.feed(zones(0.0, 0.7, 0.0, 0.0), 3));
    assert_eq!(count(&ev, Event::TapRight), 2);
}

#[test]
fn hold_down_start_und_end() {
    let mut f = Feeder::new();
    f.calibrate();
    let ev = f.feed(zones(0.0, 0.0, 0.0, 0.9), 10);
    assert_eq!(count(&ev, Event::HoldDownStart), 1);
    assert_eq!(count(&ev, Event::HoldDownEnd), 0);
    let ev = f.feed(idle(), 5);
    assert_eq!(count(&ev, Event::HoldDownEnd), 1);
}

#[test]
fn hysterese_kein_flackern() {
    let mut f = Feeder::new();
    f.calibrate();
    let mut ev = f.feed(zones(0.16, 0.0, 0.0, 0.0), 3);
    ev.extend(f.feed(zones(0.10, 0.0, 0.0, 0.0), 3));
    ev.extend(f.feed(zones(0.16, 0.0, 0.0, 0.0), 3));
    assert_eq!(count(&ev, Event::TapLeft), 1);
}

#[test]
fn konflikt_staerkere_zone_gewinnt() {
    let mut f = Feeder::new();
    f.calibrate();
    let ev = f.feed(zones(0.7, 0.3, 0.0, 0.0), 3);
    assert_eq!(count(&ev, Event::TapLeft), 1);
    assert_eq!(count(&ev, Event::TapRight), 0);
}

#[test]
fn detector_kleine_bewegungen_loesen_nichts_aus() {
    let mut f = Feeder::new();
    f.calibrate();
    let ev = f.feed(zones(0.05, 0.04, 0.03, 0.02), 30);
    assert_eq!(ev.len(), 0);
}

#[test]
fn up_feuert_tap() {
    let mut f = Feeder::new();
    f.calibrate();
    let ev = f.feed(zones(0.0, 0.0, 0.6, 0.0), 6);
    assert_eq!(count(&ev, Event::TapUp), 1);
}

#[test]
fn einzelner_ausreisser_frame_loest_nichts_aus() {
    let mut f = Feeder::new();
    f.calibrate();
    let mut ev = f.feed(zones(0.0, 0.7, 0.0, 0.0), 1);
    ev.extend(f.feed(idle(), 10));
    assert_eq!(ev.len(), 0);
}

#[test]
fn hold_uebersteht_einzel_frame_dropout() {
    let mut f = Feeder::new();
    f.calibrate();
    let mut ev = f.feed(zones(0.0, 0.0, 0.0, 0.9), 5);
    ev.extend(f.feed(idle(), 1));
    ev.extend(f.feed(zones(0.0, 0.0, 0.0, 0.9), 5));
    assert_eq!(count(&ev, Event::HoldDownStart), 1);
    assert_eq!(count(&ev, Event::HoldDownEnd), 0);
}

#[test]
fn flow_gate_blockt_tap_gegen_richtung() {
    let mut f = Feeder::new();
    f.calibrate();
    let ev = f.feed_gated(zones(0.0, 0.7, 0.0, 0.0), [true, false, true], 6);
    assert_eq!(count(&ev, Event::TapRight), 0);
    let ev = f.feed_gated(zones(0.0, 0.7, 0.0, 0.0), [true, true, true], 2);
    assert_eq!(count(&ev, Event::TapRight), 1);
}

#[test]
fn flow_gate_wirkt_nicht_auf_hold() {
    let mut f = Feeder::new();
    f.calibrate();
    let ev = f.feed_gated(zones(0.0, 0.0, 0.0, 0.9), [false, false, false], 6);
    assert_eq!(count(&ev, Event::HoldDownStart), 1);
}

#[test]
fn pro_zone_schwellen_wirken() {
    let mut f = Feeder::with_cfg(Config {
        calib_frames: 10,
        enter_ratio: [ratio(0.15), ratio(0.15), ratio(0.10), ratio(0.22)],
        exit_ratio: [ratio(0.08), ratio(0.08), ratio(0.05), ratio(0.08)],
        ..Config::default()
    });
    f.calibrate();
    let ev = f.feed(zones(0.0, 0.0, 0.12, 0.0), 6);
    assert_eq!(count(&ev, Event::TapUp), 1);
    let ev = f.feed(zones(0.0, 0.0, 0.0, 0.18), 10);
    assert_eq!(count(&ev, Event::HoldDownStart), 0);
}

// --- further scenarios ---

#[test]
fn baseline_is_subtracted_and_reported() {
    let mut det = GestureDetector::new(Config { calib_frames: 2, confirm_frames: 1, ..Config::default() });
    assert_eq!(det.baseline(), [0, 0, 0, 0]);
    det.update(ZoneActivity::new(Zones::new(ratio(0.10), 0, 0, 1), 0));
    det.update(ZoneActivity::new(Zones::new(ratio(0.20), 0, 0, 2), 1));
    assert!(det.calibrated());
    assert_eq!(det.baseline(), [59_400_000, 0, 0, 1]);
    // 0.29 - 0.15 = 0.14 is not above 0.15
    assert!(det.update(ZoneActivity::new(Zones::new(ratio(0.29), 0, 0, 0), 2)).is_empty());
    // 0.31 - 0.15 = 0.16 is
    assert_eq!(
        det.update(ZoneActivity::new(Zones::new(ratio(0.31), 0, 0, 0), 3)),
        vec![Event::TapLeft]
    );
}

#[test]
fn recalibration_relearns_baseline_and_keeps_hold() {
    let mut det = GestureDetector::new(Config { calib_frames: 1, confirm_frames: 1, ..Config::default() });
    det.update(ZoneActivity::new(idle(), 0));
    assert_eq!(det.update(ZoneActivity::new(zones(0.0, 0.0, 0.0, 0.9), 1)), vec![Event::HoldDownStart]);
    det.start_recalibration();
    assert!(!det.calibrated());
    // the new idle frame is the bright scene: everything at 0.5
    assert!(det.update(ZoneActivity::new(zones(0.5, 0.5, 0.5, 0.5), 2)).is_empty());
    assert!(det.calibrated());
    assert_eq!(det.baseline(), [198_000_000; 4]);
    // the hold was still active; at the new baseline the down zone is idle
    assert_eq!(
        det.update(ZoneActivity::new(zones(0.5, 0.5, 0.5, 0.5), 3)),
        vec![Event::HoldDownEnd]
    );
}

#[test]
fn tap_and_hold_in_one_frame() {
    let mut det = GestureDetector::new(Config { calib_frames: 1, confirm_frames: 1, ..Config::default() });
    det.update(ZoneActivity::new(idle(), 0));
    let ev = det.update(ZoneActivity::new(zones(0.0, 0.0, 0.4, 0.9), 1));
    assert_eq!(ev, vec![Event::TapUp, Event::HoldDownStart]);
}

#[test]
fn equal_activity_prefers_first_zone() {
    let mut det = GestureDetector::new(Config { calib_frames: 1, confirm_frames: 1, ..Config::default() });
    det.update(ZoneActivity::new(idle(), 0));
    let ev = det.update(ZoneActivity::new(zones(0.0, 0.5, 0.5, 0.0), 1));
    assert_eq!(ev, vec![Event::TapRight]);
}

#[test]
fn cooldown_is_per_zone() {
    let mut det = GestureDetector::new(Config { calib_frames: 1, confirm_frames: 1, ..Config::default() });
    det.update(ZoneActivity::new(idle(), 0));
    assert_eq!(det.update(ZoneActivity::new(zones(0.5, 0.0, 0.0, 0.0), 1_000_000)), vec![Event::TapLeft]);
    assert!(det.update(ZoneActivity::new(idle(), 1_100_000)).is_empty());
    // another zone within the left zone's cooldown still taps
    assert_eq!(det.update(ZoneActivity::new(zones(0.0, 0.5, 0.0, 0.0), 1_200_000)), vec![Event::TapRight]);
}

#[test]
fn event_names() {
    assert_eq!(Event::TapLeft.as_str(), "tap_left");
    assert_eq!(Event::TapRight.as_str(), "tap_right");
    assert_eq!(Event::TapUp.as_str(), "tap_up");
    assert_eq!(Event::HoldDownStart.as_str(), "hold_down_start");
    assert_eq!(Event::HoldDownEnd.as_str(), "hold_down_end");
}

#[test]
fn configured_detector_uses_per_zone_thresholds() {
    let cfg = config::detector_config();
    assert_eq!(cfg.calib_frames, 30);
    assert_eq!(cfg.enter_ratio, [59_400_000, 59_400_000, 39_600_000, 87_120_000]);
    assert_eq!(cfg.enter_ratio, [ratio(0.15), ratio(0.15), ratio(0.10), ratio(0.22)]);
    assert_eq!(cfg.exit_ratio, [31_680_000, 31_680_000, 19_800_000, 31_680_000]);
    assert_eq!(cfg.cooldown_us, 500_000);
    assert_eq!(cfg.confirm_frames, 2);
    let over = config::make_detector_config(Some(ratio(0.2)), None);
    assert_eq!(over.enter_ratio, [79_200_000; 4]);
    assert_eq!(over.exit_ratio, [31_680_000, 31_680_000, 19_800_000, 31_680_000]);
}

#[test]
fn recalibration_keeps_the_tap_cooldown() {
    let mut det = GestureDetector::new(Config { calib_frames: 1, confirm_frames: 1, ..Config::default() });
    det.update(ZoneActivity::new(idle(), 0));
    assert_eq!(det.update(ZoneActivity::new(zones(0.5, 0.0, 0.0, 0.0), 1_000_000)), vec![Event::TapLeft]);
    assert!(det.update(ZoneActivity::new(idle(), 1_050_000)).is_empty());
    det.start_recalibration();
    assert!(det.update(ZoneActivity::new(idle(), 1_100_000)).is_empty());
    // 0.3 s after the last left tap: still inside its cooldown
    assert!(det.update(ZoneActivity::new(zones(0.5, 0.0, 0.0, 0.0), 1_300_000)).is_empty());
    assert!(det.update(ZoneActivity::new(idle(), 1_400_000)).is_empty());
    // 0.5 s after it: a tap again
    assert_eq!(det.update(ZoneActivity::new(zones(0.5, 0.0, 0.0, 0.0), 1_500_000)), vec![Event::TapLeft]);
}

#[test]
fn hold_events_alternate_across_a_run() {
    let mut det = GestureDetector::new(Config { calib_frames: 1, confirm_frames: 1, ..Config::default() });
    det.update(ZoneActivity::new(idle(), 0));
    let mut holds = Vec::new();
    let downs = [0.9, 0.9, 0.0, 0.9, 0.0, 0.0, 0.9];
    for (i, d) in downs.iter().enumerate() {
        let ev = det.update(ZoneActivity::new(zones(0.0, 0.0, 0.0, *d), (i as i64 + 1) * 100_000));
        assert!(ev.len() <= 1);
        holds.extend(ev);
    }
    assert_eq!(
        holds,
        vec![Event::HoldDownStart, Event::HoldDownEnd, Event::HoldDownStart, Event::HoldDownEnd, Event::HoldDownStart]
    );
}

#[test]
fn baseline_is_kept_until_the_new_calibration_completes() {
    let mut det = GestureDetector::new(Config { calib_frames: 2, confirm_frames: 1, ..Config::default() });
    det.update(ZoneActivity::new(Zones::new(10, 20, 30, 40), 0));
    det.update(ZoneActivity::new(Zones::new(20, 20, 31, 40), 1));
    assert_eq!(det.baseline(), [15, 20, 30, 40]);
    // later frames leave it alone
    det.update(ZoneActivity::new(zones(0.5, 0.5, 0.5, 0.5), 2));
    assert_eq!(det.baseline(), [15, 20, 30, 40]);
    det.start_recalibration();
    assert!(!det.calibrated());
    assert!(det.update(ZoneActivity::new(Zones::new(100, 0, 0, 0), 3)).is_empty());
    assert_eq!(det.baseline(), [15, 20, 30, 40]);
    assert!(det.update(ZoneActivity::new(Zones::new(200, 0, 0, 0), 4)).is_empty());
    // only the two new frames count
    assert_eq!(det.baseline(), [150, 0, 0, 0]);
}
