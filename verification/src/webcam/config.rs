//! Central configuration of the webcam front end. Ratios are in units of
//! `1 / RATIO_ONE`, zone coordinates in parts per million, times in
//! microseconds.
use vstd::prelude::*;
use crate::webcam::detector::Config as DetectorConfig;
use crate::webcam::keysender::Key;

verus! {

// --- Camera / image ---
pub const CAMERA_INDEX: i32 = 0;
pub const FRAME_WIDTH: i32 = 1920;
pub const FRAME_HEIGHT: i32 = 1080;
pub const MIRROR: bool = true;

// --- Grid ---
pub const GRID_COLS: i32 = 32;
pub const GRID_ROWS: i32 = 24;
/// A grid cell is active when its downscaled mask value reaches this.
pub const CELL_ACTIVE_THRESH: u8 = 40;

// --- Detector thresholds per zone [left, right, up, down] ---
// The gestures fill their zones very differently (a thin arm in the small
// up zone, the whole body in the down band), so every zone has its own
// thresholds. The down exit is deliberately low: during a long hold the
// motion mask fades gradually.
pub const ZONE_ENTER_RATIOS: [i32; 4] = [59_400_000, 59_400_000, 39_600_000, 87_120_000];
pub const ZONE_EXIT_RATIOS: [i32; 4] = [31_680_000, 31_680_000, 19_800_000, 31_680_000];
pub const COOLDOWN_US: i64 = 500_000;
/// About one second at 30 frames per second.
pub const CALIB_FRAMES: usize = 30;
/// An edge counts only after this many consecutive frames.
pub const CONFIRM_FRAMES: u32 = 2;

// --- Background model ---
pub const MOG2_HISTORY: i32 = 300;
pub const MOG2_DETECT_SHADOWS: bool = true;
/// After this warm-up the background model stops learning, so that a person
/// standing still or crouching is not absorbed into it.
pub const MOG2_WARMUP_FRAMES: u32 = 60;

// --- Automatic recalibration on a scene change (lights, camera moved) ---
/// Share of all grid cells that counts as a global change.
pub const SCENE_CHANGE_RATIO: i32 = 237_600_000;
/// Frames the change must last (about 1.5 s).
pub const SCENE_CHANGE_FRAMES: u32 = 45;

// --- Optical-flow direction gate (tap zones only) ---
pub const FLOW_ENABLED: bool = true;
pub const FLOW_WIDTH: i32 = 160;
pub const FLOW_HEIGHT: i32 = 120;
/// Minimum number of foreground pixels in a zone for a direction verdict.
pub const FLOW_MIN_PIXELS: i32 = 5;
/// A matching direction stays valid for this many further frames.
pub const FLOW_MEMORY_FRAMES: u32 = 3;

// --- Key sender ---
pub const TAP_HOLD_MS: u64 = 40;

// --- Overlay ---
/// x position of the overlay window (second monitor).
pub const MONITOR2_X_OFFSET: i32 = 1920;

/// Gesture keys.
pub const KEY_LEFT: Key = Key::A;
pub const KEY_RIGHT: Key = Key::D;
pub const KEY_UP: Key = Key::W;
pub const KEY_DOWN: Key = Key::S;

/// Zone rectangle in relative image coordinates, parts per million.
#[derive(Debug, Clone, Copy, PartialEq, Eq, Structural)]
pub struct ZoneRect {
    pub x0: i32,
    pub y0: i32,
    pub x1: i32,
    pub y1: i32,
}

/// The zones in detector order [left, right, up, down]. They do not
/// overlap; the centre stays a neutral idle area.
pub open spec fn spec_zone_rect(i: int) -> ZoneRect {
    if i == 0 {
        ZoneRect { x0: 0, y0: 0, x1: 340_000, y1: 700_000 }
    } else if i == 1 {
        ZoneRect { x0: 660_000, y0: 0, x1: 1_000_000, y1: 700_000 }
    } else if i == 2 {
        ZoneRect { x0: 340_000, y0: 0, x1: 660_000, y1: 380_000 }
    } else {
        ZoneRect { x0: 0, y0: 700_000, x1: 1_000_000, y1: 1_000_000 }
    }
}

/// Zone rectangle `i` (left, right, up, down).
pub fn zone_rect(i: usize) -> (r: ZoneRect)
    requires
        i < 4,
    ensures
        r == spec_zone_rect(i as int),
        0 <= r.x0 <= r.x1 <= 1_000_000,
        0 <= r.y0 <= r.y1 <= 1_000_000,
{
    if i == 0 {
        ZoneRect { x0: 0, y0: 0, x1: 340_000, y1: 700_000 }
    } else if i == 1 {
        ZoneRect { x0: 660_000, y0: 0, x1: 1_000_000, y1: 700_000 }
    } else if i == 2 {
        ZoneRect { x0: 340_000, y0: 0, x1: 660_000, y1: 380_000 }
    } else {
        ZoneRect { x0: 0, y0: 700_000, x1: 1_000_000, y1: 1_000_000 }
    }
}

/// The detector parameters of this configuration.
pub fn detector_config() -> (r: DetectorConfig)
    ensures
        r.calib_frames == CALIB_FRAMES,
        r.enter_ratio@ == seq![59_400_000i32, 59_400_000, 39_600_000, 87_120_000],
        r.exit_ratio@ == seq![31_680_000i32, 31_680_000, 19_800_000, 31_680_000],
        r.cooldown_us == COOLDOWN_US,
        r.confirm_frames == CONFIRM_FRAMES,
{
    let r = DetectorConfig {
        calib_frames: CALIB_FRAMES,
        enter_ratio: [59_400_000, 59_400_000, 39_600_000, 87_120_000],
        exit_ratio: [31_680_000, 31_680_000, 19_800_000, 31_680_000],
        cooldown_us: COOLDOWN_US,
        confirm_frames: CONFIRM_FRAMES,
    };
    assert(r.enter_ratio@ =~= seq![59_400_000i32, 59_400_000, 39_600_000, 87_120_000]);
    assert(r.exit_ratio@ =~= seq![31_680_000i32, 31_680_000, 19_800_000, 31_680_000]);
    r
}

/// Detector parameters with optional thresholds that replace the per-zone
/// values of every zone.
pub fn make_detector_config(enter: Option<i32>, exit: Option<i32>) -> (r: DetectorConfig)
    ensures
        r.calib_frames == CALIB_FRAMES,
        r.cooldown_us == COOLDOWN_US,
        r.confirm_frames == CONFIRM_FRAMES,
        r.enter_ratio@ == (match enter {
            Some(e) => seq![e, e, e, e],
            None => seq![59_400_000i32, 59_400_000, 39_600_000, 87_120_000],
        }),
        r.exit_ratio@ == (match exit {
            Some(e) => seq![e, e, e, e],
            None => seq![31_680_000i32, 31_680_000, 19_800_000, 31_680_000],
        }),
{
    let mut cfg = detector_config();
    if let Some(e) = enter {
        cfg.enter_ratio = [e, e, e, e];
        assert(cfg.enter_ratio@ =~= seq![e, e, e, e]);
    }
    if let Some(e) = exit {
        cfg.exit_ratio = [e, e, e, e];
        assert(cfg.exit_ratio@ =~= seq![e, e, e, e]);
    }
    cfg
}

} // verus!
