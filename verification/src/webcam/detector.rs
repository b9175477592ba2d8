//! Rule-based gesture detection on zone ratios.
//!
//! After averaging `calib_frames` idle frames into a per-zone baseline, each
//! zone's effective activity is its ratio above that baseline (never below
//! zero). A zone becomes active once its activity has stayed above its enter
//! threshold for `confirm_frames` consecutive frames (and, for the tap zones,
//! the source's direction gate is open), and inactive once it has stayed
//! below its exit threshold for as many frames. A newly active tap zone emits
//! one tap (the strongest one if several rise together, subject to a per-zone
//! cooldown); the down zone emits hold start / hold end on its edges.
//!
//! The baseline is kept as an exact fraction `base_sum / base_count`; all
//! comparisons are made on values scaled by `base_count`, without rounding.
use vstd::prelude::*;
use crate::seqs::{lemma_contains_concat2, lemma_contains_single};
use crate::units::floor_div;
use crate::webcam::zones::ZoneActivity;

verus! {

/// Zone indices.
pub const LEFT: usize = 0;
pub const RIGHT: usize = 1;
pub const UP: usize = 2;
pub const DOWN: usize = 3;

/// An abstract detector event.
#[derive(Debug, Clone, Copy, PartialEq, Eq, Structural)]
pub enum Event {
    TapLeft,
    TapRight,
    TapUp,
    HoldDownStart,
    HoldDownEnd,
}

/// The name under which an event is logged.
pub open spec fn event_name(e: Event) -> Seq<char> {
    match e {
        Event::TapLeft => "tap_left"@,
        Event::TapRight => "tap_right"@,
        Event::TapUp => "tap_up"@,
        Event::HoldDownStart => "hold_down_start"@,
        Event::HoldDownEnd => "hold_down_end"@,
    }
}

impl Event {
    /// Log name of the event.
    pub fn as_str(self) -> (r: &'static str)
        ensures
            r@ == event_name(self),
    {
        proof {
            reveal_strlit("tap_left");
            reveal_strlit("tap_right");
            reveal_strlit("tap_up");
            reveal_strlit("hold_down_start");
            reveal_strlit("hold_down_end");
        }
        match self {
            Event::TapLeft => "tap_left",
            Event::TapRight => "tap_right",
            Event::TapUp => "tap_up",
            Event::HoldDownStart => "hold_down_start",
            Event::HoldDownEnd => "hold_down_end",
        }
    }
}

/// The tap event of tap zone `z` (0 left, 1 right, otherwise up).
pub open spec fn tap_event(z: int) -> Event {
    if z == 0 {
        Event::TapLeft
    } else if z == 1 {
        Event::TapRight
    } else {
        Event::TapUp
    }
}

/// Detector parameters. Ratios are in units of `1 / RATIO_ONE`, the
/// cooldown in microseconds.
#[derive(Debug, Clone, Copy)]
pub struct Config {
    /// Number of idle frames averaged into the baseline.
    pub calib_frames: usize,
    /// Enter threshold per zone [left, right, up, down].
    pub enter_ratio: [i32; 4],
    /// Exit threshold per zone [left, right, up, down].
    pub exit_ratio: [i32; 4],
    /// Minimum time between two taps of the same zone.
    pub cooldown_us: i64,
    /// An edge counts only after this many consecutive frames above / below
    /// the threshold (values below 1 count as 1).
    pub confirm_frames: u32,
}

/// The default parameters: 30 calibration frames, enter 0.15 and exit 0.08
/// in every zone, 0.5 s cooldown, two confirmation frames.
pub open spec fn is_default_config(c: Config) -> bool {
    &&& c.calib_frames == 30
    &&& c.enter_ratio@ == seq![59_400_000i32, 59_400_000, 59_400_000, 59_400_000]
    &&& c.exit_ratio@ == seq![31_680_000i32, 31_680_000, 31_680_000, 31_680_000]
    &&& c.cooldown_us == 500_000
    &&& c.confirm_frames == 2
}

impl Default for Config {
    fn default() -> (r: Self)
        ensures
            is_default_config(r),
    {
        let r = Config {
            calib_frames: 30,
            enter_ratio: [59_400_000, 59_400_000, 59_400_000, 59_400_000],
            exit_ratio: [31_680_000, 31_680_000, 31_680_000, 31_680_000],
            cooldown_us: 500_000,
            confirm_frames: 2,
        };
        assert(r.enter_ratio@ =~= seq![59_400_000i32, 59_400_000, 59_400_000, 59_400_000]);
        assert(r.exit_ratio@ =~= seq![31_680_000i32, 31_680_000, 31_680_000, 31_680_000]);
        r
    }
}

/// Time of the last tap before any tap happened: 10^9 seconds in the past.
pub const NEVER_TAPPED: i64 = -1_000_000_000_000_000;

/// Number of samples after which calibration is complete (at least one).
pub open spec fn calib_target(calib_frames: usize) -> nat {
    if calib_frames == 0 { 1 } else { calib_frames as nat }
}

/// Consecutive frames an edge needs.
pub open spec fn need_frames(cfg: Config) -> nat {
    if cfg.confirm_frames > 1 { cfg.confirm_frames as nat } else { 1 }
}

/// Abstract state of one zone.
pub struct ZoneModel {
    /// Sum of this zone's ratios during the running calibration.
    pub calib_sum: int,
    /// Sum of this zone's ratios during the last completed calibration.
    pub base_sum: int,
    pub active: bool,
    /// Consecutive frames above the enter threshold while inactive.
    pub above: nat,
    /// Consecutive frames below the exit threshold while active.
    pub below: nat,
    /// Time of this zone's last tap.
    pub last_tap_t: int,
}

/// A zone's effective activity `max(ratio - baseline, 0)`, scaled by the
/// number of calibration frames `n`.
pub open spec fn scaled_eff(ratio: int, base_sum: int, n: int) -> int {
    if ratio * n - base_sum > 0 { ratio * n - base_sum } else { 0 }
}

/// Hysteresis with debounce for one zone: `eff`, `enter` and `exit` are on
/// the same scale; `gate` is the direction gate for rising edges.
pub open spec fn zone_step(z: ZoneModel, eff: int, enter: int, exit: int, need: nat, gate: bool) -> ZoneModel {
    if !z.active {
        let above: nat = if eff > enter {
            if z.above + 1 < need { (z.above + 1) as nat } else { need }
        } else {
            0
        };
        let rising = above >= need && gate;
        ZoneModel { active: rising, above: if rising { 0 } else { above }, below: 0, ..z }
    } else {
        let below: nat = if eff < exit { (z.below + 1) as nat } else { 0 };
        let falling = below >= need;
        ZoneModel { active: !falling, above: 0, below: if falling { 0 } else { below }, ..z }
    }
}

/// Abstract state of a [`GestureDetector`]; `zones` is indexed
/// [left, right, up, down].
pub struct DetectorModel {
    pub cfg: Config,
    /// Frames collected by the running calibration.
    pub calib_count: nat,
    /// Frames of the last completed calibration.
    pub base_count: nat,
    pub calibrated: bool,
    pub zones: Seq<ZoneModel>,
}

/// State of a freshly created detector.
pub open spec fn initial_model(cfg: Config) -> DetectorModel {
    DetectorModel {
        cfg,
        calib_count: 0,
        base_count: 0,
        calibrated: false,
        zones: Seq::new(
            4,
            |i: int|
                ZoneModel {
                    calib_sum: 0,
                    base_sum: 0,
                    active: false,
                    above: 0,
                    below: 0,
                    last_tap_t: NEVER_TAPPED as int,
                },
        ),
    }
}

impl DetectorModel {
    /// Reachable states.
    pub open spec fn wf(self) -> bool {
        &&& self.zones.len() == 4
        &&& !self.calibrated ==> self.calib_count < calib_target(self.cfg.calib_frames)
        &&& self.calibrated ==> self.base_count >= 1
        &&& forall|i: int|
            0 <= i < 4 ==> #[trigger] self.zones[i].above <= need_frames(self.cfg)
                && self.zones[i].below < need_frames(self.cfg)
    }

    /// Effective activity of zone `i`, scaled by `base_count`.
    pub open spec fn eff(self, s: ZoneActivity, i: int) -> int {
        scaled_eff(s.zones.ratio(i), self.zones[i].base_sum, self.base_count as int)
    }

    /// Enter threshold of zone `i`, scaled by `base_count`.
    pub open spec fn enter(self, i: int) -> int {
        self.cfg.enter_ratio[i] * self.base_count
    }

    /// Exit threshold of zone `i`, scaled by `base_count`.
    pub open spec fn exit(self, i: int) -> int {
        self.cfg.exit_ratio[i] * self.base_count
    }

    /// The direction gate applies to the tap zones only.
    pub open spec fn gate(s: ZoneActivity, i: int) -> bool {
        i == DOWN || s.dir_ok[i]
    }

    /// Zone `i` after the hysteresis step for frame `s`.
    pub open spec fn stepped(self, s: ZoneActivity, i: int) -> ZoneModel {
        zone_step(
            self.zones[i],
            self.eff(s, i),
            self.enter(i),
            self.exit(i),
            need_frames(self.cfg),
            Self::gate(s, i),
        )
    }

    /// Zone `i` becomes active in frame `s`.
    pub open spec fn rising(self, s: ZoneActivity, i: int) -> bool {
        !self.zones[i].active && self.stepped(s, i).active
    }

    /// Zone `i` becomes inactive in frame `s`.
    pub open spec fn falling(self, s: ZoneActivity, i: int) -> bool {
        self.zones[i].active && !self.stepped(s, i).active
    }

    /// The rising tap zone with the largest activity (the first one on a
    /// tie), or -1 if no tap zone rises.
    pub open spec fn tap_winner(self, s: ZoneActivity) -> int {
        let w0 = if self.rising(s, 0) { 0 } else { -1 };
        let w1 = if self.rising(s, 1) && (w0 < 0 || self.eff(s, 1) > self.eff(s, w0)) {
            1
        } else {
            w0
        };
        if self.rising(s, 2) && (w1 < 0 || self.eff(s, 2) > self.eff(s, w1)) {
            2
        } else {
            w1
        }
    }

    /// The winning tap zone is outside its cooldown.
    pub open spec fn tap_fires(self, s: ZoneActivity) -> bool {
        let w = self.tap_winner(s);
        w >= 0 && s.t - self.zones[w].last_tap_t >= self.cfg.cooldown_us
    }

    pub open spec fn tap_events(self, s: ZoneActivity) -> Seq<Event> {
        if self.tap_fires(s) { seq![tap_event(self.tap_winner(s))] } else { seq![] }
    }

    pub open spec fn hold_events(self, s: ZoneActivity) -> Seq<Event> {
        if self.rising(s, DOWN as int) {
            seq![Event::HoldDownStart]
        } else if self.falling(s, DOWN as int) {
            seq![Event::HoldDownEnd]
        } else {
            seq![]
        }
    }

    /// Events reported for frame `s`: none while calibrating, otherwise at
    /// most one tap followed by at most one hold event.
    pub open spec fn events(self, s: ZoneActivity) -> Seq<Event> {
        if !self.calibrated {
            seq![]
        } else {
            self.tap_events(s) + self.hold_events(s)
        }
    }

    /// State after frame `s`.
    pub open spec fn next(self, s: ZoneActivity) -> DetectorModel {
        if !self.calibrated {
            let count = self.calib_count + 1;
            let zs = Seq::new(
                4,
                |i: int|
                    ZoneModel {
                        calib_sum: self.zones[i].calib_sum + s.zones.ratio(i),
                        ..self.zones[i]
                    },
            );
            if count >= self.cfg.calib_frames {
                DetectorModel {
                    calib_count: count,
                    base_count: count,
                    calibrated: true,
                    zones: Seq::new(4, |i: int| ZoneModel { base_sum: zs[i].calib_sum, ..zs[i] }),
                    ..self
                }
            } else {
                DetectorModel { calib_count: count, zones: zs, ..self }
            }
        } else {
            DetectorModel {
                zones: Seq::new(
                    4,
                    |i: int|
                        if self.tap_fires(s) && i == self.tap_winner(s) {
                            ZoneModel { last_tap_t: s.t as int, ..self.stepped(s, i) }
                        } else {
                            self.stepped(s, i)
                        },
                ),
                ..self
            }
        }
    }

    /// State after a recalibration request: calibration restarts, debounce
    /// counters are cleared; activity, tap times and the old baseline stay.
    pub open spec fn recalibrating(self) -> DetectorModel {
        DetectorModel {
            calib_count: 0,
            calibrated: false,
            zones: Seq::new(
                4,
                |i: int| ZoneModel { calib_sum: 0, above: 0, below: 0, ..self.zones[i] },
            ),
            ..self
        }
    }

    /// Baseline ratio of zone `i`, rounded down (0 before any calibration).
    pub open spec fn baseline(self, i: int) -> int {
        if self.base_count == 0 {
            0
        } else {
            self.zones[i].base_sum / (self.base_count as int)
        }
    }
}

/// Largest magnitude of a ratio (`i32`).
pub open spec fn ratio_bound() -> int {
    0x8000_0000
}

proof fn lemma_scaled_bound(a: int, n: int)
    requires
        -ratio_bound() <= a <= ratio_bound(),
        0 <= n <= 0x1_0000_0000_0000_0000,
    ensures
        -0x8000_0000_0000_0000_0000_0000 <= a * n <= 0x8000_0000_0000_0000_0000_0000,
{
    assert(-0x8000_0000_0000_0000_0000_0000 <= a * n <= 0x8000_0000_0000_0000_0000_0000)
        by (nonlinear_arith)
        requires
            -0x8000_0000 <= a <= 0x8000_0000,
            0 <= n <= 0x1_0000_0000_0000_0000,
    ;
}

/// Per-zone state.
#[derive(Debug, Clone, Copy)]
struct ZoneTrack {
    calib_sum: i128,
    base_sum: i128,
    active: bool,
    above: u32,
    below: u32,
    last_tap_t: i64,
}

impl View for ZoneTrack {
    type V = ZoneModel;

    closed spec fn view(&self) -> ZoneModel {
        ZoneModel {
            calib_sum: self.calib_sum as int,
            base_sum: self.base_sum as int,
            active: self.active,
            above: self.above as nat,
            below: self.below as nat,
            last_tap_t: self.last_tap_t as int,
        }
    }
}

impl ZoneTrack {
    fn fresh() -> (r: Self)
        ensures
            r@ == (ZoneModel {
                calib_sum: 0,
                base_sum: 0,
                active: false,
                above: 0,
                below: 0,
                last_tap_t: NEVER_TAPPED as int,
            }),
    {
        ZoneTrack {
            calib_sum: 0,
            base_sum: 0,
            active: false,
            above: 0,
            below: 0,
            last_tap_t: NEVER_TAPPED,
        }
    }

    fn step(self, eff: i128, enter: i128, exit: i128, need: u32, gate: bool) -> (r: Self)
        requires
            need >= 1,
            self.above <= need,
            self.below < need,
        ensures
            r@ == zone_step(self@, eff as int, enter as int, exit as int, need as nat, gate),
            r.above <= need,
            r.below < need,
    {
        if !self.active {
            let above: u32 = if eff > enter {
                if (self.above as u64) + 1 < need as u64 {
                    self.above + 1
                } else {
                    need
                }
            } else {
                0
            };
            let rising = above >= need && gate;
            ZoneTrack { active: rising, above: if rising { 0 } else { above }, below: 0, ..self }
        } else {
            let below: u32 = if eff < exit { self.below + 1 } else { 0 };
            let falling = below >= need;
            ZoneTrack { active: !falling, above: 0, below: if falling { 0 } else { below }, ..self }
        }
    }
}

/// The detector state after feeding the frames `ss` in order.
pub open spec fn run(m: DetectorModel, ss: Seq<ZoneActivity>) -> DetectorModel
    decreases ss.len(),
{
    if ss.len() == 0 {
        m
    } else {
        run(m.next(ss[0]), ss.drop_first())
    }
}

/// All events reported while feeding the frames `ss` in order.
pub open spec fn run_events(m: DetectorModel, ss: Seq<ZoneActivity>) -> Seq<Event>
    decreases ss.len(),
{
    if ss.len() == 0 {
        seq![]
    } else {
        m.events(ss[0]) + run_events(m.next(ss[0]), ss.drop_first())
    }
}

/// Sum of zone `i`'s ratios over a frame sequence.
pub open spec fn ratio_sum(ss: Seq<ZoneActivity>, i: int) -> int
    decreases ss.len(),
{
    if ss.len() == 0 { 0 } else { ss[0].zones.ratio(i) + ratio_sum(ss.drop_first(), i) }
}

/// Calibration: while calibrating, at most the remaining number of frames
/// report no event; exactly after the last one the detector is calibrated
/// on the sums of all frames of this calibration. Activity flags, tap times
/// and debounce counters are not touched meanwhile.
pub proof fn lemma_calibration(m: DetectorModel, ss: Seq<ZoneActivity>)
    requires
        m.wf(),
        !m.calibrated,
        ss.len() <= calib_target(m.cfg.calib_frames) - m.calib_count,
    ensures
        run_events(m, ss) == Seq::<Event>::empty(),
        run(m, ss).calibrated == (ss.len() == calib_target(m.cfg.calib_frames) - m.calib_count),
        run(m, ss).calib_count == m.calib_count + ss.len(),
        run(m, ss).wf(),
        run(m, ss).zones.len() == 4,
        forall|i: int|
            0 <= i < 4 ==> #[trigger] run(m, ss).zones[i].calib_sum == m.zones[i].calib_sum
                + ratio_sum(ss, i) && run(m, ss).zones[i].active == m.zones[i].active
                && run(m, ss).zones[i].last_tap_t == m.zones[i].last_tap_t,
        run(m, ss).calibrated ==> run(m, ss).base_count == m.calib_count + ss.len() && forall|
            i: int,
        |
            0 <= i < 4 ==> #[trigger] run(m, ss).zones[i].base_sum == m.zones[i].calib_sum
                + ratio_sum(ss, i),
        !run(m, ss).calibrated ==> run(m, ss).base_count == m.base_count && forall|i: int|
            0 <= i < 4 ==> #[trigger] run(m, ss).zones[i].base_sum == m.zones[i].base_sum,
    decreases ss.len(),
{
    if ss.len() > 0 {
        let m1 = m.next(ss[0]);
        assert(run(m, ss) == run(m1, ss.drop_first()));
        assert(forall|i: int| #[trigger] ratio_sum(ss, i) == ss[0].zones.ratio(i) + ratio_sum(ss.drop_first(), i));
        if m1.calibrated {
            assert(ss.drop_first().len() == 0);
            assert(run(m1, ss.drop_first()) == m1);
            assert(forall|i: int| #[trigger] ratio_sum(ss.drop_first(), i) == 0);
            assert(run_events(m1, ss.drop_first()) == Seq::<Event>::empty());
        } else {
            lemma_calibration(m1, ss.drop_first());
        }
        assert(run_events(m, ss) == m.events(ss[0]) + run_events(m1, ss.drop_first()));
    }
}

/// A fresh detector reports nothing during its first `calib_frames` frames
/// and is calibrated on their sums exactly after the last one.
pub proof fn lemma_fresh_calibration(cfg: Config, ss: Seq<ZoneActivity>)
    requires
        ss.len() <= calib_target(cfg.calib_frames),
    ensures
        run_events(initial_model(cfg), ss) == Seq::<Event>::empty(),
        run(initial_model(cfg), ss).calibrated == (ss.len() == calib_target(cfg.calib_frames)),
        run(initial_model(cfg), ss).calibrated ==> forall|i: int|
            0 <= i < 4 ==> #[trigger] run(initial_model(cfg), ss).baseline(i) == ratio_sum(ss, i)
                / (ss.len() as int),
{
    lemma_calibration(initial_model(cfg), ss);
}

/// After a recalibration request the next `calib_frames` frames report no
/// event, and then the detector is calibrated again on those frames only.
pub proof fn lemma_recalibration(m: DetectorModel, ss: Seq<ZoneActivity>)
    requires
        m.wf(),
        ss.len() <= calib_target(m.cfg.calib_frames),
    ensures
        m.recalibrating().wf(),
        run_events(m.recalibrating(), ss) == Seq::<Event>::empty(),
        run(m.recalibrating(), ss).calibrated == (ss.len() == calib_target(m.cfg.calib_frames)),
        run(m.recalibrating(), ss).calibrated ==> forall|i: int|
            0 <= i < 4 ==> #[trigger] run(m.recalibrating(), ss).zones[i].base_sum == ratio_sum(ss, i)
                && run(m.recalibrating(), ss).baseline(i) == ratio_sum(ss, i) / (ss.len() as int),
        !run(m.recalibrating(), ss).calibrated ==> forall|i: int|
            0 <= i < 4 ==> #[trigger] run(m.recalibrating(), ss).baseline(i) == m.baseline(i),
{
    let r = m.recalibrating();
    assert(forall|i: int| 0 <= i < 4 ==> #[trigger] r.zones[i].above == 0);
    lemma_calibration(r, ss);
}

/// Every step keeps the state reachable; once calibrated the detector stays
/// calibrated on the same baseline.
pub proof fn lemma_step_keeps_wf(m: DetectorModel, s: ZoneActivity)
    requires
        m.wf(),
    ensures
        m.next(s).wf(),
        m.calibrated ==> m.next(s).calibrated && m.next(s).base_count == m.base_count && forall|
            i: int,
        | 0 <= i < 4 ==> #[trigger] m.next(s).zones[i].base_sum == m.zones[i].base_sum
            && m.next(s).baseline(i) == m.baseline(i),
{
    let n = m.next(s);
    if m.calibrated {
        assert forall|i: int| 0 <= i < 4 implies #[trigger] n.zones[i].above <= need_frames(m.cfg)
            && n.zones[i].below < need_frames(m.cfg) by {
            assert(m.zones[i].above <= need_frames(m.cfg));
        }
    } else {
        assert forall|i: int| 0 <= i < 4 implies #[trigger] n.zones[i].above <= need_frames(m.cfg)
            && n.zones[i].below < need_frames(m.cfg) by {
            assert(m.zones[i].above <= need_frames(m.cfg));
        }
    }
}

/// On conflict the strongest zone wins: the tap winner is a rising tap zone
/// whose activity is at least that of every other rising tap zone and
/// strictly greater than that of every rising tap zone before it; if no tap
/// zone rises there is no winner.
pub proof fn lemma_strongest_wins(m: DetectorModel, s: ZoneActivity)
    requires
        m.wf(),
        m.calibrated,
    ensures
        -1 <= m.tap_winner(s) <= 2,
        m.tap_winner(s) == -1 <==> (!m.rising(s, 0) && !m.rising(s, 1) && !m.rising(s, 2)),
        m.tap_winner(s) >= 0 ==> m.rising(s, m.tap_winner(s)),
        m.tap_winner(s) >= 0 ==> forall|z: int|
            0 <= z < 3 && #[trigger] m.rising(s, z) ==> m.eff(s, z) <= m.eff(s, m.tap_winner(s)),
        m.tap_winner(s) >= 0 ==> forall|z: int|
            0 <= z < m.tap_winner(s) && #[trigger] m.rising(s, z) ==> m.eff(s, z) < m.eff(
                s,
                m.tap_winner(s),
            ),
{
}

/// At most one tap and at most one hold event per frame; a tap belongs to a
/// rising tap zone, respects that zone's cooldown and restarts it, while the
/// other zones' tap times are kept.
pub proof fn lemma_tap_cooldown(m: DetectorModel, s: ZoneActivity)
    requires
        m.wf(),
        m.calibrated,
    ensures
        m.events(s).len() <= 2,
        m.tap_events(s).len() <= 1,
        m.hold_events(s).len() <= 1,
        m.tap_fires(s) ==> {
            let w = m.tap_winner(s);
            &&& 0 <= w < 3
            &&& m.rising(s, w)
            &&& s.t - m.zones[w].last_tap_t >= m.cfg.cooldown_us
            &&& m.next(s).zones[w].last_tap_t == s.t
            &&& m.tap_events(s) == seq![tap_event(w)]
        },
        forall|z: int|
            0 <= z < 4 && !(m.tap_fires(s) && z == m.tap_winner(s)) ==> #[trigger] m.next(
                s,
            ).zones[z].last_tap_t == m.zones[z].last_tap_t,
{
    lemma_strongest_wins(m, s);
}

/// Hold start and hold end alternate: a start is reported exactly when the
/// down zone turns active, an end exactly when it turns inactive.
pub proof fn lemma_hold_alternates(m: DetectorModel, s: ZoneActivity)
    requires
        m.wf(),
        m.calibrated,
    ensures
        m.hold_events(s) == seq![Event::HoldDownStart] <==> (!m.zones[3].active
            && m.next(s).zones[3].active),
        m.hold_events(s) == seq![Event::HoldDownEnd] <==> (m.zones[3].active
            && !m.next(s).zones[3].active),
        m.hold_events(s) == Seq::<Event>::empty() <==> m.next(s).zones[3].active
            == m.zones[3].active,
{
    let st = seq![Event::HoldDownStart];
    let en = seq![Event::HoldDownEnd];
    assert(st[0] == Event::HoldDownStart && en[0] == Event::HoldDownEnd);
    if m.hold_events(s) == st {
        assert(m.hold_events(s)[0] == Event::HoldDownStart);
    }
    if m.hold_events(s) == en {
        assert(m.hold_events(s)[0] == Event::HoldDownEnd);
    }
}

/// The direction gate never affects the hold: two frames that differ only in
/// their direction flags give the same hold events and the same down zone.
pub proof fn lemma_gate_spares_hold(m: DetectorModel, s: ZoneActivity, dir_ok: [bool; 3])
    requires
        m.wf(),
        m.calibrated,
    ensures
        ({
            let s2 = ZoneActivity { dir_ok, ..s };
            &&& m.hold_events(s2) == m.hold_events(s)
            &&& m.next(s2).zones[3].active == m.next(s).zones[3].active
            &&& m.next(s2).zones[3].above == m.next(s).zones[3].above
            &&& m.next(s2).zones[3].below == m.next(s).zones[3].below
        }),
{
}

/// A closed direction gate blocks a tap zone's rising edge but keeps its
/// confirmation: as soon as the direction matches while the activity is
/// still above the threshold, the edge fires.
pub proof fn lemma_gate_blocks_tap(m: DetectorModel, s: ZoneActivity, i: int)
    requires
        m.wf(),
        m.calibrated,
        0 <= i < 3,
    ensures
        !s.dir_ok[i] ==> !m.rising(s, i),
        !s.dir_ok[i] && !m.zones[i].active && m.eff(s, i) > m.enter(i) && m.zones[i].above + 1
            >= need_frames(m.cfg) ==> m.next(s).zones[i].above == need_frames(m.cfg),
        s.dir_ok[i] && !m.zones[i].active && m.eff(s, i) > m.enter(i) && m.zones[i].above + 1
            >= need_frames(m.cfg) ==> m.rising(s, i),
{
    assert(m.zones[i].above <= need_frames(m.cfg));
}

/// Debounce: a zone only turns active after its activity has been above the
/// enter threshold for `confirm_frames` consecutive frames, and only turns
/// inactive after `confirm_frames` consecutive frames below the exit
/// threshold. In particular, with two or more confirmation frames a single
/// outlier frame neither starts nor ends anything.
pub proof fn lemma_debounce(m: DetectorModel, s: ZoneActivity, i: int)
    requires
        m.wf(),
        m.calibrated,
        0 <= i < 4,
    ensures
        m.rising(s, i) ==> m.eff(s, i) > m.enter(i) && m.zones[i].above + 1 >= need_frames(m.cfg),
        m.falling(s, i) ==> m.eff(s, i) < m.exit(i) && m.zones[i].below + 1 >= need_frames(m.cfg),
        need_frames(m.cfg) >= 2 && m.zones[i].above == 0 ==> !m.rising(s, i),
        need_frames(m.cfg) >= 2 && m.zones[i].below == 0 ==> !m.falling(s, i),
        !m.zones[i].active ==> m.next(s).zones[i].below == 0,
        m.zones[i].active ==> m.next(s).zones[i].above == 0,
{
    assert(m.zones[i].above <= need_frames(m.cfg));
}

/// Frames at the end of the first `n` frames of `ss`, in a row, on which
/// zone `i`'s activity (against the baseline of `m`) is below its exit
/// threshold.
pub open spec fn trailing_lows(m: DetectorModel, ss: Seq<ZoneActivity>, i: int, n: int) -> nat
    decreases n,
{
    if n <= 0 {
        0
    } else if m.eff(ss[n - 1], i) < m.exit(i) {
        trailing_lows(m, ss, i, n - 1) + 1
    } else {
        0
    }
}

proof fn lemma_run_push(m: DetectorModel, ss: Seq<ZoneActivity>, s: ZoneActivity)
    ensures
        run(m, ss.push(s)) == run(m, ss).next(s),
        run_events(m, ss.push(s)) == run_events(m, ss) + run(m, ss).events(s),
    decreases ss.len(),
{
    if ss.len() == 0 {
        let e = Seq::<ZoneActivity>::empty();
        assert(ss.push(s).drop_first() =~= e);
        assert(ss.push(s)[0] == s);
        assert(run(m.next(s), e) == m.next(s));
        assert(run_events(m.next(s), e) == Seq::<Event>::empty());
        assert(run(m, ss) == m);
        assert(run_events(m, ss) == Seq::<Event>::empty());
        assert(run(m, ss.push(s)) == run(m.next(s), e));
        assert(run_events(m, ss.push(s)) == m.events(s) + run_events(m.next(s), e));
        assert(m.events(s) + Seq::<Event>::empty() =~= m.events(s));
        assert(Seq::<Event>::empty() + m.events(s) =~= m.events(s));
    } else {
        assert(ss.push(s).drop_first() =~= ss.drop_first().push(s));
        assert(ss.push(s)[0] == ss[0]);
        lemma_run_push(m.next(ss[0]), ss.drop_first(), s);
        let a = m.events(ss[0]);
        let b = run_events(m.next(ss[0]), ss.drop_first());
        let c = run(m, ss).events(s);
        assert(a + (b + c) =~= (a + b) + c);
    }
}

proof fn lemma_dropout_invariant(m: DetectorModel, ss: Seq<ZoneActivity>, i: int, n: int)
    requires
        m.wf(),
        m.calibrated,
        0 <= i < 4,
        m.zones[i].active,
        m.zones[i].below == 0,
        0 <= n <= ss.len(),
        forall|k: int| 0 <= k <= ss.len() ==> #[trigger] trailing_lows(m, ss, i, k) < need_frames(
            m.cfg,
        ),
    ensures
        ({
            let st = run(m, ss.take(n));
            &&& st.wf()
            &&& st.calibrated
            &&& st.cfg == m.cfg
            &&& st.base_count == m.base_count
            &&& forall|j: int| 0 <= j < 4 ==> #[trigger] st.zones[j].base_sum == m.zones[j].base_sum
            &&& st.zones[i].active
            &&& st.zones[i].below == trailing_lows(m, ss, i, n)
            &&& i == DOWN ==> !run_events(m, ss.take(n)).contains(Event::HoldDownEnd)
        }),
    decreases n,
{
    if n == 0 {
        assert(ss.take(0) =~= Seq::<ZoneActivity>::empty());
        lemma_contains_single(Event::TapLeft, Event::HoldDownEnd);
    } else {
        lemma_dropout_invariant(m, ss, i, n - 1);
        let pre = ss.take(n - 1);
        let s = ss[n - 1];
        assert(ss.take(n) =~= pre.push(s));
        lemma_run_push(m, pre, s);
        let st = run(m, pre);
        lemma_step_keeps_wf(st, s);
        lemma_step_report(st, s);
        assert(st.eff(s, i) == m.eff(s, i));
        assert(st.exit(i) == m.exit(i));
        assert(trailing_lows(m, ss, i, n) < need_frames(m.cfg));
        lemma_contains_concat2(run_events(m, pre), st.events(s), Event::HoldDownEnd);
    }
}

/// Debounce of the exit edge: an active zone whose below-exit count has
/// just restarted (as when it turned active) stays active, and for the down
/// zone no hold end is reported, as long as its activity is never below the
/// exit threshold on `confirm_frames` frames in a row: a frame at or above
/// the exit threshold restarts the count, so isolated dropouts are
/// forgiven.
pub proof fn lemma_exit_needs_consecutive_lows(m: DetectorModel, ss: Seq<ZoneActivity>, i: int)
    requires
        m.wf(),
        m.calibrated,
        0 <= i < 4,
        m.zones[i].active,
        m.zones[i].below == 0,
        forall|k: int| 0 <= k <= ss.len() ==> #[trigger] trailing_lows(m, ss, i, k) < need_frames(
            m.cfg,
        ),
    ensures
        run(m, ss).zones[i].active,
        i == DOWN ==> !run_events(m, ss).contains(Event::HoldDownEnd),
{
    lemma_dropout_invariant(m, ss, i, ss.len() as int);
    assert(ss.take(ss.len() as int) =~= ss);
}

/// Frames at the end of the first `n` frames of `ss`, in a row, on which
/// zone `i`'s activity (against the baseline of `m`) is above its enter
/// threshold.
pub open spec fn trailing_highs(m: DetectorModel, ss: Seq<ZoneActivity>, i: int, n: int) -> nat
    decreases n,
{
    if n <= 0 {
        0
    } else if m.eff(ss[n - 1], i) > m.enter(i) {
        trailing_highs(m, ss, i, n - 1) + 1
    } else {
        0
    }
}

proof fn lemma_entry_invariant(m: DetectorModel, ss: Seq<ZoneActivity>, i: int, n: int)
    requires
        m.wf(),
        m.calibrated,
        0 <= i < 4,
        !m.zones[i].active,
        m.zones[i].above == 0,
        0 <= n <= ss.len(),
        forall|k: int| 0 <= k <= ss.len() ==> #[trigger] trailing_highs(m, ss, i, k) < need_frames(
            m.cfg,
        ),
    ensures
        ({
            let st = run(m, ss.take(n));
            &&& st.wf()
            &&& st.calibrated
            &&& st.cfg == m.cfg
            &&& st.base_count == m.base_count
            &&& forall|j: int| 0 <= j < 4 ==> #[trigger] st.zones[j].base_sum == m.zones[j].base_sum
            &&& !st.zones[i].active
            &&& st.zones[i].above == trailing_highs(m, ss, i, n)
            &&& i < 3 ==> !run_events(m, ss.take(n)).contains(tap_event(i))
            &&& i == DOWN ==> !run_events(m, ss.take(n)).contains(Event::HoldDownStart)
        }),
    decreases n,
{
    if n == 0 {
        assert(ss.take(0) =~= Seq::<ZoneActivity>::empty());
        lemma_contains_single(Event::TapLeft, Event::HoldDownStart);
        lemma_contains_single(Event::TapLeft, tap_event(i));
    } else {
        lemma_entry_invariant(m, ss, i, n - 1);
        let pre = ss.take(n - 1);
        let s = ss[n - 1];
        assert(ss.take(n) =~= pre.push(s));
        lemma_run_push(m, pre, s);
        let st = run(m, pre);
        lemma_step_keeps_wf(st, s);
        lemma_step_report(st, s);
        lemma_strongest_wins(st, s);
        assert(st.eff(s, i) == m.eff(s, i));
        assert(st.enter(i) == m.enter(i));
        assert(trailing_highs(m, ss, i, n) < need_frames(m.cfg));
        lemma_contains_concat2(run_events(m, pre), st.events(s), Event::HoldDownStart);
        lemma_contains_concat2(run_events(m, pre), st.events(s), tap_event(i));
    }
}

/// Debounce of the entry edge: an inactive zone whose above-enter count has
/// just restarted stays inactive, reporting neither its tap nor (for the
/// down zone) a hold start, as long as its activity is never above the
/// enter threshold on `confirm_frames` frames in a row: a frame at or below
/// the enter threshold restarts the count, so isolated spikes are ignored.
pub proof fn lemma_entry_needs_consecutive_highs(m: DetectorModel, ss: Seq<ZoneActivity>, i: int)
    requires
        m.wf(),
        m.calibrated,
        0 <= i < 4,
        !m.zones[i].active,
        m.zones[i].above == 0,
        forall|k: int| 0 <= k <= ss.len() ==> #[trigger] trailing_highs(m, ss, i, k) < need_frames(
            m.cfg,
        ),
    ensures
        !run(m, ss).zones[i].active,
        i < 3 ==> !run_events(m, ss).contains(tap_event(i)),
        i == DOWN ==> !run_events(m, ss).contains(Event::HoldDownStart),
{
    lemma_entry_invariant(m, ss, i, ss.len() as int);
    assert(ss.take(ss.len() as int) =~= ss);
}

/// One call on a detector: a frame for `update`, or `start_recalibration`.
pub enum DetectorCall {
    Frame(ZoneActivity),
    Recalibrate,
}

/// The state after one call.
pub open spec fn call_state(m: DetectorModel, c: DetectorCall) -> DetectorModel {
    match c {
        DetectorCall::Frame(s) => m.next(s),
        DetectorCall::Recalibrate => m.recalibrating(),
    }
}

/// The events one call reports (a recalibration reports none).
pub open spec fn call_events(m: DetectorModel, c: DetectorCall) -> Seq<Event> {
    match c {
        DetectorCall::Frame(s) => m.events(s),
        DetectorCall::Recalibrate => seq![],
    }
}

/// The frame time of a frame call (0 for a recalibration).
pub open spec fn call_time(c: DetectorCall) -> int {
    match c {
        DetectorCall::Frame(s) => s.t as int,
        DetectorCall::Recalibrate => 0,
    }
}

/// The state of a detector created with `cfg` after the first `n` calls.
pub open spec fn state_after(cfg: Config, calls: Seq<DetectorCall>, n: int) -> DetectorModel
    decreases n,
{
    if n <= 0 {
        initial_model(cfg)
    } else {
        call_state(state_after(cfg, calls, n - 1), calls[n - 1])
    }
}

/// The events reported by call `k` (counting from 0).
pub open spec fn reported(cfg: Config, calls: Seq<DetectorCall>, k: int) -> Seq<Event> {
    call_events(state_after(cfg, calls, k), calls[k])
}

/// Number of the first `n` calls whose result holds `e`.
pub open spec fn times_reported(cfg: Config, calls: Seq<DetectorCall>, n: int, e: Event) -> nat
    decreases n,
{
    if n <= 0 {
        0
    } else {
        times_reported(cfg, calls, n - 1, e) + if reported(cfg, calls, n - 1).contains(e) {
            1nat
        } else {
            0nat
        }
    }
}

/// Hold starts minus hold ends reported by the first `n` calls.
pub open spec fn hold_balance(cfg: Config, calls: Seq<DetectorCall>, n: int) -> int {
    times_reported(cfg, calls, n, Event::HoldDownStart) - times_reported(
        cfg,
        calls,
        n,
        Event::HoldDownEnd,
    )
}

/// The last of the first `n` calls that reported a tap of zone `z`, -1 if
/// none did.
pub open spec fn last_tap_call(cfg: Config, calls: Seq<DetectorCall>, n: int, z: int) -> int
    decreases n,
{
    if n <= 0 {
        -1
    } else if reported(cfg, calls, n - 1).contains(tap_event(z)) {
        n - 1
    } else {
        last_tap_call(cfg, calls, n - 1, z)
    }
}

/// Kind of an event: 0 tap, 1 hold.
pub open spec fn event_kind(e: Event) -> int {
    match e {
        Event::TapLeft | Event::TapRight | Event::TapUp => 0,
        Event::HoldDownStart | Event::HoldDownEnd => 1,
    }
}

/// At most one tap and at most one hold event, the tap first.
pub open spec fn kinds_in_order(e: Seq<Event>) -> bool {
    forall|i: int, j: int| 0 <= i < j < e.len() ==> event_kind(e[i]) < event_kind(e[j])
}

/// What one frame reports, event by event.
proof fn lemma_step_report(m: DetectorModel, s: ZoneActivity)
    requires
        m.wf(),
    ensures
        kinds_in_order(m.events(s)),
        forall|z: int|
            0 <= z < 3 ==> (#[trigger] m.events(s).contains(tap_event(z)) <==> m.calibrated
                && m.tap_fires(s) && m.tap_winner(s) == z),
        m.events(s).contains(Event::HoldDownStart) <==> m.calibrated && m.rising(s, DOWN as int),
        m.events(s).contains(Event::HoldDownEnd) <==> m.calibrated && m.falling(s, DOWN as int),
{
    let e = m.events(s);
    let all = seq![
        Event::TapLeft,
        Event::TapRight,
        Event::TapUp,
        Event::HoldDownStart,
        Event::HoldDownEnd,
    ];
    assert forall|k: int, x: Event| 0 <= k < 5 implies (#[trigger] seq![x].contains(all[k])) == (x
        == all[k]) && !Seq::<Event>::empty().contains(all[k]) by {
        lemma_contains_single(x, all[k]);
    }
    assert(forall|z: int| 0 <= z < 3 ==> #[trigger] tap_event(z) == all[z]);
    if m.calibrated {
        lemma_strongest_wins(m, s);
        let t = m.tap_events(s);
        let h = m.hold_events(s);
        assert(e == t + h);
        assert forall|k: int| 0 <= k < 5 implies (#[trigger] e.contains(all[k])) == (t.contains(
            all[k],
        ) || h.contains(all[k])) by {
            lemma_contains_concat2(t, h, all[k]);
        }
        assert(e.contains(all[3]) == e.contains(Event::HoldDownStart));
        assert(e.contains(all[4]) == e.contains(Event::HoldDownEnd));
        assert forall|z: int| 0 <= z < 3 implies (#[trigger] e.contains(tap_event(z))
            <==> m.tap_fires(s) && m.tap_winner(s) == z) by {
            assert(e.contains(all[z]) == e.contains(tap_event(z)));
        }
        assert forall|a: int, b: int| 0 <= a < b < e.len() implies event_kind(e[a]) < event_kind(
            e[b],
        ) by {
            assert(t.len() <= 1 && h.len() <= 1);
            if t.len() == 1 {
                assert(e[0] == t[0]);
                assert(e[1] == h[0]);
            }
        }
    }
}

/// Zone `z`'s reference time after the first `n` calls is the time of its
/// last reported tap, which came from a frame.
spec fn tap_reference(cfg: Config, calls: Seq<DetectorCall>, n: int, z: int) -> bool {
    let j = last_tap_call(cfg, calls, n, z);
    &&& -1 <= j < n
    &&& j >= 0 ==> calls[j] is Frame
    &&& state_after(cfg, calls, n).zones[z].last_tap_t == (if j >= 0 {
        call_time(calls[j])
    } else {
        NEVER_TAPPED as int
    })
}

/// The run invariant: the down zone is active exactly when one more hold
/// start than hold end was reported, and each tap zone's reference time is
/// that of its last reported tap.
proof fn lemma_run_invariant(cfg: Config, calls: Seq<DetectorCall>, n: int)
    requires
        0 <= n <= calls.len(),
    ensures
        state_after(cfg, calls, n).wf(),
        state_after(cfg, calls, n).cfg == cfg,
        0 <= hold_balance(cfg, calls, n) <= 1,
        state_after(cfg, calls, n).zones[3].active == (hold_balance(cfg, calls, n) == 1),
        forall|z: int| 0 <= z < 3 ==> #[trigger] tap_reference(cfg, calls, n, z),
    decreases n,
{
    if n > 0 {
        lemma_run_invariant(cfg, calls, n - 1);
        let m = state_after(cfg, calls, n - 1);
        let st = state_after(cfg, calls, n);
        assert(st == call_state(m, calls[n - 1]));
        match calls[n - 1] {
            DetectorCall::Frame(s) => {
                lemma_step_report(m, s);
                lemma_step_keeps_wf(m, s);
                if m.calibrated {
                    lemma_tap_cooldown(m, s);
                    lemma_hold_alternates(m, s);
                } else {
                    assert(forall|z: int| 0 <= z < 4 ==> #[trigger] st.zones[z].last_tap_t
                        == m.zones[z].last_tap_t && st.zones[z].active == m.zones[z].active);
                }
                assert forall|z: int| 0 <= z < 3 implies #[trigger] tap_reference(cfg, calls, n, z) by {
                    assert(tap_reference(cfg, calls, n - 1, z));
                    if reported(cfg, calls, n - 1).contains(tap_event(z)) {
                        assert(last_tap_call(cfg, calls, n, z) == n - 1);
                    } else {
                        assert(last_tap_call(cfg, calls, n, z) == last_tap_call(cfg, calls, n - 1, z));
                    }
                }
            },
            DetectorCall::Recalibrate => {
                lemma_contains_single(Event::TapLeft, Event::HoldDownStart);
                lemma_contains_single(Event::TapLeft, Event::HoldDownEnd);
                lemma_recalibration(m, Seq::<ZoneActivity>::empty());
                assert(forall|z: int| 0 <= z < 4 ==> #[trigger] st.zones[z].last_tap_t
                    == m.zones[z].last_tap_t && st.zones[z].active == m.zones[z].active);
                assert forall|z: int| 0 <= z < 3 implies #[trigger] tap_reference(cfg, calls, n, z) by {
                    assert(tap_reference(cfg, calls, n - 1, z));
                    lemma_contains_single(Event::TapLeft, tap_event(z));
                    assert(last_tap_call(cfg, calls, n, z) == last_tap_call(cfg, calls, n - 1, z));
                }
            },
        }
    }
}

/// The laws of a whole run: a detector created with `cfg`, then any
/// sequence `calls` of `update` and `start_recalibration` calls.
/// - Each result holds at most one tap and at most one hold event, the tap
///   first.
/// - Over the whole run, hold starts and hold ends alternate, beginning
///   with a start.
/// - Of two consecutive taps of the same zone, the second comes at least
///   `cooldown_us` after the first.
pub proof fn lemma_run_laws(cfg: Config, calls: Seq<DetectorCall>)
    ensures
        forall|k: int| 0 <= k < calls.len() ==> kinds_in_order(#[trigger] reported(cfg, calls, k)),
        forall|n: int| 0 <= n <= calls.len() ==> 0 <= #[trigger] hold_balance(cfg, calls, n) <= 1,
        forall|k: int|
            0 <= k < calls.len() && #[trigger] reported(cfg, calls, k).contains(
                Event::HoldDownStart,
            ) ==> hold_balance(cfg, calls, k) == 0,
        forall|k: int|
            0 <= k < calls.len() && #[trigger] reported(cfg, calls, k).contains(Event::HoldDownEnd)
                ==> hold_balance(cfg, calls, k) == 1,
        forall|k: int, z: int|
            0 <= k < calls.len() && 0 <= z < 3 && #[trigger] reported(cfg, calls, k).contains(
                tap_event(z),
            ) && last_tap_call(cfg, calls, k, z) >= 0 ==> {
                let j = last_tap_call(cfg, calls, k, z);
                &&& calls[k] is Frame
                &&& calls[j] is Frame
                &&& call_time(calls[k]) - call_time(calls[j]) >= cfg.cooldown_us
            },
{
    assert forall|n: int| 0 <= n <= calls.len() implies 0 <= #[trigger] hold_balance(cfg, calls, n)
        <= 1 by {
        lemma_run_invariant(cfg, calls, n);
    }
    assert forall|k: int| 0 <= k < calls.len() implies {
        &&& kinds_in_order(#[trigger] reported(cfg, calls, k))
        &&& reported(cfg, calls, k).contains(Event::HoldDownStart) ==> hold_balance(cfg, calls, k)
            == 0
        &&& reported(cfg, calls, k).contains(Event::HoldDownEnd) ==> hold_balance(cfg, calls, k)
            == 1
        &&& forall|z: int|
            0 <= z < 3 && #[trigger] reported(cfg, calls, k).contains(tap_event(z))
                && last_tap_call(cfg, calls, k, z) >= 0 ==> {
                let j = last_tap_call(cfg, calls, k, z);
                &&& calls[k] is Frame
                &&& calls[j] is Frame
                &&& call_time(calls[k]) - call_time(calls[j]) >= cfg.cooldown_us
            }
    } by {
        lemma_run_invariant(cfg, calls, k);
        let m = state_after(cfg, calls, k);
        match calls[k] {
            DetectorCall::Frame(s) => {
                lemma_step_report(m, s);
                if m.calibrated {
                    lemma_tap_cooldown(m, s);
                    lemma_hold_alternates(m, s);
                }
                assert forall|z: int|
                    0 <= z < 3 && #[trigger] reported(cfg, calls, k).contains(tap_event(z))
                        && last_tap_call(cfg, calls, k, z) >= 0 implies {
                    let j = last_tap_call(cfg, calls, k, z);
                    &&& calls[k] is Frame
                    &&& calls[j] is Frame
                    &&& call_time(calls[k]) - call_time(calls[j]) >= cfg.cooldown_us
                } by {
                    assert(tap_reference(cfg, calls, k, z));
                    assert(m.tap_winner(s) == z);
                }
            },
            DetectorCall::Recalibrate => {
                lemma_contains_single(Event::TapLeft, Event::HoldDownStart);
                lemma_contains_single(Event::TapLeft, Event::HoldDownEnd);
                assert forall|z: int| 0 <= z < 3 implies !#[trigger] reported(cfg, calls, k).contains(
                    tap_event(z),
                ) by {
                    lemma_contains_single(Event::TapLeft, tap_event(z));
                }
            },
        }
    }
}

/// The thresholds of one calibrated frame for zone `i`, with the activity
/// measured against the baseline `base_sum / base_count` and scaled by
/// `base_count` (`a = ratio * base_count - base_sum`, never below zero):
/// a zone only turns active with its activity above its enter threshold
/// (and, for a tap zone, the direction gate passing), and only turns
/// inactive with its activity below its exit threshold; with a single
/// confirmation frame those conditions are also enough.
pub proof fn lemma_frame_thresholds(m: DetectorModel, s: ZoneActivity, i: int)
    requires
        m.wf(),
        m.calibrated,
        0 <= i < 4,
    ensures
        ({
            let n = m.base_count as int;
            let raw = s.zones.ratio(i) * n - m.zones[i].base_sum;
            let a = if raw > 0 { raw } else { 0 };
            let enter = m.cfg.enter_ratio[i] * n;
            let exit = m.cfg.exit_ratio[i] * n;
            let gate = i == 3 || s.dir_ok[i];
            &&& m.rising(s, i) ==> a > enter && gate
            &&& m.falling(s, i) ==> a < exit
            &&& m.cfg.confirm_frames <= 1 ==> (m.rising(s, i) <==> !m.zones[i].active && a > enter
                && gate)
            &&& m.cfg.confirm_frames <= 1 ==> (m.falling(s, i) <==> m.zones[i].active && a < exit)
        }),
{
    assert(m.zones[i].above <= need_frames(m.cfg));
}

/// Gesture detector over zone ratios.
#[derive(Debug)]
pub struct GestureDetector {
    cfg: Config,
    calib_count: usize,
    base_count: usize,
    calibrated: bool,
    left: ZoneTrack,
    right: ZoneTrack,
    up: ZoneTrack,
    down: ZoneTrack,
}

impl View for GestureDetector {
    type V = DetectorModel;

    closed spec fn view(&self) -> DetectorModel {
        DetectorModel {
            cfg: self.cfg,
            calib_count: self.calib_count as nat,
            base_count: self.base_count as nat,
            calibrated: self.calibrated,
            zones: seq![self.left@, self.right@, self.up@, self.down@],
        }
    }
}

impl GestureDetector {
    closed spec fn zone_bounded(z: ZoneTrack, calib_count: usize, base_count: usize) -> bool {
        &&& -(calib_count * ratio_bound()) <= z.calib_sum <= calib_count * ratio_bound()
        &&& -(base_count * ratio_bound()) <= z.base_sum <= base_count * ratio_bound()
    }

    #[verifier::type_invariant]
    closed spec fn inv(self) -> bool {
        &&& self@.wf()
        &&& Self::zone_bounded(self.left, self.calib_count, self.base_count)
        &&& Self::zone_bounded(self.right, self.calib_count, self.base_count)
        &&& Self::zone_bounded(self.up, self.calib_count, self.base_count)
        &&& Self::zone_bounded(self.down, self.calib_count, self.base_count)
    }

    /// A detector that starts calibrating with the given parameters.
    pub fn new(cfg: Config) -> (r: Self)
        ensures
            r@ == initial_model(cfg),
            r@.wf(),
    {
        let r = GestureDetector {
            cfg,
            calib_count: 0,
            base_count: 0,
            calibrated: false,
            left: ZoneTrack::fresh(),
            right: ZoneTrack::fresh(),
            up: ZoneTrack::fresh(),
            down: ZoneTrack::fresh(),
        };
        assert(r@.zones =~= initial_model(cfg).zones);
        r
    }

    /// Whether the baseline has been learned.
    pub fn calibrated(&self) -> (r: bool)
        ensures
            r == self@.calibrated,
    {
        self.calibrated
    }

    fn zone_baseline(z: ZoneTrack, base_count: usize) -> (r: i64)
        requires
            -(base_count * ratio_bound()) <= z.base_sum <= base_count * ratio_bound(),
        ensures
            r == (if base_count == 0 { 0 } else { z.base_sum as int / base_count as int }),
    {
        if base_count == 0 {
            return 0;
        }
        proof {
            lemma_scaled_bound(1, base_count as int);
        }
        let q = floor_div(z.base_sum, base_count as i128);
        proof {
            let c = base_count as int;
            let si = z.base_sum as int;
            assert(-ratio_bound() <= si / c <= ratio_bound()) by (nonlinear_arith)
                requires
                    c >= 1,
                    -(c * ratio_bound()) <= si <= c * ratio_bound(),
            ;
        }
        q as i64
    }

    /// Baseline ratio per zone [left, right, up, down] in units of
    /// `1 / RATIO_ONE`, rounded down; 0 before the first calibration.
    pub fn baseline(&self) -> (r: [i64; 4])
        ensures
            forall|i: int| 0 <= i < 4 ==> r[i] == self@.baseline(i),
    {
        proof {
            use_type_invariant(self);
        }
        let r = [
            Self::zone_baseline(self.left, self.base_count),
            Self::zone_baseline(self.right, self.base_count),
            Self::zone_baseline(self.up, self.base_count),
            Self::zone_baseline(self.down, self.base_count),
        ];
        r
    }

    /// Relearn the idle baseline (for example after a lighting change).
    pub fn start_recalibration(&mut self)
        ensures
            final(self)@ == old(self)@.recalibrating(),
            final(self)@.wf(),
    {
        proof {
            use_type_invariant(&*self);
        }
        *self = GestureDetector {
            cfg: self.cfg,
            calib_count: 0,
            base_count: self.base_count,
            calibrated: false,
            left: ZoneTrack { calib_sum: 0, above: 0, below: 0, ..self.left },
            right: ZoneTrack { calib_sum: 0, above: 0, below: 0, ..self.right },
            up: ZoneTrack { calib_sum: 0, above: 0, below: 0, ..self.up },
            down: ZoneTrack { calib_sum: 0, above: 0, below: 0, ..self.down },
        };
        assert(self@.zones =~= old(self)@.recalibrating().zones);
    }

    fn calib_add(z: ZoneTrack, ratio: i32, count: usize) -> (r: ZoneTrack)
        requires
            count >= 1,
            -((count - 1) * ratio_bound()) <= z.calib_sum <= (count - 1) * ratio_bound(),
        ensures
            r@ == (ZoneModel { calib_sum: z@.calib_sum + ratio, ..z@ }),
            -(count * ratio_bound()) <= r.calib_sum <= count * ratio_bound(),
    {
        proof {
            assert((count - 1) * ratio_bound() + ratio_bound() == count * ratio_bound())
                by (nonlinear_arith)
                requires
                    count >= 1,
            ;
        }
        ZoneTrack { calib_sum: z.calib_sum + ratio as i128, ..z }
    }

    fn freeze(z: ZoneTrack) -> (r: ZoneTrack)
        ensures
            r@ == (ZoneModel { base_sum: z@.calib_sum, ..z@ }),
    {
        ZoneTrack { base_sum: z.calib_sum, ..z }
    }

    /// Scaled effective activity of a zone.
    fn eff(ratio: i32, z: ZoneTrack, n: usize) -> (r: i128)
        requires
            -(n * ratio_bound()) <= z.base_sum <= n * ratio_bound(),
        ensures
            r == scaled_eff(ratio as int, z.base_sum as int, n as int),
            0 <= r <= 0x1_0000_0000_0000_0000_0000_0000,
    {
        proof {
            lemma_scaled_bound(ratio as int, n as int);
            lemma_scaled_bound(1, n as int);
        }
        let d = (ratio as i128) * (n as i128) - z.base_sum;
        if d > 0 {
            d
        } else {
            0
        }
    }

    fn scale(thresh: i32, n: usize) -> (r: i128)
        ensures
            r == thresh * n,
    {
        proof {
            lemma_scaled_bound(thresh as int, n as int);
        }
        (thresh as i128) * (n as i128)
    }

    /// The zone track with index `i`.
    fn zone(&self, i: usize) -> (r: ZoneTrack)
        requires
            i < 4,
        ensures
            r@ == self@.zones[i as int],
            Self::zone_bounded(r, self.calib_count, self.base_count),
    {
        proof {
            use_type_invariant(self);
        }
        if i == 0 {
            self.left
        } else if i == 1 {
            self.right
        } else if i == 2 {
            self.up
        } else {
            self.down
        }
    }

    /// Hysteresis step of zone `i`; also returns its scaled activity.
    fn step_zone(&self, s: &ZoneActivity, i: usize) -> (r: (ZoneTrack, i128))
        requires
            i < 4,
            self@.calibrated,
        ensures
            r.0@ == self@.stepped(*s, i as int),
            r.1 == self@.eff(*s, i as int),
    {
        proof {
            use_type_invariant(self);
        }
        let z = self.zone(i);
        let n = self.base_count;
        let ratio = if i == 0 {
            s.zones.left
        } else if i == 1 {
            s.zones.right
        } else if i == 2 {
            s.zones.up
        } else {
            s.zones.down
        };
        let need: u32 = if self.cfg.confirm_frames > 1 {
            self.cfg.confirm_frames
        } else {
            1
        };
        let gate = if i == DOWN {
            true
        } else {
            s.dir_ok[i]
        };
        let e = Self::eff(ratio, z, n);
        proof {
            assert(self@.zones[i as int].above <= need_frames(self@.cfg));
        }
        let stepped = z.step(
            e,
            Self::scale(self.cfg.enter_ratio[i], n),
            Self::scale(self.cfg.exit_ratio[i], n),
            need,
            gate,
        );
        (stepped, e)
    }

    /// Index of the strongest rising tap zone (the first one on a tie), -1 if
    /// none rises.
    fn pick_winner(rise0: bool, rise1: bool, rise2: bool, e0: i128, e1: i128, e2: i128) -> (r: i32)
        ensures
            r == ({
                let w0 = if rise0 { 0int } else { -1 };
                let w1 = if rise1 && (w0 < 0 || e1 > (if w0 == 0 { e0 } else { e1 })) {
                    1
                } else {
                    w0
                };
                if rise2 && (w1 < 0 || e2 > (if w1 == 0 { e0 } else { e1 })) {
                    2
                } else {
                    w1
                }
            }),
    {
        let mut winner: i32 = -1;
        let mut best: i128 = 0;
        if rise0 {
            winner = 0;
            best = e0;
        }
        if rise1 && (winner < 0 || e1 > best) {
            winner = 1;
            best = e1;
        }
        if rise2 && (winner < 0 || e2 > best) {
            winner = 2;
        }
        winner
    }

    fn calibration_update(&mut self, s: &ZoneActivity)
        requires
            !old(self)@.calibrated,
        ensures
            final(self)@ == old(self)@.next(*s),
    {
        proof {
            use_type_invariant(&*self);
        }
        let ghost m = self@;
        let count = self.calib_count + 1;
        let l = Self::calib_add(self.left, s.zones.left, count);
        let r = Self::calib_add(self.right, s.zones.right, count);
        let u = Self::calib_add(self.up, s.zones.up, count);
        let d = Self::calib_add(self.down, s.zones.down, count);
        if count >= self.cfg.calib_frames {
            *self = GestureDetector {
                cfg: self.cfg,
                calib_count: count,
                base_count: count,
                calibrated: true,
                left: Self::freeze(l),
                right: Self::freeze(r),
                up: Self::freeze(u),
                down: Self::freeze(d),
            };
        } else {
            *self = GestureDetector {
                cfg: self.cfg,
                calib_count: count,
                base_count: self.base_count,
                calibrated: false,
                left: l,
                right: r,
                up: u,
                down: d,
            };
        }
        assert(self@.zones =~= m.next(*s).zones);
    }

    /// Feeds one frame and returns the events it completes.
    pub fn update(&mut self, s: ZoneActivity) -> (r: Vec<Event>)
        ensures
            old(self)@.wf(),
            final(self)@.wf(),
            final(self)@ == old(self)@.next(s),
            r@ == old(self)@.events(s),
    {
        proof {
            use_type_invariant(&*self);
        }
        let ghost m = self@;
        if !self.calibrated {
            self.calibration_update(&s);
            proof {
                use_type_invariant(&*self);
            }
            return Vec::new();
        }
        let (z0, e0) = self.step_zone(&s, 0);
        let (z1, e1) = self.step_zone(&s, 1);
        let (z2, e2) = self.step_zone(&s, 2);
        let (z3, _e3) = self.step_zone(&s, 3);
        proof {
            assert(m.zones[0] == self.left@ && m.zones[1] == self.right@);
            assert(m.zones[2] == self.up@ && m.zones[3] == self.down@);
        }
        let rise0 = !self.left.active && z0.active;
        let rise1 = !self.right.active && z1.active;
        let rise2 = !self.up.active && z2.active;
        let rise3 = !self.down.active && z3.active;
        let fall3 = self.down.active && !z3.active;

        // The strongest rising tap zone wins.
        let winner = Self::pick_winner(rise0, rise1, rise2, e0, e1, e2);
        assert(winner == m.tap_winner(s));

        let mut events: Vec<Event> = Vec::new();
        let mut z0 = z0;
        let mut z1 = z1;
        let mut z2 = z2;
        let fires = if winner == 0 {
            (s.t as i128) - (self.left.last_tap_t as i128) >= self.cfg.cooldown_us as i128
        } else if winner == 1 {
            (s.t as i128) - (self.right.last_tap_t as i128) >= self.cfg.cooldown_us as i128
        } else if winner == 2 {
            (s.t as i128) - (self.up.last_tap_t as i128) >= self.cfg.cooldown_us as i128
        } else {
            false
        };
        assert(fires == m.tap_fires(s));
        if fires {
            if winner == 0 {
                events.push(Event::TapLeft);
                z0 = ZoneTrack { last_tap_t: s.t, ..z0 };
            } else if winner == 1 {
                events.push(Event::TapRight);
                z1 = ZoneTrack { last_tap_t: s.t, ..z1 };
            } else {
                events.push(Event::TapUp);
                z2 = ZoneTrack { last_tap_t: s.t, ..z2 };
            }
        }
        assert(events@ == m.tap_events(s));
        let ghost after_tap = events@;
        if rise3 {
            events.push(Event::HoldDownStart);
        } else if fall3 {
            events.push(Event::HoldDownEnd);
        }
        assert(events@ == after_tap + m.hold_events(s));

        *self = GestureDetector {
            cfg: self.cfg,
            calib_count: self.calib_count,
            base_count: self.base_count,
            calibrated: true,
            left: z0,
            right: z1,
            up: z2,
            down: z3,
        };
        assert(self@.zones =~= m.next(s).zones);
        events
    }
}

impl Default for GestureDetector {
    fn default() -> (r: Self)
        ensures
            is_default_config(r@.cfg),
            r@ == initial_model(r@.cfg),
    {
        GestureDetector::new(Config::default())
    }
}

} // verus!
