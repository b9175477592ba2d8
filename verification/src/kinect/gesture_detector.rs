//! Rule-based gesture detection on body samples.
//!
//! The detector first averages `calib_frames` samples into a resting baseline.
//! Afterwards every sample is compared with that baseline:
//! a height clearly above it is a jump (with a cooldown against double
//! triggering), a height clearly below it starts a crouch, and a horizontal
//! offset beyond `lane_enter` moves to the left or right lane, which is left
//! again only once the offset falls back inside `lane_exit` (hysteresis).
//!
//! The baseline is kept as an exact fraction `sum / count`; every comparison
//! against it is done on values scaled by `count`, so no rounding happens.
use vstd::prelude::*;
use crate::kinect::body_state::BodyState;
use crate::seqs::{lemma_contains_concat3, lemma_contains_single};
use crate::units::floor_div;

verus! {

/// An abstract gesture event.
#[derive(Debug, Clone, Copy, PartialEq, Eq, Structural)]
pub enum Gesture {
    Jump,
    CrouchStart,
    CrouchEnd,
    LaneLeft,
    LaneRight,
}

/// The name under which a gesture is logged.
pub open spec fn gesture_name(g: Gesture) -> Seq<char> {
    match g {
        Gesture::Jump => "jump"@,
        Gesture::CrouchStart => "crouch_start"@,
        Gesture::CrouchEnd => "crouch_end"@,
        Gesture::LaneLeft => "lane_left"@,
        Gesture::LaneRight => "lane_right"@,
    }
}

impl Gesture {
    /// Log name of the gesture.
    pub fn as_str(self) -> (r: &'static str)
        ensures
            r@ == gesture_name(self),
    {
        proof {
            reveal_strlit("jump");
            reveal_strlit("crouch_start");
            reveal_strlit("crouch_end");
            reveal_strlit("lane_left");
            reveal_strlit("lane_right");
        }
        match self {
            Gesture::Jump => "jump",
            Gesture::CrouchStart => "crouch_start",
            Gesture::CrouchEnd => "crouch_end",
            Gesture::LaneLeft => "lane_left",
            Gesture::LaneRight => "lane_right",
        }
    }
}

/// Detector parameters. Thresholds are in micrometres, the cooldown in
/// microseconds.
#[derive(Debug, Clone, Copy, PartialEq, Eq, Structural)]
pub struct Config {
    /// Number of samples averaged into the baseline.
    pub calib_frames: usize,
    /// Height above the baseline that counts as a jump.
    pub jump_thresh: i32,
    /// Height below the baseline that counts as a crouch.
    pub crouch_thresh: i32,
    /// Horizontal offset that enters a side lane.
    pub lane_enter: i32,
    /// Horizontal offset inside which a side lane is left again.
    pub lane_exit: i32,
    /// Minimum time between two reported jumps.
    pub jump_cooldown: i64,
}

/// The default parameters: 30 calibration frames, jump at +10 cm, crouch at
/// -25 cm, lane change at 25 cm (back at 15 cm), 0.5 s jump cooldown.
pub open spec fn default_config() -> Config {
    Config {
        calib_frames: 30,
        jump_thresh: 100_000,
        crouch_thresh: 250_000,
        lane_enter: 250_000,
        lane_exit: 150_000,
        jump_cooldown: 500_000,
    }
}

impl Default for Config {
    fn default() -> (r: Self)
        ensures
            r == default_config(),
    {
        Config {
            calib_frames: 30,
            jump_thresh: 100_000,
            crouch_thresh: 250_000,
            lane_enter: 250_000,
            lane_exit: 150_000,
            jump_cooldown: 500_000,
        }
    }
}

/// Time of the last jump before any jump happened: 10^9 seconds in the past.
pub const NEVER_JUMPED: i64 = -1_000_000_000_000_000;

/// Number of samples after which calibration is complete (at least one).
pub open spec fn calib_target(calib_frames: usize) -> nat {
    if calib_frames == 0 { 1 } else { calib_frames as nat }
}

/// Abstract state of a [`GestureDetector`].
pub struct DetectorModel {
    pub cfg: Config,
    /// Samples averaged so far.
    pub calib_count: nat,
    /// Sum of the x offsets of those samples.
    pub sum_x: int,
    /// Sum of the heights of those samples.
    pub sum_h: int,
    pub calibrated: bool,
    /// -1 left lane, 0 centre, 1 right lane.
    pub lane: int,
    pub airborne: bool,
    pub crouching: bool,
    pub last_jump_t: int,
}

/// State of a freshly created detector.
pub open spec fn initial_model(cfg: Config) -> DetectorModel {
    DetectorModel {
        cfg,
        calib_count: 0,
        sum_x: 0,
        sum_h: 0,
        calibrated: false,
        lane: 0,
        airborne: false,
        crouching: false,
        last_jump_t: NEVER_JUMPED as int,
    }
}

impl DetectorModel {
    /// Reachable states: the lane is -1, 0 or 1, and the calibration counter
    /// has reached its target exactly when the detector is calibrated.
    pub open spec fn wf(self) -> bool {
        &&& -1 <= self.lane <= 1
        &&& self.calib_count <= calib_target(self.cfg.calib_frames)
        &&& self.calibrated == (self.calib_count == calib_target(self.cfg.calib_frames))
    }

    /// Horizontal offset from the baseline, scaled by the sample count.
    pub open spec fn rel_x(self, s: BodyState) -> int {
        s.x * self.calib_count - self.sum_x
    }

    /// Height difference to the baseline, scaled by the sample count.
    pub open spec fn rel_h(self, s: BodyState) -> int {
        s.height * self.calib_count - self.sum_h
    }

    /// A threshold scaled like `rel_x` and `rel_h`.
    pub open spec fn scaled(self, thresh: i32) -> int {
        thresh * self.calib_count
    }

    /// Not yet in the air and clearly above the baseline.
    pub open spec fn jump_rises(self, s: BodyState) -> bool {
        !self.airborne && self.rel_h(s) > self.scaled(self.cfg.jump_thresh)
    }

    /// A rising jump that is outside the cooldown of the last reported jump.
    pub open spec fn jump_fires(self, s: BodyState) -> bool {
        self.jump_rises(s) && s.t - self.last_jump_t >= self.cfg.jump_cooldown
    }

    /// In the air and back below half the jump threshold.
    pub open spec fn jump_lands(self, s: BodyState) -> bool {
        self.airborne && 2 * self.rel_h(s) < self.scaled(self.cfg.jump_thresh)
    }

    /// Standing and clearly below the baseline.
    pub open spec fn crouch_starts(self, s: BodyState) -> bool {
        !self.crouching && self.rel_h(s) < -self.scaled(self.cfg.crouch_thresh)
    }

    /// Crouching and back above 70% of the crouch threshold.
    pub open spec fn crouch_ends(self, s: BodyState) -> bool {
        self.crouching && 10 * self.rel_h(s) > -7 * self.scaled(self.cfg.crouch_thresh)
    }

    /// The lane after this sample (enter beyond `lane_enter`, leave inside
    /// `lane_exit`).
    pub open spec fn target_lane(self, s: BodyState) -> int {
        let rx = self.rel_x(s);
        if self.lane == 0 {
            if rx < -self.scaled(self.cfg.lane_enter) {
                -1
            } else if rx > self.scaled(self.cfg.lane_enter) {
                1
            } else {
                0
            }
        } else if self.lane == -1 && rx > -self.scaled(self.cfg.lane_exit) {
            0
        } else if self.lane == 1 && rx < self.scaled(self.cfg.lane_exit) {
            0
        } else {
            self.lane
        }
    }

    pub open spec fn jump_events(self, s: BodyState) -> Seq<Gesture> {
        if self.jump_fires(s) { seq![Gesture::Jump] } else { seq![] }
    }

    pub open spec fn crouch_events(self, s: BodyState) -> Seq<Gesture> {
        if self.crouch_starts(s) {
            seq![Gesture::CrouchStart]
        } else if self.crouch_ends(s) {
            seq![Gesture::CrouchEnd]
        } else {
            seq![]
        }
    }

    pub open spec fn lane_events(self, s: BodyState) -> Seq<Gesture> {
        if self.target_lane(s) < self.lane {
            seq![Gesture::LaneLeft]
        } else if self.target_lane(s) > self.lane {
            seq![Gesture::LaneRight]
        } else {
            seq![]
        }
    }

    /// Gestures reported for sample `s`: none while calibrating, otherwise
    /// the jump, crouch and lane events in that order.
    pub open spec fn events(self, s: BodyState) -> Seq<Gesture> {
        if !self.calibrated {
            seq![]
        } else {
            self.jump_events(s) + self.crouch_events(s) + self.lane_events(s)
        }
    }

    /// State after sample `s`.
    pub open spec fn next(self, s: BodyState) -> DetectorModel {
        if !self.calibrated {
            DetectorModel {
                calib_count: self.calib_count + 1,
                sum_x: self.sum_x + s.x,
                sum_h: self.sum_h + s.height,
                calibrated: self.calib_count + 1 >= self.cfg.calib_frames,
                ..self
            }
        } else {
            DetectorModel {
                airborne: if self.jump_rises(s) {
                    true
                } else if self.jump_lands(s) {
                    false
                } else {
                    self.airborne
                },
                last_jump_t: if self.jump_fires(s) { s.t as int } else { self.last_jump_t },
                crouching: if self.crouch_starts(s) {
                    true
                } else if self.crouch_ends(s) {
                    false
                } else {
                    self.crouching
                },
                lane: self.target_lane(s),
                ..self
            }
        }
    }

    /// Baseline x offset rounded down (0 before calibration).
    pub open spec fn baseline_x(self) -> int {
        if self.calibrated { self.sum_x / (self.calib_count as int) } else { 0 }
    }

    /// Baseline height rounded down (0 before calibration).
    pub open spec fn baseline_height(self) -> int {
        if self.calibrated { self.sum_h / (self.calib_count as int) } else { 0 }
    }
}

/// Largest magnitude of a sample coordinate (`i32`).
pub open spec fn coord_bound() -> int {
    0x8000_0000
}

/// Bound on `a * n` for a sample coordinate `a` and a sample count `n`.
proof fn lemma_scaled_bound(a: int, n: int)
    requires
        -coord_bound() <= a <= coord_bound(),
        0 <= n <= 0x1_0000_0000_0000_0000,
    ensures
        -0x8000_0000_0000_0000_0000_0000 <= a * n <= 0x8000_0000_0000_0000_0000_0000,
{
    assert(-0x8000_0000_0000_0000_0000_0000 <= a * n <= 0x8000_0000_0000_0000_0000_0000)
        by (nonlinear_arith)
        requires
            -0x8000_0000 <= a <= 0x8000_0000,
            0 <= n <= 0x1_0000_0000_0000_0000,
    ;
}

/// The detector state after feeding the samples `ss` in order.
pub open spec fn run(m: DetectorModel, ss: Seq<BodyState>) -> DetectorModel
    decreases ss.len(),
{
    if ss.len() == 0 {
        m
    } else {
        run(m.next(ss[0]), ss.drop_first())
    }
}

/// All gestures reported while feeding the samples `ss` in order.
pub open spec fn run_events(m: DetectorModel, ss: Seq<BodyState>) -> Seq<Gesture>
    decreases ss.len(),
{
    if ss.len() == 0 {
        seq![]
    } else {
        m.events(ss[0]) + run_events(m.next(ss[0]), ss.drop_first())
    }
}

/// Sum of the x offsets of a sample sequence.
pub open spec fn sum_x_of(ss: Seq<BodyState>) -> int
    decreases ss.len(),
{
    if ss.len() == 0 { 0 } else { ss[0].x + sum_x_of(ss.drop_first()) }
}

/// Sum of the heights of a sample sequence.
pub open spec fn sum_h_of(ss: Seq<BodyState>) -> int
    decreases ss.len(),
{
    if ss.len() == 0 { 0 } else { ss[0].height + sum_h_of(ss.drop_first()) }
}

/// Calibration: from a state that still needs `k` more samples, feeding `k`
/// or fewer samples reports no gesture; after exactly `k` samples the
/// detector is calibrated on the sums of all samples seen, and before that
/// it is not.
pub proof fn lemma_calibration(m: DetectorModel, ss: Seq<BodyState>)
    requires
        m.wf(),
        !m.calibrated,
        ss.len() <= calib_target(m.cfg.calib_frames) - m.calib_count,
    ensures
        run_events(m, ss) == Seq::<Gesture>::empty(),
        run(m, ss).calibrated == (ss.len() == calib_target(m.cfg.calib_frames) - m.calib_count),
        run(m, ss).calib_count == m.calib_count + ss.len(),
        run(m, ss).sum_x == m.sum_x + sum_x_of(ss),
        run(m, ss).sum_h == m.sum_h + sum_h_of(ss),
        run(m, ss).wf(),
    decreases ss.len(),
{
    if ss.len() > 0 {
        let m1 = m.next(ss[0]);
        assert(run(m, ss) == run(m1, ss.drop_first()));
        assert(sum_x_of(ss) == ss[0].x + sum_x_of(ss.drop_first()));
        assert(sum_h_of(ss) == ss[0].height + sum_h_of(ss.drop_first()));
        if m1.calibrated {
            assert(ss.drop_first().len() == 0);
            assert(run(m1, ss.drop_first()) == m1);
            assert(sum_x_of(ss.drop_first()) == 0);
            assert(sum_h_of(ss.drop_first()) == 0);
            assert(run_events(m1, ss.drop_first()) == Seq::<Gesture>::empty());
        } else {
            lemma_calibration(m1, ss.drop_first());
        }
        assert(run_events(m, ss) == m.events(ss[0]) + run_events(m1, ss.drop_first()));
    }
}

/// A fresh detector reports nothing during its first `calib_frames`
/// samples and is calibrated on their average exactly after the last one.
pub proof fn lemma_fresh_calibration(cfg: Config, ss: Seq<BodyState>)
    requires
        ss.len() <= calib_target(cfg.calib_frames),
    ensures
        run_events(initial_model(cfg), ss) == Seq::<Gesture>::empty(),
        run(initial_model(cfg), ss).calibrated == (ss.len() == calib_target(cfg.calib_frames)),
        run(initial_model(cfg), ss).sum_x == sum_x_of(ss),
        run(initial_model(cfg), ss).sum_h == sum_h_of(ss),
{
    lemma_calibration(initial_model(cfg), ss);
}

/// Every step keeps the state reachable, and once calibrated the detector
/// stays calibrated on the same baseline.
pub proof fn lemma_step_keeps_wf(m: DetectorModel, s: BodyState)
    requires
        m.wf(),
    ensures
        m.next(s).wf(),
        m.calibrated ==> m.next(s).calibrated && m.next(s).calib_count == m.calib_count
            && m.next(s).sum_x == m.sum_x && m.next(s).sum_h == m.sum_h,
{
}

/// Jump cooldown: a reported jump is at least `jump_cooldown` after the
/// previously reported one and becomes the new reference; while in the air
/// no further jump is reported.
pub proof fn lemma_jump_cooldown(m: DetectorModel, s: BodyState)
    requires
        m.wf(),
        m.calibrated,
    ensures
        m.events(s).contains(Gesture::Jump) ==> s.t - m.last_jump_t >= m.cfg.jump_cooldown
            && m.next(s).last_jump_t == s.t && m.next(s).airborne,
        !m.events(s).contains(Gesture::Jump) ==> m.next(s).last_jump_t == m.last_jump_t,
        m.airborne ==> !m.events(s).contains(Gesture::Jump),
{
    let e = m.events(s);
    assert(e == m.jump_events(s) + m.crouch_events(s) + m.lane_events(s));
    if !m.jump_fires(s) {
        assert(!e.contains(Gesture::Jump)) by {
            if e.contains(Gesture::Jump) {
                let i = choose|i: int| 0 <= i < e.len() && e[i] == Gesture::Jump;
                assert(e[i] != Gesture::Jump);
            }
        }
    } else {
        assert(e[0] == Gesture::Jump);
    }
}

/// A rise counts whether or not it is reported: a calibrated sample more
/// than `jump_thresh` above the baseline leaves the body in the air, also
/// when the cooldown holds the jump back. So a jump is only reported on a
/// rising edge from the ground: never on the sample right after one that
/// was already above the threshold (for a threshold that is not negative).
pub proof fn lemma_jump_only_from_ground(m: DetectorModel, s1: BodyState, s2: BodyState)
    requires
        m.wf(),
        m.calibrated,
        m.cfg.jump_thresh >= 0,
        s1.height * m.calib_count - m.sum_h > m.cfg.jump_thresh * m.calib_count,
    ensures
        m.next(s1).airborne,
        !m.next(s1).events(s2).contains(Gesture::Jump),
{
    lemma_step_keeps_wf(m, s1);
    let m1 = m.next(s1);
    assert(m1.airborne);
    lemma_jump_cooldown(m1, s2);
}

/// The thresholds of one calibrated sample, with every offset measured
/// against the baseline `sum / count` and scaled by `count`
/// (`h = height * count - sum_h`, `x = x * count - sum_x`):
/// - a jump is reported exactly when the body is on the ground, `h` is above
///   `jump_thresh`, and the cooldown since the last jump has passed; the body
///   is then in the air until `h` drops below half the jump threshold;
/// - a crouch starts exactly when standing and `h` is below
///   `-crouch_thresh`, and ends exactly when crouching and `h` is back above
///   70% of that;
/// - from the centre lane an offset beyond `lane_enter` moves one lane
///   left or right (for `lane_enter` not negative: otherwise an offset can
///   lie beyond both sides, and left is checked first); from a side lane an
///   offset back inside `lane_exit`
///   returns to the centre; otherwise the lane is kept.
pub proof fn lemma_sample_thresholds(m: DetectorModel, s: BodyState)
    requires
        m.wf(),
        m.calibrated,
    ensures
        ({
            let n = m.calib_count as int;
            let h = s.height * n - m.sum_h;
            let x = s.x * n - m.sum_x;
            let jump = m.cfg.jump_thresh * n;
            let crouch = m.cfg.crouch_thresh * n;
            let enter = m.cfg.lane_enter * n;
            let exit = m.cfg.lane_exit * n;
            let e = m.events(s);
            let m2 = m.next(s);
            &&& e.contains(Gesture::Jump) == (!m.airborne && h > jump && s.t - m.last_jump_t
                >= m.cfg.jump_cooldown)
            &&& m2.airborne == (if !m.airborne { h > jump } else { !(2 * h < jump) })
            &&& e.contains(Gesture::CrouchStart) == (!m.crouching && h < -crouch)
            &&& e.contains(Gesture::CrouchEnd) == (m.crouching && 10 * h > -7 * crouch)
            &&& m2.crouching == (if !m.crouching { h < -crouch } else { !(10 * h > -7 * crouch) })
            &&& m.lane == 0 && x < -enter ==> m2.lane == -1 && e.contains(Gesture::LaneLeft)
            &&& m.lane == 0 && x > enter && enter >= 0 ==> m2.lane == 1 && e.contains(
                Gesture::LaneRight,
            )
            &&& m.lane == 0 && -enter <= x <= enter ==> m2.lane == 0 && !e.contains(
                Gesture::LaneLeft,
            ) && !e.contains(Gesture::LaneRight)
            &&& m.lane == -1 && x > -exit ==> m2.lane == 0 && e.contains(Gesture::LaneRight)
            &&& m.lane == -1 && x <= -exit ==> m2.lane == -1 && !e.contains(Gesture::LaneRight)
            &&& m.lane == 1 && x < exit ==> m2.lane == 0 && e.contains(Gesture::LaneLeft)
            &&& m.lane == 1 && x >= exit ==> m2.lane == 1 && !e.contains(Gesture::LaneLeft)
        }),
{
    lemma_step_report(m, s);
}

/// Crouch start and end alternate: a start is reported only while standing
/// and makes the detector crouch; an end only while crouching and makes it
/// stand.
pub proof fn lemma_crouch_alternates(m: DetectorModel, s: BodyState)
    requires
        m.wf(),
        m.calibrated,
    ensures
        m.events(s).contains(Gesture::CrouchStart) ==> !m.crouching && m.next(s).crouching,
        m.events(s).contains(Gesture::CrouchEnd) ==> m.crouching && !m.next(s).crouching,
        m.next(s).crouching != m.crouching <==> (m.events(s).contains(Gesture::CrouchStart)
            || m.events(s).contains(Gesture::CrouchEnd)),
{
    let e = m.events(s);
    let j = m.jump_events(s);
    let c = m.crouch_events(s);
    let l = m.lane_events(s);
    assert(e == j + c + l);
    assert forall|g: Gesture| (g == Gesture::CrouchStart || g == Gesture::CrouchEnd) implies (
    e.contains(g) <==> c.contains(g)) by {
        if e.contains(g) {
            let i = choose|i: int| 0 <= i < e.len() && e[i] == g;
            if i >= j.len() && i < j.len() + c.len() {
                assert(c[i - j.len()] == g);
            }
        }
        if c.contains(g) {
            let i = choose|i: int| 0 <= i < c.len() && c[i] == g;
            assert(e[i + j.len()] == g);
        }
    }
    if c.len() > 0 {
        assert(c.contains(c[0]));
    }
}

/// Lane changes: the lane stays within -1..1, moves by at most one step,
/// a left event means one lane to the left, a right event one lane to the
/// right, and without a lane event the lane is unchanged.
pub proof fn lemma_lane_step(m: DetectorModel, s: BodyState)
    requires
        m.wf(),
        m.calibrated,
    ensures
        -1 <= m.next(s).lane <= 1,
        -1 <= m.next(s).lane - m.lane <= 1,
        m.lane_events(s) == seq![Gesture::LaneLeft] <==> m.next(s).lane == m.lane - 1,
        m.lane_events(s) == seq![Gesture::LaneRight] <==> m.next(s).lane == m.lane + 1,
        m.lane_events(s) == Seq::<Gesture>::empty() <==> m.next(s).lane == m.lane,
{
    let left = seq![Gesture::LaneLeft];
    let right = seq![Gesture::LaneRight];
    assert(left[0] == Gesture::LaneLeft && right[0] == Gesture::LaneRight);
    assert(left.len() == 1 && right.len() == 1);
    if m.lane_events(s) == left {
        assert(m.lane_events(s)[0] == Gesture::LaneLeft);
    }
    if m.lane_events(s) == right {
        assert(m.lane_events(s)[0] == Gesture::LaneRight);
    }
}

/// Hysteresis: inside the exit band a side lane is kept, and inside the
/// enter band the centre lane is kept, so an offset between `lane_exit` and
/// `lane_enter` never flips the lane back and forth.
pub proof fn lemma_lane_hysteresis(m: DetectorModel, s: BodyState)
    requires
        m.wf(),
        m.calibrated,
    ensures
        m.lane == -1 && m.rel_x(s) <= -m.scaled(m.cfg.lane_exit) ==> m.next(s).lane == -1,
        m.lane == 1 && m.rel_x(s) >= m.scaled(m.cfg.lane_exit) ==> m.next(s).lane == 1,
        m.lane == 0 && -m.scaled(m.cfg.lane_enter) <= m.rel_x(s) <= m.scaled(m.cfg.lane_enter)
            ==> m.next(s).lane == 0,
{
}

/// The state of a detector created with `cfg` after the first `n` samples
/// of `ss`, one call of `update` per sample.
pub open spec fn state_after(cfg: Config, ss: Seq<BodyState>, n: int) -> DetectorModel
    decreases n,
{
    if n <= 0 {
        initial_model(cfg)
    } else {
        state_after(cfg, ss, n - 1).next(ss[n - 1])
    }
}

/// The gestures reported by call `k` (counting from 0).
pub open spec fn reported(cfg: Config, ss: Seq<BodyState>, k: int) -> Seq<Gesture> {
    state_after(cfg, ss, k).events(ss[k])
}

/// Number of the first `n` calls whose result holds `g`.
pub open spec fn times_reported(cfg: Config, ss: Seq<BodyState>, n: int, g: Gesture) -> nat
    decreases n,
{
    if n <= 0 {
        0
    } else {
        times_reported(cfg, ss, n - 1, g) + if reported(cfg, ss, n - 1).contains(g) {
            1nat
        } else {
            0nat
        }
    }
}

/// Right lane changes minus left lane changes reported by the first `n`
/// calls.
pub open spec fn lane_balance(cfg: Config, ss: Seq<BodyState>, n: int) -> int {
    times_reported(cfg, ss, n, Gesture::LaneRight) - times_reported(cfg, ss, n, Gesture::LaneLeft)
}

/// Crouch starts minus crouch ends reported by the first `n` calls.
pub open spec fn crouch_balance(cfg: Config, ss: Seq<BodyState>, n: int) -> int {
    times_reported(cfg, ss, n, Gesture::CrouchStart) - times_reported(cfg, ss, n, Gesture::CrouchEnd)
}

/// The last of the first `n` calls that reported a jump, -1 if none did.
pub open spec fn last_jump_call(cfg: Config, ss: Seq<BodyState>, n: int) -> int
    decreases n,
{
    if n <= 0 {
        -1
    } else if reported(cfg, ss, n - 1).contains(Gesture::Jump) {
        n - 1
    } else {
        last_jump_call(cfg, ss, n - 1)
    }
}

/// Kind of a gesture: 0 jump, 1 crouch, 2 lane change.
pub open spec fn gesture_kind(g: Gesture) -> int {
    match g {
        Gesture::Jump => 0,
        Gesture::CrouchStart | Gesture::CrouchEnd => 1,
        Gesture::LaneLeft | Gesture::LaneRight => 2,
    }
}

/// At most one gesture of each kind, a jump before a crouch event before a
/// lane change.
pub open spec fn kinds_in_order(e: Seq<Gesture>) -> bool {
    forall|i: int, j: int| 0 <= i < j < e.len() ==> gesture_kind(e[i]) < gesture_kind(e[j])
}

/// What one call reports, gesture by gesture.
proof fn lemma_step_report(m: DetectorModel, s: BodyState)
    ensures
        kinds_in_order(m.events(s)),
        m.events(s).contains(Gesture::Jump) <==> m.calibrated && m.jump_fires(s),
        m.events(s).contains(Gesture::CrouchStart) <==> m.calibrated && m.crouch_starts(s),
        m.events(s).contains(Gesture::CrouchEnd) <==> m.calibrated && !m.crouch_starts(s)
            && m.crouch_ends(s),
        m.events(s).contains(Gesture::LaneLeft) <==> m.calibrated && m.target_lane(s) < m.lane,
        m.events(s).contains(Gesture::LaneRight) <==> m.calibrated && m.target_lane(s) > m.lane,
{
    let e = m.events(s);
    if !m.calibrated {
        lemma_contains_single(Gesture::Jump, Gesture::Jump);
        lemma_contains_single(Gesture::Jump, Gesture::CrouchStart);
        lemma_contains_single(Gesture::Jump, Gesture::CrouchEnd);
        lemma_contains_single(Gesture::Jump, Gesture::LaneLeft);
        lemma_contains_single(Gesture::Jump, Gesture::LaneRight);
    } else {
        let j = m.jump_events(s);
        let c = m.crouch_events(s);
        let l = m.lane_events(s);
        assert(e == j + c + l);
        let all = seq![
            Gesture::Jump,
            Gesture::CrouchStart,
            Gesture::CrouchEnd,
            Gesture::LaneLeft,
            Gesture::LaneRight,
        ];
        assert forall|k: int| 0 <= k < 5 implies (#[trigger] e.contains(all[k])) == (j.contains(
            all[k],
        ) || c.contains(all[k]) || l.contains(all[k])) by {
            lemma_contains_concat3(j, c, l, all[k]);
        }
        assert forall|k: int, x: Gesture| 0 <= k < 5 implies (#[trigger] seq![x].contains(all[k]))
            == (x == all[k]) && !Seq::<Gesture>::empty().contains(all[k]) by {
            lemma_contains_single(x, all[k]);
        }
        assert(e.contains(all[0]) == e.contains(Gesture::Jump));
        assert(e.contains(all[1]) == e.contains(Gesture::CrouchStart));
        assert(e.contains(all[2]) == e.contains(Gesture::CrouchEnd));
        assert(e.contains(all[3]) == e.contains(Gesture::LaneLeft));
        assert(e.contains(all[4]) == e.contains(Gesture::LaneRight));
        assert forall|a: int, b: int| 0 <= a < b < e.len() implies gesture_kind(e[a])
            < gesture_kind(e[b]) by {
            assert(j.len() <= 1 && c.len() <= 1 && l.len() <= 1);
            assert(forall|i: int| 0 <= i < j.len() ==> gesture_kind(#[trigger] j[i]) == 0);
            assert(forall|i: int| 0 <= i < c.len() ==> gesture_kind(#[trigger] c[i]) == 1);
            assert(forall|i: int| 0 <= i < l.len() ==> gesture_kind(#[trigger] l[i]) == 2);
            if a < j.len() {
                assert(e[a] == j[a]);
            } else if a < j.len() + c.len() {
                assert(e[a] == c[a - j.len()]);
            }
            if b < j.len() {
                assert(e[b] == j[b]);
            } else if b < j.len() + c.len() {
                assert(e[b] == c[b - j.len()]);
            } else {
                assert(e[b] == l[b - j.len() - c.len()]);
            }
        }
    }
}

/// The run invariant: the lane is the balance of reported lane changes, the
/// detector crouches exactly when one more crouch start than end was
/// reported, and the jump reference time is that of the last reported jump.
proof fn lemma_run_invariant(cfg: Config, ss: Seq<BodyState>, n: int)
    requires
        0 <= n <= ss.len(),
    ensures
        state_after(cfg, ss, n).wf(),
        state_after(cfg, ss, n).cfg == cfg,
        state_after(cfg, ss, n).lane == lane_balance(cfg, ss, n),
        0 <= crouch_balance(cfg, ss, n) <= 1,
        state_after(cfg, ss, n).crouching == (crouch_balance(cfg, ss, n) == 1),
        -1 <= last_jump_call(cfg, ss, n) < n,
        state_after(cfg, ss, n).last_jump_t == (if last_jump_call(cfg, ss, n) >= 0 {
            ss[last_jump_call(cfg, ss, n)].t as int
        } else {
            NEVER_JUMPED as int
        }),
    decreases n,
{
    if n > 0 {
        lemma_run_invariant(cfg, ss, n - 1);
        let m = state_after(cfg, ss, n - 1);
        let s = ss[n - 1];
        lemma_step_report(m, s);
        lemma_step_keeps_wf(m, s);
        if m.calibrated {
            lemma_lane_step(m, s);
        }
    }
}

/// The laws of a whole run: a detector created with `cfg` and fed the
/// samples `ss`, one call of `update` each.
/// - After every call, the right lane changes reported so far minus the
///   left ones are -1, 0 or 1: the current lane.
/// - Crouch starts and crouch ends alternate, beginning with a start.
/// - Each call reports at most one jump, one crouch event and one lane
///   change, in that order.
/// - Of two consecutive reported jumps, the second comes at least
///   `jump_cooldown` after the first.
pub proof fn lemma_run_laws(cfg: Config, ss: Seq<BodyState>)
    ensures
        forall|n: int|
            0 <= n <= ss.len() ==> -1 <= #[trigger] lane_balance(cfg, ss, n) <= 1
                && lane_balance(cfg, ss, n) == state_after(cfg, ss, n).lane,
        forall|n: int| 0 <= n <= ss.len() ==> 0 <= #[trigger] crouch_balance(cfg, ss, n) <= 1,
        forall|k: int| 0 <= k < ss.len() ==> kinds_in_order(#[trigger] reported(cfg, ss, k)),
        forall|k: int|
            0 <= k < ss.len() && #[trigger] reported(cfg, ss, k).contains(Gesture::CrouchStart)
                ==> crouch_balance(cfg, ss, k) == 0,
        forall|k: int|
            0 <= k < ss.len() && #[trigger] reported(cfg, ss, k).contains(Gesture::CrouchEnd)
                ==> crouch_balance(cfg, ss, k) == 1,
        forall|k: int|
            0 <= k < ss.len() && #[trigger] reported(cfg, ss, k).contains(Gesture::Jump)
                && last_jump_call(cfg, ss, k) >= 0 ==> ss[k].t - ss[last_jump_call(
                cfg,
                ss,
                k,
            )].t >= cfg.jump_cooldown,
{
    assert forall|n: int| 0 <= n <= ss.len() implies -1 <= #[trigger] lane_balance(cfg, ss, n)
        <= 1 && lane_balance(cfg, ss, n) == state_after(cfg, ss, n).lane && 0
        <= crouch_balance(cfg, ss, n) <= 1 by {
        lemma_run_invariant(cfg, ss, n);
    }
    assert forall|n: int| 0 <= n <= ss.len() implies 0 <= #[trigger] crouch_balance(cfg, ss, n)
        <= 1 by {
        lemma_run_invariant(cfg, ss, n);
    }
    assert forall|k: int| 0 <= k < ss.len() implies {
        &&& kinds_in_order(#[trigger] reported(cfg, ss, k))
        &&& reported(cfg, ss, k).contains(Gesture::CrouchStart) ==> crouch_balance(cfg, ss, k) == 0
        &&& reported(cfg, ss, k).contains(Gesture::CrouchEnd) ==> crouch_balance(cfg, ss, k) == 1
        &&& reported(cfg, ss, k).contains(Gesture::Jump) && last_jump_call(cfg, ss, k) >= 0
            ==> ss[k].t - ss[last_jump_call(cfg, ss, k)].t >= cfg.jump_cooldown
    } by {
        lemma_run_invariant(cfg, ss, k);
        lemma_step_report(state_after(cfg, ss, k), ss[k]);
    }
}

/// Gesture detector over body samples.
#[derive(Debug)]
pub struct GestureDetector {
    cfg: Config,
    calib_count: usize,
    calib_sum_x: i128,
    calib_sum_h: i128,
    calibrated: bool,
    lane: i32,
    airborne: bool,
    crouching: bool,
    last_jump_t: i64,
}

impl View for GestureDetector {
    type V = DetectorModel;

    closed spec fn view(&self) -> DetectorModel {
        DetectorModel {
            cfg: self.cfg,
            calib_count: self.calib_count as nat,
            sum_x: self.calib_sum_x as int,
            sum_h: self.calib_sum_h as int,
            calibrated: self.calibrated,
            lane: self.lane as int,
            airborne: self.airborne,
            crouching: self.crouching,
            last_jump_t: self.last_jump_t as int,
        }
    }
}

impl GestureDetector {
    #[verifier::type_invariant]
    closed spec fn inv(self) -> bool {
        &&& self@.wf()
        &&& -(self.calib_count * coord_bound()) <= self.calib_sum_x <= self.calib_count
            * coord_bound()
        &&& -(self.calib_count * coord_bound()) <= self.calib_sum_h <= self.calib_count
            * coord_bound()
    }

    /// A detector that starts calibrating with the given parameters.
    pub fn new(cfg: Config) -> (r: Self)
        ensures
            r@ == initial_model(cfg),
            r@.wf(),
    {
        GestureDetector {
            cfg,
            calib_count: 0,
            calib_sum_x: 0,
            calib_sum_h: 0,
            calibrated: false,
            lane: 0,
            airborne: false,
            crouching: false,
            last_jump_t: NEVER_JUMPED,
        }
    }

    /// Feeds one sample and returns the gestures it completes.
    pub fn update(&mut self, s: BodyState) -> (r: Vec<Gesture>)
        ensures
            old(self)@.wf(),
            final(self)@.wf(),
            final(self)@ == old(self)@.next(s),
            r@ == old(self)@.events(s),
    {
        proof {
            use_type_invariant(&*self);
        }
        if !self.calibrated {
            let count = self.calib_count + 1;
            proof {
                assert(self.calib_count * coord_bound() + coord_bound() == count as int
                    * coord_bound()) by (nonlinear_arith)
                    requires count == self.calib_count + 1;
            }
            let sum_x = self.calib_sum_x + s.x as i128;
            let sum_h = self.calib_sum_h + s.height as i128;
            let calibrated = count >= self.cfg.calib_frames;
            *self = GestureDetector {
                cfg: self.cfg,
                calib_count: count,
                calib_sum_x: sum_x,
                calib_sum_h: sum_h,
                calibrated,
                lane: self.lane,
                airborne: self.airborne,
                crouching: self.crouching,
                last_jump_t: self.last_jump_t,
            };
            return Vec::new();
        }
        let ghost m = self@;
        let n = self.calib_count as i128;
        proof {
            lemma_scaled_bound(s.x as int, n as int);
            lemma_scaled_bound(s.height as int, n as int);
            lemma_scaled_bound(self.cfg.jump_thresh as int, n as int);
            lemma_scaled_bound(self.cfg.crouch_thresh as int, n as int);
            lemma_scaled_bound(self.cfg.lane_enter as int, n as int);
            lemma_scaled_bound(self.cfg.lane_exit as int, n as int);
            lemma_scaled_bound(1, n as int);
        }
        let rel_x = (s.x as i128) * n - self.calib_sum_x;
        let rel_h = (s.height as i128) * n - self.calib_sum_h;
        let jump = (self.cfg.jump_thresh as i128) * n;
        let crouch = (self.cfg.crouch_thresh as i128) * n;
        let enter = (self.cfg.lane_enter as i128) * n;
        let exit = (self.cfg.lane_exit as i128) * n;
        assert(rel_x == m.rel_x(s) && rel_h == m.rel_h(s));
        assert(jump == m.scaled(m.cfg.jump_thresh) && crouch == m.scaled(m.cfg.crouch_thresh));
        assert(enter == m.scaled(m.cfg.lane_enter) && exit == m.scaled(m.cfg.lane_exit));

        let mut events: Vec<Gesture> = Vec::new();

        let mut airborne = self.airborne;
        let mut last_jump_t = self.last_jump_t;
        if !self.airborne && rel_h > jump {
            if (s.t as i128) - (self.last_jump_t as i128) >= self.cfg.jump_cooldown as i128 {
                events.push(Gesture::Jump);
                last_jump_t = s.t;
            }
            airborne = true;
        } else if self.airborne && 2 * rel_h < jump {
            airborne = false;
        }
        assert(events@ == m.jump_events(s));
        let ghost after_jump = events@;

        let mut crouching = self.crouching;
        if !self.crouching && rel_h < -crouch {
            crouching = true;
            events.push(Gesture::CrouchStart);
        } else if self.crouching && 10 * rel_h + 7 * crouch > 0 {
            crouching = false;
            events.push(Gesture::CrouchEnd);
        }
        assert(events@ == after_jump + m.crouch_events(s));
        let ghost after_crouch = events@;

        let mut target_lane = self.lane;
        if self.lane == 0 {
            if rel_x < -enter {
                target_lane = -1;
            } else if rel_x > enter {
                target_lane = 1;
            }
        } else if self.lane == -1 && rel_x > -exit {
            target_lane = 0;
        } else if self.lane == 1 && rel_x < exit {
            target_lane = 0;
        }
        assert(target_lane == m.target_lane(s));
        if target_lane < self.lane {
            events.push(Gesture::LaneLeft);
        } else if target_lane > self.lane {
            events.push(Gesture::LaneRight);
        }
        assert(events@ == after_crouch + m.lane_events(s));

        *self = GestureDetector {
            cfg: self.cfg,
            calib_count: self.calib_count,
            calib_sum_x: self.calib_sum_x,
            calib_sum_h: self.calib_sum_h,
            calibrated: true,
            lane: target_lane,
            airborne,
            crouching,
            last_jump_t,
        };
        events
    }

    /// Whether the baseline has been learned.
    pub fn calibrated(&self) -> (r: bool)
        ensures
            r == self@.calibrated,
    {
        self.calibrated
    }

    /// Baseline x offset in micrometres, rounded down; 0 before calibration.
    pub fn baseline_x(&self) -> (r: i64)
        ensures
            r == self@.baseline_x(),
    {
        proof {
            use_type_invariant(self);
        }
        if !self.calibrated {
            return 0;
        }
        Self::average(self.calib_sum_x, self.calib_count)
    }

    /// Baseline height in micrometres, rounded down; 0 before calibration.
    pub fn baseline_height(&self) -> (r: i64)
        ensures
            r == self@.baseline_height(),
    {
        proof {
            use_type_invariant(self);
        }
        if !self.calibrated {
            return 0;
        }
        Self::average(self.calib_sum_h, self.calib_count)
    }

    fn average(sum: i128, count: usize) -> (r: i64)
        requires
            count >= 1,
            -(count * coord_bound()) <= sum <= count * coord_bound(),
        ensures
            r == sum as int / count as int,
    {
        proof {
            lemma_scaled_bound(1, count as int);
        }
        let q = floor_div(sum, count as i128);
        proof {
            let c = count as int;
            let si = sum as int;
            assert(-coord_bound() <= si / c <= coord_bound()) by (nonlinear_arith)
                requires
                    c >= 1,
                    -(c * coord_bound()) <= si <= c * coord_bound(),
            ;
        }
        q as i64
    }
}

impl Default for GestureDetector {
    fn default() -> (r: Self)
        ensures
            r@ == initial_model(default_config()),
    {
        GestureDetector::new(Config::default())
    }
}

} // verus!
