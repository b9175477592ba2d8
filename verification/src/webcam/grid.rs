//! The decisions of the webcam source: which grid cells of the downscaled
//! motion mask are active, what share of each zone they cover, when a
//! global scene change calls for relearning the background, and how long a
//! matching motion direction keeps a tap zone's gate open.
//!
//! Capturing frames, the background model, morphology, downscaling and the
//! optical flow itself are image operations done by the caller.
use vstd::prelude::*;
use crate::webcam::config::{
    CELL_ACTIVE_THRESH, FLOW_MEMORY_FRAMES, GRID_COLS, GRID_ROWS, MOG2_WARMUP_FRAMES,
    SCENE_CHANGE_FRAMES, SCENE_CHANGE_RATIO, spec_zone_rect, zone_rect,
};
use crate::webcam::zones::{RATIO_ONE, Zones};

verus! {

/// One million: the full width / height of the image, in parts per million.
pub const PPM: u64 = 1_000_000;

/// A grid cell is active when its mask value reaches the threshold.
pub open spec fn cell_active(v: u8) -> bool {
    v >= CELL_ACTIVE_THRESH
}

/// Active flags of the cells of a downscaled mask (row-major).
pub fn active_cells(small: &Vec<u8>) -> (r: Vec<bool>)
    ensures
        r@.len() == small@.len(),
        forall|i: int| 0 <= i < r@.len() ==> r@[i] == cell_active(#[trigger] small@[i]),
{
    let mut out: Vec<bool> = Vec::new();
    let n = small.len();
    for i in 0..n
        invariant
            n == small@.len(),
            out@.len() == i,
            forall|j: int| 0 <= j < i ==> out@[j] == cell_active(#[trigger] small@[j]),
    {
        out.push(small[i] >= CELL_ACTIVE_THRESH);
    }
    out
}

/// Number of `true` entries among the first `n` of `s`.
pub open spec fn count_true(s: Seq<bool>, n: int) -> nat
    decreases n,
{
    if n <= 0 {
        0
    } else {
        count_true(s, n - 1) + if s[n - 1] { 1nat } else { 0nat }
    }
}

/// Number of active cells.
pub fn count_active(active: &Vec<bool>) -> (r: usize)
    ensures
        r == count_true(active@, active@.len() as int),
{
    let mut c: usize = 0;
    let n = active.len();
    for i in 0..n
        invariant
            n == active@.len(),
            c == count_true(active@, i as int),
            c <= i,
    {
        if active[i] {
            c += 1;
        }
    }
    c
}

/// Grid index of a relative coordinate (parts per million) on an axis of
/// `n` cells, rounded down.
pub open spec fn cell_of(coord: int, n: int) -> int {
    coord * n / 1_000_000
}

fn cell_index(coord: i32, n: usize) -> (r: usize)
    requires
        0 <= coord <= 1_000_000,
    ensures
        r == cell_of(coord as int, n as int),
        r <= n,
{
    proof {
        assert(coord as int * n as int / 1_000_000 <= n as int) by (nonlinear_arith)
            requires
                0 <= coord <= 1_000_000,
                n >= 0,
        ;
        assert(0 <= coord as int * n as int) by (nonlinear_arith)
            requires
                0 <= coord,
                n >= 0,
        ;
    }
    ((coord as u128) * (n as u128) / (PPM as u128)) as usize
}

/// Number of active cells in row `row`, columns `c0..c`, of the configured
/// grid.
pub open spec fn row_active(active: Seq<bool>, row: int, c0: int, c: int) -> nat
    decreases c - c0,
{
    if c <= c0 {
        0
    } else {
        row_active(active, row, c0, c - 1) + if active[row * GRID_COLS + c - 1] {
            1nat
        } else {
            0nat
        }
    }
}

/// Number of active cells in rows `r0..r`, columns `c0..c1`, of the
/// configured grid.
pub open spec fn rect_active(active: Seq<bool>, r0: int, r: int, c0: int, c1: int) -> nat
    decreases r - r0,
{
    if r <= r0 {
        0
    } else {
        rect_active(active, r0, r - 1, c0, c1) + row_active(active, r - 1, c0, c1)
    }
}

proof fn lemma_row_active_bound(active: Seq<bool>, row: int, c0: int, c: int)
    requires
        c0 <= c,
    ensures
        row_active(active, row, c0, c) <= c - c0,
    decreases c - c0,
{
    if c > c0 {
        lemma_row_active_bound(active, row, c0, c - 1);
    }
}

proof fn lemma_rect_active_bound(active: Seq<bool>, r0: int, r: int, c0: int, c1: int)
    requires
        r0 <= r,
        c0 <= c1,
    ensures
        rect_active(active, r0, r, c0, c1) <= (r - r0) * (c1 - c0),
    decreases r - r0,
{
    if r > r0 {
        lemma_rect_active_bound(active, r0, r - 1, c0, c1);
        lemma_row_active_bound(active, r - 1, c0, c1);
        assert((r - 1 - r0) * (c1 - c0) + (c1 - c0) == (r - r0) * (c1 - c0)) by (nonlinear_arith);
    }
}

/// The cell block `(r0, r1, c0, c1)` of zone `i` on the configured grid:
/// rows `r0..r1` and columns `c0..c1`, the zone rectangle's edges rounded
/// down to whole cells.
pub open spec fn zone_cells(i: int) -> (int, int, int, int) {
    let z = spec_zone_rect(i);
    (
        cell_of(z.y0 as int, GRID_ROWS as int),
        cell_of(z.y1 as int, GRID_ROWS as int),
        cell_of(z.x0 as int, GRID_COLS as int),
        cell_of(z.x1 as int, GRID_COLS as int),
    )
}

/// Number of cells of zone `i`.
pub open spec fn zone_cell_count(i: int) -> int {
    let (r0, r1, c0, c1) = zone_cells(i);
    (r1 - r0) * (c1 - c0)
}

/// Number of active cells of zone `i`.
pub open spec fn zone_active(active: Seq<bool>, i: int) -> int {
    let (r0, r1, c0, c1) = zone_cells(i);
    rect_active(active, r0, r1, c0, c1) as int
}

/// The share of active cells of zone `i`, in units of `1 / RATIO_ONE`.
pub open spec fn spec_zone_ratio(active: Seq<bool>, i: int) -> int {
    zone_active(active, i) * RATIO_ONE / zone_cell_count(i)
}

#[verifier::spinoff_prover]
proof fn lemma_zone_cells(i: int)
    requires
        0 <= i < 4,
    ensures
        ({
            let (r0, r1, c0, c1) = zone_cells(i);
            &&& 0 <= r0 <= r1 <= GRID_ROWS
            &&& 0 <= c0 <= c1 <= GRID_COLS
        }),
        zone_cell_count(i) > 0,
        i == 0 ==> zone_cells(i) == (0int, 16int, 0int, 10int),
        i == 1 ==> zone_cells(i) == (0int, 16int, 21int, 32int),
        i == 2 ==> zone_cells(i) == (0int, 9int, 10int, 21int),
        i == 3 ==> zone_cells(i) == (16int, 24int, 0int, 32int),
        zone_cell_count(i) * (RATIO_ONE as int / zone_cell_count(i)) == RATIO_ONE,
{
    if i == 0 {
        assert(340_000int * 32 / 1_000_000 == 10);
        assert(700_000int * 24 / 1_000_000 == 16);
        let (r0, r1, c0, c1) = zone_cells(i);
        assert(r0 == 0 && r1 == 16 && c0 == 0 && c1 == 10);
        assert((r1 - r0) * (c1 - c0) == 160) by (nonlinear_arith)
            requires
                r0 == 0 && r1 == 16 && c0 == 0 && c1 == 10,
        ;
        assert(zone_cell_count(i) == 160);
        assert(RATIO_ONE as int / 160 == 2475000);
    } else if i == 1 {
        assert(660_000int * 32 / 1_000_000 == 21);
        assert(700_000int * 24 / 1_000_000 == 16);
        let (r0, r1, c0, c1) = zone_cells(i);
        assert(r0 == 0 && r1 == 16 && c0 == 21 && c1 == 32);
        assert((r1 - r0) * (c1 - c0) == 176) by (nonlinear_arith)
            requires
                r0 == 0 && r1 == 16 && c0 == 21 && c1 == 32,
        ;
        assert(zone_cell_count(i) == 176);
        assert(RATIO_ONE as int / 176 == 2250000);
    } else if i == 2 {
        assert(340_000int * 32 / 1_000_000 == 10);
        assert(660_000int * 32 / 1_000_000 == 21);
        assert(380_000int * 24 / 1_000_000 == 9);
        let (r0, r1, c0, c1) = zone_cells(i);
        assert(r0 == 0 && r1 == 9 && c0 == 10 && c1 == 21);
        assert((r1 - r0) * (c1 - c0) == 99) by (nonlinear_arith)
            requires
                r0 == 0 && r1 == 9 && c0 == 10 && c1 == 21,
        ;
        assert(zone_cell_count(i) == 99);
        assert(RATIO_ONE as int / 99 == 4000000);
    } else {
        assert(700_000int * 24 / 1_000_000 == 16);
        let (r0, r1, c0, c1) = zone_cells(i);
        assert(r0 == 16 && r1 == 24 && c0 == 0 && c1 == 32);
        assert((r1 - r0) * (c1 - c0) == 256) by (nonlinear_arith)
            requires
                r0 == 16 && r1 == 24 && c0 == 0 && c1 == 32,
        ;
        assert(zone_cell_count(i) == 256);
        assert(RATIO_ONE as int / 256 == 1546875);
    }
}

/// Share of active cells of zone `i` (left, right, up, down) on the
/// configured grid. Every zone's cell count divides `RATIO_ONE`, so the
/// share is exact.
#[verifier::spinoff_prover]
pub fn zone_ratio(active: &Vec<bool>, i: usize) -> (r: i32)
    requires
        active@.len() == GRID_COLS * GRID_ROWS,
        i < 4,
    ensures
        r == spec_zone_ratio(active@, i as int),
        r * zone_cell_count(i as int) == zone_active(active@, i as int) * RATIO_ONE,
        0 <= r <= RATIO_ONE,
{
    proof {
        lemma_zone_cells(i as int);
    }
    let z = zone_rect(i);
    let c0 = cell_index(z.x0, GRID_COLS as usize);
    let c1 = cell_index(z.x1, GRID_COLS as usize);
    let r0 = cell_index(z.y0, GRID_ROWS as usize);
    let r1 = cell_index(z.y1, GRID_ROWS as usize);
    let ghost a = active@;
    let mut act: u64 = 0;
    let mut row = r0;
    while row < r1
        invariant
            a == active@,
            a.len() == GRID_COLS * GRID_ROWS,
            0 <= r0 <= row <= r1 <= GRID_ROWS,
            0 <= c0 <= c1 <= GRID_COLS,
            act == rect_active(a, r0 as int, row as int, c0 as int, c1 as int),
            act <= 768,
        decreases r1 - row,
    {
        let mut col = c0;
        let ghost before = act;
        while col < c1
            invariant
                a == active@,
                a.len() == GRID_COLS * GRID_ROWS,
                0 <= r0 <= row < r1 <= GRID_ROWS,
                0 <= c0 <= col <= c1 <= GRID_COLS,
                before == rect_active(a, r0 as int, row as int, c0 as int, c1 as int),
                act == before + row_active(a, row as int, c0 as int, col as int),
                before <= 768,
                act <= before + (col - c0),
            decreases c1 - col,
        {
            proof {
                assert(row * 32 + col < 768) by (nonlinear_arith)
                    requires
                        row < 24,
                        col < 32,
                ;
            }
            if active[row * 32 + col] {
                act += 1;
            }
            col += 1;
        }
        proof {
            lemma_rect_active_bound(a, r0 as int, row as int + 1, c0 as int, c1 as int);
            assert((row + 1 - r0) * (c1 - c0) <= 768) by (nonlinear_arith)
                requires
                    0 <= r0 <= row < 24,
                    0 <= c0 <= c1 <= 32,
            ;
        }
        row += 1;
    }
    proof {
        assert((r1 - r0) * (c1 - c0) <= 768) by (nonlinear_arith)
            requires
                0 <= r0 <= r1 <= 24,
                0 <= c0 <= c1 <= 32,
        ;
    }
    let total = ((r1 - r0) * (c1 - c0)) as u64;
    proof {
        lemma_rect_active_bound(a, r0 as int, r1 as int, c0 as int, c1 as int);
        let n = zone_cell_count(i as int);
        let k = RATIO_ONE as int / n;
        assert(n * k == RATIO_ONE);
        assert(act * RATIO_ONE == (act * k) * n) by (nonlinear_arith)
            requires
                RATIO_ONE == n * k,
        ;
        assert((act * k) * n / n == act * k) by (nonlinear_arith)
            requires
                n > 0,
        ;
        assert(act * k <= RATIO_ONE) by (nonlinear_arith)
            requires
                act <= n,
                RATIO_ONE == n * k,
                k >= 0,
        ;
    }
    ((act * (RATIO_ONE as u64)) / total) as i32
}

/// The share of active cells per zone.
pub open spec fn spec_zone_ratios(active: Seq<bool>) -> Zones {
    Zones {
        left: spec_zone_ratio(active, 0) as i32,
        right: spec_zone_ratio(active, 1) as i32,
        up: spec_zone_ratio(active, 2) as i32,
        down: spec_zone_ratio(active, 3) as i32,
    }
}

/// Zone ratios [left, right, up, down] of the active cells of the
/// configured grid (row-major).
pub fn zone_ratios(active: &Vec<bool>) -> (r: Zones)
    requires
        active@.len() == GRID_COLS * GRID_ROWS,
    ensures
        r == spec_zone_ratios(active@),
        forall|i: int|
            0 <= i < 4 ==> #[trigger] r.ratio(i) * zone_cell_count(i) == zone_active(active@, i)
                * RATIO_ONE && 0 <= r.ratio(i) <= RATIO_ONE,
{
    let r = Zones {
        left: zone_ratio(active, 0),
        right: zone_ratio(active, 1),
        up: zone_ratio(active, 2),
        down: zone_ratio(active, 3),
    };
    r
}

/// More than `SCENE_CHANGE_RATIO` of all cells are active.
pub open spec fn scene_change(active: int, total: int) -> bool {
    active * RATIO_ONE > SCENE_CHANGE_RATIO * total
}

/// Monitor state after observing `active` of `total` cells.
pub open spec fn observe_next(m: SceneModel, active: int, total: int) -> SceneModel {
    if scene_change(active, total) {
        if m.high_count + 1 >= SCENE_CHANGE_FRAMES {
            SceneModel { frames_seen: 0, high_count: 0, suspect: true }
        } else {
            SceneModel { high_count: m.high_count + 1, suspect: true, ..m }
        }
    } else {
        SceneModel { high_count: 0, suspect: false, ..m }
    }
}

/// Whether observing `active` of `total` cells asks for relearning.
pub open spec fn observe_relearns(m: SceneModel, active: int, total: int) -> bool {
    scene_change(active, total) && m.high_count + 1 >= SCENE_CHANGE_FRAMES
}

/// Relearning requests while observing the frames `frames` (active and
/// total cells each) in order.
pub open spec fn observe_run(m: SceneModel, frames: Seq<(int, int)>) -> (SceneModel, Seq<bool>)
    decreases frames.len(),
{
    if frames.len() == 0 {
        (m, seq![])
    } else {
        let (m2, rs) = observe_run(observe_next(m, frames[0].0, frames[0].1), frames.drop_first());
        (m2, seq![observe_relearns(m, frames[0].0, frames[0].1)] + rs)
    }
}

/// A scene-wide change relearns the background exactly when it has lasted
/// `SCENE_CHANGE_FRAMES` consecutive frames: from a calm state, the first
/// `SCENE_CHANGE_FRAMES - 1` changed frames ask for nothing, the next one
/// asks for relearning and restarts the warm-up.
pub proof fn lemma_scene_change_relearns(m: SceneModel, frames: Seq<(int, int)>)
    requires
        m.high_count == 0,
        frames.len() == SCENE_CHANGE_FRAMES,
        forall|i: int| 0 <= i < frames.len() ==> scene_change(#[trigger] frames[i].0, frames[i].1),
    ensures
        ({
            let (m2, rs) = observe_run(m, frames);
            &&& rs.len() == SCENE_CHANGE_FRAMES
            &&& forall|i: int| 0 <= i < SCENE_CHANGE_FRAMES - 1 ==> !#[trigger] rs[i]
            &&& rs[SCENE_CHANGE_FRAMES - 1]
            &&& m2.frames_seen == 0
            &&& m2.high_count == 0
        }),
{
    lemma_scene_run(m, frames, 0);
}

proof fn lemma_scene_run(m: SceneModel, frames: Seq<(int, int)>, h: nat)
    requires
        m.high_count == h,
        h + frames.len() == SCENE_CHANGE_FRAMES,
        forall|i: int| 0 <= i < frames.len() ==> scene_change(#[trigger] frames[i].0, frames[i].1),
    ensures
        ({
            let (m2, rs) = observe_run(m, frames);
            &&& rs.len() == frames.len()
            &&& forall|i: int| 0 <= i < frames.len() - 1 ==> !#[trigger] rs[i]
            &&& frames.len() > 0 ==> rs[frames.len() - 1]
            &&& frames.len() > 0 ==> m2.frames_seen == 0 && m2.high_count == 0
        }),
    decreases frames.len(),
{
    if frames.len() > 0 {
        let m1 = observe_next(m, frames[0].0, frames[0].1);
        let rest = frames.drop_first();
        assert forall|i: int| 0 <= i < rest.len() implies scene_change(#[trigger] rest[i].0, rest[i].1) by {
            assert(rest[i] == frames[i + 1]);
        }
        if frames.len() > 1 {
            lemma_scene_run(m1, rest, h + 1);
        }
        let (m2, rs) = observe_run(m, frames);
        let (m3, rs1) = observe_run(m1, rest);
        assert(rs == seq![observe_relearns(m, frames[0].0, frames[0].1)] + rs1);
        assert forall|i: int| 0 <= i < frames.len() - 1 implies !#[trigger] rs[i] by {
            if i > 0 {
                assert(rs[i] == rs1[i - 1]);
            }
        }
    }
}

/// Warm-up and scene-change bookkeeping of the webcam source.
#[derive(Debug)]
pub struct SceneMonitor {
    frames_seen: u32,
    high_count: u32,
    suspect: bool,
}

/// Abstract state of a [`SceneMonitor`].
pub struct SceneModel {
    /// Frames since the background model was (re)created, saturating.
    pub frames_seen: nat,
    /// Consecutive frames with a scene-wide change.
    pub high_count: nat,
    /// The last observed frame looked like a scene-wide change.
    pub suspect: bool,
}

impl View for SceneMonitor {
    type V = SceneModel;

    closed spec fn view(&self) -> SceneModel {
        SceneModel {
            frames_seen: self.frames_seen as nat,
            high_count: self.high_count as nat,
            suspect: self.suspect,
        }
    }
}

impl SceneMonitor {
    #[verifier::type_invariant]
    closed spec fn inv(self) -> bool {
        self.high_count < SCENE_CHANGE_FRAMES
    }

    pub fn new() -> (r: Self)
        ensures
            r@ == (SceneModel { frames_seen: 0, high_count: 0, suspect: false }),
    {
        SceneMonitor { frames_seen: 0, high_count: 0, suspect: false }
    }

    /// Counts a frame for the background model and tells whether the model
    /// still learns on it (warm-up) or is frozen.
    pub fn learning(&mut self) -> (r: bool)
        ensures
            r == (old(self)@.frames_seen < MOG2_WARMUP_FRAMES),
            final(self)@.frames_seen == (if old(self)@.frames_seen < u32::MAX {
                old(self)@.frames_seen + 1
            } else {
                old(self)@.frames_seen
            }),
            final(self)@.high_count == old(self)@.high_count,
            final(self)@.suspect == old(self)@.suspect,
    {
        proof {
            use_type_invariant(&*self);
        }
        let r = self.frames_seen < MOG2_WARMUP_FRAMES;
        self.frames_seen = self.frames_seen.saturating_add(1);
        r
    }

    /// Restart after the background model was recreated: warm-up and the
    /// scene-change count start over.
    pub fn recalibrate(&mut self)
        ensures
            final(self)@.frames_seen == 0,
            final(self)@.high_count == 0,
            final(self)@.suspect == old(self)@.suspect,
    {
        self.high_count = 0;
        self.frames_seen = 0;
    }

    /// Records how many of `total` cells are active in this frame. Returns
    /// true when a scene-wide change has lasted `SCENE_CHANGE_FRAMES` frames;
    /// the monitor then restarts as after [`Self::recalibrate`] and the
    /// caller relearns the background.
    pub fn observe(&mut self, active: usize, total: usize) -> (r: bool)
        ensures
            final(self)@ == observe_next(old(self)@, active as int, total as int),
            r == observe_relearns(old(self)@, active as int, total as int),
            final(self)@.suspect == scene_change(active as int, total as int),
            r == (scene_change(active as int, total as int) && old(self)@.high_count + 1
                >= SCENE_CHANGE_FRAMES),
            r ==> final(self)@.frames_seen == 0 && final(self)@.high_count == 0,
            !r ==> final(self)@.frames_seen == old(self)@.frames_seen,
            !r && scene_change(active as int, total as int) ==> final(self)@.high_count == old(self)@.high_count + 1,
            !scene_change(active as int, total as int) ==> final(self)@.high_count == 0,
    {
        proof {
            use_type_invariant(&*self);
        }
        let suspect = (active as u128) * (RATIO_ONE as u128) > (SCENE_CHANGE_RATIO as u128) * (
        total as u128);
        self.suspect = suspect;
        if suspect {
            if self.high_count + 1 >= SCENE_CHANGE_FRAMES {
                self.high_count = 0;
                self.frames_seen = 0;
                return true;
            }
            self.high_count = self.high_count + 1;
        } else {
            self.high_count = 0;
        }
        false
    }

    /// The last frame looked like a scene-wide change; events should then not
    /// reach the keyboard.
    pub fn scene_suspect(&self) -> (r: bool)
        ensures
            r == self@.suspect,
    {
        self.suspect
    }
}

/// One call on a scene monitor in the frame loop.
pub enum SceneCall {
    /// `learning`, once per frame read.
    Learn,
    /// `observe` with the active and the total number of cells of a frame.
    Observe(int, int),
    /// `recalibrate`.
    Recalibrate,
}

/// Monitor state after one call.
pub open spec fn scene_call_next(m: SceneModel, c: SceneCall) -> SceneModel {
    match c {
        SceneCall::Learn => SceneModel {
            frames_seen: if m.frames_seen < u32::MAX {
                m.frames_seen + 1
            } else {
                m.frames_seen
            },
            ..m
        },
        SceneCall::Observe(a, t) => observe_next(m, a, t),
        SceneCall::Recalibrate => SceneModel { frames_seen: 0, high_count: 0, ..m },
    }
}

/// State of a new monitor after the first `n` calls.
pub open spec fn scene_after(calls: Seq<SceneCall>, n: int) -> SceneModel
    decreases n,
{
    if n <= 0 {
        SceneModel { frames_seen: 0, high_count: 0, suspect: false }
    } else {
        scene_call_next(scene_after(calls, n - 1), calls[n - 1])
    }
}

/// What call `k` returns: whether the model still learns for a `learning`
/// call, whether to relearn for an `observe` call.
pub open spec fn scene_result(calls: Seq<SceneCall>, k: int) -> bool {
    let m = scene_after(calls, k);
    match calls[k] {
        SceneCall::Learn => m.frames_seen < MOG2_WARMUP_FRAMES,
        SceneCall::Observe(a, t) => observe_relearns(m, a, t),
        SceneCall::Recalibrate => false,
    }
}

/// Consecutive frames with a scene-wide change observed in the first `n`
/// calls; a calm frame or a recalibration ends the streak.
pub open spec fn change_streak(calls: Seq<SceneCall>, n: int) -> nat
    decreases n,
{
    if n <= 0 {
        0
    } else {
        match calls[n - 1] {
            SceneCall::Learn => change_streak(calls, n - 1),
            SceneCall::Observe(a, t) => if scene_change(a, t) {
                change_streak(calls, n - 1) + 1
            } else {
                0
            },
            SceneCall::Recalibrate => 0,
        }
    }
}

/// Call `k` observes a changed frame that completes `SCENE_CHANGE_FRAMES`
/// consecutive changed frames (or a multiple of it).
pub open spec fn completes_change(calls: Seq<SceneCall>, k: int) -> bool {
    &&& calls[k] matches SceneCall::Observe(a, t) && scene_change(a, t)
    &&& change_streak(calls, k + 1) % (SCENE_CHANGE_FRAMES as nat) == 0
}

/// Frames counted by `learning` in the first `n` calls since the last
/// recalibration or relearning (or since the start).
pub open spec fn frames_since_reset(calls: Seq<SceneCall>, n: int) -> nat
    decreases n,
{
    if n <= 0 {
        0
    } else if calls[n - 1] is Recalibrate || completes_change(calls, n - 1) {
        0
    } else if calls[n - 1] is Learn {
        frames_since_reset(calls, n - 1) + 1
    } else {
        frames_since_reset(calls, n - 1)
    }
}

proof fn lemma_scene_invariant(calls: Seq<SceneCall>, n: int)
    requires
        0 <= n <= calls.len(),
    ensures
        scene_after(calls, n).high_count == change_streak(calls, n) % (SCENE_CHANGE_FRAMES as nat),
        scene_after(calls, n).frames_seen == (if frames_since_reset(calls, n) < u32::MAX {
            frames_since_reset(calls, n)
        } else {
            u32::MAX as nat
        }),
    decreases n,
{
    if n > 0 {
        lemma_scene_invariant(calls, n - 1);
        let l = change_streak(calls, n - 1);
        assert(l % 45 + 1 >= 45 <==> (l + 1) % 45 == 0) by (nonlinear_arith);
        assert(l % 45 + 1 < 45 ==> (l + 1) % 45 == l % 45 + 1) by (nonlinear_arith);
    }
}

/// The scene monitor over any sequence of calls on a new monitor:
/// - `observe` asks for relearning exactly when its frame completes
///   `SCENE_CHANGE_FRAMES` consecutive frames with a scene-wide change,
///   counted since the start, the last calm frame, the last recalibration
///   or the last relearning;
/// - `learning` says the background model learns exactly for the first
///   `MOG2_WARMUP_FRAMES` frames since the start, the last recalibration or
///   the last relearning, and is frozen afterwards.
pub proof fn lemma_scene_monitor_run(calls: Seq<SceneCall>)
    ensures
        forall|k: int|
            0 <= k < calls.len() && calls[k] is Observe ==> #[trigger] scene_result(calls, k)
                == completes_change(calls, k),
        forall|k: int|
            0 <= k < calls.len() && calls[k] is Learn ==> #[trigger] scene_result(calls, k) == (
            frames_since_reset(calls, k) < MOG2_WARMUP_FRAMES),
{
    assert forall|k: int| 0 <= k < calls.len() implies (calls[k] is Observe ==> #[trigger] scene_result(
        calls,
        k,
    ) == completes_change(calls, k)) && (calls[k] is Learn ==> scene_result(calls, k) == (
    frames_since_reset(calls, k) < MOG2_WARMUP_FRAMES)) by {
        lemma_scene_invariant(calls, k);
        let l = change_streak(calls, k);
        assert(l % 45 + 1 >= 45 <==> (l + 1) % 45 == 0) by (nonlinear_arith);
    }
}

/// Remembers, per tap zone [left, right, up], for how many more frames a
/// motion in gesture direction keeps the zone's gate open.
#[derive(Debug)]
pub struct FlowGate {
    left: u32,
    right: u32,
    up: u32,
}

/// Gate memory after a frame's verdict for one zone.
pub open spec fn memory_next(recent: nat, ok_now: bool) -> nat {
    if ok_now {
        FLOW_MEMORY_FRAMES as nat
    } else if recent > 0 {
        (recent - 1) as nat
    } else {
        0
    }
}

impl FlowGate {
    /// Remaining frames per zone [left, right, up].
    pub closed spec fn memory(&self) -> Seq<nat> {
        seq![self.left as nat, self.right as nat, self.up as nat]
    }

    pub fn new() -> (r: Self)
        ensures
            r.memory() == seq![0nat, 0, 0],
    {
        FlowGate { left: 0, right: 0, up: 0 }
    }

    fn remember(recent: u32, ok_now: bool) -> (r: u32)
        ensures
            r == memory_next(recent as nat, ok_now),
    {
        if ok_now {
            FLOW_MEMORY_FRAMES
        } else if recent > 0 {
            recent - 1
        } else {
            0
        }
    }

    /// The direction gate for this frame. `verdict` holds, per tap zone,
    /// whether its motion points in gesture direction; without flow
    /// information (`None`) every zone passes and nothing is remembered.
    pub fn gate(&mut self, verdict: Option<[bool; 3]>) -> (r: [bool; 3])
        ensures
            (verdict is None) ==> r@ == seq![true, true, true] && final(self).memory() == old(self).memory(),
            (verdict is Some) ==> forall|i: int|
                0 <= i < 3 ==> #[trigger] final(self).memory()[i] == memory_next(
                    old(self).memory()[i],
                    verdict->0[i],
                ) && r[i] == (final(self).memory()[i] > 0),
    {
        match verdict {
            None => {
                let r = [true, true, true];
                assert(r@ =~= seq![true, true, true]);
                r
            },
            Some(ok) => {
                self.left = Self::remember(self.left, ok[0]);
                self.right = Self::remember(self.right, ok[1]);
                self.up = Self::remember(self.up, ok[2]);
                [self.left > 0, self.right > 0, self.up > 0]
            },
        }
    }
}

/// Gate memory of zone `i` after the first `n` verdicts `vs` given to a new
/// gate (`None`: no flow information for that frame).
pub open spec fn gate_memory(vs: Seq<Option<[bool; 3]>>, n: int, i: int) -> nat
    decreases n,
{
    if n <= 0 {
        0
    } else if vs[n - 1] is Some {
        memory_next(gate_memory(vs, n - 1, i), vs[n - 1]->0[i])
    } else {
        gate_memory(vs, n - 1, i)
    }
}

/// The last of the first `n` frames that had a flow verdict, -1 if none.
pub open spec fn last_verdict(vs: Seq<Option<[bool; 3]>>, n: int) -> int
    decreases n,
{
    if n <= 0 {
        -1
    } else if vs[n - 1] is Some {
        n - 1
    } else {
        last_verdict(vs, n - 1)
    }
}

/// Zone `i`'s motion pointed in gesture direction in one of the last
/// `count` verdicts among the first `n` frames.
pub open spec fn matched_recently(vs: Seq<Option<[bool; 3]>>, n: int, i: int, count: nat) -> bool
    decreases count,
{
    if count == 0 {
        false
    } else {
        let j = last_verdict(vs, n);
        j >= 0 && (vs[j]->0[i] || matched_recently(vs, j, i, (count - 1) as nat))
    }
}

proof fn lemma_last_verdict(vs: Seq<Option<[bool; 3]>>, n: int)
    requires
        0 <= n <= vs.len(),
    ensures
        -1 <= last_verdict(vs, n) < n,
        last_verdict(vs, n) >= 0 ==> vs[last_verdict(vs, n)] is Some,
    decreases n,
{
    if n > 0 {
        lemma_last_verdict(vs, n - 1);
    }
}

proof fn lemma_gate_memory(vs: Seq<Option<[bool; 3]>>, n: int, i: int)
    requires
        0 <= n <= vs.len(),
    ensures
        gate_memory(vs, n, i) <= FLOW_MEMORY_FRAMES,
        gate_memory(vs, n, i) >= 3 <==> matched_recently(vs, n, i, 1),
        gate_memory(vs, n, i) >= 2 <==> matched_recently(vs, n, i, 2),
        gate_memory(vs, n, i) >= 1 <==> matched_recently(vs, n, i, 3),
    decreases n,
{
    lemma_last_verdict(vs, n);
    if n > 0 {
        lemma_gate_memory(vs, n - 1, i);
        lemma_last_verdict(vs, n - 1);
        assert(matched_recently(vs, n - 1, i, 0) == false);
    }
}

/// Three frames of direction: on a frame with a flow verdict, a tap zone
/// passes exactly when its motion pointed in gesture direction in this
/// verdict or in one of the two verdicts before it; a frame without a
/// verdict leaves every zone's remaining count as it was.
pub proof fn lemma_gate_remembers_three_verdicts(vs: Seq<Option<[bool; 3]>>)
    ensures
        forall|k: int, i: int|
            0 <= k < vs.len() && 0 <= i < 3 && vs[k] is Some ==> (#[trigger] gate_memory(
                vs,
                k + 1,
                i,
            ) > 0 <==> vs[k]->0[i] || matched_recently(vs, k, i, 2)),
        forall|k: int, i: int|
            0 <= k < vs.len() && 0 <= i < 3 && vs[k] is None ==> #[trigger] gate_memory(
                vs,
                k + 1,
                i,
            ) == gate_memory(vs, k, i),
{
    assert forall|k: int, i: int| 0 <= k < vs.len() && 0 <= i < 3 && vs[k] is Some implies (
    #[trigger] gate_memory(vs, k + 1, i) > 0 <==> vs[k]->0[i] || matched_recently(vs, k, i, 2)) by {
        lemma_gate_memory(vs, k + 1, i);
        assert(last_verdict(vs, k + 1) == k);
    }
}

/// Pixel rectangle `(x, y, width, height)` of tap zone `i` on a flow image of
/// `fw` x `fh` pixels; width and height are at least 1.
pub open spec fn spec_flow_rect(i: int, fw: int, fh: int) -> (int, int, int, int) {
    let r = spec_zone_rect(i);
    let x0 = cell_of(r.x0 as int, fw);
    let x1 = cell_of(r.x1 as int, fw);
    let y0 = cell_of(r.y0 as int, fh);
    let y1 = cell_of(r.y1 as int, fh);
    (x0, y0, if x1 - x0 > 1 { x1 - x0 } else { 1 }, if y1 - y0 > 1 { y1 - y0 } else { 1 })
}

/// The flow-image rectangle of tap zone `i`.
pub fn flow_rect(i: usize, fw: usize, fh: usize) -> (r: (usize, usize, usize, usize))
    requires
        i < 3,
    ensures
        (r.0 as int, r.1 as int, r.2 as int, r.3 as int) == spec_flow_rect(i as int, fw as int, fh as int),
{
    let z = zone_rect(i);
    let x0 = cell_index(z.x0, fw);
    let x1 = cell_index(z.x1, fw);
    let y0 = cell_index(z.y0, fh);
    let y1 = cell_index(z.y1, fh);
    proof {
        assert(x0 <= x1) by (nonlinear_arith)
            requires
                x0 == z.x0 as int * fw as int / 1_000_000,
                x1 == z.x1 as int * fw as int / 1_000_000,
                z.x0 <= z.x1,
                fw >= 0,
        ;
        assert(y0 <= y1) by (nonlinear_arith)
            requires
                y0 == z.y0 as int * fh as int / 1_000_000,
                y1 == z.y1 as int * fh as int / 1_000_000,
                z.y0 <= z.y1,
                fh >= 0,
        ;
    }
    let w = if x1 - x0 > 1 { x1 - x0 } else { 1 };
    let h = if y1 - y0 > 1 { y1 - y0 } else { 1 };
    (x0, y0, w, h)
}

} // verus!
