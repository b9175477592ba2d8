//! Camera-free frame sources: a scripted mock and manual keyboard control.
//! Both deliver zone activities like the webcam source. Printing the
//! script labels, reading the console and pacing in real time are left to
//! the caller.
use vstd::prelude::*;
use crate::units::{frame_time, frame_time_us, frames_for};
use crate::webcam::zones::{ZoneActivity, Zones};

verus! {

/// One stretch of the mock script: a label announced at its start (empty
/// for none), the zone ratios and the number of frames.
#[derive(Debug, Clone, Copy)]
pub struct Segment {
    pub label: &'static str,
    pub zones: Zones,
    pub frames: usize,
}

/// Zone ratios of a script step (units of `1 / RATIO_ONE`).
pub open spec fn ratios(left: int, right: int, up: int, down: int) -> Zones {
    Zones { left: left as i32, right: right as i32, up: up as i32, down: down as i32 }
}

/// The mock script: zone ratios and duration in milliseconds per segment.
pub open spec fn mock_script() -> Seq<(Zones, nat)> {
    seq![
        (ratios(0, 0, 0, 0), 1500nat),
        (ratios(0, 0, 237_600_000, 0), 300nat),
        (ratios(0, 0, 0, 0), 1000nat),
        (ratios(277_200_000, 0, 0, 0), 300nat),
        (ratios(0, 0, 0, 0), 1000nat),
        (ratios(0, 277_200_000, 0, 0), 300nat),
        (ratios(0, 0, 0, 0), 1000nat),
        (ratios(0, 0, 0, 356_400_000), 1200nat),
        (ratios(0, 0, 0, 0), 1000nat),
        (ratios(277_200_000, 118_800_000, 0, 0), 300nat),
        (ratios(0, 0, 0, 0), 500nat),
    ]
}

/// The labels announcing the mock segments.
pub open spec fn mock_labels() -> Seq<Seq<char>> {
    seq![
        "Ruhe (Kalibrierung)..."@,
        "Arme HOCH -> Sprung"@,
        ""@,
        "Arm LINKS -> A"@,
        ""@,
        "Arm RECHTS -> D"@,
        ""@,
        "DUCKEN -> HOLD S"@,
        "aufstehen -> HOLD S aus"@,
        "LINKS & rechts gleichzeitig -> nur A"@,
        ""@,
    ]
}

/// A frame of the mock source and the label to announce with it.
#[derive(Debug, Clone, Copy)]
pub struct MockFrame {
    pub activity: ZoneActivity,
    /// The segment's label on its first frame, if it has one.
    pub label: Option<&'static str>,
}

/// Where a playback stands: the current segment, the frames already played
/// of it, and the frames played in total.
pub struct MockPosition {
    pub segment: nat,
    pub frame: nat,
    pub played: nat,
}

/// The position after one call of `next` on segments `segs`: past the end
/// nothing moves; otherwise one frame is played and the last frame of a
/// segment moves on to the next one.
pub open spec fn mock_advance(segs: Seq<Segment>, p: MockPosition) -> MockPosition {
    if p.segment >= segs.len() {
        p
    } else {
        let last = p.frame + 1 >= segs[p.segment as int].frames;
        MockPosition {
            segment: if last { p.segment + 1 } else { p.segment },
            frame: if last { 0 } else { p.frame + 1 },
            played: if p.played < u64::MAX { p.played + 1 } else { p.played },
        }
    }
}

/// Number of frames of the first `j` segments.
pub open spec fn frames_before(segs: Seq<Segment>, j: int) -> int
    decreases j,
{
    if j <= 0 {
        0
    } else {
        frames_before(segs, j - 1) + segs[j - 1].frames
    }
}

/// The position of a playback of `segs` after `n` calls of `next`.
pub open spec fn mock_position_after(segs: Seq<Segment>, n: int) -> MockPosition
    decreases n,
{
    if n <= 0 {
        MockPosition { segment: 0, frame: 0, played: 0 }
    } else {
        mock_advance(segs, mock_position_after(segs, n - 1))
    }
}

proof fn lemma_frames_before_grows(segs: Seq<Segment>, a: int, b: int)
    requires
        0 <= a <= b <= segs.len(),
        forall|i: int| 0 <= i < segs.len() ==> #[trigger] segs[i].frames >= 1,
    ensures
        frames_before(segs, b) >= frames_before(segs, a) + (b - a),
    decreases b - a,
{
    if a < b {
        lemma_frames_before_grows(segs, a, b - 1);
    }
}

/// A whole playback: call `n` (counting from 0) plays frame
/// `n - frames_before(segment)` of the segment that holds frame `n` of the
/// script, with `n` frames played before it, so frames come in script
/// order and frame `n` is stamped with time `n / 30` s; once all frames are
/// played, the position stays at the end, where `next` returns `None` and
/// changes nothing.
pub proof fn lemma_mock_playback(segs: Seq<Segment>, n: int)
    requires
        n >= 0,
        forall|i: int| 0 <= i < segs.len() ==> #[trigger] segs[i].frames >= 1,
        frames_before(segs, segs.len() as int) < u64::MAX,
    ensures
        ({
            let p = mock_position_after(segs, n);
            let total = frames_before(segs, segs.len() as int);
            &&& n < total ==> {
                &&& p.segment < segs.len()
                &&& frames_before(segs, p.segment as int) <= n < frames_before(
                    segs,
                    p.segment as int + 1,
                )
                &&& p.frame == n - frames_before(segs, p.segment as int)
                &&& p.played == n
            }
            &&& n >= total ==> p == MockPosition { segment: segs.len(), frame: 0, played: total as nat }
        }),
    decreases n,
{
    let total = frames_before(segs, segs.len() as int);
    lemma_frames_before_grows(segs, 0, segs.len() as int);
    if n > 0 {
        lemma_mock_playback(segs, n - 1);
        let q = mock_position_after(segs, n - 1);
        if n - 1 < total {
            let j = q.segment as int;
            lemma_frames_before_grows(segs, j + 1, segs.len() as int);
            if j + 1 < segs.len() {
                lemma_frames_before_grows(segs, j + 2, segs.len() as int);
            }
        }
    }
}

/// Plays back a fixed script of zone activities.
#[derive(Debug)]
pub struct MockSource {
    segs: Vec<Segment>,
    seg_i: usize,
    frame_i: usize,
    frame: u64,
    realtime: bool,
}

impl MockSource {
    /// Segments of the script.
    pub closed spec fn segments(&self) -> Seq<Segment> {
        self.segs@
    }

    /// Current segment.
    pub closed spec fn segment_index(&self) -> nat {
        self.seg_i as nat
    }

    /// Frames already played of the current segment.
    pub closed spec fn frame_in_segment(&self) -> nat {
        self.frame_i as nat
    }

    /// Frames played in total.
    pub closed spec fn frames_played(&self) -> nat {
        self.frame as nat
    }

    /// Where the playback stands.
    pub closed spec fn position(&self) -> MockPosition {
        MockPosition {
            segment: self.seg_i as nat,
            frame: self.frame_i as nat,
            played: self.frame as nat,
        }
    }

    /// Whether the caller paces the frames in real time.
    pub closed spec fn is_realtime(&self) -> bool {
        self.realtime
    }

    #[verifier::type_invariant]
    closed spec fn inv(self) -> bool {
        &&& forall|i: int| 0 <= i < self.segs@.len() ==> #[trigger] self.segs@[i].frames >= 1
        &&& self.seg_i < self.segs@.len() ==> self.frame_i < self.segs@[self.seg_i as int].frames
    }

    /// The mock script from the start.
    pub fn new(realtime: bool) -> (r: Self)
        ensures
            r.segments().len() == mock_script().len(),
            forall|i: int|
                0 <= i < mock_script().len() ==> (#[trigger] r.segments()[i]).zones
                    == mock_script()[i].0 && r.segments()[i].frames == frames_for(
                    mock_script()[i].1,
                ) && r.segments()[i].label@ == mock_labels()[i],
            r.segment_index() == 0,
            r.frame_in_segment() == 0,
            r.frames_played() == 0,
            r.position() == (MockPosition { segment: 0, frame: 0, played: 0 }),
            r.is_realtime() == realtime,
    {
        proof {
            reveal_strlit("Ruhe (Kalibrierung)...");
            reveal_strlit("Arme HOCH -> Sprung");
            reveal_strlit("");
            reveal_strlit("Arm LINKS -> A");
            reveal_strlit("Arm RECHTS -> D");
            reveal_strlit("DUCKEN -> HOLD S");
            reveal_strlit("aufstehen -> HOLD S aus");
            reveal_strlit("LINKS & rechts gleichzeitig -> nur A");
        }
        let mut segs: Vec<Segment> = Vec::new();
        let idle = Zones::new(0, 0, 0, 0);
        segs.push(Segment { label: "Ruhe (Kalibrierung)...", zones: idle, frames: 45 });
        segs.push(Segment { label: "Arme HOCH -> Sprung", zones: Zones::new(0, 0, 237_600_000, 0), frames: 9 });
        segs.push(Segment { label: "", zones: idle, frames: 30 });
        segs.push(Segment { label: "Arm LINKS -> A", zones: Zones::new(277_200_000, 0, 0, 0), frames: 9 });
        segs.push(Segment { label: "", zones: idle, frames: 30 });
        segs.push(Segment { label: "Arm RECHTS -> D", zones: Zones::new(0, 277_200_000, 0, 0), frames: 9 });
        segs.push(Segment { label: "", zones: idle, frames: 30 });
        segs.push(Segment { label: "DUCKEN -> HOLD S", zones: Zones::new(0, 0, 0, 356_400_000), frames: 36 });
        segs.push(Segment { label: "aufstehen -> HOLD S aus", zones: idle, frames: 30 });
        segs.push(
            Segment {
                label: "LINKS & rechts gleichzeitig -> nur A",
                zones: Zones::new(277_200_000, 118_800_000, 0, 0),
                frames: 9,
            },
        );
        segs.push(Segment { label: "", zones: idle, frames: 15 });
        MockSource { segs, seg_i: 0, frame_i: 0, frame: 0, realtime }
    }

    /// Whether the caller should pace the frames in real time.
    pub fn realtime(&self) -> (r: bool)
        ensures
            r == self.is_realtime(),
    {
        self.realtime
    }

    /// The next frame of the script, `None` once it is over. Frame `k` is
    /// stamped with time `k / 30` s; a segment's label comes with its first
    /// frame.
    pub fn next(&mut self) -> (r: Option<MockFrame>)
        ensures
            final(self).segments() == old(self).segments(),
            final(self).is_realtime() == old(self).is_realtime(),
            final(self).position() == mock_advance(old(self).segments(), old(self).position()),
            old(self).segment_index() >= old(self).segments().len() ==> (r is None) && final(self).segment_index() == old(self).segment_index() && final(self).frame_in_segment() == old(self).frame_in_segment() && final(self).frames_played() == old(self).frames_played(),
            old(self).segment_index() < old(self).segments().len() ==> {
                let seg = old(self).segments()[old(self).segment_index() as int];
                let last = old(self).frame_in_segment() + 1 >= seg.frames;
                &&& (r is Some)
                &&& r->0.activity.zones == seg.zones
                &&& r->0.activity.t == frame_time(old(self).frames_played())
                &&& r->0.activity.dir_ok@ == seq![true, true, true]
                &&& r->0.label == (if old(self).frame_in_segment() == 0 && seg.label@.len() > 0 {
                    Some(seg.label)
                } else {
                    None
                })
                &&& final(self).segment_index() == (if last {
                    old(self).segment_index() + 1
                } else {
                    old(self).segment_index()
                })
                &&& final(self).frame_in_segment() == (if last {
                    0
                } else {
                    old(self).frame_in_segment() + 1
                })
                &&& final(self).frames_played() == (if old(self).frames_played() < u64::MAX {
                    old(self).frames_played() + 1
                } else {
                    old(self).frames_played()
                })
            },
    {
        proof {
            use_type_invariant(&*self);
        }
        if self.seg_i >= self.segs.len() {
            return None;
        }
        let seg = self.segs[self.seg_i];
        let label = if self.frame_i == 0 && !seg.label.is_empty() {
            Some(seg.label)
        } else {
            None
        };
        let activity = ZoneActivity::new(seg.zones, frame_time_us(self.frame));
        let last = self.frame_i + 1 >= seg.frames;
        if last {
            self.frame_i = 0;
            self.seg_i = self.seg_i + 1;
        } else {
            self.frame_i = self.frame_i + 1;
        }
        self.frame = self.frame.saturating_add(1);
        Some(MockFrame { activity, label })
    }
}

/// Zone ratio set by a manual key.
pub const MANUAL_RATIO: i32 = 356_400_000;

/// Manual control state while scanning the keys of one frame.
pub struct ManualScan {
    pub quit: bool,
    pub down: bool,
    pub recalib: bool,
    pub zones: Zones,
}

/// Effect of the keys pressed during a frame, in order: `q` quits (and
/// ignores the rest), `w` / `a` / `d` fill the up / left / right zone, `s`
/// toggles crouching, `c` requests a recalibration (letters in either case).
pub open spec fn scan_keys(keys: Seq<u8>, st: ManualScan) -> ManualScan
    decreases keys.len(),
{
    if keys.len() == 0 {
        st
    } else {
        let k = keys[0];
        if k == 113 || k == 81 {
            ManualScan { quit: true, ..st }
        } else {
            let next = if k == 119 || k == 87 {
                ManualScan { zones: Zones { up: MANUAL_RATIO, ..st.zones }, ..st }
            } else if k == 97 || k == 65 {
                ManualScan { zones: Zones { left: MANUAL_RATIO, ..st.zones }, ..st }
            } else if k == 100 || k == 68 {
                ManualScan { zones: Zones { right: MANUAL_RATIO, ..st.zones }, ..st }
            } else if k == 115 || k == 83 {
                ManualScan { down: !st.down, ..st }
            } else if k == 99 || k == 67 {
                ManualScan { recalib: true, ..st }
            } else {
                st
            };
            scan_keys(keys.drop_first(), next)
        }
    }
}

/// Number of keys before the first `q` / `Q` (codes 113 / 81) that are
/// `lower` or `upper`.
pub open spec fn presses(keys: Seq<u8>, lower: u8, upper: u8) -> nat
    decreases keys.len(),
{
    if keys.len() == 0 || keys[0] == 113 || keys[0] == 81 {
        0
    } else {
        (if keys[0] == lower || keys[0] == upper {
            1nat
        } else {
            0nat
        }) + presses(keys.drop_first(), lower, upper)
    }
}

/// Some key is `q` / `Q`.
pub open spec fn has_quit(keys: Seq<u8>) -> bool {
    exists|i: int| 0 <= i < keys.len() && (keys[i] == 113 || keys[i] == 81)
}

/// What the keys of one frame do, in terms of how often each key is pressed
/// before a `q`:
/// - the source quits exactly when a `q` was typed;
/// - every `s` flips crouching, so crouching ends flipped exactly when an
///   odd number of `s` was typed;
/// - the up / left / right zone is filled exactly when a `w` / `a` / `d` was
///   typed, and otherwise keeps its ratio; the down ratio is left alone;
/// - a recalibration is asked for exactly when a `c` was typed.
pub proof fn lemma_manual_keys(keys: Seq<u8>, st: ManualScan)
    ensures
        scan_keys(keys, st).quit == (st.quit || has_quit(keys)),
        scan_keys(keys, st).down == (st.down != (presses(keys, 115, 83) % 2 == 1)),
        scan_keys(keys, st).zones.up == (if presses(keys, 119, 87) > 0 {
            MANUAL_RATIO
        } else {
            st.zones.up
        }),
        scan_keys(keys, st).zones.left == (if presses(keys, 97, 65) > 0 {
            MANUAL_RATIO
        } else {
            st.zones.left
        }),
        scan_keys(keys, st).zones.right == (if presses(keys, 100, 68) > 0 {
            MANUAL_RATIO
        } else {
            st.zones.right
        }),
        scan_keys(keys, st).zones.down == st.zones.down,
        scan_keys(keys, st).recalib == (st.recalib || presses(keys, 99, 67) > 0),
    decreases keys.len(),
{
    if keys.len() > 0 {
        let k = keys[0];
        let rest = keys.drop_first();
        assert forall|i: int| 0 <= i < rest.len() implies rest[i] == keys[i + 1] by {}
        if k == 113 || k == 81 {
            assert(has_quit(keys)) by {
                assert(keys[0] == 113 || keys[0] == 81);
            }
        } else {
            let next = if k == 119 || k == 87 {
                ManualScan { zones: Zones { up: MANUAL_RATIO, ..st.zones }, ..st }
            } else if k == 97 || k == 65 {
                ManualScan { zones: Zones { left: MANUAL_RATIO, ..st.zones }, ..st }
            } else if k == 100 || k == 68 {
                ManualScan { zones: Zones { right: MANUAL_RATIO, ..st.zones }, ..st }
            } else if k == 115 || k == 83 {
                ManualScan { down: !st.down, ..st }
            } else if k == 99 || k == 67 {
                ManualScan { recalib: true, ..st }
            } else {
                st
            };
            lemma_manual_keys(rest, next);
            assert(has_quit(keys) == has_quit(rest)) by {
                if has_quit(keys) {
                    let i = choose|i: int| 0 <= i < keys.len() && (keys[i] == 113 || keys[i] == 81);
                    assert(rest[i - 1] == keys[i]);
                }
                if has_quit(rest) {
                    let i = choose|i: int| 0 <= i < rest.len() && (rest[i] == 113 || rest[i] == 81);
                    assert(keys[i + 1] == rest[i]);
                }
            }
        }
    }
}

/// Manual control via console keys (w/a/d = up/left/right, s = toggle
/// crouching, c = recalibrate, q = quit).
#[derive(Debug)]
pub struct ManualSource {
    frame: u64,
    down: bool,
    want_recalib: bool,
}

impl ManualSource {
    /// Frames produced so far.
    pub closed spec fn frames_played(&self) -> nat {
        self.frame as nat
    }

    /// Crouching is toggled on.
    pub closed spec fn crouching(&self) -> bool {
        self.down
    }

    /// The last frame's keys asked for a recalibration.
    pub closed spec fn recalibration_requested(&self) -> bool {
        self.want_recalib
    }

    /// Whether the last frame's keys asked for a recalibration.
    pub fn want_recalib(&self) -> (r: bool)
        ensures
            r == self.recalibration_requested(),
    {
        self.want_recalib
    }

    pub fn new() -> (r: Self)
        ensures
            r.frames_played() == 0,
            !r.crouching(),
            !r.recalibration_requested(),
    {
        ManualSource { frame: 0, down: false, want_recalib: false }
    }

    /// The frame for the keys pressed since the last one; `None` when `q`
    /// was pressed. A held crouch fills the down zone.
    pub fn next(&mut self, keys: &[u8]) -> (r: Option<ZoneActivity>)
        ensures
            ({
                let st = scan_keys(
                    keys@,
                    ManualScan {
                        quit: false,
                        down: old(self).crouching(),
                        recalib: false,
                        zones: Zones { left: 0, right: 0, up: 0, down: 0 },
                    },
                );
                &&& final(self).crouching() == st.down
                &&& final(self).recalibration_requested() == st.recalib
                &&& st.quit ==> (r is None) && final(self).frames_played() == old(self).frames_played()
                &&& !st.quit ==> (r is Some) && r->0.zones == (if st.down {
                    Zones { down: MANUAL_RATIO, ..st.zones }
                } else {
                    st.zones
                }) && r->0.t == frame_time(old(self).frames_played()) && r->0.dir_ok@ == seq![
                    true,
                    true,
                    true,
                ] && final(self).frames_played() == (if old(self).frames_played() < u64::MAX {
                    old(self).frames_played() + 1
                } else {
                    old(self).frames_played()
                })
            }),
    {
        let mut zones = Zones::default();
        self.want_recalib = false;
        let ghost start = ManualScan {
            quit: false,
            down: old(self).crouching(),
            recalib: false,
            zones: Zones { left: 0, right: 0, up: 0, down: 0 },
        };
        let n = keys.len();
        assert(keys@.skip(0) =~= keys@);
        for i in 0..n
            invariant
                n == keys@.len(),
                scan_keys(keys@, start) == scan_keys(
                    keys@.skip(i as int),
                    ManualScan { quit: false, down: self.down, recalib: self.want_recalib, zones },
                ),
                self.frame == old(self).frame,
                start == (ManualScan {
                    quit: false,
                    down: old(self).crouching(),
                    recalib: false,
                    zones: Zones { left: 0, right: 0, up: 0, down: 0 },
                }),
        {
            proof {
                let rest = keys@.skip(i as int);
                assert(rest[0] == keys@[i as int]);
                assert(rest.drop_first() =~= keys@.skip(i + 1));
            }
            let k = keys[i];
            if k == 113u8 /* 'q' */ || k == 81u8 /* 'Q' */ {
                proof {
                    let cur = ManualScan {
                        quit: false,
                        down: self.down,
                        recalib: self.want_recalib,
                        zones,
                    };
                    assert(scan_keys(keys@.skip(i as int), cur) == ManualScan { quit: true, ..cur });
                }
                return None;
            } else if k == 119u8 /* 'w' */ || k == 87u8 /* 'W' */ {
                zones.up = MANUAL_RATIO;
            } else if k == 97u8 /* 'a' */ || k == 65u8 /* 'A' */ {
                zones.left = MANUAL_RATIO;
            } else if k == 100u8 /* 'd' */ || k == 68u8 /* 'D' */ {
                zones.right = MANUAL_RATIO;
            } else if k == 115u8 /* 's' */ || k == 83u8 /* 'S' */ {
                self.down = !self.down;
            } else if k == 99u8 /* 'c' */ || k == 67u8 /* 'C' */ {
                self.want_recalib = true;
            }
        }
        proof {
            assert(keys@.skip(n as int).len() == 0);
        }
        if self.down {
            zones.down = MANUAL_RATIO;
        }
        let s = ZoneActivity::new(zones, frame_time_us(self.frame));
        self.frame = self.frame.saturating_add(1);
        Some(s)
    }
}

impl Default for ManualSource {
    fn default() -> (r: Self)
        ensures
            r.frames_played() == 0,
            !r.crouching(),
            !r.recalibration_requested(),
    {
        ManualSource::new()
    }
}

} // verus!
