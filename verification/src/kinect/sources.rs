//! Decisions of the camera-free body sources: the pseudo-random generator
//! behind the mock script's noise, and the state of manual keyboard control.
//! The jump arc (a sine), console reading and real-time pacing are done by
//! the caller.
use vstd::prelude::*;
use crate::units::{frame_time, frame_time_us};

verus! {

/// Standing height in micrometres.
pub const STAND_HEIGHT: i32 = 1_750_000;
/// Crouching height in micrometres.
pub const CROUCH_HEIGHT: i32 = 1_300_000;
/// Height of a simulated jump above standing, in micrometres.
pub const JUMP_PEAK: i32 = 320_000;
/// Horizontal offset of a side lane, in micrometres.
pub const SIDE_X: i32 = 550_000;
/// A simulated jump lasts 0.45 s, i.e. 13.5 frames; twice that in frames.
pub const JUMP_HALF_FRAMES: u64 = 27;

/// Multiplier of the linear congruential generator.
pub const LCG_MUL: u64 = 6364136223846793005;

/// Linear congruential generator (the noise of the mock script).
#[derive(Debug)]
pub struct Lcg {
    state: u64,
}

/// The generator state after one step.
pub open spec fn lcg_step(state: u64) -> u64 {
    state.wrapping_mul(LCG_MUL).wrapping_add(1)
}

impl Lcg {
    pub closed spec fn state(&self) -> u64 {
        self.state
    }

    pub fn new(seed: u64) -> (r: Self)
        ensures
            r.state() == seed,
    {
        Lcg { state: seed }
    }

    /// Advances the generator and returns the top 53 bits of the new state;
    /// divided by 2^53 they give a uniform value in [0, 1).
    pub fn next_bits(&mut self) -> (r: u64)
        ensures
            final(self).state() == lcg_step(old(self).state()),
            r == lcg_step(old(self).state()) >> 11u64,
            r < 0x20_0000_0000_0000,
    {
        let st = self.state.wrapping_mul(LCG_MUL).wrapping_add(1);
        self.state = st;
        let r = st >> 11u64;
        assert(st >> 11u64 < 0x20_0000_0000_0000) by (bit_vector);
        r
    }
}

/// One frame of manual control.
#[derive(Debug, Clone, Copy, PartialEq, Eq, Structural)]
pub struct ManualFrame {
    /// Horizontal offset in micrometres.
    pub x: i32,
    /// Resting height (standing or crouching) in micrometres.
    pub height: i32,
    /// Frames since the running jump started, if one is in the air; the
    /// height then follows the jump arc instead.
    pub jump_frames: Option<u64>,
    /// Frame time in microseconds.
    pub t: i64,
}

/// Manual control state while handling the keys of one frame.
pub struct ManualKeys {
    pub quit: bool,
    pub x: int,
    pub crouching: bool,
    pub jump_start: Option<u64>,
}

/// Effect of the keys typed since the last frame, in order (letters in
/// either case): `q` quits (and ignores the rest), `w` starts a jump unless
/// one is running, `s` toggles crouching, `a` / `d` step one lane left /
/// right, at most to the outer lanes.
pub open spec fn scan_keys(keys: Seq<char>, frame: u64, st: ManualKeys) -> ManualKeys
    decreases keys.len(),
{
    if keys.len() == 0 {
        st
    } else {
        let k = keys[0];
        if k == 'q' || k == 'Q' {
            ManualKeys { quit: true, ..st }
        } else {
            let next = if (k == 'w' || k == 'W') && st.jump_start is None {
                ManualKeys { jump_start: Some(frame), ..st }
            } else if k == 's' || k == 'S' {
                ManualKeys { crouching: !st.crouching, ..st }
            } else if k == 'a' || k == 'A' {
                ManualKeys {
                    x: if st.x - SIDE_X > -SIDE_X { st.x - SIDE_X } else { -SIDE_X as int },
                    ..st
                }
            } else if k == 'd' || k == 'D' {
                ManualKeys {
                    x: if st.x + SIDE_X < SIDE_X { st.x + SIDE_X } else { SIDE_X as int },
                    ..st
                }
            } else {
                st
            };
            scan_keys(keys.drop_first(), frame, next)
        }
    }
}

/// The horizontal offsets of the three lanes: left, centre and right.
pub open spec fn is_lane_offset(x: int) -> bool {
    x == -SIDE_X || x == 0 || x == SIDE_X
}

/// Keys only ever move between the three lanes: from a lane offset, every
/// sequence of keys ends on a lane offset.
pub proof fn lemma_keys_keep_lanes(keys: Seq<char>, frame: u64, st: ManualKeys)
    requires
        is_lane_offset(st.x),
    ensures
        is_lane_offset(scan_keys(keys, frame, st).x),
    decreases keys.len(),
{
    if keys.len() > 0 {
        let k = keys[0];
        if !(k == 'q' || k == 'Q') {
            let next = if (k == 'w' || k == 'W') && st.jump_start is None {
                ManualKeys { jump_start: Some(frame), ..st }
            } else if k == 's' || k == 'S' {
                ManualKeys { crouching: !st.crouching, ..st }
            } else if k == 'a' || k == 'A' {
                ManualKeys {
                    x: if st.x - SIDE_X > -SIDE_X { st.x - SIDE_X } else { -SIDE_X as int },
                    ..st
                }
            } else if k == 'd' || k == 'D' {
                ManualKeys {
                    x: if st.x + SIDE_X < SIDE_X { st.x + SIDE_X } else { SIDE_X as int },
                    ..st
                }
            } else {
                st
            };
            lemma_keys_keep_lanes(keys.drop_first(), frame, next);
        }
    }
}

/// Number of keys before the first `q` / `Q` that are `lower` or `upper`.
pub open spec fn presses(keys: Seq<char>, lower: char, upper: char) -> nat
    decreases keys.len(),
{
    if keys.len() == 0 || keys[0] == 'q' || keys[0] == 'Q' {
        0
    } else {
        (if keys[0] == lower || keys[0] == upper {
            1nat
        } else {
            0nat
        }) + presses(keys.drop_first(), lower, upper)
    }
}

/// Some key is `q` / `Q`.
pub open spec fn has_quit(keys: Seq<char>) -> bool {
    exists|i: int| 0 <= i < keys.len() && (keys[i] == 'q' || keys[i] == 'Q')
}

/// The larger of two integers.
pub open spec fn max_int(a: int, b: int) -> int {
    if a >= b { a } else { b }
}

/// The smaller of two integers.
pub open spec fn min_int(a: int, b: int) -> int {
    if a <= b { a } else { b }
}

/// What the keys of one frame do, in terms of how often each key is pressed
/// before a `q`:
/// - the source quits exactly when a `q` was typed;
/// - every `s` flips crouching, so crouching ends flipped exactly when an
///   odd number of `s` was typed;
/// - a running jump is kept; otherwise a jump starts at this frame exactly
///   when a `w` was typed;
/// - from a lane, `k` presses of `a` and none of `d` move `k` lanes left,
///   stopping at the left lane, and the other way round for `d`.
pub proof fn lemma_manual_keys(keys: Seq<char>, frame: u64, st: ManualKeys)
    ensures
        scan_keys(keys, frame, st).quit == (st.quit || has_quit(keys)),
        scan_keys(keys, frame, st).crouching == (st.crouching != (presses(keys, 's', 'S') % 2
            == 1)),
        st.jump_start is Some ==> scan_keys(keys, frame, st).jump_start == st.jump_start,
        st.jump_start is None ==> scan_keys(keys, frame, st).jump_start == (if presses(
            keys,
            'w',
            'W',
        ) > 0 {
            Some(frame)
        } else {
            None
        }),
        st.x >= -SIDE_X && presses(keys, 'd', 'D') == 0 ==> scan_keys(keys, frame, st).x
            == max_int(st.x - SIDE_X * presses(keys, 'a', 'A'), -SIDE_X),
        st.x <= SIDE_X && presses(keys, 'a', 'A') == 0 ==> scan_keys(keys, frame, st).x
            == min_int(st.x + SIDE_X * presses(keys, 'd', 'D'), SIDE_X as int),
    decreases keys.len(),
{
    if keys.len() > 0 {
        let k = keys[0];
        let rest = keys.drop_first();
        assert forall|i: int| 0 <= i < rest.len() implies rest[i] == keys[i + 1] by {}
        if k == 'q' || k == 'Q' {
            assert(has_quit(keys)) by {
                assert(keys[0] == 'q' || keys[0] == 'Q');
            }
        } else {
            let next = if (k == 'w' || k == 'W') && st.jump_start is None {
                ManualKeys { jump_start: Some(frame), ..st }
            } else if k == 's' || k == 'S' {
                ManualKeys { crouching: !st.crouching, ..st }
            } else if k == 'a' || k == 'A' {
                ManualKeys {
                    x: if st.x - SIDE_X > -SIDE_X { st.x - SIDE_X } else { -SIDE_X as int },
                    ..st
                }
            } else if k == 'd' || k == 'D' {
                ManualKeys {
                    x: if st.x + SIDE_X < SIDE_X { st.x + SIDE_X } else { SIDE_X as int },
                    ..st
                }
            } else {
                st
            };
            lemma_manual_keys(rest, frame, next);
            assert(has_quit(keys) == has_quit(rest)) by {
                if has_quit(keys) {
                    let i = choose|i: int| 0 <= i < keys.len() && (keys[i] == 'q' || keys[i] == 'Q');
                    assert(rest[i - 1] == keys[i]);
                }
                if has_quit(rest) {
                    let i = choose|i: int| 0 <= i < rest.len() && (rest[i] == 'q' || rest[i] == 'Q');
                    assert(keys[i + 1] == rest[i]);
                }
            }
        }
    }
}

/// Manual control: lane steps, crouch toggle and jumps driven by typed keys.
#[derive(Debug)]
pub struct ManualSource {
    frame: u64,
    x: i32,
    crouching: bool,
    jump_start: Option<u64>,
    finished: bool,
}

impl ManualSource {
    pub closed spec fn frames_played(&self) -> nat {
        self.frame as nat
    }

    pub closed spec fn offset(&self) -> int {
        self.x as int
    }

    pub closed spec fn is_crouching(&self) -> bool {
        self.crouching
    }

    /// Frame at which the running jump started.
    pub closed spec fn jump(&self) -> Option<u64> {
        self.jump_start
    }

    pub closed spec fn is_finished(&self) -> bool {
        self.finished
    }

    #[verifier::type_invariant]
    closed spec fn inv(self) -> bool {
        &&& is_lane_offset(self.x as int)
        &&& self.jump_start is Some ==> self.jump_start->0 <= self.frame
    }

    /// Standing in the centre lane, frame 0.
    pub fn new() -> (r: Self)
        ensures
            r.frames_played() == 0,
            r.offset() == 0,
            !r.is_crouching(),
            r.jump() is None,
            !r.is_finished(),
    {
        ManualSource { frame: 0, x: 0, crouching: false, jump_start: None, finished: false }
    }

    /// The next frame for the keys typed since the last one; `None` once `q`
    /// was typed. A jump ends 13.5 frames after it started.
    pub fn next(&mut self, keys: &[char]) -> (r: Option<ManualFrame>)
        ensures
            old(self).is_finished() ==> (r is None) && final(self).is_finished()
                && final(self).frames_played() == old(self).frames_played()
                && final(self).offset() == old(self).offset() && final(self).is_crouching()
                == old(self).is_crouching() && final(self).jump() == old(self).jump(),
            is_lane_offset(final(self).offset()),
            r is Some ==> is_lane_offset(r->0.x as int),
            !old(self).is_finished() ==> {
                let st = scan_keys(
                    keys@,
                    old(self).frames_played() as u64,
                    ManualKeys {
                        quit: false,
                        x: old(self).offset(),
                        crouching: old(self).is_crouching(),
                        jump_start: old(self).jump(),
                    },
                );
                let f = old(self).frames_played();
                &&& final(self).is_finished() == st.quit
                &&& final(self).offset() == st.x
                &&& final(self).is_crouching() == st.crouching
                &&& st.quit ==> (r is None) && final(self).jump() == st.jump_start
                    && final(self).frames_played() == f
                &&& !st.quit ==> {
                    let elapsed: int = match st.jump_start {
                        Some(j) => f - j,
                        None => 0,
                    };
                    let ended = st.jump_start is Some && 2 * elapsed >= JUMP_HALF_FRAMES;
                    &&& (r is Some)
                    &&& r->0.x == st.x
                    &&& r->0.height == (if st.crouching { CROUCH_HEIGHT } else { STAND_HEIGHT })
                    &&& r->0.jump_frames == (if st.jump_start is Some && !ended {
                        Some(elapsed as u64)
                    } else {
                        None::<u64>
                    })
                    &&& final(self).jump() == (if ended { None } else { st.jump_start })
                    &&& r->0.t == frame_time(f)
                    &&& final(self).frames_played() == (if f < u64::MAX { f + 1 } else { f })
                }
            },
    {
        proof {
            use_type_invariant(&*self);
        }
        if self.finished {
            return None;
        }
        let ghost start = ManualKeys {
            quit: false,
            x: self.x as int,
            crouching: self.crouching,
            jump_start: self.jump_start,
        };
        let mut x = self.x;
        let mut crouching = self.crouching;
        let mut jump_start = self.jump_start;
        let n = keys.len();
        assert(keys@.skip(0) =~= keys@);
        for i in 0..n
            invariant
                n == keys@.len(),
                is_lane_offset(x as int),
                jump_start is Some ==> jump_start->0 <= self.frame,
                self.frame == old(self).frame,
                !self.finished,
                !old(self).is_finished(),
                start == (ManualKeys {
                    quit: false,
                    x: old(self).offset(),
                    crouching: old(self).is_crouching(),
                    jump_start: old(self).jump(),
                }),
                scan_keys(keys@, self.frame, start) == scan_keys(
                    keys@.skip(i as int),
                    self.frame,
                    ManualKeys { quit: false, x: x as int, crouching, jump_start },
                ),
        {
            proof {
                let rest = keys@.skip(i as int);
                assert(rest[0] == keys@[i as int]);
                assert(rest.drop_first() =~= keys@.skip(i + 1));
            }
            let k = keys[i];
            if k == 'q' || k == 'Q' {
                proof {
                    let cur = ManualKeys { quit: false, x: x as int, crouching, jump_start };
                    assert(scan_keys(keys@.skip(i as int), self.frame, cur) == ManualKeys {
                        quit: true,
                        ..cur
                    });
                }
                *self = ManualSource {
                    frame: self.frame,
                    x,
                    crouching,
                    jump_start,
                    finished: true,
                };
                return None;
            } else if (k == 'w' || k == 'W') && jump_start.is_none() {
                jump_start = Some(self.frame);
            } else if k == 's' || k == 'S' {
                crouching = !crouching;
            } else if k == 'a' || k == 'A' {
                x = if x - SIDE_X > -SIDE_X { x - SIDE_X } else { -SIDE_X };
            } else if k == 'd' || k == 'D' {
                x = if x + SIDE_X < SIDE_X { x + SIDE_X } else { SIDE_X };
            }
        }
        proof {
            assert(keys@.skip(n as int).len() == 0);
        }
        let height = if crouching { CROUCH_HEIGHT } else { STAND_HEIGHT };
        let mut jump_frames: Option<u64> = None;
        if let Some(j) = jump_start {
            let elapsed = self.frame - j;
            if 2 * (elapsed as u128) >= JUMP_HALF_FRAMES as u128 {
                jump_start = None;
            } else {
                jump_frames = Some(elapsed);
            }
        }
        let out = ManualFrame { x, height, jump_frames, t: frame_time_us(self.frame) };
        *self = ManualSource {
            frame: self.frame.saturating_add(1),
            x,
            crouching,
            jump_start,
            finished: false,
        };
        Some(out)
    }
}

impl Default for ManualSource {
    fn default() -> (r: Self)
        ensures
            r.frames_played() == 0,
            r.offset() == 0,
            !r.is_crouching(),
            r.jump() is None,
            !r.is_finished(),
    {
        ManualSource::new()
    }
}

} // verus!
