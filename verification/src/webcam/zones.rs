//! Data contract between a frame source and the detector: the share of
//! active grid cells per zone and the frame time.
use vstd::prelude::*;

verus! {

/// A whole zone: ratios are counted in units of `1 / RATIO_ONE`. The number
/// is a multiple of one million and of the cell count of every configured
/// zone, so that each zone's share of active cells, and every threshold of
/// the configuration, is a whole number of units.
pub const RATIO_ONE: i32 = 396_000_000;

/// Share of active cells per zone, in units of `1 / RATIO_ONE`
/// (0 ..= `RATIO_ONE`).
#[derive(Debug, Clone, Copy, PartialEq, Eq, Structural)]
pub struct Zones {
    pub left: i32,
    pub right: i32,
    pub up: i32,
    pub down: i32,
}

impl Zones {
    pub fn new(left: i32, right: i32, up: i32, down: i32) -> (r: Self)
        ensures
            r == (Zones { left, right, up, down }),
    {
        Zones { left, right, up, down }
    }

    /// The ratio of zone `i` in the order [left, right, up, down].
    pub open spec fn ratio(self, i: int) -> int {
        if i == 0 {
            self.left as int
        } else if i == 1 {
            self.right as int
        } else if i == 2 {
            self.up as int
        } else {
            self.down as int
        }
    }
}

impl Default for Zones {
    fn default() -> (r: Self)
        ensures
            r == (Zones { left: 0, right: 0, up: 0, down: 0 }),
    {
        Zones { left: 0, right: 0, up: 0, down: 0 }
    }
}

/// One frame from the detector's point of view: zone ratios, the frame time
/// in microseconds, and the source's direction gate for the tap zones
/// [left, right, up] (true: the motion points in gesture direction, or the
/// source has no direction information).
#[derive(Debug, Clone, Copy)]
pub struct ZoneActivity {
    pub zones: Zones,
    pub t: i64,
    pub dir_ok: [bool; 3],
}

impl ZoneActivity {
    /// A frame with an open direction gate.
    pub fn new(zones: Zones, t: i64) -> (r: Self)
        ensures
            r.zones == zones,
            r.t == t,
            r.dir_ok@ == seq![true, true, true],
    {
        let r = ZoneActivity { zones, t, dir_ok: [true, true, true] };
        assert(r.dir_ok@ =~= seq![true, true, true]);
        r
    }

    /// The same frame with the given direction gate.
    pub fn with_dir_ok(self, dir_ok: [bool; 3]) -> (r: Self)
        ensures
            r.zones == self.zones,
            r.t == self.t,
            r.dir_ok == dir_ok,
    {
        ZoneActivity { zones: self.zones, t: self.t, dir_ok }
    }
}

} // verus!
