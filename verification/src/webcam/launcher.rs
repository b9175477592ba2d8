//! Decisions of the start screen shown before the webcam front end: which
//! camera is selected, and whether the user starts with real keys, starts a
//! demo (detection only) or cancels.
//!
//! The screen is drawn and its window polled by the caller, which hands
//! every frame's input to [`Launcher::frame`] and carries out the decision.
//! Mouse coordinates are whole logical pixels (rounded down), which decides
//! every button test exactly as the fractional position would.
use vstd::prelude::*;

verus! {

/// Logical width of the start screen.
pub const W: i32 = 500;
/// Logical height of the start screen.
pub const H: i32 = 420;
/// Supersampling factor of the drawing surface.
pub const SS: i32 = 3;
/// Highest camera index that is probed.
pub const PROBE_MAX_INDEX: i32 = 4;
/// Top of the bottom button row.
pub const BTN_Y: i32 = 342;

/// A camera found by probing.
#[derive(Debug, Clone, Copy, PartialEq, Eq, Structural)]
pub struct CameraInfo {
    pub index: i32,
    pub width: i32,
    pub height: i32,
}

/// The start screen's result: camera and whether real keys are sent.
#[derive(Debug, Clone, Copy, PartialEq, Eq, Structural)]
pub struct LaunchConfig {
    pub camera: i32,
    pub send: bool,
}

/// A button rectangle in logical pixels.
#[derive(Debug, Clone, Copy, PartialEq, Eq, Structural)]
pub struct Btn {
    pub x: i32,
    pub y: i32,
    pub w: i32,
    pub h: i32,
}

impl Btn {
    /// The point lies inside the button (right and bottom edge excluded).
    pub open spec fn contains(self, mx: int, my: int) -> bool {
        &&& self.x <= mx < self.x + self.w
        &&& self.y <= my < self.y + self.h
    }

    /// Whether the mouse position hits the button.
    pub fn hit(&self, mx: i32, my: i32) -> (r: bool)
        ensures
            r == self.contains(mx as int, my as int),
    {
        (mx as i64) >= (self.x as i64) && (mx as i64) < (self.x as i64) + (self.w as i64)
            && (my as i64) >= (self.y as i64) && (my as i64) < (self.y as i64) + (self.h as i64)
    }
}

pub open spec fn btn_rescan() -> Btn {
    Btn { x: 340, y: 58, w: 140, h: 30 }
}

pub open spec fn btn_real() -> Btn {
    Btn { x: 20, y: 342, w: 140, h: 48 }
}

pub open spec fn btn_demo() -> Btn {
    Btn { x: 180, y: 342, w: 140, h: 48 }
}

pub open spec fn btn_cancel() -> Btn {
    Btn { x: 340, y: 342, w: 140, h: 48 }
}

/// "Search again" button (top right).
pub fn rescan_button() -> (r: Btn)
    ensures
        r == btn_rescan(),
{
    Btn { x: W - 160, y: 58, w: 140, h: 30 }
}

/// "Test for real" button.
pub fn real_button() -> (r: Btn)
    ensures
        r == btn_real(),
{
    Btn { x: 20, y: BTN_Y, w: 140, h: 48 }
}

/// "Demo" button.
pub fn demo_button() -> (r: Btn)
    ensures
        r == btn_demo(),
{
    Btn { x: 180, y: BTN_Y, w: 140, h: 48 }
}

/// "Cancel" button.
pub fn cancel_button() -> (r: Btn)
    ensures
        r == btn_cancel(),
{
    Btn { x: 340, y: BTN_Y, w: 140, h: 48 }
}

/// The list row of camera `i`.
pub open spec fn spec_camera_row(i: int) -> Btn {
    Btn { x: 20, y: (104 + i * 42) as i32, w: 460, h: 34 }
}

/// The largest number of listed cameras for which every row, bottom edge
/// included (`104 + (n - 1) * 42 + 34`), stays within `i32`.
pub const MAX_CAMERAS: usize = 51_130_560;

/// The list row of camera `i`; its top edge `104 + i * 42` must fit in an
/// `i32`.
pub fn camera_row(i: usize) -> (r: Btn)
    requires
        104 + i * 42 <= i32::MAX,
    ensures
        r == spec_camera_row(i as int),
{
    Btn { x: 20, y: 104 + (i as i32) * 42, w: W - 40, h: 34 }
}

/// Per-frame input of the start screen.
#[derive(Debug, Clone, Copy)]
pub struct LauncherInput {
    pub escape: bool,
    pub enter: bool,
    /// Mouse position, if the mouse is over the window.
    pub mouse: Option<(i32, i32)>,
    /// Left button held down.
    pub down: bool,
}

/// Horizontal mouse position of an input (0 without a position).
pub open spec fn mouse_x(input: LauncherInput) -> int {
    match input.mouse {
        Some((x, _y)) => x as int,
        None => 0,
    }
}

/// Vertical mouse position of an input (0 without a position).
pub open spec fn mouse_y(input: LauncherInput) -> int {
    match input.mouse {
        Some((_x, y)) => y as int,
        None => 0,
    }
}

/// What the caller does next.
#[derive(Debug, Clone, Copy, PartialEq, Eq, Structural)]
pub enum LauncherDecision {
    /// Draw the screen and poll the next frame.
    Continue,
    /// Probe the cameras again and pass them to [`Launcher::after_rescan`].
    Rescan,
    /// Start the front end.
    Launch(LaunchConfig),
    /// Quit without starting.
    Cancel,
}

/// Index of the first camera with the given index, or 0.
pub open spec fn preselection(cams: Seq<CameraInfo>, preselect: i32) -> int
    decreases cams.len(),
{
    if cams.len() == 0 {
        0
    } else if cams.last().index == preselect && !(exists|j: int|
        0 <= j < cams.len() - 1 && #[trigger] cams[j].index == preselect) {
        cams.len() - 1
    } else {
        preselection(cams.drop_last(), preselect)
    }
}

/// The selection after a click at `(mx, my)`: the last of the first `n`
/// camera rows that contains the point, otherwise unchanged.
pub open spec fn row_selection(n: int, mx: int, my: int, sel: int) -> int
    decreases n,
{
    if n <= 0 {
        sel
    } else if spec_camera_row(n - 1).contains(mx, my) {
        n - 1
    } else {
        row_selection(n - 1, mx, my, sel)
    }
}

/// Decision of a click outside the rescan button, with selection `sel`.
pub open spec fn click_decision(cams: Seq<CameraInfo>, sel: int, mx: int, my: int) -> LauncherDecision {
    if cams.len() > 0 && btn_real().contains(mx, my) {
        LauncherDecision::Launch(LaunchConfig { camera: cams[sel].index, send: true })
    } else if cams.len() > 0 && btn_demo().contains(mx, my) {
        LauncherDecision::Launch(LaunchConfig { camera: cams[sel].index, send: false })
    } else if btn_cancel().contains(mx, my) {
        LauncherDecision::Cancel
    } else {
        LauncherDecision::Continue
    }
}

/// A start button launches the selected camera: whenever a click decides
/// to launch, it launches camera `cams[sel]`, with real keys exactly when
/// the click is on the "real" button.
pub proof fn lemma_launch_uses_selection(cams: Seq<CameraInfo>, sel: int, mx: int, my: int)
    requires
        0 <= sel < cams.len(),
    ensures
        (click_decision(cams, sel, mx, my) matches LauncherDecision::Launch(c) ==> c.camera
            == cams[sel].index && c.send == btn_real().contains(mx, my)),
        btn_real().contains(mx, my) ==> click_decision(cams, sel, mx, my) == LauncherDecision::Launch(
            LaunchConfig { camera: cams[sel].index, send: true },
        ),
        btn_demo().contains(mx, my) ==> click_decision(cams, sel, mx, my) == LauncherDecision::Launch(
            LaunchConfig { camera: cams[sel].index, send: false },
        ),
{
}

/// State of the start screen.
#[derive(Debug)]
pub struct Launcher {
    cams: Vec<CameraInfo>,
    selected: usize,
    prev_down: bool,
}

impl Launcher {
    #[verifier::type_invariant]
    closed spec fn inv(self) -> bool {
        &&& self.cams@.len() > 0 ==> self.selected < self.cams@.len()
        &&& self.cams@.len() <= MAX_CAMERAS
    }

    /// Cameras listed.
    pub closed spec fn cameras(&self) -> Seq<CameraInfo> {
        self.cams@
    }

    /// Selected list entry.
    pub closed spec fn selection(&self) -> int {
        self.selected as int
    }

    /// The left button was down in the previous frame.
    pub closed spec fn was_down(&self) -> bool {
        self.prev_down
    }

    fn position(cams: &Vec<CameraInfo>, preselect: i32) -> (r: usize)
        ensures
            r == preselection(cams@, preselect),
            cams@.len() > 0 ==> r < cams@.len(),
    {
        let n = cams.len();
        let mut i: usize = 0;
        while i < n
            invariant
                n == cams@.len(),
                i <= n,
                forall|j: int| 0 <= j < i ==> cams@[j].index != preselect,
            decreases n - i,
        {
            if cams[i].index == preselect {
                proof {
                    Self::lemma_preselection_first(cams@, preselect, i as int);
                }
                return i;
            }
            i += 1;
        }
        proof {
            Self::lemma_preselection_none(cams@, preselect);
        }
        0
    }

    proof fn lemma_preselection_first(cams: Seq<CameraInfo>, p: i32, i: int)
        requires
            0 <= i < cams.len(),
            cams[i].index == p,
            forall|j: int| 0 <= j < i ==> cams[j].index != p,
        ensures
            preselection(cams, p) == i,
        decreases cams.len(),
    {
        if i < cams.len() - 1 {
            assert(cams.drop_last()[i] == cams[i]);
            assert(exists|j: int| 0 <= j < cams.len() - 1 && #[trigger] cams[j].index == p);
            Self::lemma_preselection_first(cams.drop_last(), p, i);
        } else {
            assert(!(exists|j: int| 0 <= j < cams.len() - 1 && #[trigger] cams[j].index == p));
        }
    }

    proof fn lemma_preselection_none(cams: Seq<CameraInfo>, p: i32)
        requires
            forall|j: int| 0 <= j < cams.len() ==> cams[j].index != p,
        ensures
            preselection(cams, p) == 0,
        decreases cams.len(),
    {
        if cams.len() > 0 {
            Self::lemma_preselection_none(cams.drop_last(), p);
        }
    }

    /// The start screen for the probed cameras; the camera with index
    /// `preselect` is selected if listed, otherwise the first one.
    pub fn new(cams: Vec<CameraInfo>, preselect: i32) -> (r: Self)
        requires
            cams@.len() <= MAX_CAMERAS,
        ensures
            r.cameras() == cams@,
            r.selection() == preselection(cams@, preselect),
            !r.was_down(),
    {
        let selected = Self::position(&cams, preselect);
        Launcher { cams, selected, prev_down: false }
    }

    /// The selected list entry.
    pub fn selected(&self) -> (r: usize)
        ensures
            r == self.selection(),
            self.cameras().len() > 0 ==> r < self.cameras().len(),
    {
        proof {
            use_type_invariant(self);
        }
        self.selected
    }

    /// The listed cameras.
    pub fn cams(&self) -> (r: &Vec<CameraInfo>)
        ensures
            r@ == self.cameras(),
    {
        &self.cams
    }

    fn select_rows(&self, mx: i32, my: i32) -> (r: usize)
        ensures
            r == row_selection(self.cameras().len() as int, mx as int, my as int, self.selection()),
            self.cameras().len() > 0 ==> r < self.cameras().len(),
    {
        proof {
            use_type_invariant(self);
        }
        let n = self.cams.len();
        let mut sel = self.selected;
        for i in 0..n
            invariant
                n == self.cams@.len(),
                n <= MAX_CAMERAS,
                sel == row_selection(i as int, mx as int, my as int, self.selected as int),
                n > 0 ==> sel < n,
        {
            if camera_row(i).hit(mx, my) {
                sel = i;
            }
        }
        sel
    }

    fn click(&mut self, mx: i32, my: i32) -> (r: LauncherDecision)
        ensures
            final(self).cameras() == old(self).cameras(),
            final(self).was_down() == old(self).was_down(),
            final(self).selection() == row_selection(
                old(self).cameras().len() as int,
                mx as int,
                my as int,
                old(self).selection(),
            ),
            r == click_decision(old(self).cameras(), final(self).selection(), mx as int, my as int),
            (r matches LauncherDecision::Launch(c) ==> 0 <= final(self).selection()
                < final(self).cameras().len()
                && c.camera == final(self).cameras()[final(self).selection()].index),
    {
        proof {
            use_type_invariant(&*self);
        }
        let sel = self.select_rows(mx, my);
        self.selected = sel;
        let has_cam = self.cams.len() > 0;
        if has_cam && real_button().hit(mx, my) {
            return LauncherDecision::Launch(LaunchConfig { camera: self.cams[sel].index, send: true });
        }
        if has_cam && demo_button().hit(mx, my) {
            return LauncherDecision::Launch(
                LaunchConfig { camera: self.cams[sel].index, send: false },
            );
        }
        if cancel_button().hit(mx, my) {
            return LauncherDecision::Cancel;
        }
        LauncherDecision::Continue
    }

    /// Handles one frame of input. Escape cancels; Enter starts the demo
    /// (the safe default) when a camera is listed; a new left click on
    /// "search again" asks for a rescan, elsewhere it selects a camera row
    /// and may start, start the demo or cancel.
    pub fn frame(&mut self, input: LauncherInput) -> (r: LauncherDecision)
        ensures
            final(self).cameras() == old(self).cameras(),
            (r matches LauncherDecision::Launch(c) ==> 0 <= final(self).selection()
                < final(self).cameras().len()
                && c.camera == final(self).cameras()[final(self).selection()].index),
            input.escape ==> r == LauncherDecision::Cancel && final(self).selection() == old(self).selection() && final(self).was_down() == old(self).was_down(),
            !input.escape && input.enter && old(self).cameras().len() > 0 ==> r
                == LauncherDecision::Launch(
                LaunchConfig {
                    camera: old(self).cameras()[old(self).selection()].index,
                    send: false,
                },
            ) && final(self).selection() == old(self).selection() && final(self).was_down() == old(self).was_down(),
            !input.escape && !(input.enter && old(self).cameras().len() > 0) ==> {
                let clicked = input.down && !old(self).was_down();
                &&& final(self).was_down() == input.down
                &&& (!clicked || input.mouse is None) ==> r == LauncherDecision::Continue
                    && final(self).selection() == old(self).selection()
                &&& (clicked && input.mouse is Some && btn_rescan().contains(
                    mouse_x(input),
                    mouse_y(input),
                )) ==> r == LauncherDecision::Rescan && final(self).selection() == old(self).selection()
                &&& (clicked && input.mouse is Some && !btn_rescan().contains(
                    mouse_x(input),
                    mouse_y(input),
                )) ==> {
                    &&& final(self).selection() == row_selection(
                        old(self).cameras().len() as int,
                        mouse_x(input),
                        mouse_y(input),
                        old(self).selection(),
                    )
                    &&& r == click_decision(
                        old(self).cameras(),
                        final(self).selection(),
                        mouse_x(input),
                        mouse_y(input),
                    )
                }
            },
    {
        proof {
            use_type_invariant(&*self);
        }
        if input.escape {
            return LauncherDecision::Cancel;
        }
        if input.enter && self.cams.len() > 0 {
            return LauncherDecision::Launch(
                LaunchConfig { camera: self.cams[self.selected].index, send: false },
            );
        }
        let clicked = input.down && !self.prev_down;
        self.prev_down = input.down;
        if !clicked {
            return LauncherDecision::Continue;
        }
        match input.mouse {
            None => LauncherDecision::Continue,
            Some((mx, my)) => {
                if rescan_button().hit(mx, my) {
                    LauncherDecision::Rescan
                } else {
                    self.click(mx, my)
                }
            },
        }
    }

    /// Finishes a click on "search again" at `(mx, my)` with the newly
    /// probed cameras: a selection beyond the new list falls back to the
    /// first entry, then the click is handled like any other.
    pub fn after_rescan(&mut self, cams: Vec<CameraInfo>, mx: i32, my: i32) -> (r: LauncherDecision)
        requires
            cams@.len() <= MAX_CAMERAS,
        ensures
            final(self).cameras() == cams@,
            final(self).was_down() == old(self).was_down(),
            (r matches LauncherDecision::Launch(c) ==> 0 <= final(self).selection()
                < final(self).cameras().len()
                && c.camera == final(self).cameras()[final(self).selection()].index),
            ({
                let sel0 = if old(self).selection() >= cams@.len() {
                    0
                } else {
                    old(self).selection()
                };
                &&& final(self).selection() == row_selection(
                    cams@.len() as int,
                    mx as int,
                    my as int,
                    sel0,
                )
                &&& r == click_decision(cams@, final(self).selection(), mx as int, my as int)
            }),
    {
        let sel0 = if self.selected >= cams.len() {
            0
        } else {
            self.selected
        };
        *self = Launcher { cams, selected: sel0, prev_down: self.prev_down };
        self.click(mx, my)
    }
}

/// Camera rows do not overlap: a click selects the row under the mouse, or
/// keeps the selection when it hits no row.
pub proof fn lemma_click_selects_row_under_mouse(n: int, mx: int, my: int, sel: int)
    requires
        0 <= n <= MAX_CAMERAS,
    ensures
        forall|i: int|
            0 <= i < n && #[trigger] spec_camera_row(i).contains(mx, my) ==> row_selection(
                n,
                mx,
                my,
                sel,
            ) == i,
        (forall|i: int| 0 <= i < n ==> !#[trigger] spec_camera_row(i).contains(mx, my))
            ==> row_selection(n, mx, my, sel) == sel,
    decreases n,
{
    if n > 0 {
        lemma_click_selects_row_under_mouse(n - 1, mx, my, sel);
        assert forall|i: int|
            0 <= i < n && #[trigger] spec_camera_row(i).contains(mx, my) implies row_selection(
            n,
            mx,
            my,
            sel,
        ) == i by {
            if i < n - 1 && spec_camera_row(n - 1).contains(mx, my) {
                assert(104 + i * 42 + 34 <= 104 + (n - 1) * 42) by (nonlinear_arith)
                    requires
                        i < n - 1,
                ;
                assert(0 <= 104 + i * 42 <= 104 + (n - 1) * 42 <= 0x7fff_ffff) by (nonlinear_arith)
                    requires
                        0 <= i < n - 1,
                        n <= 51_130_560,
                ;
                assert(spec_camera_row(i).y == 104 + i * 42);
                assert(spec_camera_row(n - 1).y == 104 + (n - 1) * 42);
            }
        }
    }
}

} // verus!
