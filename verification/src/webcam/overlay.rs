//! Decisions and texts of the proof screen (overlay): key handling, the
//! banner of the current key, the send status, zone names, and packing a
//! BGR image into the window's 0RGB pixel buffer. Drawing and the window
//! itself are done by the caller.
use vstd::prelude::*;
use crate::webcam::keysender::Key;

verus! {

/// What the main loop does after showing a frame.
#[derive(Debug, Clone, Copy, PartialEq, Eq, Structural)]
pub enum Action {
    Idle,
    Quit,
    Recalibrate,
    ToggleSend,
}

/// Keys the overlay reacts to when newly pressed.
#[derive(Debug, Clone, Copy, PartialEq, Eq, Structural)]
pub enum OverlayKey {
    /// Toggle camera image / motion mask.
    M,
    /// Recalibrate.
    C,
    /// Toggle real sending.
    K,
    /// Any other key.
    Other,
}

/// Action and mask flag after handling the newly pressed keys in order:
/// `M` toggles the mask view, `C` and `K` end the handling with their action.
pub open spec fn pressed_outcome(pressed: Seq<OverlayKey>, show_mask: bool) -> (Action, bool)
    decreases pressed.len(),
{
    if pressed.len() == 0 {
        (Action::Idle, show_mask)
    } else {
        match pressed[0] {
            OverlayKey::M => pressed_outcome(pressed.drop_first(), !show_mask),
            OverlayKey::C => (Action::Recalibrate, show_mask),
            OverlayKey::K => (Action::ToggleSend, show_mask),
            OverlayKey::Other => pressed_outcome(pressed.drop_first(), show_mask),
        }
    }
}

/// The overlay's reaction to its window state: a closed window, Escape or Q
/// held quits; otherwise the newly pressed keys are handled. Returns the
/// action and the new mask flag.
pub fn handle_keys(
    is_open: bool,
    escape_down: bool,
    q_down: bool,
    pressed: &Vec<OverlayKey>,
    show_mask: bool,
) -> (r: (Action, bool))
    ensures
        !is_open || escape_down || q_down ==> r == (Action::Quit, show_mask),
        !(!is_open || escape_down || q_down) ==> r == pressed_outcome(pressed@, show_mask),
{
    if !is_open || escape_down || q_down {
        return (Action::Quit, show_mask);
    }
    let mut mask = show_mask;
    let n = pressed.len();
    assert(pressed@.skip(0) =~= pressed@);
    for i in 0..n
        invariant
            n == pressed@.len(),
            is_open && !escape_down && !q_down,
            pressed_outcome(pressed@, show_mask) == pressed_outcome(pressed@.skip(i as int), mask),
    {
        proof {
            let rest = pressed@.skip(i as int);
            assert(rest[0] == pressed@[i as int]);
            assert(rest.drop_first() =~= pressed@.skip(i + 1));
        }
        match pressed[i] {
            OverlayKey::M => {
                mask = !mask;
            },
            OverlayKey::C => {
                return (Action::Recalibrate, mask);
            },
            OverlayKey::K => {
                return (Action::ToggleSend, mask);
            },
            OverlayKey::Other => {},
        }
    }
    proof {
        assert(pressed@.skip(n as int).len() == 0);
    }
    (Action::Idle, mask)
}

/// The banner shown for the key of the last event.
pub open spec fn banner_text(k: Key) -> Seq<char> {
    match k {
        Key::A => "<- A"@,
        Key::D => "D ->"@,
        Key::W => "[ SPRUNG ]"@,
        Key::S => "v S"@,
    }
}

/// Banner text of a key.
pub fn key_banner(k: Key) -> (r: &'static str)
    ensures
        r@ == banner_text(k),
{
    proof {
        reveal_strlit("<- A");
        reveal_strlit("D ->");
        reveal_strlit("[ SPRUNG ]");
        reveal_strlit("v S");
    }
    match k {
        Key::A => "<- A",
        Key::D => "D ->",
        Key::W => "[ SPRUNG ]",
        Key::S => "v S",
    }
}

/// The send status shown in the top right corner.
pub open spec fn send_status_text(send_active: bool) -> Seq<char> {
    if send_active { "SEND: AN"@ } else { "SEND: AUS"@ }
}

/// Send status text.
pub fn send_status(send_active: bool) -> (r: &'static str)
    ensures
        r@ == send_status_text(send_active),
{
    proof {
        reveal_strlit("SEND: AN");
        reveal_strlit("SEND: AUS");
    }
    if send_active { "SEND: AN" } else { "SEND: AUS" }
}

/// Names of the zones [left, right, up, down].
pub open spec fn zone_name_text(i: int) -> Seq<char> {
    if i == 0 {
        "left"@
    } else if i == 1 {
        "right"@
    } else if i == 2 {
        "up"@
    } else {
        "down"@
    }
}

/// Name of zone `i`.
pub fn zone_name(i: usize) -> (r: &'static str)
    requires
        i < 4,
    ensures
        r@ == zone_name_text(i as int),
{
    proof {
        reveal_strlit("left");
        reveal_strlit("right");
        reveal_strlit("up");
        reveal_strlit("down");
    }
    if i == 0 {
        "left"
    } else if i == 1 {
        "right"
    } else if i == 2 {
        "up"
    } else {
        "down"
    }
}

/// The 0RGB pixel of a BGR triple.
pub open spec fn pixel(b: u8, g: u8, r: u8) -> int {
    r * 0x1_0000 + g * 0x100 + b
}

/// Packs `n` BGR pixels (three bytes each, row-major) into 0RGB words.
pub fn pack_bgr(bytes: &[u8], n: usize) -> (r: Vec<u32>)
    requires
        3 * n <= bytes@.len(),
    ensures
        r@.len() == n,
        forall|i: int|
            0 <= i < n ==> #[trigger] r@[i] == pixel(
                bytes@[3 * i],
                bytes@[3 * i + 1],
                bytes@[3 * i + 2],
            ),
{
    let mut out: Vec<u32> = Vec::new();
    let len = bytes.len();
    for i in 0..n
        invariant
            len == bytes@.len(),
            3 * n <= bytes@.len(),
            out@.len() == i,
            forall|j: int|
                0 <= j < i ==> #[trigger] out@[j] == pixel(
                    bytes@[3 * j],
                    bytes@[3 * j + 1],
                    bytes@[3 * j + 2],
                ),
    {
        let b = bytes[3 * i];
        let g = bytes[3 * i + 1];
        let r = bytes[3 * i + 2];
        let word = ((r as u32) << 16) | ((g as u32) << 8) | (b as u32);
        assert(word == r * 0x1_0000 + g * 0x100 + b) by (bit_vector)
            requires
                word == ((r as u32) << 16) | ((g as u32) << 8) | (b as u32),
        ;
        out.push(word);
    }
    out
}

} // verus!
