//! Which key action each gesture triggers (the team's key mapping):
//! jump taps Space, lane changes tap A / D, and a crouch holds Ctrl for as
//! long as it lasts.
use vstd::prelude::*;
use crate::kinect::gesture_detector::Gesture;
use crate::kinect::key_sender::{Key, KeyOutput, KeySender, event_output, TAP_HOLD_MS};

verus! {

/// How a key is driven.
#[derive(Debug, Clone, Copy, PartialEq, Eq, Structural)]
pub enum ActionKind {
    Tap,
    Press,
    Release,
}

/// A key and how it is driven.
#[derive(Debug, Clone, Copy, PartialEq, Eq, Structural)]
pub struct Action {
    pub kind: ActionKind,
    pub key: Key,
}

/// The key mapping.
pub open spec fn spec_action_for(g: Gesture) -> Action {
    match g {
        Gesture::Jump => Action { kind: ActionKind::Tap, key: Key::Space },
        Gesture::LaneLeft => Action { kind: ActionKind::Tap, key: Key::A },
        Gesture::LaneRight => Action { kind: ActionKind::Tap, key: Key::D },
        Gesture::CrouchStart => Action { kind: ActionKind::Press, key: Key::Ctrl },
        Gesture::CrouchEnd => Action { kind: ActionKind::Release, key: Key::Ctrl },
    }
}

/// The key action a gesture triggers.
pub fn action_for(gesture: Gesture) -> (r: Action)
    ensures
        r == spec_action_for(gesture),
{
    match gesture {
        Gesture::Jump => Action { kind: ActionKind::Tap, key: Key::Space },
        Gesture::LaneLeft => Action { kind: ActionKind::Tap, key: Key::A },
        Gesture::LaneRight => Action { kind: ActionKind::Tap, key: Key::D },
        Gesture::CrouchStart => Action { kind: ActionKind::Press, key: Key::Ctrl },
        Gesture::CrouchEnd => Action { kind: ActionKind::Release, key: Key::Ctrl },
    }
}

/// The name under which an action kind is logged.
pub open spec fn action_kind_name(kind: ActionKind) -> Seq<char> {
    match kind {
        ActionKind::Tap => "tap"@,
        ActionKind::Press => "press"@,
        ActionKind::Release => "release"@,
    }
}

/// Log name of an action kind.
pub fn action_kind_str(kind: ActionKind) -> (r: &'static str)
    ensures
        r@ == action_kind_name(kind),
{
    proof {
        reveal_strlit("tap");
        reveal_strlit("press");
        reveal_strlit("release");
    }
    match kind {
        ActionKind::Tap => "tap",
        ActionKind::Press => "press",
        ActionKind::Release => "release",
    }
}

/// The outputs that carry out an action on the given sender.
pub fn perform(sender: &KeySender, action: Action) -> (r: Vec<KeyOutput>)
    ensures
        r@ == (match action.kind {
            ActionKind::Tap => if sender.is_dry_run() {
                seq![
                    KeyOutput::Report { key: action.key, keyup: false },
                    KeyOutput::Report { key: action.key, keyup: true },
                ]
            } else {
                seq![
                    KeyOutput::Send { key: action.key, keyup: false },
                    KeyOutput::Pause { ms: TAP_HOLD_MS },
                    KeyOutput::Send { key: action.key, keyup: true },
                ]
            },
            ActionKind::Press => seq![event_output(sender.is_dry_run(), action.key, false)],
            ActionKind::Release => seq![event_output(sender.is_dry_run(), action.key, true)],
        }),
{
    match action.kind {
        ActionKind::Tap => sender.tap(action.key),
        ActionKind::Press => {
            let mut out: Vec<KeyOutput> = Vec::new();
            out.push(sender.press(action.key));
            out
        },
        ActionKind::Release => {
            let mut out: Vec<KeyOutput> = Vec::new();
            out.push(sender.release(action.key));
            out
        },
    }
}

/// Every crouch that starts is ended with the same key: the crouch start
/// presses Ctrl and the crouch end releases it; all other gestures tap.
pub proof fn lemma_crouch_holds_ctrl()
    ensures
        spec_action_for(Gesture::CrouchStart).key == spec_action_for(Gesture::CrouchEnd).key,
        spec_action_for(Gesture::CrouchStart).kind == ActionKind::Press,
        spec_action_for(Gesture::CrouchEnd).kind == ActionKind::Release,
        forall|g: Gesture|
            g != Gesture::CrouchStart && g != Gesture::CrouchEnd ==> #[trigger] spec_action_for(
                g,
            ).kind == ActionKind::Tap,
{
}

} // verus!
