//! Maps abstract detector events to key actions. Kept apart from the
//! detector so that detection stays independent of the key mapping.
use vstd::prelude::*;
use crate::webcam::config::{KEY_DOWN, KEY_LEFT, KEY_RIGHT, KEY_UP};
use crate::webcam::detector::{Event, GestureDetector};
use crate::webcam::zones::ZoneActivity;
use crate::webcam::keysender::{releases, Key, KeyOutput, KeySender, SenderModel};

verus! {

/// The key an event is shown with (none for the end of a hold).
pub open spec fn event_key(event: Event) -> Option<Key> {
    match event {
        Event::TapLeft => Some(KEY_LEFT),
        Event::TapRight => Some(KEY_RIGHT),
        Event::TapUp => Some(KEY_UP),
        Event::HoldDownStart => Some(KEY_DOWN),
        Event::HoldDownEnd => None,
    }
}

/// Sender state after an event.
pub open spec fn dispatch_next(m: SenderModel, event: Event) -> SenderModel {
    match event {
        Event::HoldDownStart => m.hold_next(KEY_DOWN, true),
        Event::HoldDownEnd => m.hold_next(KEY_DOWN, false),
        _ => m,
    }
}

/// Outputs of an event: a tap of the mapped key, or a hold of the down key.
pub open spec fn dispatch_outputs(m: SenderModel, event: Event) -> Seq<KeyOutput> {
    match event {
        Event::TapLeft => m.tap_outputs(KEY_LEFT),
        Event::TapRight => m.tap_outputs(KEY_RIGHT),
        Event::TapUp => m.tap_outputs(KEY_UP),
        Event::HoldDownStart => m.hold_outputs(KEY_DOWN, true),
        Event::HoldDownEnd => m.hold_outputs(KEY_DOWN, false),
    }
}

/// Turns an event into key outputs. Returns the key for display (none when
/// a hold ends) and the outputs to perform.
pub fn dispatch(event: Event, sender: &mut KeySender) -> (r: (Option<Key>, Vec<KeyOutput>))
    ensures
        r.0 == event_key(event),
        r.1@ == dispatch_outputs(old(sender)@, event),
        final(sender)@ == dispatch_next(old(sender)@, event),
{
    match event {
        Event::TapLeft => (Some(KEY_LEFT), sender.tap(KEY_LEFT)),
        Event::TapRight => (Some(KEY_RIGHT), sender.tap(KEY_RIGHT)),
        Event::TapUp => (Some(KEY_UP), sender.tap(KEY_UP)),
        Event::HoldDownStart => (Some(KEY_DOWN), sender.hold(KEY_DOWN, true)),
        Event::HoldDownEnd => (None, sender.hold(KEY_DOWN, false)),
    }
}

/// The zone index (0..3) an event highlights in the overlay.
pub open spec fn spec_event_zone(event: Event) -> Option<usize> {
    match event {
        Event::TapLeft => Some(0usize),
        Event::TapRight => Some(1usize),
        Event::TapUp => Some(2usize),
        Event::HoldDownStart => Some(3usize),
        Event::HoldDownEnd => None,
    }
}

/// Zone index (0..3) for highlighting an event in the overlay.
pub fn event_zone(event: Event) -> (r: Option<usize>)
    ensures
        r == spec_event_zone(event),
{
    match event {
        Event::TapLeft => Some(0),
        Event::TapRight => Some(1),
        Event::TapUp => Some(2),
        Event::HoldDownStart => Some(3),
        Event::HoldDownEnd => None,
    }
}

/// The key of the last event that has one.
pub open spec fn last_key(events: Seq<Event>) -> Option<Key>
    decreases events.len(),
{
    if events.len() == 0 {
        None
    } else {
        match event_key(events.last()) {
            Some(k) => Some(k),
            None => last_key(events.drop_last()),
        }
    }
}

/// The zone of the last event that highlights one.
pub open spec fn last_zone(events: Seq<Event>) -> Option<usize>
    decreases events.len(),
{
    if events.len() == 0 {
        None
    } else {
        match spec_event_zone(events.last()) {
            Some(z) => Some(z),
            None => last_zone(events.drop_last()),
        }
    }
}

/// Sender state after dispatching all events in order.
pub open spec fn dispatch_all_next(m: SenderModel, events: Seq<Event>) -> SenderModel
    decreases events.len(),
{
    if events.len() == 0 {
        m
    } else {
        dispatch_next(dispatch_all_next(m, events.drop_last()), events.last())
    }
}

/// Outputs of dispatching all events in order.
pub open spec fn dispatch_all_outputs(m: SenderModel, events: Seq<Event>) -> Seq<KeyOutput>
    decreases events.len(),
{
    if events.len() == 0 {
        seq![]
    } else {
        dispatch_all_outputs(m, events.drop_last()) + dispatch_outputs(
            dispatch_all_next(m, events.drop_last()),
            events.last(),
        )
    }
}

/// Result of handling one frame's events.
#[derive(Debug)]
pub struct Handled {
    /// Key of the last event that has one.
    pub current_key: Option<Key>,
    /// Zone of the last event that highlights one.
    pub triggered: Option<usize>,
    /// All key outputs, in event order.
    pub outputs: Vec<KeyOutput>,
}

/// Dispatches all events of a frame in order.
pub fn handle_events(events: &Vec<Event>, sender: &mut KeySender) -> (r: Handled)
    ensures
        r.current_key == last_key(events@),
        r.triggered == last_zone(events@),
        r.outputs@ == dispatch_all_outputs(old(sender)@, events@),
        final(sender)@ == dispatch_all_next(old(sender)@, events@),
{
    let mut current_key: Option<Key> = None;
    let mut triggered: Option<usize> = None;
    let mut outputs: Vec<KeyOutput> = Vec::new();
    let n = events.len();
    for i in 0..n
        invariant
            n == events@.len(),
            current_key == last_key(events@.take(i as int)),
            triggered == last_zone(events@.take(i as int)),
            outputs@ == dispatch_all_outputs(old(sender)@, events@.take(i as int)),
            sender@ == dispatch_all_next(old(sender)@, events@.take(i as int)),
    {
        let ev = events[i];
        let ghost before = sender@;
        let (key, mut outs) = dispatch(ev, sender);
        if let Some(k) = key {
            current_key = Some(k);
        }
        if let Some(z) = event_zone(ev) {
            triggered = Some(z);
        }
        outputs.append(&mut outs);
        proof {
            let t1 = events@.take(i + 1);
            assert(t1.drop_last() =~= events@.take(i as int));
            assert(t1.last() == ev);
        }
    }
    assert(events@.take(n as int) =~= events@);
    Handled { current_key, triggered, outputs }
}

/// Events that may reach the keyboard while a scene change is suspected:
/// only the end of a hold, so that a held key can still be released.
pub open spec fn allowed_during_scene_change() -> spec_fn(Event) -> bool {
    |e: Event| e == Event::HoldDownEnd
}

/// Drops every event but `HoldDownEnd` while a scene change is suspected.
pub fn filter_scene_events(events: Vec<Event>, scene_suspect: bool) -> (r: Vec<Event>)
    ensures
        !scene_suspect ==> r@ == events@,
        scene_suspect ==> r@ == events@.filter(allowed_during_scene_change()),
{
    if !scene_suspect {
        return events;
    }
    let mut kept: Vec<Event> = Vec::new();
    let n = events.len();
    for i in 0..n
        invariant
            n == events@.len(),
            kept@ == events@.take(i as int).filter(allowed_during_scene_change()),
    {
        proof {
            events@.take(i as int).lemma_filter_push(events@[i as int], allowed_during_scene_change());
            assert(events@.take(i + 1) =~= events@.take(i as int).push(events@[i as int]));
        }
        if events[i] == Event::HoldDownEnd {
            kept.push(events[i]);
        }
    }
    assert(events@.take(n as int) =~= events@);
    kept
}

/// What the webcam loop does with one frame.
pub enum FrameStep {
    /// The source has just relearned its background: the detector relearns
    /// its baseline, the held keys are released with these outputs, and the
    /// frame itself is not used.
    Relearned(Vec<KeyOutput>),
    /// The frame's events, to dispatch.
    Events(Vec<Event>),
}

/// One frame of the webcam loop. After the source relearned its background
/// (`relearned`), the detector starts recalibrating, every held key is
/// released and the frame is skipped. Otherwise the frame goes to the
/// detector, and while the scene looks like a global change only the end of
/// a hold is kept of its events.
pub fn webcam_frame(
    detector: &mut GestureDetector,
    sender: &mut KeySender,
    s: ZoneActivity,
    relearned: bool,
    scene_suspect: bool,
) -> (r: FrameStep)
    ensures
        relearned ==> {
            &&& final(detector)@ == old(detector)@.recalibrating()
            &&& final(sender)@.send_enabled == old(sender)@.send_enabled
            &&& final(sender)@.held == Seq::<Key>::empty()
            &&& r matches FrameStep::Relearned(outs) && outs@ == releases(old(sender)@.held)
        },
        !relearned ==> {
            &&& final(detector)@ == old(detector)@.next(s)
            &&& final(sender)@ == old(sender)@
            &&& r matches FrameStep::Events(ev) && ev@ == (if scene_suspect {
                old(detector)@.events(s).filter(allowed_during_scene_change())
            } else {
                old(detector)@.events(s)
            })
        },
{
    if relearned {
        detector.start_recalibration();
        let outs = sender.release_all();
        return FrameStep::Relearned(outs);
    }
    let events = detector.update(s);
    FrameStep::Events(filter_scene_events(events, scene_suspect))
}

} // verus!
