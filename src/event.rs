use vstd::prelude::*;
use crate::surface::ObjectId;
use crate::wayland_events::input_method::Modifiers;

verus! {

/// What the pointer did.
#[derive(Debug, Clone, Copy, PartialEq, Eq, Structural)]
pub enum PointerEventKind {
    /// Entered the surface at this position (logical sub-pixel units).
    Enter { x: i64, y: i64 },
    Leave,
    Motion { x: i64, y: i64 },
    Press { button: u32 },
    Release { button: u32 },
    Axis,
}

/// What the keyboard did. Only enter and leave name a surface: the other
/// events go to the surface that has keyboard focus.
#[derive(Debug, Clone, Copy, PartialEq, Eq, Structural)]
pub enum KeyboardEventVariant {
    Enter(ObjectId),
    Leave(ObjectId),
    Press { keysym: u32 },
    Release { keysym: u32 },
    Repeat { keysym: u32 },
    Modifiers(Modifiers),
}

/// A compositor event as the router sees it: which object it concerns, and
/// what a surface's state needs from it.
#[derive(Debug, Clone, Copy, PartialEq, Eq, Structural)]
pub enum SctkEvent {
    SeatEvent { id: ObjectId },
    PointerEvent { surface: ObjectId, kind: PointerEventKind },
    KeyboardEvent { variant: KeyboardEventVariant },
    WindowEvent { id: ObjectId },
    LayerSurfaceEvent { id: ObjectId },
    PopupEvent { id: ObjectId },
    NewOutput,
    UpdateOutput,
    RemovedOutput,
    ScaleFactorChanged { id: ObjectId },
    DndOffer { surface: ObjectId },
    SelectionOffer,
    DataSource,
    InputMethodEvent,
    InputMethodKeyboardEvent,
    InputMethodPopupEvent { id: ObjectId },
}

/// Whether event `e` belongs to the surface whose object is `object_id`;
/// `has_kbd_focus` says whether that surface has keyboard focus.
pub open spec fn is_for_surface(e: SctkEvent, object_id: ObjectId, has_kbd_focus: bool) -> bool {
    match e {
        SctkEvent::SeatEvent { id } => id == object_id,
        SctkEvent::PointerEvent { surface, .. } => surface == object_id,
        SctkEvent::KeyboardEvent { variant } => match variant {
            KeyboardEventVariant::Leave(id) => id == object_id,
            _ => has_kbd_focus,
        },
        SctkEvent::WindowEvent { id } => id == object_id,
        SctkEvent::LayerSurfaceEvent { id } => id == object_id,
        SctkEvent::PopupEvent { id } => id == object_id,
        SctkEvent::NewOutput | SctkEvent::UpdateOutput | SctkEvent::RemovedOutput => false,
        SctkEvent::ScaleFactorChanged { id } => id == object_id,
        SctkEvent::DndOffer { surface } => surface == object_id,
        SctkEvent::SelectionOffer => true,
        SctkEvent::DataSource => true,
        SctkEvent::InputMethodEvent => false,
        SctkEvent::InputMethodKeyboardEvent => false,
        SctkEvent::InputMethodPopupEvent { id } => id == object_id,
    }
}

/// Whether `e` is for no surface but for the application's subscriptions:
/// output changes and the input method's events.
pub open spec fn is_broadcast_event(e: SctkEvent) -> bool {
    match e {
        SctkEvent::NewOutput | SctkEvent::UpdateOutput | SctkEvent::RemovedOutput => true,
        SctkEvent::InputMethodEvent | SctkEvent::InputMethodKeyboardEvent => true,
        _ => false,
    }
}

/// Determines whether event `evt` is for the surface whose object is `object_id`.
pub fn event_is_for_surface(evt: &SctkEvent, object_id: ObjectId, has_kbd_focus: bool) -> (r: bool)
    ensures
        r == is_for_surface(*evt, object_id, has_kbd_focus),
{
    match evt {
        SctkEvent::SeatEvent { id } => *id == object_id,
        SctkEvent::PointerEvent { surface, .. } => *surface == object_id,
        SctkEvent::KeyboardEvent { variant } => match variant {
            KeyboardEventVariant::Leave(id) => *id == object_id,
            _ => has_kbd_focus,
        },
        SctkEvent::WindowEvent { id } => *id == object_id,
        SctkEvent::LayerSurfaceEvent { id } => *id == object_id,
        SctkEvent::PopupEvent { id } => *id == object_id,
        SctkEvent::NewOutput | SctkEvent::UpdateOutput | SctkEvent::RemovedOutput => false,
        SctkEvent::ScaleFactorChanged { id } => *id == object_id,
        SctkEvent::DndOffer { surface } => *surface == object_id,
        SctkEvent::SelectionOffer => true,
        SctkEvent::DataSource => true,
        SctkEvent::InputMethodEvent => false,
        SctkEvent::InputMethodKeyboardEvent => false,
        SctkEvent::InputMethodPopupEvent { id } => *id == object_id,
    }
}

pub fn event_is_broadcast(evt: &SctkEvent) -> (r: bool)
    ensures
        r == is_broadcast_event(*evt),
{
    match evt {
        SctkEvent::NewOutput | SctkEvent::UpdateOutput | SctkEvent::RemovedOutput => true,
        SctkEvent::InputMethodEvent | SctkEvent::InputMethodKeyboardEvent => true,
        _ => false,
    }
}

/// Splits `events` in two, keeping the delivery order in each part: the
/// events that `select` picks for the surface `object_id`, and the rest.
/// With `outputs` set, it picks the events for the subscriptions instead.
pub fn partition_events(events: Vec<SctkEvent>, object_id: ObjectId, has_kbd_focus: bool, outputs: bool) -> (r: (Vec<SctkEvent>, Vec<SctkEvent>))
    ensures
        r.0@ == events@.filter(|e: SctkEvent| picks(e, object_id, has_kbd_focus, outputs)),
        r.1@ == events@.filter(|e: SctkEvent| !picks(e, object_id, has_kbd_focus, outputs)),
{
    let mut taken: Vec<SctkEvent> = Vec::new();
    let mut rest: Vec<SctkEvent> = Vec::new();
    let mut i: usize = 0;
    while i < events.len()
        invariant
            i <= events@.len(),
            taken@ == events@.subrange(0, i as int).filter(|e: SctkEvent| picks(e, object_id, has_kbd_focus, outputs)),
            rest@ == events@.subrange(0, i as int).filter(|e: SctkEvent| !picks(e, object_id, has_kbd_focus, outputs)),
        decreases events@.len() - i,
    {
        let e = events[i];
        let pick = if outputs { event_is_broadcast(&e) } else { event_is_for_surface(&e, object_id, has_kbd_focus) };
        proof {
            let s = events@.subrange(0, i as int + 1);
            assert(s.drop_last() =~= events@.subrange(0, i as int));
            assert(s.last() == e);
            reveal(Seq::filter);
        }
        if pick {
            taken.push(e);
        } else {
            rest.push(e);
        }
        i = i + 1;
    }
    assert(events@.subrange(0, events@.len() as int) =~= events@);
    (taken, rest)
}

/// The picking rule of `partition_events`.
pub open spec fn picks(e: SctkEvent, object_id: ObjectId, has_kbd_focus: bool, outputs: bool) -> bool {
    if outputs { is_broadcast_event(e) } else { is_for_surface(e, object_id, has_kbd_focus) }
}

} // verus!
