use iced_sctk::autosize::{AutoSizeTable, Limits};
use iced_sctk::conversion::{
    cursor_icon, modifiers_to_native, pointer_button_to_native, CursorIcon, Interaction, MouseButton,
    ALT, CTRL, LOGO, SHIFT,
};
use iced_sctk::event::{event_is_for_surface, KeyboardEventVariant, PointerEventKind, SctkEvent};
use iced_sctk::handlers::input_method::keyboard::RawModifiers;
use iced_sctk::surface::SurfaceIdWrapper;
use iced_sctk::table::Table;
use iced_sctk::wayland_events::input_method::{Modifiers, RawModifiers as EventRawModifiers};

#[test]
fn buttons_convert() {
    assert_eq!(pointer_button_to_native(0x110), Some(MouseButton::Left));
    assert_eq!(pointer_button_to_native(0x111), Some(MouseButton::Right));
    assert_eq!(pointer_button_to_native(0x112), Some(MouseButton::Middle));
    assert_eq!(pointer_button_to_native(0x113), Some(MouseButton::Other(0x113)));
    assert_eq!(pointer_button_to_native(70000), None);
}

#[test]
fn modifiers_convert() {
    let m = Modifiers { ctrl: true, shift: true, caps_lock: true, ..Modifiers::default() };
    let n = modifiers_to_native(m);
    assert_eq!(n.bits, CTRL | SHIFT);
    assert!(n.control() && n.shift() && !n.alt() && !n.logo());
    let all = Modifiers { ctrl: true, alt: true, shift: true, caps_lock: true, logo: true, num_lock: true };
    assert_eq!(modifiers_to_native(all).bits, CTRL | SHIFT | ALT | LOGO);
    assert_eq!(modifiers_to_native(Modifiers::default()).bits, 0);
}

#[test]
fn cursor_icons_convert() {
    assert_eq!(cursor_icon(Interaction::Idle), CursorIcon::Default);
    assert_eq!(cursor_icon(Interaction::Working), CursorIcon::Progress);
    assert_eq!(cursor_icon(Interaction::ResizingHorizontally), CursorIcon::EwResize);
    assert_eq!(cursor_icon(Interaction::ResizingVertically), CursorIcon::NsResize);
}

#[test]
fn raw_modifiers_round_trip() {
    let e = EventRawModifiers { mods_depressed: 1, mods_latched: 2, mods_locked: 3, group: 4 };
    let k: RawModifiers = e.into();
    assert_eq!((k.mods_depressed, k.mods_latched, k.mods_locked, k.group), (1, 2, 3, 4));
    let back: EventRawModifiers = k.into();
    assert_eq!(back, e);
}

#[test]
fn routing_rules() {
    let ptr = SctkEvent::PointerEvent { surface: 3, kind: PointerEventKind::Axis };
    assert!(event_is_for_surface(&ptr, 3, false));
    assert!(!event_is_for_surface(&ptr, 4, true));
    let key = SctkEvent::KeyboardEvent { variant: KeyboardEventVariant::Release { keysym: 1 } };
    assert!(event_is_for_surface(&key, 4, true));
    assert!(!event_is_for_surface(&key, 4, false));
    assert!(!event_is_for_surface(&SctkEvent::NewOutput, 4, true));
    assert!(event_is_for_surface(&SctkEvent::DataSource, 4, false));
    assert!(!event_is_for_surface(&SctkEvent::InputMethodEvent, 4, true));
}

#[test]
fn table_keeps_insertion_order() {
    let mut t: Table<u32> = Table::new();
    t.insert(5, 50);
    t.insert(2, 20);
    t.insert(5, 55);
    assert_eq!(t.len(), 2);
    assert_eq!((t.key_at(0), t.key_at(1)), (5, 2));
    assert_eq!(t.get(5), Some(55));
    assert_eq!(t.remove(5), Some(55));
    assert_eq!(t.remove(5), None);
    assert_eq!(t.key_at(0), 2);
}

#[test]
fn auto_size_table_transitions() {
    let limits = Limits { min_width: 0, min_height: 0, max_width: 100, max_height: 100 };
    let mut t = AutoSizeTable::new();
    let s = SurfaceIdWrapper::Window(1);
    assert!(t.configure(1, 5, 5));
    t.record(s, 30, 20, limits);
    assert!(!t.allows_redraw(1, 30, 20));
    assert!(!t.configure(1, 30, 21));
    assert!(t.get(1).unwrap().dirty);
    assert!(t.configure(1, 30, 20));
    assert!(t.allows_redraw(1, 30, 20));
    assert!(!t.allows_redraw(1, 31, 20));
    assert_eq!(t.remeasure(1, 30, 20, 30, 20), None);
    assert_eq!(t.remeasure(1, 30, 25, 30, 20), Some((30, 25)));
    assert!(t.allows_redraw(2, 1, 1));
}
