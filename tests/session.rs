use iced_sctk::autosize::{AutoSizeEntry, Limits, Size};
use std::cell::RefCell;
use std::rc::Rc;

use iced_sctk::command::{Action, Effect, EffectLog, Executor, Host, Program, Sink};
use iced_sctk::conversion::{CursorIcon, Interaction};
use iced_sctk::event::{KeyboardEventVariant, PointerEventKind, SctkEvent};
use iced_sctk::presentation::{Cursor, InterfaceState, Point, RedrawRequest};
use iced_sctk::session::{
    BatchPlan, check_dnd_icon, fallback_control_flow, next_control_flow, ConfigureOutcome, ControlFlow,
    DndIconError, InterfaceSlot, PhysicalSize, Session, StartCause, SurfaceError,
};
use iced_sctk::surface::{SurfaceId, SurfaceIdWrapper};
use iced_sctk::wayland_events::input_method::Modifiers;

#[derive(Debug, Clone, PartialEq)]
enum Msg {
    Named(&'static str),
    Closed(SurfaceId),
}

struct TestApp {
    size: (u32, u32),
    seen: Vec<Msg>,
    replies: Vec<(&'static str, Vec<Action>)>,
    log: Rc<RefCell<Vec<String>>>,
}

impl TestApp {
    fn new(w: u32, h: u32) -> Self {
        TestApp { size: (w, h), seen: Vec::new(), replies: Vec::new(), log: Rc::new(RefCell::new(Vec::new())) }
    }
}

struct Recorder {
    log: Rc<RefCell<Vec<String>>>,
}

impl Executor for Recorder {
    fn perform(&mut self, effect: Effect) {
        self.log.borrow_mut().push(format!("{:?}", effect));
    }
}

impl Program<Msg> for TestApp {
    fn update(&mut self, message: Msg) -> Vec<Action> {
        self.seen.push(message.clone());
        self.log.borrow_mut().push(format!("update {:?}", message));
        if let Msg::Named(n) = message {
            for (name, actions) in &self.replies {
                if *name == n {
                    return actions.clone();
                }
            }
        }
        Vec::new()
    }

    fn close_requested(&self, id: SurfaceId) -> Msg {
        Msg::Closed(id)
    }

    fn natural_size(&self, _id: SurfaceId, _limits: Limits) -> (u32, u32) {
        self.size
    }

    fn should_exit(&self) -> bool {
        false
    }
}

fn limits() -> Limits {
    Limits { min_width: 1, min_height: 1, max_width: 500, max_height: 400 }
}

const UNIT: u64 = 1024;

#[test]
fn layer_surface_without_size_is_measured_first() {
    let mut app = Host::new(TestApp::new(200, 80));
    let mut s: Session<Msg> = Session::new(120, false);
    let surface = SurfaceIdWrapper::LayerSurface(7);
    let effects = s.run_command(&mut app, vec![Action::NewSurface { surface, size: None, limits: limits() }], None);
    assert_eq!(
        effects,
        vec![Effect::Create { surface, width: 200, height: 80, limits: limits(), auto: true }]
    );
    assert_eq!(
        s.auto_size.get(7),
        Some(AutoSizeEntry { surface, width: 200, height: 80, limits: limits(), dirty: true })
    );
}

#[test]
fn surface_with_size_is_not_measured() {
    let mut app = Host::new(TestApp::new(200, 80));
    let mut s: Session<Msg> = Session::new(120, false);
    let surface = SurfaceIdWrapper::Window(3);
    let size = Some(Size { width: 640, height: 480 });
    let effects = s.run_command(&mut app, vec![Action::NewSurface { surface, size, limits: limits() }], None);
    assert_eq!(
        effects,
        vec![Effect::Create { surface, width: 640, height: 480, limits: limits(), auto: false }]
    );
    assert_eq!(s.auto_size.get(3), None);
}

#[test]
fn command_actions_keep_their_order() {
    let mut app = Host::new(TestApp::new(10, 10));
    let mut s: Session<Msg> = Session::new(120, false);
    let actions = vec![Action::Future(1), Action::Widget(9), Action::QueryInformation(2), Action::Request(3)];
    let effects = s.run_command(&mut app, actions.clone(), Some(5));
    assert_eq!(
        effects,
        vec![
            Effect::Spawn(1),
            Effect::Operate { target: 5, operation: 9 },
            Effect::QueryInformation(2),
            Effect::Forward(3)
        ]
    );
    let effects = s.run_command(&mut app, actions, None);
    assert_eq!(effects, vec![Effect::Spawn(1), Effect::QueryInformation(2), Effect::Forward(3)]);
}

#[test]
fn messages_are_updated_in_order_with_their_commands() {
    let mut app = Host::new(TestApp::new(10, 10));
    app.program_mut().replies.push(("a", vec![Action::Future(1)]));
    app.program_mut().replies.push(("c", vec![Action::Request(7), Action::Future(8)]));
    let mut s: Session<Msg> = Session::new(120, false);
    s.queue_message(Msg::Named("a"));
    s.queue_message(Msg::Named("b"));
    s.queue_message(Msg::Named("c"));
    let mut sink = Sink::new(Recorder { log: app.program().log.clone() });
    let effects = s.update(&mut app, &mut sink, None);
    assert_eq!(app.program().seen, vec![Msg::Named("a"), Msg::Named("b"), Msg::Named("c")]);
    assert_eq!(
        *app.program().log.borrow(),
        vec![
            "Updated(0)".to_string(),
            "update Named(\"a\")".to_string(),
            "Spawn(1)".to_string(),
            "Updated(1)".to_string(),
            "update Named(\"b\")".to_string(),
            "Updated(2)".to_string(),
            "update Named(\"c\")".to_string(),
            "Forward(7)".to_string(),
            "Spawn(8)".to_string(),
            "TrackSubscriptions".to_string(),
        ]
    );
    assert_eq!(
        effects,
        vec![
            Effect::Updated(0),
            Effect::Spawn(1),
            Effect::Updated(1),
            Effect::Updated(2),
            Effect::Forward(7),
            Effect::Spawn(8)
        ]
    );
    assert!(s.messages.is_empty());
}

#[test]
fn update_without_messages_does_nothing() {
    let mut app = Host::new(TestApp::new(10, 10));
    let mut s: Session<Msg> = Session::new(120, false);
    let mut sink = Sink::new(Recorder { log: app.program().log.clone() });
    assert!(s.update(&mut app, &mut sink, None).is_empty());
    assert_eq!(*app.program().log.borrow(), vec!["TrackSubscriptions".to_string()]);
    assert!(app.program().seen.is_empty());
}

#[test]
fn focus_loss_drops_unaddressed_key_events() {
    let mut s: Session<Msg> = Session::new(120, false);
    s.surface_created(10, SurfaceIdWrapper::Window(1)).unwrap();
    s.observe_event(SctkEvent::KeyboardEvent { variant: KeyboardEventVariant::Enter(10) });
    assert_eq!(s.kbd_surface_id, Some(10));
    s.observe_event(SctkEvent::KeyboardEvent { variant: KeyboardEventVariant::Leave(10) });
    assert_eq!(s.kbd_surface_id, None);
    let press = SctkEvent::KeyboardEvent { variant: KeyboardEventVariant::Press { keysym: 0x61 } };
    s.observe_event(press);
    let taken = s.take_events_for(10);
    assert!(!taken.contains(&press));
    assert_eq!(taken, vec![SctkEvent::KeyboardEvent { variant: KeyboardEventVariant::Leave(10) }]);
    s.end_batch();
    assert!(s.sctk_events.is_empty());
}

#[test]
fn focused_surface_gets_key_events() {
    let mut s: Session<Msg> = Session::new(120, false);
    s.surface_created(10, SurfaceIdWrapper::Window(1)).unwrap();
    s.surface_created(11, SurfaceIdWrapper::Popup(2)).unwrap();
    s.observe_event(SctkEvent::KeyboardEvent { variant: KeyboardEventVariant::Enter(11) });
    let press = SctkEvent::KeyboardEvent { variant: KeyboardEventVariant::Press { keysym: 0x61 } };
    s.observe_event(press);
    assert_eq!(s.take_events_for(10), vec![]);
    let taken = s.take_events_for(11);
    assert_eq!(taken.len(), 2);
    assert_eq!(taken[1], press);
}

#[test]
fn modifiers_go_to_the_focused_surface() {
    let mut s: Session<Msg> = Session::new(120, false);
    s.surface_created(10, SurfaceIdWrapper::Window(1)).unwrap();
    s.observe_event(SctkEvent::KeyboardEvent { variant: KeyboardEventVariant::Enter(10) });
    let mods = Modifiers { ctrl: true, ..Modifiers::default() };
    s.observe_event(SctkEvent::KeyboardEvent { variant: KeyboardEventVariant::Modifiers(mods) });
    assert_eq!(s.states.get(1).unwrap().modifiers(), mods);
}

#[test]
fn drag_icon_larger_than_origin_is_refused() {
    let mut s: Session<Msg> = Session::new(120, false);
    s.surface_created(10, SurfaceIdWrapper::Window(1)).unwrap();
    assert_eq!(s.configure(10, 100, 100, true), ConfigureOutcome::Accepted);
    assert_eq!(s.dnd_surface_created(20, 2, 1, 150, 50), Err(DndIconError::TooLarge));
    assert_eq!(s.dnd_surface_created(20, 2, 1, 50, 101), Err(DndIconError::TooLarge));
    assert!(!s.surface_ids.contains_key(20));
    assert!(!s.states.contains_key(2));
    assert!(!s.interfaces.contains_key(2));
    assert_eq!(s.dnd_surface_created(20, 2, 1, 0, 50), Err(DndIconError::ZeroSize));
    assert_eq!(s.dnd_surface_created(20, 2, 1, 100, 40), Ok(()));
    assert_eq!(s.surface_ids.get(20), Some(SurfaceIdWrapper::Dnd(2)));
    assert_eq!(s.states.get(2).unwrap().logical_size(), (100 * UNIT, 40 * UNIT));
    assert_eq!(s.interfaces.get(2), Some(InterfaceSlot::Built));
    let plan = s.icon_plan(20).unwrap();
    assert_eq!(plan.id, 2);
    assert!(!plan.request_frame);
    assert_eq!(plan.reconfigure, Some(PhysicalSize { width: 100, height: 40 }));
    assert_eq!(s.icon_plan(10), None);
}

#[test]
fn drag_icon_bound_without_origin() {
    assert_eq!(check_dnd_icon(1024, 1024, None), Ok(()));
    assert_eq!(check_dnd_icon(1025, 10, None), Err(DndIconError::TooLarge));
    assert_eq!(check_dnd_icon(10, 0, Some((5, 5))), Err(DndIconError::ZeroSize));
}

#[test]
fn drag_and_drop_end_removes_icons_only() {
    let mut s: Session<Msg> = Session::new(120, false);
    s.surface_created(10, SurfaceIdWrapper::Window(1)).unwrap();
    s.configure(10, 100, 100, true);
    s.dnd_surface_created(20, 2, 1, 10, 10).unwrap();
    s.observe_event(SctkEvent::KeyboardEvent { variant: KeyboardEventVariant::Enter(20) });
    s.dnd_finished();
    assert_eq!(s.resolve(20), Some(SurfaceIdWrapper::Dnd(2)));
    assert_eq!(s.kbd_surface_id, None);
    assert!(!s.surface_ids.contains_key(20));
    assert!(!s.states.contains_key(2));
    assert!(s.surface_ids.contains_key(10));
    assert!(s.states.contains_key(1));
    assert!(s.messages.is_empty());
}

#[test]
fn close_removes_surface_before_message() {
    let mut app = Host::new(TestApp::new(10, 10));
    let mut s: Session<Msg> = Session::new(120, false);
    s.surface_created(10, SurfaceIdWrapper::LayerSurface(1)).unwrap();
    s.configure(10, 100, 100, true);
    s.observe_event(SctkEvent::KeyboardEvent { variant: KeyboardEventVariant::Enter(10) });
    assert_eq!(s.surface_closed(10, &mut app), Some(SurfaceIdWrapper::LayerSurface(1)));
    assert!(!s.surface_ids.contains_key(10));
    assert!(!s.states.contains_key(1));
    assert!(!s.interfaces.contains_key(1));
    assert_eq!(s.auto_size.get(1), None);
    assert_eq!(s.kbd_surface_id, None);
    assert_eq!(s.messages, vec![Msg::Closed(1)]);
    assert_eq!(s.resolve(10), Some(SurfaceIdWrapper::LayerSurface(1)));
    s.end_batch();
    assert_eq!(s.resolve(10), None);
    assert_eq!(s.surface_closed(10, &mut app), None);
    assert_eq!(s.messages, vec![Msg::Closed(1)]);
}

#[test]
fn events_for_unknown_objects_change_nothing() {
    let mut s: Session<Msg> = Session::new(120, false);
    s.surface_created(10, SurfaceIdWrapper::Window(1)).unwrap();
    let before = s.states.get(1).unwrap();
    s.observe_event(SctkEvent::PointerEvent { surface: 99, kind: PointerEventKind::Enter { x: 5, y: 6 } });
    assert_eq!(s.configure(99, 10, 10, true), ConfigureOutcome::Unknown);
    s.scale_factor_changed(99, 240);
    s.frame(99);
    assert!(!s.record_interface_update(99, InterfaceState::Outdated, true));
    assert_eq!(s.redraw_requested(99), None);
    let after = s.states.get(1).unwrap();
    assert_eq!(after.cursor(), before.cursor());
    assert_eq!(after.logical_size(), before.logical_size());
    assert_eq!(after.scale_factor(), before.scale_factor());
    assert!(!s.interfaces.contains_key(1));
}

#[test]
fn pointer_events_move_the_cursor() {
    let mut s: Session<Msg> = Session::new(120, false);
    s.surface_created(10, SurfaceIdWrapper::Window(1)).unwrap();
    assert_eq!(s.states.get(1).unwrap().cursor(), Cursor::Unavailable);
    s.observe_event(SctkEvent::PointerEvent { surface: 10, kind: PointerEventKind::Enter { x: 0, y: 0 } });
    assert_eq!(s.states.get(1).unwrap().cursor(), Cursor::Available(Point { x: 0, y: 0 }));
    s.observe_event(SctkEvent::PointerEvent { surface: 10, kind: PointerEventKind::Motion { x: 30, y: 40 } });
    assert_eq!(s.states.get(1).unwrap().cursor(), Cursor::Available(Point { x: 30, y: 40 }));
    s.observe_event(SctkEvent::PointerEvent { surface: 10, kind: PointerEventKind::Leave });
    assert_eq!(s.states.get(1).unwrap().cursor(), Cursor::Unavailable);
}

#[test]
fn size_converges_after_matching_configure() {
    let mut app = Host::new(TestApp::new(200, 80));
    let mut s: Session<Msg> = Session::new(120, false);
    let surface = SurfaceIdWrapper::Popup(4);
    s.run_command(&mut app, vec![Action::NewSurface { surface, size: None, limits: limits() }], None);
    s.surface_created(40, surface).unwrap();
    assert_eq!(s.configure(40, 150, 80, true), ConfigureOutcome::Skipped);
    assert!(s.auto_size.get(4).unwrap().dirty);
    assert_eq!(s.states.get(4).unwrap().logical_size(), (150 * UNIT, 80 * UNIT));
    assert_eq!(s.configure(40, 200, 79, false), ConfigureOutcome::Skipped);
    assert!(s.auto_size.get(4).unwrap().dirty);
    assert_eq!(s.configure(40, 200, 80, false), ConfigureOutcome::Accepted);
    assert!(!s.auto_size.get(4).unwrap().dirty);
    s.new_events(StartCause::Poll);
    assert!(s.record_interface_update(40, InterfaceState::Outdated, false));
    assert_eq!(s.surfaces_to_redraw(), vec![4]);
    assert_eq!(s.surfaces_to_redraw(), Vec::<SurfaceId>::new());
}

#[test]
fn unconfirmed_surface_is_not_redrawn() {
    let mut app = Host::new(TestApp::new(200, 80));
    let mut s: Session<Msg> = Session::new(120, false);
    let surface = SurfaceIdWrapper::Window(4);
    s.run_command(&mut app, vec![Action::NewSurface { surface, size: None, limits: limits() }], None);
    s.surface_created(40, surface).unwrap();
    s.configure(40, 300, 300, true);
    s.configure(40, 200, 80, false);
    s.configure(40, 201, 80, false);
    s.record_interface_update(40, InterfaceState::Outdated, true);
    assert!(s.states.get(4).unwrap().needs_redraw());
    assert_eq!(s.surfaces_to_redraw(), Vec::<SurfaceId>::new());
    assert!(s.states.get(4).unwrap().needs_redraw());
}

#[test]
fn rebuild_requests_resize_when_content_changes() {
    let mut app = Host::new(TestApp::new(200, 80));
    let mut s: Session<Msg> = Session::new(120, false);
    let surface = SurfaceIdWrapper::LayerSurface(4);
    s.run_command(&mut app, vec![Action::NewSurface { surface, size: None, limits: limits() }], None);
    s.surface_created(40, surface).unwrap();
    s.configure(40, 200, 80, true);
    assert_eq!(s.rebuild_interfaces(&mut app), vec![]);
    assert!(!s.auto_size.get(4).unwrap().dirty);
    app.program_mut().size = (220, 80);
    assert_eq!(s.rebuild_interfaces(&mut app), vec![Effect::Resize { surface, width: 220, height: 80 }]);
    let e = s.auto_size.get(4).unwrap();
    assert!(e.dirty);
    assert_eq!((e.width, e.height), (220, 80));
}

#[test]
fn surface_registration_refuses_collisions() {
    let mut s: Session<Msg> = Session::new(120, false);
    assert_eq!(s.surface_created(10, SurfaceIdWrapper::Window(1)), Ok(()));
    assert_eq!(s.surface_created(10, SurfaceIdWrapper::Window(2)), Err(SurfaceError::HandleInUse));
    assert_eq!(s.surface_created(11, SurfaceIdWrapper::Popup(1)), Err(SurfaceError::IdInUse));
    assert_eq!(s.handle_of(1), Some(10));
    assert_eq!(s.handle_of(2), None);
}

#[test]
fn redraw_takes_frame_and_viewport_change() {
    let mut s: Session<Msg> = Session::new(120, false);
    s.surface_created(10, SurfaceIdWrapper::Window(1)).unwrap();
    assert_eq!(s.redraw_requested(10), None);
    s.configure(10, 100, 50, true);
    s.frame(10);
    let plan = s.redraw_requested(10).unwrap();
    assert_eq!(plan.id, 1);
    assert!(plan.request_frame);
    assert_eq!(plan.reconfigure, Some(PhysicalSize { width: 100, height: 50 }));
    let plan = s.redraw_requested(10).unwrap();
    assert!(!plan.request_frame);
    assert_eq!(plan.reconfigure, None);
}

#[test]
fn output_events_are_taken_in_order() {
    let mut s: Session<Msg> = Session::new(120, false);
    s.observe_event(SctkEvent::NewOutput);
    s.observe_event(SctkEvent::SelectionOffer);
    s.observe_event(SctkEvent::RemovedOutput);
    s.observe_event(SctkEvent::InputMethodEvent);
    assert_eq!(
        s.take_broadcast_events(),
        vec![SctkEvent::NewOutput, SctkEvent::RemovedOutput, SctkEvent::InputMethodEvent]
    );
    assert_eq!(s.sctk_events, vec![SctkEvent::SelectionOffer]);
}

#[test]
fn batch_start_decides_pending_redraw() {
    let mut s: Session<Msg> = Session::new(120, false);
    assert!(s.is_idle());
    s.new_events(StartCause::Init);
    assert!(s.redraw_pending);
    assert!(!s.is_idle());
    s.new_events(StartCause::WaitCancelled);
    assert!(!s.redraw_pending);
}

#[test]
fn interface_update_marks_redraw() {
    let mut s: Session<Msg> = Session::new(120, false);
    s.surface_created(10, SurfaceIdWrapper::Window(1)).unwrap();
    assert!(s.record_interface_update(10, InterfaceState::Updated { redraw_request: None }, false));
    let st = s.states.get(1).unwrap();
    assert!(st.needs_redraw());
    assert!(!st.first());
    s.states.insert(1, {
        let mut st = st;
        st.set_needs_redraw(false);
        st.clear_viewport_changed();
        st
    });
    assert!(!s.record_interface_update(10, InterfaceState::Updated { redraw_request: None }, false));
    assert!(!s.states.get(1).unwrap().needs_redraw());
}

#[test]
fn control_flow_follows_redraw_request() {
    let next = InterfaceState::Updated { redraw_request: Some(RedrawRequest::NextFrame) };
    let at = InterfaceState::Updated { redraw_request: Some(RedrawRequest::At(500)) };
    let none = InterfaceState::Updated { redraw_request: None };
    assert_eq!(next_control_flow(next, false), ControlFlow::Poll);
    assert_eq!(next_control_flow(at, true), ControlFlow::WaitUntil(500));
    assert_eq!(next_control_flow(none, true), ControlFlow::Poll);
    assert_eq!(next_control_flow(InterfaceState::Outdated, false), ControlFlow::Wait);
    assert_eq!(fallback_control_flow(1000), ControlFlow::WaitUntil(1250));
    assert_eq!(fallback_control_flow(u64::MAX), ControlFlow::WaitUntil(u64::MAX));
}

#[test]
fn cursor_shape_changes_are_reported_once() {
    let mut s: Session<Msg> = Session::new(120, false);
    assert_eq!(s.set_mouse_interaction(Interaction::Idle), None);
    assert_eq!(s.set_mouse_interaction(Interaction::Text), Some(CursorIcon::Text));
    assert_eq!(s.set_mouse_interaction(Interaction::Text), None);
}

#[test]
fn batch_plan_picks_the_path() {
    let mut s: Session<Msg> = Session::new(120, false);
    assert_eq!(s.batch_plan(), BatchPlan::Idle);
    s.queue_message(Msg::Named("a"));
    assert_eq!(s.batch_plan(), BatchPlan::NoSurfaces);
    s.surface_created(10, SurfaceIdWrapper::Window(1)).unwrap();
    assert_eq!(s.batch_plan(), BatchPlan::Surfaces);
    let mut t: Session<Msg> = Session::new(120, false);
    t.new_events(StartCause::Poll);
    assert_eq!(t.batch_plan(), BatchPlan::Surfaces);
}

#[test]
fn stray_keyboard_leave_keeps_focus() {
    let mut s: Session<Msg> = Session::new(120, false);
    s.surface_created(10, SurfaceIdWrapper::Window(1)).unwrap();
    s.observe_event(SctkEvent::KeyboardEvent { variant: KeyboardEventVariant::Enter(10) });
    s.observe_event(SctkEvent::KeyboardEvent { variant: KeyboardEventVariant::Leave(99) });
    assert_eq!(s.kbd_surface_id, Some(10));
}

#[test]
fn schedule_redraws_orders_and_falls_back() {
    let mut s: Session<Msg> = Session::new(120, false);
    s.surface_created(10, SurfaceIdWrapper::Window(1)).unwrap();
    s.surface_created(11, SurfaceIdWrapper::Window(2)).unwrap();
    assert_eq!(s.widget_target(), None);
    s.new_events(StartCause::Poll);
    let next = InterfaceState::Updated { redraw_request: Some(RedrawRequest::NextFrame) };
    s.record_interface_update(11, next, true);
    assert_eq!(s.widget_target(), Some(2));
    let (orders, fallback) = s.schedule_redraws(true, 100);
    assert_eq!(orders.len(), 1);
    assert_eq!((orders[0].handle, orders[0].id, orders[0].flow), (11, 2, ControlFlow::Poll));
    assert_eq!(fallback, None);
    assert!(!s.redraw_pending);
    let (orders, fallback) = s.schedule_redraws(false, 100);
    assert!(orders.is_empty());
    assert_eq!(fallback, Some(ControlFlow::WaitUntil(350)));
}

#[test]
fn effect_log_keeps_what_update_returns() {
    let mut app = Host::new(TestApp::new(10, 10));
    app.program_mut().replies.push(("a", vec![Action::Request(4), Action::Widget(2)]));
    let mut s: Session<Msg> = Session::new(120, false);
    s.surface_created(10, SurfaceIdWrapper::Window(1)).unwrap();
    s.queue_message(Msg::Named("a"));
    s.queue_message(Msg::Named("b"));
    let mut log = Sink::new(EffectLog { effects: Vec::new() });
    let effects = s.update(&mut app, &mut log, Some(1));
    assert_eq!(
        effects,
        vec![Effect::Updated(0), Effect::Forward(4), Effect::Operate { target: 1, operation: 2 }, Effect::Updated(1)]
    );
    let mut expected = effects.clone();
    expected.push(Effect::TrackSubscriptions);
    assert_eq!(log.executor().effects, expected);
}
