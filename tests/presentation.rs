use iced_sctk::presentation::{Cursor, State, LOGICAL_UNIT, SIZE_EPSILON};
use iced_sctk::surface::{SurfaceIdWrapper, SurfaceKind};

#[test]
fn new_state_has_no_size_and_no_cursor() {
    let st = State::new(SurfaceIdWrapper::Window(1), 120, true);
    assert_eq!(st.logical_size(), (0, 0));
    assert_eq!(st.physical_size(), (0, 0));
    assert!(st.viewport_changed());
    assert!(st.first());
    assert!(!st.needs_redraw());
    assert_eq!(st.cursor(), Cursor::Unavailable);
    assert!(st.natural_scroll);
}

#[test]
fn jitter_below_epsilon_does_not_change_viewport() {
    let mut st = State::new(SurfaceIdWrapper::Window(1), 120, false);
    st.set_logical_size(200 * LOGICAL_UNIT, 80 * LOGICAL_UNIT);
    assert!(st.viewport_changed());
    st.clear_viewport_changed();
    st.set_logical_size(200 * LOGICAL_UNIT + SIZE_EPSILON - 1, 80 * LOGICAL_UNIT - 3);
    assert!(!st.viewport_changed());
    assert_eq!(st.logical_size(), (200 * LOGICAL_UNIT, 80 * LOGICAL_UNIT));
    st.set_logical_size(200 * LOGICAL_UNIT + SIZE_EPSILON, 80 * LOGICAL_UNIT);
    assert!(st.viewport_changed());
    assert_eq!(st.logical_size(), (200 * LOGICAL_UNIT + SIZE_EPSILON, 80 * LOGICAL_UNIT));
}

#[test]
fn physical_size_follows_both_scales() {
    let mut st = State::new(SurfaceIdWrapper::Window(1), 120, false);
    st.set_logical_size(100 * LOGICAL_UNIT, 50 * LOGICAL_UNIT);
    assert_eq!(st.physical_size(), (100, 50));
    st.clear_viewport_changed();
    st.set_scale_factor(240);
    assert!(st.viewport_changed());
    assert_eq!(st.physical_size(), (200, 100));
    assert_eq!(st.scale_factor(), 120 * 240);
    st.clear_viewport_changed();
    st.set_scale_factor(240);
    assert!(!st.viewport_changed());
    let mut st = State::new(SurfaceIdWrapper::Window(1), 180, false);
    st.set_scale_factor(150);
    st.set_logical_size(101 * LOGICAL_UNIT, 3 * LOGICAL_UNIT);
    // 101 * 1.5 * 1.25 = 189.375 and 3 * 1.5 * 1.25 = 5.625
    assert_eq!(st.physical_size(), (189, 6));
}

#[test]
fn logical_size_rounds_to_pixels() {
    let mut st = State::new(SurfaceIdWrapper::Popup(1), 120, false);
    st.set_logical_size(10 * LOGICAL_UNIT + 511, 10 * LOGICAL_UNIT + 512);
    assert_eq!(st.logical_size_px(), (10, 11));
}

#[test]
fn surface_id_wrapper_parts() {
    let w = SurfaceIdWrapper::new(SurfaceKind::InputMethodPopup, 9);
    assert_eq!(w, SurfaceIdWrapper::InputMethodPopup(9));
    assert_eq!(w.inner(), 9);
    assert_eq!(w.kind(), SurfaceKind::InputMethodPopup);
    assert_eq!(SurfaceIdWrapper::Dnd(3).inner(), 3);
}
