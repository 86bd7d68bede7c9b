use iced_sctk::conversion::CursorIcon;
use iced_sctk::shell::{layer_surface_request, resize_cursor, resize_edge, LayerSurfaceCreationError, ResizeEdge};
use iced_sctk::autosize::Size;
use iced_sctk::shell::{
    grab_serial, layer_surface_size, popup_parent, scale_update_applies, window_configure_size,
    PopupCreationError, PopupParent, ProtocolSurface, ANCHOR_BOTTOM, ANCHOR_LEFT, ANCHOR_RIGHT, ANCHOR_TOP,
};
use iced_sctk::surface::SurfaceKind;

fn surf(id: u64, object: u64, toplevel: u64) -> ProtocolSurface {
    ProtocolSurface { id, object, toplevel }
}

#[test]
fn popup_parent_lookup_order() {
    let layers = vec![surf(1, 100, 100)];
    let windows = vec![surf(2, 200, 200), surf(1, 201, 201)];
    let popups = vec![surf(3, 300, 200)];
    let size = Some(Size { width: 40, height: 30 });
    assert_eq!(
        popup_parent(1, size, &layers, &windows, &popups),
        Ok(PopupParent { kind: SurfaceKind::LayerSurface, parent: 100, toplevel: 100, size: Size { width: 40, height: 30 } })
    );
    assert_eq!(
        popup_parent(2, size, &layers, &windows, &popups),
        Ok(PopupParent { kind: SurfaceKind::Window, parent: 200, toplevel: 200, size: Size { width: 40, height: 30 } })
    );
    assert_eq!(
        popup_parent(3, size, &layers, &windows, &popups),
        Ok(PopupParent { kind: SurfaceKind::Popup, parent: 300, toplevel: 200, size: Size { width: 40, height: 30 } })
    );
    assert_eq!(popup_parent(4, size, &layers, &windows, &popups), Err(PopupCreationError::ParentMissing));
    assert_eq!(popup_parent(2, None, &layers, &windows, &popups), Err(PopupCreationError::SizeMissing));
    assert_eq!(popup_parent(4, None, &layers, &windows, &popups), Err(PopupCreationError::ParentMissing));
}

#[test]
fn window_size_falls_back() {
    assert_eq!(window_configure_size(Some(800), Some(600), Some((10, 10))), (800, 600));
    assert_eq!(window_configure_size(None, Some(600), Some((10, 0))), (10, 600));
    assert_eq!(window_configure_size(None, None, Some((0, 20))), (300, 20));
    assert_eq!(window_configure_size(None, None, None), (300, 500));
}

#[test]
fn layer_size_leaves_stretched_dimensions_to_compositor() {
    assert_eq!(layer_surface_size(Some(200), Some(80), 0), (200, 80));
    assert_eq!(layer_surface_size(Some(200), Some(80), ANCHOR_TOP | ANCHOR_BOTTOM), (200, 0));
    assert_eq!(layer_surface_size(Some(200), Some(80), ANCHOR_LEFT | ANCHOR_RIGHT | ANCHOR_TOP), (0, 80));
    assert_eq!(layer_surface_size(None, Some(80), ANCHOR_LEFT), (0, 80));
}

#[test]
fn legacy_scale_ignored_with_fractional_scale() {
    assert!(!scale_update_applies(true, true));
    assert!(scale_update_applies(true, false));
    assert!(scale_update_applies(false, true));
}

#[test]
fn grab_serial_prefers_pointer() {
    assert_eq!(grab_serial(Some(5), Some(9)), 5);
    assert_eq!(grab_serial(None, Some(9)), 9);
    assert_eq!(grab_serial(None, None), 0);
}

#[test]
fn resize_edges_and_cursors() {
    assert_eq!(resize_edge(2, 2, 100, 80, 5), Some(ResizeEdge::TopLeft));
    assert_eq!(resize_edge(2, 78, 100, 80, 5), Some(ResizeEdge::BottomLeft));
    assert_eq!(resize_edge(98, 2, 100, 80, 5), Some(ResizeEdge::TopRight));
    assert_eq!(resize_edge(98, 78, 100, 80, 5), Some(ResizeEdge::BottomRight));
    assert_eq!(resize_edge(50, 2, 100, 80, 5), Some(ResizeEdge::Top));
    assert_eq!(resize_edge(50, 76, 100, 80, 5), Some(ResizeEdge::Bottom));
    assert_eq!(resize_edge(50, 75, 100, 80, 5), None);
    assert_eq!(resize_edge(4, 40, 100, 80, 5), Some(ResizeEdge::Left));
    assert_eq!(resize_edge(96, 40, 100, 80, 5), Some(ResizeEdge::Right));
    assert_eq!(resize_cursor(ResizeEdge::TopLeft), CursorIcon::NwResize);
    assert_eq!(resize_cursor(ResizeEdge::Right), CursorIcon::EResize);
}

#[test]
fn layer_surface_preconditions() {
    assert_eq!(
        layer_surface_request(false, Some((Some(10), Some(10))), 0),
        Err(LayerSurfaceCreationError::LayerShellNotSupported)
    );
    assert_eq!(layer_surface_request(true, None, 0), Err(LayerSurfaceCreationError::SizeMissing));
    assert_eq!(layer_surface_request(true, Some((Some(200), Some(80))), ANCHOR_TOP | ANCHOR_BOTTOM), Ok((200, 0)));
}
