use vstd::prelude::*;
use crate::autosize::Size;
use crate::surface::{ObjectId, SurfaceId, SurfaceKind};
use crate::conversion::CursorIcon;

verus! {

/// A surface as the protocol layer keeps it: the application's identifier,
/// its compositor object, and the object of the toplevel it belongs to (its
/// own object for a window or a layer surface).
#[derive(Debug, Clone, Copy, PartialEq, Eq, Structural)]
pub struct ProtocolSurface {
    pub id: SurfaceId,
    pub object: ObjectId,
    pub toplevel: ObjectId,
}

/// Where a new popup attaches.
#[derive(Debug, Clone, Copy, PartialEq, Eq, Structural)]
pub struct PopupParent {
    pub kind: SurfaceKind,
    pub parent: ObjectId,
    pub toplevel: ObjectId,
    pub size: Size,
}

/// Why a popup cannot be created. Failures of the protocol objects
/// themselves are reported by the protocol layer.
#[derive(Debug, Clone, Copy, PartialEq, Eq, Structural)]
pub enum PopupCreationError {
    /// No live surface has the parent's identifier.
    ParentMissing,
    /// The popup has no size.
    SizeMissing,
}

/// The first surface of `s` with identifier `id`.
pub open spec fn first_with_id(s: Seq<ProtocolSurface>, id: SurfaceId) -> Option<ProtocolSurface>
    decreases s.len(),
{
    if s.len() == 0 {
        None
    } else if s[0].id == id {
        Some(s[0])
    } else {
        first_with_id(s.subrange(1, s.len() as int), id)
    }
}

fn find_with_id(s: &Vec<ProtocolSurface>, id: SurfaceId) -> (r: Option<ProtocolSurface>)
    ensures
        r == first_with_id(s@, id),
{
    let mut i: usize = 0;
    proof {
        assert(s@.subrange(0, s@.len() as int) =~= s@);
    }
    while i < s.len()
        invariant
            i <= s@.len(),
            first_with_id(s@, id) == first_with_id(s@.subrange(i as int, s@.len() as int), id),
        decreases s@.len() - i,
    {
        proof {
            let rest = s@.subrange(i as int, s@.len() as int);
            assert(rest.subrange(1, rest.len() as int) =~= s@.subrange(i + 1, s@.len() as int));
        }
        if s[i].id == id {
            return Some(s[i]);
        }
        i = i + 1;
    }
    proof {
        assert(s@.subrange(i as int, s@.len() as int) =~= Seq::<ProtocolSurface>::empty());
    }
    None
}

/// Where a popup with parent `parent` attaches: the first layer surface with
/// that identifier, else the first window, else the first popup (whose
/// toplevel the new popup shares).
pub open spec fn popup_parent_spec(
    parent: SurfaceId,
    size: Option<Size>,
    layers: Seq<ProtocolSurface>,
    windows: Seq<ProtocolSurface>,
    popups: Seq<ProtocolSurface>,
) -> Result<PopupParent, PopupCreationError> {
    let found = if first_with_id(layers, parent) is Some {
        Some((SurfaceKind::LayerSurface, first_with_id(layers, parent)->0))
    } else if first_with_id(windows, parent) is Some {
        Some((SurfaceKind::Window, first_with_id(windows, parent)->0))
    } else if first_with_id(popups, parent) is Some {
        Some((SurfaceKind::Popup, first_with_id(popups, parent)->0))
    } else {
        None
    };
    match found {
        None => Err(PopupCreationError::ParentMissing),
        Some((kind, p)) => match size {
            None => Err(PopupCreationError::SizeMissing),
            Some(sz) => Ok(PopupParent { kind, parent: p.object, toplevel: p.toplevel, size: sz }),
        },
    }
}

/// Checks the preconditions of a popup: its parent must be a live layer
/// surface, window or popup, looked for in that order, and it must have a
/// size.
pub fn popup_parent(
    parent: SurfaceId,
    size: Option<Size>,
    layers: &Vec<ProtocolSurface>,
    windows: &Vec<ProtocolSurface>,
    popups: &Vec<ProtocolSurface>,
) -> (r: Result<PopupParent, PopupCreationError>)
    ensures
        r == popup_parent_spec(parent, size, layers@, windows@, popups@),
{
    let found = match find_with_id(layers, parent) {
        Some(p) => Some((SurfaceKind::LayerSurface, p)),
        None => match find_with_id(windows, parent) {
            Some(p) => Some((SurfaceKind::Window, p)),
            None => match find_with_id(popups, parent) {
                Some(p) => Some((SurfaceKind::Popup, p)),
                None => None,
            },
        },
    };
    match found {
        None => Err(PopupCreationError::ParentMissing),
        Some((kind, p)) => match size {
            None => Err(PopupCreationError::SizeMissing),
            Some(sz) => Ok(PopupParent { kind, parent: p.object, toplevel: p.toplevel, size: sz }),
        },
    }
}

/// Width a window gets when neither the compositor nor the application says.
pub const DEFAULT_WINDOW_WIDTH: u32 = 300;
/// Height a window gets when neither the compositor nor the application says.
pub const DEFAULT_WINDOW_HEIGHT: u32 = 500;

/// One dimension of a window's configured size: the compositor's, else the
/// size the application asked for when not zero, else the default.
pub open spec fn configured_dim(given: Option<u32>, requested: Option<u32>, default: u32) -> u32 {
    match given {
        Some(v) => v,
        None => match requested {
            Some(r) => if r != 0 { r } else { default },
            None => default,
        },
    }
}

fn pick_dim(given: Option<u32>, requested: Option<u32>, default: u32) -> (r: u32)
    ensures
        r == configured_dim(given, requested, default),
{
    match given {
        Some(v) => v,
        None => match requested {
            Some(r) => if r != 0 {
                r
            } else {
                default
            },
            None => default,
        },
    }
}

/// The size a window takes from a configure that may leave either dimension
/// to the client: what the application asked for, else 300 x 500.
pub fn window_configure_size(
    width: Option<u32>,
    height: Option<u32>,
    requested: Option<(u32, u32)>,
) -> (r: (u32, u32))
    ensures
        r.0 == configured_dim(width, match requested { Some(q) => Some(q.0), None => None }, DEFAULT_WINDOW_WIDTH),
        r.1 == configured_dim(height, match requested { Some(q) => Some(q.1), None => None }, DEFAULT_WINDOW_HEIGHT),
{
    let (rw, rh) = match requested {
        Some((w, h)) => (Some(w), Some(h)),
        None => (None, None),
    };
    (pick_dim(width, rw, DEFAULT_WINDOW_WIDTH), pick_dim(height, rh, DEFAULT_WINDOW_HEIGHT))
}

/// Layer-shell anchor bits.
pub const ANCHOR_TOP: u32 = 1;
pub const ANCHOR_BOTTOM: u32 = 2;
pub const ANCHOR_LEFT: u32 = 4;
pub const ANCHOR_RIGHT: u32 = 8;

/// The size to ask for a layer surface: a dimension along which the surface
/// is anchored to both edges is left to the compositor (zero), as is one
/// without a size.
pub open spec fn layer_size_spec(width: Option<u32>, height: Option<u32>, anchor: u32) -> (u32, u32) {
    let stretched_h = anchor & (ANCHOR_TOP | ANCHOR_BOTTOM) == (ANCHOR_TOP | ANCHOR_BOTTOM);
    let stretched_w = anchor & (ANCHOR_LEFT | ANCHOR_RIGHT) == (ANCHOR_LEFT | ANCHOR_RIGHT);
    (
        if stretched_w { 0 } else { match width { Some(w) => w, None => 0 } },
        if stretched_h { 0 } else { match height { Some(h) => h, None => 0 } },
    )
}

pub fn layer_surface_size(width: Option<u32>, height: Option<u32>, anchor: u32) -> (r: (u32, u32))
    ensures
        r == layer_size_spec(width, height, anchor),
{
    let stretched_h = anchor & (ANCHOR_TOP | ANCHOR_BOTTOM) == (ANCHOR_TOP | ANCHOR_BOTTOM);
    let stretched_w = anchor & (ANCHOR_LEFT | ANCHOR_RIGHT) == (ANCHOR_LEFT | ANCHOR_RIGHT);
    let w = if stretched_w {
        0
    } else {
        match width {
            Some(w) => w,
            None => 0,
        }
    };
    let h = if stretched_h {
        0
    } else {
        match height {
            Some(h) => h,
            None => 0,
        }
    };
    (w, h)
}

/// Why a layer surface cannot be created. Failures of the protocol objects
/// themselves are reported by the protocol layer.
#[derive(Debug, Clone, Copy, PartialEq, Eq, Structural)]
pub enum LayerSurfaceCreationError {
    /// The compositor offers no layer shell.
    LayerShellNotSupported,
    /// The request carries no size (the loop measures auto-sized ones first).
    SizeMissing,
}

/// Checks the preconditions of a layer surface and gives the size to ask
/// for: the compositor must offer a layer shell, and the request must carry
/// a size, either dimension of which may be left to the compositor.
pub fn layer_surface_request(layer_shell: bool, size: Option<(Option<u32>, Option<u32>)>, anchor: u32) -> (r: Result<(u32, u32), LayerSurfaceCreationError>)
    ensures
        !layer_shell ==> r == Err::<(u32, u32), LayerSurfaceCreationError>(LayerSurfaceCreationError::LayerShellNotSupported),
        layer_shell && size is None ==> r == Err::<(u32, u32), LayerSurfaceCreationError>(LayerSurfaceCreationError::SizeMissing),
        layer_shell ==> (size matches Some(p) ==> r == Ok::<(u32, u32), LayerSurfaceCreationError>(layer_size_spec(p.0, p.1, anchor))),
{
    if !layer_shell {
        return Err(LayerSurfaceCreationError::LayerShellNotSupported);
    }
    match size {
        None => Err(LayerSurfaceCreationError::SizeMissing),
        Some((w, h)) => Ok(layer_surface_size(w, h, anchor)),
    }
}

/// Whether a scale change reaches a surface: the integer scale of the core
/// protocol is ignored for a surface that gets fractional scales.
pub fn scale_update_applies(legacy: bool, has_fractional_scale: bool) -> (r: bool)
    ensures
        r == !(legacy && has_fractional_scale),
{
    !(legacy && has_fractional_scale)
}

/// The serial a popup grab uses: that of the last pointer press, else that
/// of the last key press, else zero.
pub fn grab_serial(last_pointer_press: Option<u32>, last_key_press: Option<u32>) -> (r: u32)
    ensures
        r == (match last_pointer_press {
            Some(p) => p,
            None => match last_key_press {
                Some(k) => k,
                None => 0,
            },
        }),
{
    match last_pointer_press {
        Some(p) => p,
        None => match last_key_press {
            Some(k) => k,
            None => 0,
        },
    }
}

/// The border or corner of a window that a pointer drag resizes.
#[derive(Debug, Clone, Copy, PartialEq, Eq, Structural)]
pub enum ResizeEdge {
    Top,
    Bottom,
    Left,
    Right,
    TopLeft,
    BottomLeft,
    TopRight,
    BottomRight,
}

/// The resize edge under the pointer at (`x`, `y`) on a resizable window of
/// size `width` x `height` with a border of `border` (all in the same
/// units): corners first, then sides.
pub open spec fn resize_edge_spec(x: int, y: int, width: int, height: int, border: int) -> Option<ResizeEdge> {
    let left = x < border;
    let top = y < border;
    let right = x > width - border;
    let bottom = y > height - border;
    if left && top {
        Some(ResizeEdge::TopLeft)
    } else if left && bottom {
        Some(ResizeEdge::BottomLeft)
    } else if right && top {
        Some(ResizeEdge::TopRight)
    } else if right && bottom {
        Some(ResizeEdge::BottomRight)
    } else if left {
        Some(ResizeEdge::Left)
    } else if right {
        Some(ResizeEdge::Right)
    } else if top {
        Some(ResizeEdge::Top)
    } else if bottom {
        Some(ResizeEdge::Bottom)
    } else {
        None
    }
}

/// Finds the resize edge under the pointer, for windows that draw their own
/// decorations.
pub fn resize_edge(x: i64, y: i64, width: i64, height: i64, border: i64) -> (r: Option<ResizeEdge>)
    ensures
        r == resize_edge_spec(x as int, y as int, width as int, height as int, border as int),
{
    let left = x < border;
    let top = y < border;
    let right = x as i128 > width as i128 - border as i128;
    let bottom = y as i128 > height as i128 - border as i128;
    if left && top {
        Some(ResizeEdge::TopLeft)
    } else if left && bottom {
        Some(ResizeEdge::BottomLeft)
    } else if right && top {
        Some(ResizeEdge::TopRight)
    } else if right && bottom {
        Some(ResizeEdge::BottomRight)
    } else if left {
        Some(ResizeEdge::Left)
    } else if right {
        Some(ResizeEdge::Right)
    } else if top {
        Some(ResizeEdge::Top)
    } else if bottom {
        Some(ResizeEdge::Bottom)
    } else {
        None
    }
}

/// The cursor shape shown over a resize edge.
pub fn resize_cursor(edge: ResizeEdge) -> (r: CursorIcon)
    ensures
        r == (match edge {
            ResizeEdge::Top => CursorIcon::NResize,
            ResizeEdge::Bottom => CursorIcon::SResize,
            ResizeEdge::Left => CursorIcon::WResize,
            ResizeEdge::Right => CursorIcon::EResize,
            ResizeEdge::TopLeft => CursorIcon::NwResize,
            ResizeEdge::BottomLeft => CursorIcon::SwResize,
            ResizeEdge::TopRight => CursorIcon::NeResize,
            ResizeEdge::BottomRight => CursorIcon::SeResize,
        }),
{
    match edge {
        ResizeEdge::Top => CursorIcon::NResize,
        ResizeEdge::Bottom => CursorIcon::SResize,
        ResizeEdge::Left => CursorIcon::WResize,
        ResizeEdge::Right => CursorIcon::EResize,
        ResizeEdge::TopLeft => CursorIcon::NwResize,
        ResizeEdge::BottomLeft => CursorIcon::SwResize,
        ResizeEdge::TopRight => CursorIcon::NeResize,
        ResizeEdge::BottomRight => CursorIcon::SeResize,
    }
}

} // verus!
