use vstd::prelude::*;
use crate::surface::SurfaceIdWrapper;
use crate::wayland_events::input_method::Modifiers;

verus! {

/// Sub-pixel units per logical pixel in which logical sizes are kept.
pub const LOGICAL_UNIT: u64 = 1024;

/// Two logical lengths closer than this many sub-pixel units are the same
/// length: changes below it are jitter and must not cause a relayout.
pub const SIZE_EPSILON: u64 = 16;

/// Scale factors are kept in 120ths, as the fractional-scale protocol sends them.
pub const SCALE_UNIT: u64 = 120;

/// The largest logical length, in sub-pixel units, that a surface can have.
pub const MAX_LOGICAL: u64 = 4294967295 * 1024;

/// A point on a surface, in logical sub-pixel units.
#[derive(Debug, Clone, Copy, PartialEq, Eq, Structural)]
pub struct Point {
    pub x: i64,
    pub y: i64,
}

/// Where the pointer is, for hit-testing.
#[derive(Debug, Clone, Copy, PartialEq, Eq, Structural)]
pub enum Cursor {
    Available(Point),
    Unavailable,
}

/// When the widget tree wants to be redrawn again.
#[derive(Debug, Clone, Copy, PartialEq, Eq, Structural)]
pub enum RedrawRequest {
    NextFrame,
    /// At this instant, in milliseconds of the loop's clock.
    At(u64),
}

/// What the last update of a surface's widget tree reported.
#[derive(Debug, Clone, Copy, PartialEq, Eq, Structural)]
pub enum InterfaceState {
    Outdated,
    Updated { redraw_request: Option<RedrawRequest> },
}

/// Whether two logical lengths are the same length up to jitter.
pub open spec fn approx_eq(a: u64, b: u64) -> bool {
    if a >= b { a - b < SIZE_EPSILON } else { b - a < SIZE_EPSILON }
}

/// Logical sub-pixel units scaled by two factors in 120ths, rounded to whole
/// physical pixels.
pub open spec fn to_physical(logical: u64, app_scale: u16, surface_scale: u16) -> u64 {
    let d = (LOGICAL_UNIT * SCALE_UNIT * SCALE_UNIT) as int;
    ((logical as int * app_scale as int * surface_scale as int + d / 2) / d) as u64
}

/// A logical length in sub-pixel units, rounded to whole logical pixels.
pub open spec fn round_px(logical: u64) -> u64 {
    ((logical as int + 512) / 1024) as u64
}

/// The presentation state of one live surface.
#[derive(Debug, Clone, Copy)]
pub struct State {
    pub id: SurfaceIdWrapper,
    pub application_scale: u16,
    pub surface_scale: u16,
    pub logical_width: u64,
    pub logical_height: u64,
    pub physical_width: u64,
    pub physical_height: u64,
    pub viewport_changed: bool,
    pub cursor_position: Option<Point>,
    pub modifiers: Modifiers,
    pub natural_scroll: bool,
    pub needs_redraw: bool,
    pub first: bool,
    pub frame: bool,
    pub interface_state: InterfaceState,
}

fn physical(logical: u64, app_scale: u16, surface_scale: u16) -> (r: u64)
    requires
        logical <= MAX_LOGICAL,
    ensures
        r == to_physical(logical, app_scale, surface_scale),
{
    let d: u128 = 1024 * 120 * 120;
    proof {
        lemma_mul_bound(logical as int, app_scale as int, MAX_LOGICAL as int, 65535);
    }
    let p: u128 = logical as u128 * app_scale as u128;
    proof {
        lemma_mul_bound(p as int, surface_scale as int, MAX_LOGICAL as int * 65535, 65535);
    }
    let q: u128 = p * surface_scale as u128;
    let r: u128 = (q + d / 2) / d;
    assert(r <= u64::MAX) by (nonlinear_arith)
        requires
            r == (q as int + d as int / 2) / d as int,
            q <= MAX_LOGICAL as int * 65535 * 65535,
            d == 1024 * 120 * 120,
    ;
    r as u64
}

proof fn lemma_mul_bound(a: int, b: int, ma: int, mb: int)
    requires
        0 <= a <= ma,
        0 <= b <= mb,
    ensures
        0 <= a * b <= ma * mb,
{
    assert(a * b <= ma * mb) by (nonlinear_arith)
        requires
            0 <= a <= ma,
            0 <= b <= mb,
    ;
    assert(0 <= a * b) by (nonlinear_arith)
        requires
            0 <= a,
            0 <= b,
    ;
}

fn round_logical(logical: u64) -> (r: u64)
    ensures
        r == round_px(logical),
{
    (logical / 2 + 256) / 512
}

impl State {
    /// The well-formedness of a presentation state: a usable application
    /// scale, sizes in range, and a physical size that follows from the
    /// logical size and both scales.
    pub open spec fn wf(&self) -> bool {
        &&& self.application_scale > 0
        &&& self.logical_width <= MAX_LOGICAL
        &&& self.logical_height <= MAX_LOGICAL
        &&& self.physical_width == to_physical(self.logical_width, self.application_scale, self.surface_scale)
        &&& self.physical_height == to_physical(self.logical_height, self.application_scale, self.surface_scale)
    }

    /// A fresh state, as `new` makes it.
    pub open spec fn spec_new(id: SurfaceIdWrapper, application_scale: u16, natural_scroll: bool) -> State {
        State {
            id,
            application_scale,
            surface_scale: 120,
            logical_width: 0,
            logical_height: 0,
            physical_width: to_physical(0, application_scale, 120),
            physical_height: to_physical(0, application_scale, 120),
            viewport_changed: true,
            cursor_position: None,
            modifiers: Modifiers { ctrl: false, alt: false, shift: false, caps_lock: false, logo: false, num_lock: false },
            natural_scroll,
            needs_redraw: false,
            first: true,
            frame: false,
            interface_state: InterfaceState::Outdated,
        }
    }

    /// A fresh state: zero size, surface scale 1, no cursor, viewport to be
    /// configured, first configure still to come.
    pub fn new(id: SurfaceIdWrapper, application_scale: u16, natural_scroll: bool) -> (r: State)
        requires
            application_scale > 0,
        ensures
            r.wf(),
            r == State::spec_new(id, application_scale, natural_scroll),
            r.id == id,
            r.application_scale == application_scale,
            r.surface_scale == SCALE_UNIT,
            r.logical_width == 0 && r.logical_height == 0,
            r.viewport_changed,
            r.cursor_position is None,
            !r.modifiers.ctrl && !r.modifiers.alt && !r.modifiers.shift,
            !r.modifiers.caps_lock && !r.modifiers.logo && !r.modifiers.num_lock,
            r.natural_scroll == natural_scroll,
            !r.needs_redraw,
            r.first,
            !r.frame,
            r.interface_state == InterfaceState::Outdated,
    {
        State {
            id,
            application_scale,
            surface_scale: 120,
            logical_width: 0,
            logical_height: 0,
            physical_width: physical(0, application_scale, 120),
            physical_height: physical(0, application_scale, 120),
            viewport_changed: true,
            cursor_position: None,
            modifiers: Modifiers::none(),
            natural_scroll,
            needs_redraw: false,
            first: true,
            frame: false,
            interface_state: InterfaceState::Outdated,
        }
    }

    /// The state after `set_logical_size(w, h)`.
    pub open spec fn with_logical_size(self, w: u64, h: u64) -> State {
        if approx_eq(w, self.logical_width) && approx_eq(h, self.logical_height) {
            self
        } else {
            State {
                logical_width: w,
                logical_height: h,
                physical_width: to_physical(w, self.application_scale, self.surface_scale),
                physical_height: to_physical(h, self.application_scale, self.surface_scale),
                viewport_changed: true,
                ..self
            }
        }
    }

    /// Sets the logical size to `w` x `h` sub-pixel units, unless both are
    /// within `SIZE_EPSILON` of the current size, in which case nothing
    /// changes. A change recomputes the physical size and marks the viewport
    /// as changed.
    pub fn set_logical_size(&mut self, w: u64, h: u64)
        requires
            old(self).wf(),
            w <= MAX_LOGICAL,
            h <= MAX_LOGICAL,
        ensures
            final(self).wf(),
            *final(self) == old(self).with_logical_size(w, h),
    {
        if !(approx_eq_exec(w, self.logical_width) && approx_eq_exec(h, self.logical_height)) {
            self.logical_width = w;
            self.logical_height = h;
            self.physical_width = physical(w, self.application_scale, self.surface_scale);
            self.physical_height = physical(h, self.application_scale, self.surface_scale);
            self.viewport_changed = true;
        }
    }

    /// Sets the scale that the compositor gave the surface, in 120ths. A new
    /// value recomputes the physical size from the current logical size and
    /// marks the viewport as changed; the same value changes nothing.
    pub fn set_scale_factor(&mut self, scale: u16)
        requires
            old(self).wf(),
        ensures
            final(self).wf(),
            scale == old(self).surface_scale ==> *final(self) == *old(self),
            scale != old(self).surface_scale ==> *final(self) == (State {
                surface_scale: scale,
                physical_width: to_physical(old(self).logical_width, old(self).application_scale, scale),
                physical_height: to_physical(old(self).logical_height, old(self).application_scale, scale),
                viewport_changed: true,
                ..*old(self)
            }),
    {
        if scale != self.surface_scale {
            self.surface_scale = scale;
            self.physical_width = physical(self.logical_width, self.application_scale, scale);
            self.physical_height = physical(self.logical_height, self.application_scale, scale);
            self.viewport_changed = true;
        }
    }

    /// The combined scale factor, in 1/14400ths (application scale times
    /// surface scale, each in 120ths).
    pub fn scale_factor(&self) -> (r: u32)
        ensures
            r == self.application_scale as int * self.surface_scale as int,
    {
        proof {
            lemma_mul_bound(self.application_scale as int, self.surface_scale as int, 65535, 65535);
        }
        self.application_scale as u32 * self.surface_scale as u32
    }

    /// The pointer position for hit-testing: `Unavailable` when the pointer is
    /// not over the surface, which is not the same as a pointer at the origin.
    pub fn cursor(&self) -> (r: Cursor)
        ensures
            r == (match self.cursor_position {
                Some(p) => Cursor::Available(p),
                None => Cursor::Unavailable,
            }),
    {
        match self.cursor_position {
            Some(p) => Cursor::Available(p),
            None => Cursor::Unavailable,
        }
    }

    /// Records where the pointer is, or that it left the surface.
    pub fn set_cursor_position(&mut self, p: Option<Point>)
        ensures
            *final(self) == (State { cursor_position: p, ..*old(self) }),
    {
        self.cursor_position = p;
    }

    pub fn set_needs_redraw(&mut self, needs_redraw: bool)
        ensures
            *final(self) == (State { needs_redraw, ..*old(self) }),
    {
        self.needs_redraw = needs_redraw;
    }

    pub fn needs_redraw(&self) -> (r: bool)
        ensures
            r == self.needs_redraw,
    {
        self.needs_redraw
    }

    pub fn first(&self) -> (r: bool)
        ensures
            r == self.first,
    {
        self.first
    }

    pub fn set_first(&mut self, first: bool)
        ensures
            *final(self) == (State { first, ..*old(self) }),
    {
        self.first = first;
    }

    /// Records whether the compositor has a frame callback ready for the surface.
    pub fn set_frame(&mut self, frame: bool)
        ensures
            *final(self) == (State { frame, ..*old(self) }),
    {
        self.frame = frame;
    }

    pub fn viewport_changed(&self) -> (r: bool)
        ensures
            r == self.viewport_changed,
    {
        self.viewport_changed
    }

    /// Marks the viewport change as handled, after a relayout and redraw.
    pub fn clear_viewport_changed(&mut self)
        ensures
            *final(self) == (State { viewport_changed: false, ..*old(self) }),
    {
        self.viewport_changed = false;
    }

    /// The logical size, in sub-pixel units.
    pub fn logical_size(&self) -> (r: (u64, u64))
        ensures
            r == (self.logical_width, self.logical_height),
    {
        (self.logical_width, self.logical_height)
    }

    /// The logical size rounded to whole pixels.
    pub fn logical_size_px(&self) -> (r: (u64, u64))
        ensures
            r == (round_px(self.logical_width), round_px(self.logical_height)),
    {
        (round_logical(self.logical_width), round_logical(self.logical_height))
    }

    /// The size in physical pixels.
    pub fn physical_size(&self) -> (r: (u64, u64))
        ensures
            r == (self.physical_width, self.physical_height),
    {
        (self.physical_width, self.physical_height)
    }

    pub fn modifiers(&self) -> (r: Modifiers)
        ensures
            r == self.modifiers,
    {
        self.modifiers
    }

    pub fn set_modifiers(&mut self, modifiers: Modifiers)
        ensures
            *final(self) == (State { modifiers, ..*old(self) }),
    {
        self.modifiers = modifiers;
    }
}

fn approx_eq_exec(a: u64, b: u64) -> (r: bool)
    ensures
        r == approx_eq(a, b),
{
    if a >= b {
        a - b < SIZE_EPSILON
    } else {
        b - a < SIZE_EPSILON
    }
}

} // verus!
