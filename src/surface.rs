use vstd::prelude::*;

verus! {

/// Identifier that the application gives a surface when it asks for one.
pub type SurfaceId = u64;

/// Identity of a compositor-side object (a `wl_surface`, as its protocol id).
pub type ObjectId = u64;

/// The kinds of surfaces the runtime manages.
#[derive(Debug, Clone, Copy, PartialEq, Eq, Hash, Structural)]
pub enum SurfaceKind {
    LayerSurface,
    Window,
    Popup,
    Dnd,
    InputMethodPopup,
}

/// A surface identifier tagged with the kind of surface it names.
#[derive(Debug, Clone, Copy, PartialEq, Eq, Hash, Structural)]
pub enum SurfaceIdWrapper {
    LayerSurface(SurfaceId),
    Window(SurfaceId),
    Popup(SurfaceId),
    Dnd(SurfaceId),
    InputMethodPopup(SurfaceId),
}

impl SurfaceIdWrapper {
    /// The identifier, whatever the kind.
    pub open spec fn id_of(self) -> SurfaceId {
        match self {
            SurfaceIdWrapper::LayerSurface(id) => id,
            SurfaceIdWrapper::Window(id) => id,
            SurfaceIdWrapper::Popup(id) => id,
            SurfaceIdWrapper::Dnd(id) => id,
            SurfaceIdWrapper::InputMethodPopup(id) => id,
        }
    }

    /// The kind of surface.
    pub open spec fn kind_of(self) -> SurfaceKind {
        match self {
            SurfaceIdWrapper::LayerSurface(_) => SurfaceKind::LayerSurface,
            SurfaceIdWrapper::Window(_) => SurfaceKind::Window,
            SurfaceIdWrapper::Popup(_) => SurfaceKind::Popup,
            SurfaceIdWrapper::Dnd(_) => SurfaceKind::Dnd,
            SurfaceIdWrapper::InputMethodPopup(_) => SurfaceKind::InputMethodPopup,
        }
    }

    /// Tags `id` with `kind`.
    pub open spec fn spec_new(kind: SurfaceKind, id: SurfaceId) -> SurfaceIdWrapper {
        match kind {
            SurfaceKind::LayerSurface => SurfaceIdWrapper::LayerSurface(id),
            SurfaceKind::Window => SurfaceIdWrapper::Window(id),
            SurfaceKind::Popup => SurfaceIdWrapper::Popup(id),
            SurfaceKind::Dnd => SurfaceIdWrapper::Dnd(id),
            SurfaceKind::InputMethodPopup => SurfaceIdWrapper::InputMethodPopup(id),
        }
    }

    /// Tags `id` with `kind`.
    pub fn new(kind: SurfaceKind, id: SurfaceId) -> (r: SurfaceIdWrapper)
        ensures
            r == Self::spec_new(kind, id),
            r.id_of() == id,
            r.kind_of() == kind,
    {
        match kind {
            SurfaceKind::LayerSurface => SurfaceIdWrapper::LayerSurface(id),
            SurfaceKind::Window => SurfaceIdWrapper::Window(id),
            SurfaceKind::Popup => SurfaceIdWrapper::Popup(id),
            SurfaceKind::Dnd => SurfaceIdWrapper::Dnd(id),
            SurfaceKind::InputMethodPopup => SurfaceIdWrapper::InputMethodPopup(id),
        }
    }

    /// The identifier, whatever the kind.
    pub fn inner(&self) -> (r: SurfaceId)
        ensures
            r == self.id_of(),
    {
        match self {
            SurfaceIdWrapper::LayerSurface(id) => *id,
            SurfaceIdWrapper::Window(id) => *id,
            SurfaceIdWrapper::Popup(id) => *id,
            SurfaceIdWrapper::Dnd(id) => *id,
            SurfaceIdWrapper::InputMethodPopup(id) => *id,
        }
    }

    /// The kind of surface.
    pub fn kind(&self) -> (r: SurfaceKind)
        ensures
            r == self.kind_of(),
    {
        match self {
            SurfaceIdWrapper::LayerSurface(_) => SurfaceKind::LayerSurface,
            SurfaceIdWrapper::Window(_) => SurfaceKind::Window,
            SurfaceIdWrapper::Popup(_) => SurfaceKind::Popup,
            SurfaceIdWrapper::Dnd(_) => SurfaceKind::Dnd,
            SurfaceIdWrapper::InputMethodPopup(_) => SurfaceKind::InputMethodPopup,
        }
    }
}

} // verus!
