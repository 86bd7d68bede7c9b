use vstd::prelude::*;
use crate::surface::{SurfaceId, SurfaceIdWrapper};
use crate::table::Table;

verus! {

/// Layout limits, in whole logical pixels, used to measure a view.
#[derive(Debug, Clone, Copy, PartialEq, Eq, Structural)]
pub struct Limits {
    pub min_width: u32,
    pub min_height: u32,
    pub max_width: u32,
    pub max_height: u32,
}

/// A size in whole logical pixels.
#[derive(Debug, Clone, Copy, PartialEq, Eq, Structural)]
pub struct Size {
    pub width: u32,
    pub height: u32,
}

/// What is known of a surface whose size follows its content.
///
/// `dirty` means that the compositor has not yet confirmed `width` x `height`,
/// so the surface must not be redrawn.
#[derive(Debug, Clone, Copy, PartialEq, Eq, Structural)]
pub struct AutoSizeEntry {
    pub surface: SurfaceIdWrapper,
    pub width: u32,
    pub height: u32,
    pub limits: Limits,
    pub dirty: bool,
}

/// The size negotiation table: one entry per auto-sized surface, keyed by the
/// surface's identifier.
pub struct AutoSizeTable {
    pub entries: Table<AutoSizeEntry>,
}

/// Whether a configure from the compositor lets the surface be laid out and
/// redrawn in this pass.
pub open spec fn configure_accepts(m: Map<SurfaceId, AutoSizeEntry>, id: SurfaceId, w: u32, h: u32) -> bool {
    !m.contains_key(id) || (m[id].width == w && m[id].height == h)
}

/// The table after the compositor configured surface `id` to `w` x `h`:
/// a matching size settles the entry, any other size leaves it dirty.
pub open spec fn after_configure(m: Map<SurfaceId, AutoSizeEntry>, id: SurfaceId, w: u32, h: u32) -> Map<SurfaceId, AutoSizeEntry> {
    if !m.contains_key(id) {
        m
    } else {
        m.insert(id, AutoSizeEntry { dirty: !(m[id].width == w && m[id].height == h), ..m[id] })
    }
}

/// Whether, after a new measurement of `w` x `h` while the surface's logical
/// size is `lw` x `lh` (whole pixels), the entry is dirty.
pub open spec fn remeasured_dirty(e: AutoSizeEntry, w: u32, h: u32, lw: u64, lh: u64) -> bool {
    e.dirty || w as u64 != lw || h as u64 != lh || w != e.width || h != e.height
}

/// Whether the table lets a surface whose logical size is `lw` x `lh` (whole
/// pixels) be redrawn: it has no entry, or a settled one of that size.
pub open spec fn redraw_allowed(m: Map<SurfaceId, AutoSizeEntry>, id: SurfaceId, lw: u64, lh: u64) -> bool {
    !m.contains_key(id) || (!m[id].dirty && m[id].width as u64 == lw && m[id].height as u64 == lh)
}

impl AutoSizeTable {
    pub open spec fn view(&self) -> Map<SurfaceId, AutoSizeEntry> {
        self.entries@
    }

    /// Entries are filed under the identifier of their surface.
    pub open spec fn wf(&self) -> bool {
        &&& self.entries.wf()
        &&& forall|id: SurfaceId| #[trigger] self@.contains_key(id) ==> self@[id].surface.id_of() == id
    }

    pub fn new() -> (r: AutoSizeTable)
        ensures
            r.wf(),
            r@ == Map::<SurfaceId, AutoSizeEntry>::empty(),
    {
        AutoSizeTable { entries: Table::new() }
    }

    pub fn get(&self, id: SurfaceId) -> (r: Option<AutoSizeEntry>)
        requires
            self.wf(),
        ensures
            r == (if self@.contains_key(id) { Some(self@[id]) } else { None::<AutoSizeEntry> }),
    {
        self.entries.get(id)
    }

    /// Records the natural size measured for a surface that is being
    /// requested without an explicit size. The compositor has not confirmed
    /// it yet, so the entry starts dirty.
    pub fn record(&mut self, surface: SurfaceIdWrapper, width: u32, height: u32, limits: Limits)
        requires
            old(self).wf(),
        ensures
            final(self).wf(),
            final(self)@ == old(self)@.insert(
                surface.id_of(),
                AutoSizeEntry { surface, width, height, limits, dirty: true },
            ),
    {
        let id = surface.inner();
        self.entries.insert(id, AutoSizeEntry { surface, width, height, limits, dirty: true });
    }

    /// Takes a configure of `width` x `height` for surface `id` into account.
    /// Returns whether the surface may go on to layout and redraw.
    pub fn configure(&mut self, id: SurfaceId, width: u32, height: u32) -> (r: bool)
        requires
            old(self).wf(),
        ensures
            final(self).wf(),
            r == configure_accepts(old(self)@, id, width, height),
            final(self)@ == after_configure(old(self)@, id, width, height),
    {
        match self.entries.get(id) {
            None => true,
            Some(e) => {
                let matches = e.width == width && e.height == height;
                self.entries.insert(id, AutoSizeEntry { dirty: !matches, ..e });
                matches
            },
        }
    }

    /// Records a new measurement of surface `id`'s content, taken while its
    /// logical size is `lw` x `lh` whole pixels. Returns the size to ask the
    /// compositor for, when the entry is dirty afterwards.
    pub fn remeasure(&mut self, id: SurfaceId, width: u32, height: u32, lw: u64, lh: u64) -> (r: Option<(u32, u32)>)
        requires
            old(self).wf(),
        ensures
            final(self).wf(),
            !old(self)@.contains_key(id) ==> final(self)@ == old(self)@ && r is None,
            old(self)@.contains_key(id) ==> {
                let e = old(self)@[id];
                let dirty = remeasured_dirty(e, width, height, lw, lh);
                &&& final(self)@ == old(self)@.insert(id, AutoSizeEntry { width, height, dirty, ..e })
                &&& r == (if dirty { Some((width, height)) } else { None::<(u32, u32)> })
            },
    {
        match self.entries.get(id) {
            None => None,
            Some(e) => {
                let dirty = e.dirty || width as u64 != lw || height as u64 != lh || width != e.width
                    || height != e.height;
                self.entries.insert(id, AutoSizeEntry { width, height, dirty, ..e });
                if dirty {
                    Some((width, height))
                } else {
                    None
                }
            },
        }
    }

    /// Whether surface `id`, whose logical size is `lw` x `lh` whole pixels,
    /// may be redrawn.
    pub fn allows_redraw(&self, id: SurfaceId, lw: u64, lh: u64) -> (r: bool)
        requires
            self.wf(),
        ensures
            r == redraw_allowed(self@, id, lw, lh),
    {
        match self.entries.get(id) {
            None => true,
            Some(e) => !e.dirty && e.width as u64 == lw && e.height as u64 == lh,
        }
    }

    /// Forgets surface `id`.
    pub fn remove(&mut self, id: SurfaceId) -> (r: Option<AutoSizeEntry>)
        requires
            old(self).wf(),
        ensures
            final(self).wf(),
            final(self)@ == old(self)@.remove(id),
            r == (if old(self)@.contains_key(id) { Some(old(self)@[id]) } else { None::<AutoSizeEntry> }),
    {
        self.entries.remove(id)
    }
}

} // verus!
