use vstd::prelude::*;
use crate::autosize::{
    after_configure, configure_accepts, redraw_allowed, remeasured_dirty, AutoSizeEntry, AutoSizeTable,
};
use crate::command::{blocks, effects_of, is_update, Action, Effect, Executor, Host, Measurement, Program, Sink};
use crate::conversion::{cursor_icon, icon_of, CursorIcon, Interaction};
use crate::event::{
    is_for_surface, is_broadcast_event, partition_events, KeyboardEventVariant, PointerEventKind, SctkEvent,
};
use crate::presentation::{
    approx_eq, round_px, InterfaceState, Point, RedrawRequest, State, LOGICAL_UNIT, MAX_LOGICAL,
};
use crate::surface::{ObjectId, SurfaceId, SurfaceIdWrapper};
use crate::table::Table;

verus! {

/// The widget tree of a surface, which the platform keeps; a surface has one
/// from its first configure on.
#[derive(Debug, Clone, Copy, PartialEq, Eq, Structural)]
pub enum InterfaceSlot {
    Built,
}

/// Why a surface could not be registered.
#[derive(Debug, Clone, Copy, PartialEq, Eq, Structural)]
pub enum SurfaceError {
    /// The compositor object already stands for a live surface.
    HandleInUse,
    /// A live surface already has this identifier.
    IdInUse,
}

/// Why a drag icon was not created.
#[derive(Debug, Clone, Copy, PartialEq, Eq, Structural)]
pub enum DndIconError {
    /// The icon's view measured zero in some dimension.
    ZeroSize,
    /// The icon's view is wider or taller than the surface the drag started on.
    TooLarge,
    /// The object or identifier is already live.
    Surface(SurfaceError),
}

/// The size, in whole logical pixels, that a drag icon must fit in when the
/// surface the drag started on is unknown.
pub const DEFAULT_DND_BOUND: u64 = 1024;

/// Whether a drag icon measured `w` x `h` can be created, when the surface
/// the drag started on is `parent` (whole logical pixels) or unknown.
pub open spec fn dnd_icon_check(w: u32, h: u32, parent: Option<(u64, u64)>) -> Result<(), DndIconError> {
    let (pw, ph) = match parent {
        Some(p) => p,
        None => (DEFAULT_DND_BOUND, DEFAULT_DND_BOUND),
    };
    if w == 0 || h == 0 {
        Err(DndIconError::ZeroSize)
    } else if w as u64 > pw || h as u64 > ph {
        Err(DndIconError::TooLarge)
    } else {
        Ok(())
    }
}

/// Decides whether a drag icon measured `w` x `h` can be created: it must
/// not be empty, and must fit in the surface the drag started on, whose
/// logical size is `parent` (whole pixels, rounded down), or in a default
/// bound when that surface is unknown.
pub fn check_dnd_icon(w: u32, h: u32, parent: Option<(u64, u64)>) -> (r: Result<(), DndIconError>)
    ensures
        r == dnd_icon_check(w, h, parent),
{
    let (pw, ph) = match parent {
        Some(p) => p,
        None => (DEFAULT_DND_BOUND, DEFAULT_DND_BOUND),
    };
    if w == 0 || h == 0 {
        Err(DndIconError::ZeroSize)
    } else if w as u64 > pw || h as u64 > ph {
        Err(DndIconError::TooLarge)
    } else {
        Ok(())
    }
}

/// What a configure from the compositor led to.
#[derive(Debug, Clone, Copy, PartialEq, Eq, Structural)]
pub enum ConfigureOutcome {
    /// The object is not a live surface: the configure is dropped.
    Unknown,
    /// The surface is sized by its content and the size is not the one asked
    /// for: no redraw in this pass.
    Skipped,
    /// The surface may be laid out and redrawn.
    Accepted,
}

/// Why the loop woke up for a new batch.
#[derive(Debug, Clone, Copy, PartialEq, Eq, Structural)]
pub enum StartCause {
    Init,
    Poll,
    ResumeTimeReached,
    WaitCancelled,
}

/// How long the loop waits for events when no surface asked for a redraw.
pub const FALLBACK_WAIT_MS: u64 = 250;

/// How the loop waits for the next batch.
#[derive(Debug, Clone, Copy, PartialEq, Eq, Structural)]
pub enum ControlFlow {
    /// Run again at once.
    Poll,
    /// Wait for an event.
    Wait,
    /// Wait for an event, at most until this instant (milliseconds).
    WaitUntil(u64),
}

/// What the loop does when a batch of events ends.
#[derive(Debug, Clone, Copy, PartialEq, Eq, Structural)]
pub enum BatchPlan {
    /// Nothing arrived and no redraw is pending: do nothing.
    Idle,
    /// Messages wait but no surface is live: update the application without
    /// reconciling widget trees.
    NoSurfaces,
    /// Route the events to the live surfaces, update and redraw them.
    Surfaces,
}

/// A surface to redraw at the end of a pass, and how the loop should wait
/// after it.
#[derive(Debug, Clone, Copy, PartialEq, Eq, Structural)]
pub struct RedrawOrder {
    pub handle: ObjectId,
    pub id: SurfaceId,
    pub flow: ControlFlow,
}

/// A size in physical pixels.
#[derive(Debug, Clone, Copy, PartialEq, Eq, Structural)]
pub struct PhysicalSize {
    pub width: u64,
    pub height: u64,
}

/// What a redraw of one surface has to do besides drawing.
#[derive(Debug, Clone, Copy, PartialEq, Eq, Structural)]
pub struct RedrawPlan {
    pub id: SurfaceId,
    /// Ask the compositor for the next frame callback before submitting.
    pub request_frame: bool,
    /// The viewport changed: reconfigure the presentation surface to this
    /// physical size and lay the widget tree out again.
    pub reconfigure: Option<PhysicalSize>,
}

/// All the state the event loop keeps about the surfaces and the pending
/// work, owned by the loop thread.
pub struct Session<M> {
    /// Live surfaces by compositor object.
    pub surface_ids: Table<SurfaceIdWrapper>,
    /// Surfaces torn down in the current batch, kept so that late events
    /// still resolve.
    pub destroyed_surface_ids: Table<SurfaceIdWrapper>,
    /// Presentation state of each live surface.
    pub states: Table<State>,
    /// Widget trees of the live surfaces that have been configured.
    pub interfaces: Table<InterfaceSlot>,
    pub auto_size: AutoSizeTable,
    /// The object that has keyboard focus.
    pub kbd_surface_id: Option<ObjectId>,
    /// Application messages waiting for `update`, in arrival order.
    pub messages: Vec<M>,
    /// Compositor events of the current batch, in delivery order.
    pub sctk_events: Vec<SctkEvent>,
    /// Whether the current batch may redraw without new input.
    pub redraw_pending: bool,
    /// The application's scale factor, in 120ths.
    pub application_scale: u16,
    pub natural_scroll: bool,
    /// The pointer interaction that the platform cursor shows.
    pub mouse_interaction: Interaction,
}

/// The cursor position after a pointer event of kind `k`.
pub open spec fn cursor_after(k: PointerEventKind, old: Option<Point>) -> Option<Point> {
    match k {
        PointerEventKind::Enter { x, y } => Some(Point { x, y }),
        PointerEventKind::Motion { x, y } => Some(Point { x, y }),
        PointerEventKind::Leave => None,
        _ => old,
    }
}

/// The size negotiation table after the surfaces requested by `effects` that
/// are sized by their content were recorded, unconfirmed.
pub open spec fn recorded(m: Map<SurfaceId, AutoSizeEntry>, effects: Seq<Effect>) -> Map<SurfaceId, AutoSizeEntry>
    decreases effects.len(),
{
    if effects.len() == 0 {
        m
    } else {
        let prev = recorded(m, effects.drop_last());
        match effects.last() {
            Effect::Create { surface, width, height, limits, auto } => if auto {
                prev.insert(surface.id_of(), AutoSizeEntry { surface, width, height, limits, dirty: true })
            } else {
                prev
            },
            _ => prev,
        }
    }
}

/// Whether `new` is entry `old` after a new measurement of the content of a
/// surface whose presentation state is `st`.
pub open spec fn remeasured(old: AutoSizeEntry, new: AutoSizeEntry, st: State) -> bool {
    &&& new.surface == old.surface
    &&& new.limits == old.limits
    &&& new.dirty == remeasured_dirty(old, new.width, new.height, round_px(st.logical_width), round_px(st.logical_height))
}

/// Whether `m` is among the measurements of `log` from position `start` on.
pub open spec fn measured_after(log: Seq<Measurement>, start: int, m: Measurement) -> bool {
    exists|q: int| 0 <= start <= q < log.len() && log[q] == m
}

proof fn lemma_measured_grows(log: Seq<Measurement>, x: Measurement, start: int, m: Measurement)
    requires
        measured_after(log, start, m),
    ensures
        measured_after(log.push(x), start, m),
{
    let q = choose|q: int| 0 <= start <= q < log.len() && log[q] == m;
    assert(log.push(x)[q] == m);
}

/// Whether every identifier in `ids` is the identifier of a live object.
pub open spec fn ids_have_handles(ids: Set<SurfaceId>, handles: Map<ObjectId, SurfaceIdWrapper>) -> bool {
    forall|id: SurfaceId| #[trigger] ids.contains(id)
        ==> exists|h: ObjectId| #[trigger] handles.contains_key(h) && handles[h].id_of() == id
}

proof fn lemma_handles_subset(a: Set<SurfaceId>, b: Set<SurfaceId>, handles: Map<ObjectId, SurfaceIdWrapper>)
    requires
        ids_have_handles(a, handles),
        b.subset_of(a),
    ensures
        ids_have_handles(b, handles),
{
    assert forall|id: SurfaceId| #[trigger] b.contains(id)
        implies exists|h: ObjectId| #[trigger] handles.contains_key(h) && handles[h].id_of() == id by {
        assert(a.contains(id));
    };
}

/// Whether a batch that starts for this cause may redraw without new input.
pub open spec fn may_redraw(cause: StartCause) -> bool {
    cause is Init || cause is Poll || cause is ResumeTimeReached
}

/// Whether a surface needs its application updated after its widget tree
/// processed a batch.
pub open spec fn needs_update_spec(messages_pending: bool, interface_state: InterfaceState, first: bool, had_events: bool, viewport_changed: bool) -> bool {
    messages_pending || interface_state is Outdated || first || had_events || viewport_changed
}

/// How to wait after redrawing a surface whose widget tree reported
/// `interface_state`.
pub open spec fn control_flow_spec(interface_state: InterfaceState, needs_update: bool) -> ControlFlow {
    match interface_state {
        InterfaceState::Updated { redraw_request: Some(RedrawRequest::NextFrame) } => ControlFlow::Poll,
        InterfaceState::Updated { redraw_request: Some(RedrawRequest::At(t)) } => ControlFlow::WaitUntil(t),
        _ => if needs_update { ControlFlow::Poll } else { ControlFlow::Wait },
    }
}

/// How to wait after redrawing a surface whose widget tree reported
/// `interface_state`: a redraw request decides; without one, poll when the
/// application was updated and wait otherwise.
pub fn next_control_flow(interface_state: InterfaceState, needs_update: bool) -> (r: ControlFlow)
    ensures
        r == control_flow_spec(interface_state, needs_update),
{
    match interface_state {
        InterfaceState::Updated { redraw_request: Some(RedrawRequest::NextFrame) } => ControlFlow::Poll,
        InterfaceState::Updated { redraw_request: Some(RedrawRequest::At(t)) } => ControlFlow::WaitUntil(t),
        _ => if needs_update {
            ControlFlow::Poll
        } else {
            ControlFlow::Wait
        },
    }
}

/// How to wait when no surface was redrawn in a pass: a bounded wait from
/// `now` (milliseconds), so that the loop never blocks for good.
pub fn fallback_control_flow(now: u64) -> (r: ControlFlow)
    ensures
        r == ControlFlow::WaitUntil(if now <= u64::MAX - FALLBACK_WAIT_MS { (now + FALLBACK_WAIT_MS) as u64 } else { u64::MAX }),
{
    if now <= u64::MAX - FALLBACK_WAIT_MS {
        ControlFlow::WaitUntil(now + FALLBACK_WAIT_MS)
    } else {
        ControlFlow::WaitUntil(u64::MAX)
    }
}

/// The keyboard focus after event `e`.
pub open spec fn focus_after(e: SctkEvent, focus: Option<ObjectId>) -> Option<ObjectId> {
    match e {
        SctkEvent::KeyboardEvent { variant } => match variant {
            KeyboardEventVariant::Leave(h) => if focus == Some(h) { None } else { focus },
            KeyboardEventVariant::Enter(h) => Some(h),
            _ => focus,
        },
        _ => focus,
    }
}

impl<M> Session<M> {
    /// The well-formedness of a session: every live object has a state, no
    /// two live objects share an identifier, each state is well formed and
    /// filed under its own identifier, and widget trees exist only for live
    /// surfaces.
    pub open spec fn wf(&self) -> bool {
        &&& self.surface_ids.wf()
        &&& self.destroyed_surface_ids.wf()
        &&& self.states.wf()
        &&& self.interfaces.wf()
        &&& self.auto_size.wf()
        &&& self.application_scale > 0
        &&& forall|h: ObjectId| #[trigger] self.surface_ids@.contains_key(h)
            ==> self.states@.contains_key(self.surface_ids@[h].id_of())
        &&& forall|h1: ObjectId, h2: ObjectId|
            #[trigger] self.surface_ids@.contains_key(h1) && #[trigger] self.surface_ids@.contains_key(h2) && h1 != h2
                ==> self.surface_ids@[h1].id_of() != self.surface_ids@[h2].id_of()
        &&& forall|id: SurfaceId| #[trigger] self.states@.contains_key(id)
            ==> self.states@[id].wf() && self.states@[id].id.id_of() == id
                && self.states@[id].application_scale == self.application_scale
        &&& forall|id: SurfaceId| #[trigger] self.interfaces@.contains_key(id) ==> self.states@.contains_key(id)
        &&& ids_have_handles(self.states@.dom(), self.surface_ids@)
    }

    /// Whether identifier `id` appears in any of the maps of live surfaces.
    pub open spec fn is_live(&self, id: SurfaceId) -> bool {
        ||| exists|h: ObjectId| #[trigger] self.surface_ids@.contains_key(h) && self.surface_ids@[h].id_of() == id
        ||| self.states@.contains_key(id)
        ||| self.interfaces@.contains_key(id)
        ||| self.auto_size@.contains_key(id)
    }

    /// An empty session for an application whose scale factor is
    /// `application_scale` 120ths.
    pub fn new(application_scale: u16, natural_scroll: bool) -> (r: Session<M>)
        requires
            application_scale > 0,
        ensures
            r.wf(),
            r.surface_ids@.is_empty(),
            r.states@.is_empty(),
            r.interfaces@.is_empty(),
            r.auto_size@.is_empty(),
            r.destroyed_surface_ids@.is_empty(),
            r.kbd_surface_id is None,
            r.messages@.len() == 0,
            r.sctk_events@.len() == 0,
            !r.redraw_pending,
            r.application_scale == application_scale,
            r.natural_scroll == natural_scroll,
            r.mouse_interaction == Interaction::Idle,
    {
        Session {
            surface_ids: Table::new(),
            destroyed_surface_ids: Table::new(),
            states: Table::new(),
            interfaces: Table::new(),
            auto_size: AutoSizeTable::new(),
            kbd_surface_id: None,
            messages: Vec::new(),
            sctk_events: Vec::new(),
            redraw_pending: false,
            application_scale,
            natural_scroll,
            mouse_interaction: Interaction::Idle,
        }
    }

    /// Registers a surface that the compositor reports as created, with a
    /// fresh presentation state. An object or identifier that is already
    /// live is refused and nothing changes.
    pub fn surface_created(&mut self, handle: ObjectId, surface: SurfaceIdWrapper) -> (r: Result<(), SurfaceError>)
        requires
            old(self).wf(),
        ensures
            final(self).wf(),
            old(self).surface_ids@.contains_key(handle) ==> r == Err::<(), SurfaceError>(SurfaceError::HandleInUse),
            !old(self).surface_ids@.contains_key(handle) && old(self).states@.contains_key(surface.id_of())
                ==> r == Err::<(), SurfaceError>(SurfaceError::IdInUse),
            !old(self).surface_ids@.contains_key(handle) && !old(self).states@.contains_key(surface.id_of()) ==> r is Ok,
            r is Err ==> final(self).surface_ids@ == old(self).surface_ids@ && final(self).states@ == old(self).states@,
            r is Ok ==> {
                &&& !old(self).surface_ids@.contains_key(handle)
                &&& !old(self).states@.contains_key(surface.id_of())
                &&& final(self).surface_ids@ == old(self).surface_ids@.insert(handle, surface)
                &&& final(self).states@.dom() == old(self).states@.dom().insert(surface.id_of())
                &&& final(self).states@[surface.id_of()] == State::spec_new(surface, old(self).application_scale, old(self).natural_scroll)
                &&& forall|id: SurfaceId| id != surface.id_of() && #[trigger] old(self).states@.contains_key(id)
                    ==> final(self).states@[id] == old(self).states@[id]
            },
            final(self).interfaces@ == old(self).interfaces@,
            final(self).auto_size@ == old(self).auto_size@,
            final(self).destroyed_surface_ids@ == old(self).destroyed_surface_ids@,
            final(self).kbd_surface_id == old(self).kbd_surface_id,
            final(self).messages@ == old(self).messages@,
            final(self).sctk_events@ == old(self).sctk_events@,
            final(self).redraw_pending == old(self).redraw_pending,
            final(self).application_scale == old(self).application_scale,
            final(self).natural_scroll == old(self).natural_scroll,
    {
        if self.surface_ids.contains_key(handle) {
            return Err(SurfaceError::HandleInUse);
        }
        let id = surface.inner();
        if self.states.contains_key(id) {
            return Err(SurfaceError::IdInUse);
        }
        let state = State::new(surface, self.application_scale, self.natural_scroll);
        self.surface_ids.insert(handle, surface);
        self.states.insert(id, state);
        proof {
            assert forall|h1: ObjectId, h2: ObjectId|
                #[trigger] self.surface_ids@.contains_key(h1) && #[trigger] self.surface_ids@.contains_key(h2) && h1 != h2
                    implies self.surface_ids@[h1].id_of() != self.surface_ids@[h2].id_of() by {
                if h1 != handle {
                    assert(old(self).surface_ids@.contains_key(h1));
                }
                if h2 != handle {
                    assert(old(self).surface_ids@.contains_key(h2));
                }
            };
            assert forall|h1: ObjectId| #[trigger] self.surface_ids@.contains_key(h1)
                implies self.states@.contains_key(self.surface_ids@[h1].id_of()) by {
                if h1 != handle {
                    assert(old(self).surface_ids@.contains_key(h1));
                }
            };
            assert forall|i: SurfaceId| #[trigger] self.states@.contains_key(i)
                implies self.states@[i].wf() && self.states@[i].id.id_of() == i
                    && self.states@[i].application_scale == self.application_scale by {
                if i != id {
                    assert(old(self).states@.contains_key(i));
                }
            };
            assert forall|i: SurfaceId| #[trigger] self.interfaces@.contains_key(i) implies self.states@.contains_key(i) by {
                assert(old(self).interfaces@.contains_key(i));
            };
            assert forall|i: SurfaceId| #[trigger] self.states@.dom().contains(i)
                implies exists|h: ObjectId| #[trigger] self.surface_ids@.contains_key(h) && self.surface_ids@[h].id_of() == i by {
                if i == id {
                    assert(self.surface_ids@.contains_key(handle));
                } else {
                    assert(old(self).states@.dom().contains(i));
                    let h = choose|h: ObjectId| #[trigger] old(self).surface_ids@.contains_key(h) && old(self).surface_ids@[h].id_of() == i;
                    assert(self.surface_ids@.contains_key(h));
                    assert(self.surface_ids@[h].id_of() == i);
                }
            };
            assert(ids_have_handles(self.states@.dom(), self.surface_ids@));
        }
        Ok(())
    }

    /// Removes the surface whose object is `handle` from every map of live
    /// surfaces and from keyboard focus, and remembers the object as
    /// destroyed until the end of the batch.
    fn teardown(&mut self, handle: ObjectId) -> (r: Option<SurfaceIdWrapper>)
        requires
            old(self).wf(),
        ensures
            final(self).wf(),
            r == (if old(self).surface_ids@.contains_key(handle) {
                Some(old(self).surface_ids@[handle])
            } else {
                None::<SurfaceIdWrapper>
            }),
            r is None ==> {
                &&& final(self).surface_ids@ == old(self).surface_ids@
                &&& final(self).states@ == old(self).states@
                &&& final(self).interfaces@ == old(self).interfaces@
                &&& final(self).auto_size@ == old(self).auto_size@
                &&& final(self).destroyed_surface_ids@ == old(self).destroyed_surface_ids@
                &&& final(self).kbd_surface_id == old(self).kbd_surface_id
            },
            r matches Some(s) ==> {
                &&& final(self).surface_ids@ == old(self).surface_ids@.remove(handle)
                &&& final(self).states@ == old(self).states@.remove(s.id_of())
                &&& final(self).interfaces@ == old(self).interfaces@.remove(s.id_of())
                &&& final(self).auto_size@ == old(self).auto_size@.remove(s.id_of())
                &&& !final(self).is_live(s.id_of())
                &&& final(self).destroyed_surface_ids@ == old(self).destroyed_surface_ids@.insert(handle, s)
                &&& final(self).kbd_surface_id == (if old(self).kbd_surface_id == Some(handle) {
                    None::<ObjectId>
                } else {
                    old(self).kbd_surface_id
                })
            },
            final(self).messages@ == old(self).messages@,
            final(self).sctk_events@ == old(self).sctk_events@,
            final(self).redraw_pending == old(self).redraw_pending,
            final(self).application_scale == old(self).application_scale,
            final(self).natural_scroll == old(self).natural_scroll,
    {
        match self.surface_ids.remove(handle) {
            None => {
                proof {
                    assert(self.surface_ids@ =~= old(self).surface_ids@);
                }
                None
            },
            Some(surface) => {
                let id = surface.inner();
                self.auto_size.remove(id);
                self.interfaces.remove(id);
                self.states.remove(id);
                if self.kbd_surface_id == Some(handle) {
                    self.kbd_surface_id = None;
                }
                self.destroyed_surface_ids.insert(handle, surface);
                proof {
                    assert forall|h1: ObjectId| #[trigger] self.surface_ids@.contains_key(h1)
                        implies self.states@.contains_key(self.surface_ids@[h1].id_of()) by {
                        assert(old(self).surface_ids@.contains_key(h1));
                        assert(old(self).surface_ids@.contains_key(handle));
                        assert(h1 != handle);
                    };
                    assert forall|i: SurfaceId| #[trigger] self.interfaces@.contains_key(i) implies self.states@.contains_key(i) by {
                        assert(old(self).interfaces@.contains_key(i));
                    };
                    assert forall|i: SurfaceId| #[trigger] self.states@.dom().contains(i)
                        implies exists|h: ObjectId| #[trigger] self.surface_ids@.contains_key(h) && self.surface_ids@[h].id_of() == i by {
                        assert(old(self).states@.dom().contains(i));
                        let h = choose|h: ObjectId| #[trigger] old(self).surface_ids@.contains_key(h) && old(self).surface_ids@[h].id_of() == i;
                        assert(h != handle);
                        assert(self.surface_ids@.contains_key(h));
                        assert(self.surface_ids@[h].id_of() == i);
                    };
                    assert(ids_have_handles(self.states@.dom(), self.surface_ids@));
                    assert forall|h: ObjectId| #[trigger] self.surface_ids@.contains_key(h) implies self.surface_ids@[h].id_of() != id by {
                        assert(old(self).surface_ids@.contains_key(h));
                        assert(old(self).surface_ids@.contains_key(handle));
                    };
                }
                Some(surface)
            },
        }
    }

    /// Tears down the surface whose object is `handle`, which the compositor
    /// reports as closed: it leaves every map of live surfaces (and keyboard
    /// focus, if it had it) before the application's close message for it is
    /// queued. The object is remembered as destroyed until the end of the
    /// batch. Returns the surface, or `None` for an object that is not live,
    /// in which case nothing changes.
    pub fn surface_closed<P: Program<M>>(&mut self, handle: ObjectId, host: &mut Host<M, P>) -> (r: Option<SurfaceIdWrapper>)
        requires
            old(self).wf(),
        ensures
            final(self).wf(),
            r == (if old(self).surface_ids@.contains_key(handle) {
                Some(old(self).surface_ids@[handle])
            } else {
                None::<SurfaceIdWrapper>
            }),
            r is None ==> {
                &&& final(self).surface_ids@ == old(self).surface_ids@
                &&& final(self).states@ == old(self).states@
                &&& final(self).interfaces@ == old(self).interfaces@
                &&& final(self).auto_size@ == old(self).auto_size@
                &&& final(self).destroyed_surface_ids@ == old(self).destroyed_surface_ids@
                &&& final(self).kbd_surface_id == old(self).kbd_surface_id
                &&& final(self).messages@ == old(self).messages@
                &&& final(host).closes() == old(host).closes()
            },
            r matches Some(s) ==> {
                &&& final(self).surface_ids@ == old(self).surface_ids@.remove(handle)
                &&& final(self).states@ == old(self).states@.remove(s.id_of())
                &&& final(self).interfaces@ == old(self).interfaces@.remove(s.id_of())
                &&& final(self).auto_size@ == old(self).auto_size@.remove(s.id_of())
                &&& !final(self).is_live(s.id_of())
                &&& final(self).destroyed_surface_ids@ == old(self).destroyed_surface_ids@.insert(handle, s)
                &&& final(self).kbd_surface_id == (if old(self).kbd_surface_id == Some(handle) {
                    None::<ObjectId>
                } else {
                    old(self).kbd_surface_id
                })
                &&& final(self).messages@ == old(self).messages@.push(final(self).messages@.last())
                &&& final(host).closes() == old(host).closes().push((s.id_of(), final(self).messages@.last()))
            },
            final(host).received() == old(host).received(),
            final(host).commands() == old(host).commands(),
            final(host).measured() == old(host).measured(),
            final(self).sctk_events@ == old(self).sctk_events@,
            final(self).redraw_pending == old(self).redraw_pending,
            final(self).application_scale == old(self).application_scale,
            final(self).natural_scroll == old(self).natural_scroll,
    {
        let r = self.teardown(handle);
        if let Some(surface) = r {
            let m = host.close_requested(surface.inner());
            self.messages.push(m);
        }
        r
    }

    /// Takes note of a compositor event of the current batch. Pointer events
    /// move the cursor of their surface at once, so that hit-testing in the
    /// same pass sees it; keyboard enter gives the focus, and a leave of the
    /// focused object takes it away; modifier changes go to the focused
    /// surface. An event for an object that is not live changes no surface.
    pub fn observe_event(&mut self, e: SctkEvent)
        requires
            old(self).wf(),
        ensures
            final(self).wf(),
            final(self).sctk_events@ == old(self).sctk_events@.push(e),
            final(self).kbd_surface_id == focus_after(e, old(self).kbd_surface_id),
            final(self).states@ == old(self).states_after(e),
            final(self).surface_ids@ == old(self).surface_ids@,
            final(self).interfaces@ == old(self).interfaces@,
            final(self).auto_size@ == old(self).auto_size@,
            final(self).destroyed_surface_ids@ == old(self).destroyed_surface_ids@,
            final(self).messages@ == old(self).messages@,
            final(self).redraw_pending == old(self).redraw_pending,
            final(self).application_scale == old(self).application_scale,
            final(self).natural_scroll == old(self).natural_scroll,
    {
        self.sctk_events.push(e);
        match e {
            SctkEvent::PointerEvent { surface, kind } => {
                if let Some(sid) = self.surface_ids.get(surface) {
                    let id = sid.inner();
                    if let Some(mut state) = self.states.get(id) {
                        match kind {
                            PointerEventKind::Enter { x, y } => state.set_cursor_position(Some(Point { x, y })),
                            PointerEventKind::Motion { x, y } => state.set_cursor_position(Some(Point { x, y })),
                            PointerEventKind::Leave => state.set_cursor_position(None),
                            _ => {},
                        }
                        self.states.insert(id, state);
                        proof {
                            assert(self.states@.dom() =~= old(self).states@.dom());
                        }
                    }
                }
            },
            SctkEvent::KeyboardEvent { variant } => match variant {
                KeyboardEventVariant::Leave(h) => {
                    if self.kbd_surface_id == Some(h) {
                        self.kbd_surface_id = None;
                    }
                },
                KeyboardEventVariant::Enter(h) => {
                    self.kbd_surface_id = Some(h);
                },
                KeyboardEventVariant::Modifiers(mods) => {
                    if let Some(h) = self.kbd_surface_id {
                        if let Some(sid) = self.surface_ids.get(h) {
                            let id = sid.inner();
                            if let Some(mut state) = self.states.get(id) {
                                state.set_modifiers(mods);
                                self.states.insert(id, state);
                                proof {
                                    assert(self.states@.dom() =~= old(self).states@.dom());
                                }
                            }
                        }
                    }
                },
                _ => {},
            },
            _ => {},
        }
        proof {
            assert(self.states@ =~= old(self).states_after(e));
        }
    }

    /// The presentation states after event `e` was observed.
    pub open spec fn states_after(&self, e: SctkEvent) -> Map<SurfaceId, State> {
        match e {
            SctkEvent::PointerEvent { surface, kind } => if self.surface_ids@.contains_key(surface) {
                let id = self.surface_ids@[surface].id_of();
                self.states@.insert(id, State { cursor_position: cursor_after(kind, self.states@[id].cursor_position), ..self.states@[id] })
            } else {
                self.states@
            },
            SctkEvent::KeyboardEvent { variant: KeyboardEventVariant::Modifiers(mods) } => match self.kbd_surface_id {
                Some(h) => if self.surface_ids@.contains_key(h) {
                    let id = self.surface_ids@[h].id_of();
                    self.states@.insert(id, State { modifiers: mods, ..self.states@[id] })
                } else {
                    self.states@
                },
                None => self.states@,
            },
            _ => self.states@,
        }
    }

    /// Handles a configure (or size event) of `width` x `height` for the
    /// surface whose object is `handle`. The first configure gives the surface
    /// its widget tree. The logical size follows the configure; a surface
    /// sized by its content settles when the size is the one it asked for and
    /// otherwise stays unsettled, and is not redrawn in this pass.
    pub fn configure(&mut self, handle: ObjectId, width: u32, height: u32, first: bool) -> (r: ConfigureOutcome)
        requires
            old(self).wf(),
        ensures
            final(self).wf(),
            !old(self).surface_ids@.contains_key(handle) ==> {
                &&& r == ConfigureOutcome::Unknown
                &&& final(self).states@ == old(self).states@
                &&& final(self).interfaces@ == old(self).interfaces@
                &&& final(self).auto_size@ == old(self).auto_size@
            },
            old(self).surface_ids@.contains_key(handle) ==> {
                let id = old(self).surface_ids@[handle].id_of();
                let st = old(self).states@[id];
                let w = (width as int * LOGICAL_UNIT) as u64;
                let h = (height as int * LOGICAL_UNIT) as u64;
                &&& r == (if configure_accepts(old(self).auto_size@, id, width, height) {
                    ConfigureOutcome::Accepted
                } else {
                    ConfigureOutcome::Skipped
                })
                &&& final(self).auto_size@ == after_configure(old(self).auto_size@, id, width, height)
                &&& final(self).interfaces@ == (if first {
                    old(self).interfaces@.insert(id, InterfaceSlot::Built)
                } else {
                    old(self).interfaces@
                })
                &&& final(self).states@ == old(self).states@.insert(id, st.with_logical_size(w, h))
            },
            final(self).surface_ids@ == old(self).surface_ids@,
            final(self).destroyed_surface_ids@ == old(self).destroyed_surface_ids@,
            final(self).kbd_surface_id == old(self).kbd_surface_id,
            final(self).messages@ == old(self).messages@,
            final(self).sctk_events@ == old(self).sctk_events@,
            final(self).redraw_pending == old(self).redraw_pending,
            final(self).application_scale == old(self).application_scale,
            final(self).natural_scroll == old(self).natural_scroll,
    {
        let sid = match self.surface_ids.get(handle) {
            Some(s) => s,
            None => return ConfigureOutcome::Unknown,
        };
        let id = sid.inner();
        let mut state = match self.states.get(id) {
            Some(s) => s,
            None => return ConfigureOutcome::Unknown,
        };
        if first {
            self.interfaces.insert(id, InterfaceSlot::Built);
        }
        let accepted = self.auto_size.configure(id, width, height);
        proof {
            assert(width as u64 * 1024 <= MAX_LOGICAL);
            assert(height as u64 * 1024 <= MAX_LOGICAL);
        }
        state.set_logical_size(width as u64 * 1024, height as u64 * 1024);
        self.states.insert(id, state);
        proof {
            assert(self.states@.dom() =~= old(self).states@.dom());
        }
        if accepted {
            ConfigureOutcome::Accepted
        } else {
            ConfigureOutcome::Skipped
        }
    }

    /// Applies a new surface scale, in 120ths, to the surface whose object is
    /// `handle`; an object that is not live is ignored.
    pub fn scale_factor_changed(&mut self, handle: ObjectId, scale: u16)
        requires
            old(self).wf(),
        ensures
            final(self).wf(),
            !old(self).surface_ids@.contains_key(handle) ==> final(self).states@ == old(self).states@,
            old(self).surface_ids@.contains_key(handle) ==> {
                let id = old(self).surface_ids@[handle].id_of();
                let st = old(self).states@[id];
                &&& scale == st.surface_scale ==> final(self).states@ == old(self).states@
                &&& scale != st.surface_scale ==> final(self).states@ == old(self).states@.insert(id, State {
                    surface_scale: scale,
                    physical_width: crate::presentation::to_physical(st.logical_width, st.application_scale, scale),
                    physical_height: crate::presentation::to_physical(st.logical_height, st.application_scale, scale),
                    viewport_changed: true,
                    ..st
                })
            },
            final(self).surface_ids@ == old(self).surface_ids@,
            final(self).interfaces@ == old(self).interfaces@,
            final(self).auto_size@ == old(self).auto_size@,
            final(self).destroyed_surface_ids@ == old(self).destroyed_surface_ids@,
            final(self).kbd_surface_id == old(self).kbd_surface_id,
            final(self).messages@ == old(self).messages@,
            final(self).sctk_events@ == old(self).sctk_events@,
            final(self).redraw_pending == old(self).redraw_pending,
            final(self).application_scale == old(self).application_scale,
            final(self).natural_scroll == old(self).natural_scroll,
    {
        if let Some(sid) = self.surface_ids.get(handle) {
            let id = sid.inner();
            if let Some(mut state) = self.states.get(id) {
                state.set_scale_factor(scale);
                self.states.insert(id, state);
                proof {
                    assert(self.states@.dom() =~= old(self).states@.dom());
                }
                proof {
                    if scale == old(self).states@[id].surface_scale {
                        assert(self.states@ =~= old(self).states@);
                    }
                }
            }
        }
    }

    /// Records that the compositor has a frame callback ready for the surface
    /// whose object is `handle`; an object that is not live is ignored.
    pub fn frame(&mut self, handle: ObjectId)
        requires
            old(self).wf(),
        ensures
            final(self).wf(),
            !old(self).surface_ids@.contains_key(handle) ==> final(self).states@ == old(self).states@,
            old(self).surface_ids@.contains_key(handle) ==> {
                let id = old(self).surface_ids@[handle].id_of();
                final(self).states@ == old(self).states@.insert(id, State { frame: true, ..old(self).states@[id] })
            },
            final(self).surface_ids@ == old(self).surface_ids@,
            final(self).interfaces@ == old(self).interfaces@,
            final(self).auto_size@ == old(self).auto_size@,
            final(self).destroyed_surface_ids@ == old(self).destroyed_surface_ids@,
            final(self).kbd_surface_id == old(self).kbd_surface_id,
            final(self).messages@ == old(self).messages@,
            final(self).sctk_events@ == old(self).sctk_events@,
            final(self).redraw_pending == old(self).redraw_pending,
            final(self).application_scale == old(self).application_scale,
            final(self).natural_scroll == old(self).natural_scroll,
    {
        if let Some(sid) = self.surface_ids.get(handle) {
            let id = sid.inner();
            if let Some(mut state) = self.states.get(id) {
                state.set_frame(true);
                self.states.insert(id, state);
                proof {
                    assert(self.states@.dom() =~= old(self).states@.dom());
                }
            }
        }
    }

    /// Starts a new batch of events.
    pub fn new_events(&mut self, cause: StartCause)
        ensures
            *final(self) == (Session { redraw_pending: may_redraw(cause), ..*old(self) }),
    {
        self.redraw_pending = match cause {
            StartCause::Init | StartCause::Poll | StartCause::ResumeTimeReached => true,
            StartCause::WaitCancelled => false,
        };
    }

    /// Queues an application message behind the ones already waiting.
    pub fn queue_message(&mut self, message: M)
        ensures
            final(self).messages@ == old(self).messages@.push(message),
            *final(self) == (Session { messages: final(self).messages, ..*old(self) }),
    {
        self.messages.push(message);
    }

    /// Whether the batch that just ended has nothing to do: no events, no
    /// messages and no redraw pending.
    pub fn is_idle(&self) -> (r: bool)
        ensures
            r == (!self.redraw_pending && self.sctk_events@.len() == 0 && self.messages@.len() == 0),
    {
        !self.redraw_pending && self.sctk_events.len() == 0 && self.messages.len() == 0
    }

    /// Takes the events for the subscriptions (output changes, input method)
    /// out of the batch, in delivery order; the rest stay, in their order.
    pub fn take_broadcast_events(&mut self) -> (r: Vec<SctkEvent>)
        ensures
            r@ == old(self).sctk_events@.filter(|e: SctkEvent| is_broadcast_event(e)),
            final(self).sctk_events@ == old(self).sctk_events@.filter(|e: SctkEvent| !is_broadcast_event(e)),
            *final(self) == (Session { sctk_events: final(self).sctk_events, ..*old(self) }),
    {
        let mut events: Vec<SctkEvent> = Vec::new();
        core::mem::swap(&mut events, &mut self.sctk_events);
        let (taken, rest) = partition_events(events, 0, false, true);
        self.sctk_events = rest;
        proof {
            let ev = old(self).sctk_events@;
            assert(ev.filter(|e: SctkEvent| crate::event::picks(e, 0, false, true))
                =~= ev.filter(|e: SctkEvent| is_broadcast_event(e))) by {
                assert((|e: SctkEvent| crate::event::picks(e, 0, false, true))
                    =~= (|e: SctkEvent| is_broadcast_event(e)));
            };
            assert(ev.filter(|e: SctkEvent| !crate::event::picks(e, 0, false, true))
                =~= ev.filter(|e: SctkEvent| !is_broadcast_event(e))) by {
                assert((|e: SctkEvent| !crate::event::picks(e, 0, false, true))
                    =~= (|e: SctkEvent| !is_broadcast_event(e)));
            };
        }
        taken
    }

    /// Takes the events of the batch that are for the surface whose object is
    /// `handle` (keyboard events go to the focused surface), in delivery
    /// order; the rest stay, in their order.
    pub fn take_events_for(&mut self, handle: ObjectId) -> (r: Vec<SctkEvent>)
        ensures
            r@ == old(self).sctk_events@.filter(|e: SctkEvent| is_for_surface(e, handle, old(self).kbd_surface_id == Some(handle))),
            final(self).sctk_events@ == old(self).sctk_events@.filter(|e: SctkEvent| !is_for_surface(e, handle, old(self).kbd_surface_id == Some(handle))),
            *final(self) == (Session { sctk_events: final(self).sctk_events, ..*old(self) }),
    {
        let focus = self.kbd_surface_id == Some(handle);
        let mut events: Vec<SctkEvent> = Vec::new();
        core::mem::swap(&mut events, &mut self.sctk_events);
        let (taken, rest) = partition_events(events, handle, focus, false);
        self.sctk_events = rest;
        proof {
            let ev = old(self).sctk_events@;
            assert(ev.filter(|e: SctkEvent| crate::event::picks(e, handle, focus, false))
                =~= ev.filter(|e: SctkEvent| is_for_surface(e, handle, focus))) by {
                assert((|e: SctkEvent| crate::event::picks(e, handle, focus, false))
                    =~= (|e: SctkEvent| is_for_surface(e, handle, focus)));
            };
            assert(ev.filter(|e: SctkEvent| !crate::event::picks(e, handle, focus, false))
                =~= ev.filter(|e: SctkEvent| !is_for_surface(e, handle, focus))) by {
                assert((|e: SctkEvent| !crate::event::picks(e, handle, focus, false))
                    =~= (|e: SctkEvent| !is_for_surface(e, handle, focus)));
            };
        }
        taken
    }

    /// The surface that object `handle` stands for, live or torn down in this
    /// batch.
    pub fn resolve(&self, handle: ObjectId) -> (r: Option<SurfaceIdWrapper>)
        requires
            self.wf(),
        ensures
            r == (if self.surface_ids@.contains_key(handle) {
                Some(self.surface_ids@[handle])
            } else if self.destroyed_surface_ids@.contains_key(handle) {
                Some(self.destroyed_surface_ids@[handle])
            } else {
                None::<SurfaceIdWrapper>
            }),
    {
        match self.surface_ids.get(handle) {
            Some(s) => Some(s),
            None => self.destroyed_surface_ids.get(handle),
        }
    }

    /// Records what the widget tree of the surface whose object is `handle`
    /// reported after processing its events of the batch, and decides whether
    /// the application needs an update. When it does, or a redraw is pending,
    /// the surface is marked for redraw (needed when it needs an update or has
    /// a frame callback ready) and its first configure counts as handled.
    /// An object that is not live changes nothing and needs no update.
    pub fn record_interface_update(&mut self, handle: ObjectId, interface_state: InterfaceState, had_events: bool) -> (r: bool)
        requires
            old(self).wf(),
        ensures
            final(self).wf(),
            !old(self).surface_ids@.contains_key(handle) ==> !r && final(self).states@ == old(self).states@,
            old(self).surface_ids@.contains_key(handle) ==> {
                let id = old(self).surface_ids@[handle].id_of();
                let st = old(self).states@[id];
                let nu = needs_update_spec(old(self).messages@.len() > 0, interface_state, st.first, had_events, st.viewport_changed);
                &&& r == nu
                &&& final(self).states@ == old(self).states@.insert(id, if old(self).redraw_pending || nu {
                    State { interface_state, needs_redraw: st.frame || nu, first: false, ..st }
                } else {
                    State { interface_state, ..st }
                })
            },
            final(self).surface_ids@ == old(self).surface_ids@,
            final(self).interfaces@ == old(self).interfaces@,
            final(self).auto_size@ == old(self).auto_size@,
            final(self).destroyed_surface_ids@ == old(self).destroyed_surface_ids@,
            final(self).kbd_surface_id == old(self).kbd_surface_id,
            final(self).messages@ == old(self).messages@,
            final(self).sctk_events@ == old(self).sctk_events@,
            final(self).redraw_pending == old(self).redraw_pending,
            final(self).application_scale == old(self).application_scale,
            final(self).natural_scroll == old(self).natural_scroll,
    {
        let sid = match self.surface_ids.get(handle) {
            Some(s) => s,
            None => return false,
        };
        let id = sid.inner();
        let mut state = match self.states.get(id) {
            Some(s) => s,
            None => return false,
        };
        state.interface_state = interface_state;
        let needs_update = self.messages.len() > 0 || matches!(interface_state, InterfaceState::Outdated)
            || state.first || had_events || state.viewport_changed;
        if self.redraw_pending || needs_update {
            state.needs_redraw = state.frame || needs_update;
            state.first = false;
        }
        self.states.insert(id, state);
        proof {
            assert(self.states@.dom() =~= old(self).states@.dom());
        }
        needs_update
    }

    /// Picks the surfaces to redraw now, in the order in which they were
    /// created: those marked for redraw whose size negotiation, if any, has
    /// settled at their current logical size. Their mark is cleared; every
    /// other surface is left as it was, its mark included.
    pub fn surfaces_to_redraw(&mut self) -> (r: Vec<SurfaceId>)
        requires
            old(self).wf(),
        ensures
            final(self).wf(),
            r@.no_duplicates(),
            forall|k: int| 0 <= k < r@.len() ==> old(self).redraw_due(#[trigger] r@[k]),
            forall|id: SurfaceId| #[trigger] old(self).redraw_due(id) ==> r@.contains(id),
            final(self).states@.dom() == old(self).states@.dom(),
            forall|id: SurfaceId| #[trigger] old(self).states@.contains_key(id) ==> final(self).states@[id] == old(self).picked(id),
            final(self).surface_ids@ == old(self).surface_ids@,
            final(self).interfaces@ == old(self).interfaces@,
            final(self).auto_size@ == old(self).auto_size@,
            final(self).destroyed_surface_ids@ == old(self).destroyed_surface_ids@,
            final(self).kbd_surface_id == old(self).kbd_surface_id,
            final(self).messages@ == old(self).messages@,
            final(self).sctk_events@ == old(self).sctk_events@,
            final(self).redraw_pending == old(self).redraw_pending,
            final(self).application_scale == old(self).application_scale,
            final(self).natural_scroll == old(self).natural_scroll,
    {
        let mut out: Vec<SurfaceId> = Vec::new();
        let n = self.states.len();
        let mut i: usize = 0;
        let ghost ks = self.states.key_seq();
        proof {
            old(self).states.lemma_keys();
        }
        while i < n
            invariant
                self.wf(),
                n == ks.len(),
                i <= n,
                self.states.key_seq() == ks,
                ks.no_duplicates(),
                forall|id: SurfaceId| old(self).states@.contains_key(id) <==> ks.contains(id),
                self.surface_ids@ == old(self).surface_ids@,
                self.interfaces@ == old(self).interfaces@,
                self.auto_size@ == old(self).auto_size@,
                self.destroyed_surface_ids@ == old(self).destroyed_surface_ids@,
                self.kbd_surface_id == old(self).kbd_surface_id,
                self.messages@ == old(self).messages@,
                self.sctk_events@ == old(self).sctk_events@,
                self.redraw_pending == old(self).redraw_pending,
                self.application_scale == old(self).application_scale,
                self.natural_scroll == old(self).natural_scroll,
                self.states@.dom() == old(self).states@.dom(),
                forall|k: int| 0 <= k < out@.len() ==> old(self).redraw_due(#[trigger] out@[k]),
                out@.no_duplicates(),
                forall|k: int| 0 <= k < out@.len() ==> exists|j: int| 0 <= j < i && ks[j] == #[trigger] out@[k],
                forall|j: int| 0 <= j < i ==> old(self).redraw_due(#[trigger] ks[j]) ==> out@.contains(ks[j]),
                forall|j: int| 0 <= j < i ==> self.states@[#[trigger] ks[j]] == old(self).picked(ks[j]),
                forall|j: int| i <= j < n ==> self.states@[#[trigger] ks[j]] == old(self).states@[ks[j]],
            decreases n - i,
        {
            let id = self.states.key_at(i);
            let state = self.states.get(id).unwrap();
            let (lw, lh) = state.logical_size_px();
            if state.needs_redraw() && self.auto_size.allows_redraw(id, lw, lh) {
                let mut st = state;
                st.set_needs_redraw(false);
                let ghost out_before = out@;
                let ghost states_before = self.states@;
                self.states.insert(id, st);
                out.push(id);
                proof {
                    assert(self.states@.dom() =~= old(self).states@.dom());
                    assert(out@ == out_before.push(id));
                    assert(ks[i as int] == id);
                    assert forall|k: int| 0 <= k < out_before.len() implies #[trigger] out_before[k] != id by {
                        let j = choose|j: int| 0 <= j < i && ks[j] == out_before[k];
                        assert(ks[j] != ks[i as int]);
                    };
                    assert forall|k: int| 0 <= k < out@.len() implies exists|j: int| 0 <= j < i + 1 && ks[j] == #[trigger] out@[k] by {
                        if k < out_before.len() {
                            assert(out@[k] == out_before[k]);
                            let j = choose|j: int| 0 <= j < i && ks[j] == out_before[k];
                            assert(ks[j] == out@[k]);
                        } else {
                            assert(ks[i as int] == out@[k]);
                        }
                    };
                    assert forall|j: int| 0 <= j < i + 1 && old(self).redraw_due(#[trigger] ks[j]) implies out@.contains(ks[j]) by {
                        if j == i {
                            assert(out@[out@.len() - 1] == id);
                        } else {
                            assert(out_before.contains(ks[j]));
                            let k = choose|k: int| 0 <= k < out_before.len() && out_before[k] == ks[j];
                            assert(out@[k] == ks[j]);
                        }
                    };
                    assert forall|j: int| 0 <= j < n && j != i implies self.states@[#[trigger] ks[j]] == states_before[ks[j]] by {
                        assert(ks[j] != ks[i as int]);
                    };
                }
            } else {
                proof {
                    assert(!old(self).redraw_due(id));
                }
            }
            i = i + 1;
        }
        proof {
            assert forall|id: SurfaceId| #[trigger] old(self).redraw_due(id) implies out@.contains(id) by {
                assert(ks.contains(id));
                let j = choose|j: int| 0 <= j < n && ks[j] == id;
                assert(old(self).redraw_due(ks[j]));
            };
            assert forall|id: SurfaceId| #[trigger] old(self).states@.contains_key(id) implies self.states@[id] == old(self).picked(id) by {
                assert(ks.contains(id));
                let j = choose|j: int| 0 <= j < n && ks[j] == id;
                assert(self.states@[ks[j]] == old(self).picked(ks[j]));
            };
        }
        out
    }

    /// The state of surface `id` after `surfaces_to_redraw`: its redraw mark
    /// is cleared if the surface was due for a redraw.
    pub open spec fn picked(&self, id: SurfaceId) -> State {
        if self.redraw_due(id) {
            State { needs_redraw: false, ..self.states@[id] }
        } else {
            self.states@[id]
        }
    }

    /// The object that stands for live surface `id`.
    pub fn handle_of(&self, id: SurfaceId) -> (r: Option<ObjectId>)
        requires
            self.wf(),
        ensures
            r matches Some(h) ==> self.surface_ids@.contains_key(h) && self.surface_ids@[h].id_of() == id,
            r is None ==> !self.states@.contains_key(id),
    {
        let n = self.surface_ids.len();
        let mut i: usize = 0;
        proof {
            self.surface_ids.lemma_keys();
        }
        while i < n
            invariant
                self.wf(),
                n == self.surface_ids.key_seq().len(),
                i <= n,
                forall|h: ObjectId| self.surface_ids@.contains_key(h) <==> self.surface_ids.key_seq().contains(h),
                forall|j: int| 0 <= j < i ==> self.surface_ids@[#[trigger] self.surface_ids.key_seq()[j]].id_of() != id,
            decreases n - i,
        {
            let h = self.surface_ids.key_at(i);
            let s = self.surface_ids.get(h).unwrap();
            if s.inner() == id {
                return Some(h);
            }
            i = i + 1;
        }
        proof {
            if self.states@.contains_key(id) {
                assert(self.states@.dom().contains(id));
                let h = choose|h: ObjectId| #[trigger] self.surface_ids@.contains_key(h) && self.surface_ids@[h].id_of() == id;
                assert(self.surface_ids.key_seq().contains(h));
                let j = choose|j: int| 0 <= j < n && self.surface_ids.key_seq()[j] == h;
                assert(self.surface_ids@[self.surface_ids.key_seq()[j]].id_of() != id);
            }
        }
        None
    }

    /// Whether surface `id` is marked for redraw and its size negotiation, if
    /// any, lets it be redrawn at its current logical size.
    pub open spec fn redraw_due(&self, id: SurfaceId) -> bool {
        &&& self.states@.contains_key(id)
        &&& self.states@[id].needs_redraw
        &&& redraw_allowed(self.auto_size@, id, round_px(self.states@[id].logical_width), round_px(self.states@[id].logical_height))
    }

    /// Prepares the redraw of the surface whose object is `handle`: takes its
    /// pending frame callback (to be requested again before submitting) and
    /// its viewport change (to be applied with a relayout). Drag icons, which
    /// are drawn once when created, objects that are not live and surfaces
    /// without a widget tree get `None`, and nothing changes.
    pub fn redraw_requested(&mut self, handle: ObjectId) -> (r: Option<RedrawPlan>)
        requires
            old(self).wf(),
        ensures
            final(self).wf(),
            r is None ==> final(self).states@ == old(self).states@,
            r is None <== !old(self).surface_ids@.contains_key(handle)
                || old(self).surface_ids@[handle] is Dnd
                || !old(self).interfaces@.contains_key(old(self).surface_ids@[handle].id_of()),
            r matches Some(p) ==> {
                let id = old(self).surface_ids@[handle].id_of();
                let st = old(self).states@[id];
                &&& old(self).surface_ids@.contains_key(handle)
                &&& !(old(self).surface_ids@[handle] is Dnd)
                &&& old(self).interfaces@.contains_key(id)
                &&& p.id == id
                &&& p.request_frame == st.frame
                &&& p.reconfigure == (if st.viewport_changed {
                    Some(PhysicalSize { width: st.physical_width, height: st.physical_height })
                } else {
                    None::<PhysicalSize>
                })
                &&& final(self).states@ == old(self).states@.insert(id, State { frame: false, viewport_changed: false, ..st })
            },
            old(self).surface_ids@.contains_key(handle)
                && !(old(self).surface_ids@[handle] is Dnd)
                && old(self).interfaces@.contains_key(old(self).surface_ids@[handle].id_of()) ==> r is Some,
            final(self).surface_ids@ == old(self).surface_ids@,
            final(self).interfaces@ == old(self).interfaces@,
            final(self).auto_size@ == old(self).auto_size@,
            final(self).destroyed_surface_ids@ == old(self).destroyed_surface_ids@,
            final(self).kbd_surface_id == old(self).kbd_surface_id,
            final(self).messages@ == old(self).messages@,
            final(self).sctk_events@ == old(self).sctk_events@,
            final(self).redraw_pending == old(self).redraw_pending,
            final(self).application_scale == old(self).application_scale,
            final(self).natural_scroll == old(self).natural_scroll,
    {
        let sid = match self.surface_ids.get(handle) {
            Some(s) => s,
            None => return None,
        };
        if matches!(sid, SurfaceIdWrapper::Dnd(_)) {
            return None;
        }
        let id = sid.inner();
        if !self.interfaces.contains_key(id) {
            return None;
        }
        let mut state = match self.states.get(id) {
            Some(s) => s,
            None => return None,
        };
        let request_frame = state.frame;
        state.set_frame(false);
        let reconfigure = if state.viewport_changed() {
            let (width, height) = state.physical_size();
            Some(PhysicalSize { width, height })
        } else {
            None
        };
        state.clear_viewport_changed();
        self.states.insert(id, state);
        proof {
            assert(self.states@.dom() =~= old(self).states@.dom());
        }
        Some(RedrawPlan { id, request_frame, reconfigure })
    }

    /// Ends the batch: its events are dropped and the objects torn down in it
    /// are forgotten.
    pub fn end_batch(&mut self)
        requires
            old(self).wf(),
        ensures
            final(self).wf(),
            final(self).sctk_events@.len() == 0,
            final(self).destroyed_surface_ids@.is_empty(),
            final(self).surface_ids@ == old(self).surface_ids@,
            final(self).states@ == old(self).states@,
            final(self).interfaces@ == old(self).interfaces@,
            final(self).auto_size@ == old(self).auto_size@,
            final(self).kbd_surface_id == old(self).kbd_surface_id,
            final(self).messages@ == old(self).messages@,
            final(self).redraw_pending == old(self).redraw_pending,
            final(self).application_scale == old(self).application_scale,
            final(self).natural_scroll == old(self).natural_scroll,
    {
        self.sctk_events.clear();
        self.destroyed_surface_ids = Table::new();
    }

    /// Carries out the actions of one command, in order, and returns their
    /// effects in the same order. A request for a surface without a size has
    /// the surface's view measured first: the measured size goes into the
    /// request and into the size negotiation table, unconfirmed. Widget
    /// operations run on surface `target`, and are dropped without one.
    pub fn run_command<P: Program<M>>(&mut self, host: &mut Host<M, P>, actions: Vec<Action>, target: Option<SurfaceId>) -> (r: Vec<Effect>)
        requires
            old(self).wf(),
        ensures
            final(self).wf(),
            effects_of(actions@, target, r@),
            forall|k: int| 0 <= k < r@.len() ==> !is_update(#[trigger] r@[k]),
            forall|k: int| 0 <= k < r@.len() ==> (#[trigger] r@[k] matches Effect::Create { surface, width, height, limits, auto }
                ==> (auto ==> measured_after(final(host).measured(), old(host).measured().len() as int,
                    Measurement { id: surface.id_of(), limits, width, height }))),
            final(host).measured().subrange(0, old(host).measured().len() as int) == old(host).measured(),
            final(host).received() == old(host).received(),
            final(host).commands() == old(host).commands(),
            final(host).closes() == old(host).closes(),
            final(self).auto_size@ == recorded(old(self).auto_size@, r@),
            final(self).surface_ids@ == old(self).surface_ids@,
            final(self).states@ == old(self).states@,
            final(self).interfaces@ == old(self).interfaces@,
            final(self).destroyed_surface_ids@ == old(self).destroyed_surface_ids@,
            final(self).kbd_surface_id == old(self).kbd_surface_id,
            final(self).messages@ == old(self).messages@,
            final(self).sctk_events@ == old(self).sctk_events@,
            final(self).redraw_pending == old(self).redraw_pending,
            final(self).application_scale == old(self).application_scale,
            final(self).natural_scroll == old(self).natural_scroll,
    {
        let mut out: Vec<Effect> = Vec::new();
        let mut i: usize = 0;
        while i < actions.len()
            invariant
                self.wf(),
                i <= actions@.len(),
                effects_of(actions@.subrange(0, i as int), target, out@),
                forall|k: int| 0 <= k < out@.len() ==> !is_update(#[trigger] out@[k]),
                forall|k: int| 0 <= k < out@.len() ==> (#[trigger] out@[k] matches Effect::Create { surface, width, height, limits, auto }
                    ==> (auto ==> measured_after(host.measured(), old(host).measured().len() as int,
                        Measurement { id: surface.id_of(), limits, width, height }))),
                old(host).measured().len() <= host.measured().len(),
                host.measured().subrange(0, old(host).measured().len() as int) == old(host).measured(),
                host.received() == old(host).received(),
                host.commands() == old(host).commands(),
                host.closes() == old(host).closes(),
                self.auto_size@ == recorded(old(self).auto_size@, out@),
                self.surface_ids@ == old(self).surface_ids@,
                self.states@ == old(self).states@,
                self.interfaces@ == old(self).interfaces@,
                self.destroyed_surface_ids@ == old(self).destroyed_surface_ids@,
                self.kbd_surface_id == old(self).kbd_surface_id,
                self.messages@ == old(self).messages@,
                self.sctk_events@ == old(self).sctk_events@,
                self.redraw_pending == old(self).redraw_pending,
                self.application_scale == old(self).application_scale,
                self.natural_scroll == old(self).natural_scroll,
            decreases actions@.len() - i,
        {
            let ghost before = out@;
            let ghost prefix = actions@.subrange(0, i as int + 1);
            proof {
                assert(prefix.drop_last() =~= actions@.subrange(0, i as int));
                assert(prefix.last() == actions@[i as int]);
            }
            match actions[i] {
                Action::Future(k) => out.push(Effect::Spawn(k)),
                Action::QueryInformation(k) => out.push(Effect::QueryInformation(k)),
                Action::Widget(op) => {
                    if let Some(t) = target {
                        out.push(Effect::Operate { target: t, operation: op });
                    }
                },
                Action::NewSurface { surface, size, limits } => match size {
                    Some(sz) => out.push(Effect::Create { surface, width: sz.width, height: sz.height, limits, auto: false }),
                    None => {
                        let ghost log_before = host.measured();
                        let (w, h) = host.natural_size(surface.inner(), limits);
                        self.auto_size.record(surface, w, h, limits);
                        out.push(Effect::Create { surface, width: w, height: h, limits, auto: true });
                        proof {
                            let x = Measurement { id: surface.id_of(), limits, width: w, height: h };
                            assert(host.measured() == log_before.push(x));
                            assert(host.measured()[log_before.len() as int] == x);
                            assert(host.measured().subrange(0, old(host).measured().len() as int)
                                =~= log_before.subrange(0, old(host).measured().len() as int));
                            assert forall|k: int| 0 <= k < before.len() implies (#[trigger] before[k] matches Effect::Create { surface, width, height, limits, auto }
                                ==> (auto ==> measured_after(host.measured(), old(host).measured().len() as int,
                                    Measurement { id: surface.id_of(), limits, width, height }))) by {
                                if let Effect::Create { surface: s2, width: w2, height: h2, limits: l2, auto: a2 } = before[k] {
                                    if a2 {
                                        lemma_measured_grows(log_before, x, old(host).measured().len() as int,
                                            Measurement { id: s2.id_of(), limits: l2, width: w2, height: h2 });
                                    }
                                }
                            };
                        }
                    },
                },
                Action::Request(k) => out.push(Effect::Forward(k)),
            }
            proof {
                if out@.len() > before.len() {
                    assert(out@.drop_last() =~= before);
                }
            }
            i = i + 1;
        }
        proof {
            assert(actions@.subrange(0, actions@.len() as int) =~= actions@);
        }
        out
    }

    /// Hands every queued message to the program's `update`, once each and
    /// in the order they were queued, and carries out the command that each
    /// call returns before the next message is handed over. `sink` receives,
    /// in order, the mark `Updated(k)` as the `k`-th message is handed over
    /// and then the effects of the command that call returned; after the last
    /// one, `TrackSubscriptions`. The same log, without that last effect,
    /// comes back. The queue is empty afterwards.
    pub fn update<P: Program<M>, X: Executor>(&mut self, host: &mut Host<M, P>, sink: &mut Sink<X>, target: Option<SurfaceId>) -> (r: Vec<Effect>)
        requires
            old(self).wf(),
        ensures
            final(self).wf(),
            final(self).messages@.len() == 0,
            final(host).received() == old(host).received() + old(self).messages@,
            final(host).commands().len() == old(host).commands().len() + old(self).messages@.len(),
            final(host).commands().subrange(0, old(host).commands().len() as int) == old(host).commands(),
            blocks(r@, final(host).commands().subrange(old(host).commands().len() as int, final(host).commands().len() as int), target),
            final(host).closes() == old(host).closes(),
            final(sink).performed() == old(sink).performed() + r@.push(Effect::TrackSubscriptions),
            r@.filter(|e: Effect| is_update(e)) == Seq::new(old(self).messages@.len(), |k: int| Effect::Updated(k as usize)),
            old(self).messages@.len() == 0 ==> r@.len() == 0,
            old(self).messages@.len() > 0 ==> r@[0] == Effect::Updated(0),
            final(self).surface_ids@ == old(self).surface_ids@,
            final(self).states@ == old(self).states@,
            final(self).interfaces@ == old(self).interfaces@,
            final(self).destroyed_surface_ids@ == old(self).destroyed_surface_ids@,
            final(self).kbd_surface_id == old(self).kbd_surface_id,
            final(self).sctk_events@ == old(self).sctk_events@,
            final(self).redraw_pending == old(self).redraw_pending,
            final(self).application_scale == old(self).application_scale,
            final(self).natural_scroll == old(self).natural_scroll,
    {
        let mut msgs: Vec<M> = Vec::new();
        core::mem::swap(&mut msgs, &mut self.messages);
        let count = msgs.len();
        let ghost all = msgs@;
        let ghost n = msgs@.len();
        let ghost base = host.commands();
        let ghost mut commands: Seq<Seq<Action>> = Seq::empty();
        let mut out: Vec<Effect> = Vec::new();
        let mut i: usize = 0;
        while msgs.len() > 0
            invariant
                self.wf(),
                i as int + msgs@.len() == n,
                n == all.len(),
                n == count,
                msgs@ == all.subrange(i as int, n as int),
                host.received() == old(host).received() + all.subrange(0, i as int),
                host.commands() == base + commands,
                base == old(host).commands(),
                host.closes() == old(host).closes(),
                sink.performed() == old(sink).performed() + out@,
                commands.len() == i,
                blocks(out@, commands, target),
                self.messages@.len() == 0,
                out@.filter(|e: Effect| is_update(e)) == Seq::new(i as nat, |k: int| Effect::Updated(k as usize)),
                i == 0 ==> out@.len() == 0,
                i > 0 ==> out@.len() > 0 && out@[0] == Effect::Updated(0),
                self.surface_ids@ == old(self).surface_ids@,
                self.states@ == old(self).states@,
                self.interfaces@ == old(self).interfaces@,
                self.destroyed_surface_ids@ == old(self).destroyed_surface_ids@,
                self.kbd_surface_id == old(self).kbd_surface_id,
                self.sctk_events@ == old(self).sctk_events@,
                self.redraw_pending == old(self).redraw_pending,
                self.application_scale == old(self).application_scale,
                self.natural_scroll == old(self).natural_scroll,
            decreases msgs@.len(),
        {
            let message = msgs.remove(0);
            let ghost before = out@;
            sink.perform(Effect::Updated(i));
            out.push(Effect::Updated(i));
            let actions = host.update(message);
            let ghost acts = actions@;
            let mut effects = self.run_command(host, actions, target);
            let ghost performed_mid = sink.performed();
            let mut j: usize = 0;
            while j < effects.len()
                invariant
                    j <= effects@.len(),
                    sink.performed() == performed_mid + effects@.subrange(0, j as int),
                decreases effects@.len() - j,
            {
                sink.perform(effects[j]);
                proof {
                    assert(effects@.subrange(0, j as int + 1) =~= effects@.subrange(0, j as int).push(effects@[j as int]));
                }
                j = j + 1;
            }
            proof {
                assert(effects@.subrange(0, effects@.len() as int) =~= effects@);
            }
            let ghost tail = effects@;
            out.append(&mut effects);
            proof {
                assert(sink.performed() =~= old(sink).performed() + out@);
                assert(all.subrange(0, i as int + 1) =~= all.subrange(0, i as int).push(message));
                assert(host.received() =~= old(host).received() + all.subrange(0, i as int + 1));
                let p = |e: Effect| is_update(e);
                assert(out@ =~= before.push(Effect::Updated(i)) + tail);
                Seq::filter_distributes_over_add(before.push(Effect::Updated(i)), tail, p);
                tail.lemma_all_neg_filter_empty(p);
                assert(tail.filter(p) =~= Seq::<Effect>::empty());
                before.lemma_filter_len_push(p, Effect::Updated(i));
                reveal(Seq::filter);
                assert(before.push(Effect::Updated(i)).drop_last() =~= before);
                assert(before.push(Effect::Updated(i)).filter(p) =~= before.filter(p).push(Effect::Updated(i)));
                assert(out@.filter(p) =~= Seq::new((i + 1) as nat, |k: int| Effect::Updated(k as usize)));
                if i == 0 {
                    assert(out@[0] == Effect::Updated(0));
                } else {
                    assert(out@[0] == before[0]);
                }
                crate::command::lemma_effects_len(acts, target, tail);
                let new_commands = commands.push(acts);
                let c = tail.len() as int;
                let nn = out@.len() as int;
                assert(new_commands.last() == acts);
                assert(new_commands.drop_last() =~= commands);
                assert(out@.subrange(nn - c, nn) =~= tail);
                assert(out@.subrange(0, nn - c - 1) =~= before);
                assert(out@[nn - c - 1] == Effect::Updated(i));
                assert(blocks(out@, new_commands, target));
                assert(host.commands() =~= base + new_commands);
                commands = new_commands;
            }
            i = i + 1;
        }
        sink.perform(Effect::TrackSubscriptions);
        proof {
            assert(all.subrange(0, n as int) =~= all);
            assert(host.commands().subrange(0, base.len() as int) =~= base);
            assert(host.commands().subrange(base.len() as int, host.commands().len() as int) =~= commands);
            assert(sink.performed() =~= old(sink).performed() + out@.push(Effect::TrackSubscriptions));
        }
        out
    }

    /// Builds the widget trees again after an update: the content of every
    /// live surface that is sized by its content is measured anew within its
    /// limits. An entry whose measurement disagrees with the size asked for or
    /// with the surface's logical size becomes (or stays) unconfirmed, and a
    /// resize to the measured size is requested for it; a settled entry is
    /// only unsettled by a new size, never the reverse.
    pub fn rebuild_interfaces<P: Program<M>>(&mut self, host: &mut Host<M, P>) -> (r: Vec<Effect>)
        requires
            old(self).wf(),
        ensures
            final(self).wf(),
            final(self).auto_size@.dom() == old(self).auto_size@.dom(),
            forall|id: SurfaceId| #[trigger] old(self).auto_size@.contains_key(id) && !old(self).states@.contains_key(id)
                ==> final(self).auto_size@[id] == old(self).auto_size@[id],
            forall|id: SurfaceId| #[trigger] old(self).auto_size@.contains_key(id) && old(self).states@.contains_key(id)
                ==> remeasured(old(self).auto_size@[id], final(self).auto_size@[id], old(self).states@[id])
                    && measured_after(final(host).measured(), old(host).measured().len() as int, Measurement {
                        id,
                        limits: old(self).auto_size@[id].limits,
                        width: final(self).auto_size@[id].width,
                        height: final(self).auto_size@[id].height,
                    }),
            final(host).measured().subrange(0, old(host).measured().len() as int) == old(host).measured(),
            final(host).received() == old(host).received(),
            final(host).commands() == old(host).commands(),
            final(host).closes() == old(host).closes(),
            forall|k: int| 0 <= k < r@.len() ==> (#[trigger] r@[k] matches Effect::Resize { surface, width, height } && {
                let e = final(self).auto_size@[surface.id_of()];
                &&& final(self).auto_size@.contains_key(surface.id_of())
                &&& e.surface == surface && e.width == width && e.height == height && e.dirty
                &&& !(surface is Dnd)
            }),
            forall|k1: int, k2: int| 0 <= k1 < r@.len() && 0 <= k2 < r@.len() && k1 != k2
                ==> (#[trigger] r@[k1])->Resize_surface.id_of() != (#[trigger] r@[k2])->Resize_surface.id_of(),
            forall|id: SurfaceId| #[trigger] old(self).auto_size@.contains_key(id) && old(self).states@.contains_key(id)
                && final(self).auto_size@[id].dirty && !(final(self).auto_size@[id].surface is Dnd)
                ==> r@.contains(Effect::Resize {
                    surface: final(self).auto_size@[id].surface,
                    width: final(self).auto_size@[id].width,
                    height: final(self).auto_size@[id].height,
                }),
            final(self).surface_ids@ == old(self).surface_ids@,
            final(self).states@ == old(self).states@,
            final(self).interfaces@ == old(self).interfaces@,
            final(self).destroyed_surface_ids@ == old(self).destroyed_surface_ids@,
            final(self).kbd_surface_id == old(self).kbd_surface_id,
            final(self).messages@ == old(self).messages@,
            final(self).sctk_events@ == old(self).sctk_events@,
            final(self).redraw_pending == old(self).redraw_pending,
            final(self).application_scale == old(self).application_scale,
            final(self).natural_scroll == old(self).natural_scroll,
    {
        let mut out: Vec<Effect> = Vec::new();
        let n = self.states.len();
        let mut i: usize = 0;
        let ghost ks = self.states.key_seq();
        proof {
            old(self).states.lemma_keys();
        }
        while i < n
            invariant
                self.wf(),
                n == ks.len(),
                i <= n,
                self.states.key_seq() == ks,
                ks.no_duplicates(),
                forall|id: SurfaceId| old(self).states@.contains_key(id) <==> ks.contains(id),
                self.auto_size@.dom() == old(self).auto_size@.dom(),
                forall|id: SurfaceId| #[trigger] old(self).auto_size@.contains_key(id) && !old(self).states@.contains_key(id)
                    ==> self.auto_size@[id] == old(self).auto_size@[id],
                forall|j: int| i <= j < n && #[trigger] old(self).auto_size@.contains_key(ks[j])
                    ==> self.auto_size@[ks[j]] == old(self).auto_size@[ks[j]],
                forall|j: int| 0 <= j < i && #[trigger] old(self).auto_size@.contains_key(ks[j])
                    ==> remeasured(old(self).auto_size@[ks[j]], self.auto_size@[ks[j]], old(self).states@[ks[j]])
                        && measured_after(host.measured(), old(host).measured().len() as int, Measurement {
                            id: ks[j],
                            limits: old(self).auto_size@[ks[j]].limits,
                            width: self.auto_size@[ks[j]].width,
                            height: self.auto_size@[ks[j]].height,
                        }),
                old(host).measured().len() <= host.measured().len(),
                host.measured().subrange(0, old(host).measured().len() as int) == old(host).measured(),
                host.received() == old(host).received(),
                host.commands() == old(host).commands(),
                host.closes() == old(host).closes(),
                forall|k: int| 0 <= k < out@.len() ==> (#[trigger] out@[k] matches Effect::Resize { surface, width, height } && {
                    let e = self.auto_size@[surface.id_of()];
                    &&& self.auto_size@.contains_key(surface.id_of())
                    &&& e.surface == surface && e.width == width && e.height == height && e.dirty
                    &&& !(surface is Dnd)
                    &&& exists|j: int| 0 <= j < i && ks[j] == surface.id_of()
                }),
                forall|k1: int, k2: int| 0 <= k1 < out@.len() && 0 <= k2 < out@.len() && k1 != k2
                    ==> (#[trigger] out@[k1])->Resize_surface.id_of() != (#[trigger] out@[k2])->Resize_surface.id_of(),
                forall|j: int| 0 <= j < i && #[trigger] old(self).auto_size@.contains_key(ks[j])
                    && self.auto_size@[ks[j]].dirty && !(self.auto_size@[ks[j]].surface is Dnd)
                    ==> out@.contains(Effect::Resize {
                        surface: self.auto_size@[ks[j]].surface,
                        width: self.auto_size@[ks[j]].width,
                        height: self.auto_size@[ks[j]].height,
                    }),
                self.surface_ids@ == old(self).surface_ids@,
                self.states@ == old(self).states@,
                self.interfaces@ == old(self).interfaces@,
                self.destroyed_surface_ids@ == old(self).destroyed_surface_ids@,
                self.kbd_surface_id == old(self).kbd_surface_id,
                self.messages@ == old(self).messages@,
                self.sctk_events@ == old(self).sctk_events@,
                self.redraw_pending == old(self).redraw_pending,
                self.application_scale == old(self).application_scale,
                self.natural_scroll == old(self).natural_scroll,
            decreases n - i,
        {
            let id = self.states.key_at(i);
            let state = self.states.get(id).unwrap();
            let ghost before = self.auto_size@;
            let ghost out_before = out@;
            if let Some(entry) = self.auto_size.get(id) {
                let ghost log_before = host.measured();
                let (w, h) = host.natural_size(id, entry.limits);
                proof {
                    let x = Measurement { id, limits: entry.limits, width: w, height: h };
                    assert(host.measured()[log_before.len() as int] == x);
                    assert(host.measured().subrange(0, old(host).measured().len() as int)
                        =~= log_before.subrange(0, old(host).measured().len() as int));
                    assert forall|j: int| 0 <= j < i && #[trigger] old(self).auto_size@.contains_key(ks[j])
                        implies measured_after(host.measured(), old(host).measured().len() as int, Measurement {
                            id: ks[j],
                            limits: old(self).auto_size@[ks[j]].limits,
                            width: self.auto_size@[ks[j]].width,
                            height: self.auto_size@[ks[j]].height,
                        }) by {
                        lemma_measured_grows(log_before, x, old(host).measured().len() as int, Measurement {
                            id: ks[j],
                            limits: old(self).auto_size@[ks[j]].limits,
                            width: self.auto_size@[ks[j]].width,
                            height: self.auto_size@[ks[j]].height,
                        });
                    };
                    assert(measured_after(host.measured(), old(host).measured().len() as int, x));
                }
                let (lw, lh) = state.logical_size_px();
                let resize = self.auto_size.remeasure(id, w, h, lw, lh);
                if let Some((rw, rh)) = resize {
                    if !matches!(entry.surface, SurfaceIdWrapper::Dnd(_)) {
                        out.push(Effect::Resize { surface: entry.surface, width: rw, height: rh });
                    }
                }
                proof {
                    assert(self.auto_size@.dom() =~= old(self).auto_size@.dom());
                    assert(ks[i as int] == id);
                    assert forall|j: int| 0 <= j < n && j != i && #[trigger] self.auto_size@.contains_key(ks[j]) implies self.auto_size@[ks[j]] == before[ks[j]] by {
                        assert(ks[j] != ks[i as int]);
                    };
                    assert forall|k: int| 0 <= k < out@.len() implies (#[trigger] out@[k] matches Effect::Resize { surface, width, height } && {
                        let e = self.auto_size@[surface.id_of()];
                        &&& self.auto_size@.contains_key(surface.id_of())
                        &&& e.surface == surface && e.width == width && e.height == height && e.dirty
                        &&& exists|j: int| 0 <= j < i + 1 && ks[j] == surface.id_of()
                    }) by {
                        if k < out_before.len() {
                            assert(out@[k] == out_before[k]);
                            let sid = out@[k]->Resize_surface.id_of();
                            let j0 = choose|j: int| 0 <= j < i && ks[j] == sid;
                            assert(ks[j0] != ks[i as int]);
                        } else {
                            assert(entry.surface.id_of() == id);
                        }
                    };
                    assert forall|k: int| 0 <= k < out_before.len()
                        implies (#[trigger] out_before[k])->Resize_surface.id_of() != id by {
                        let sid = out_before[k]->Resize_surface.id_of();
                        let j0 = choose|j: int| 0 <= j < i && ks[j] == sid;
                        assert(ks[j0] != ks[i as int]);
                    };
                    assert forall|k1: int, k2: int| 0 <= k1 < out@.len() && 0 <= k2 < out@.len() && k1 != k2
                        implies (#[trigger] out@[k1])->Resize_surface.id_of() != (#[trigger] out@[k2])->Resize_surface.id_of() by {
                        if k1 < out_before.len() {
                            assert(out@[k1] == out_before[k1]);
                        }
                        if k2 < out_before.len() {
                            assert(out@[k2] == out_before[k2]);
                        }
                    };
                    assert forall|j: int| 0 <= j < i + 1 && #[trigger] old(self).auto_size@.contains_key(ks[j])
                        && self.auto_size@[ks[j]].dirty && !(self.auto_size@[ks[j]].surface is Dnd)
                        implies out@.contains(Effect::Resize {
                            surface: self.auto_size@[ks[j]].surface,
                            width: self.auto_size@[ks[j]].width,
                            height: self.auto_size@[ks[j]].height,
                        }) by {
                        if j == i {
                            assert(out@[out@.len() - 1] == Effect::Resize { surface: entry.surface, width: w, height: h });
                        } else {
                            assert(ks[j] != ks[i as int]);
                            let target = Effect::Resize {
                                surface: self.auto_size@[ks[j]].surface,
                                width: self.auto_size@[ks[j]].width,
                                height: self.auto_size@[ks[j]].height,
                            };
                            assert(out_before.contains(target));
                            let k = choose|k: int| 0 <= k < out_before.len() && out_before[k] == target;
                            assert(out@[k] == target);
                        }
                    };
                }
            } else {
                proof {
                    assert(!old(self).auto_size@.contains_key(ks[i as int]));
                }
            }
            i = i + 1;
        }
        proof {
            assert forall|id: SurfaceId| #[trigger] old(self).auto_size@.contains_key(id) && old(self).states@.contains_key(id)
                implies remeasured(old(self).auto_size@[id], self.auto_size@[id], old(self).states@[id])
                    && measured_after(host.measured(), old(host).measured().len() as int, Measurement {
                        id,
                        limits: old(self).auto_size@[id].limits,
                        width: self.auto_size@[id].width,
                        height: self.auto_size@[id].height,
                    }) by {
                assert(ks.contains(id));
                let j = choose|j: int| 0 <= j < n && ks[j] == id;
                assert(old(self).auto_size@.contains_key(ks[j]));
            };
            assert forall|id: SurfaceId| #[trigger] old(self).auto_size@.contains_key(id) && old(self).states@.contains_key(id)
                && self.auto_size@[id].dirty && !(self.auto_size@[id].surface is Dnd)
                implies out@.contains(Effect::Resize {
                    surface: self.auto_size@[id].surface,
                    width: self.auto_size@[id].width,
                    height: self.auto_size@[id].height,
                }) by {
                assert(ks.contains(id));
                let j = choose|j: int| 0 <= j < n && ks[j] == id;
                assert(old(self).auto_size@.contains_key(ks[j]));
            };
        }
        out
    }

    /// The logical size, in whole pixels rounded down, of live surface `id`.
    pub open spec fn floor_size(&self, id: SurfaceId) -> Option<(u64, u64)> {
        if self.states@.contains_key(id) {
            Some(((self.states@[id].logical_width as int / 1024) as u64, (self.states@[id].logical_height as int / 1024) as u64))
        } else {
            None
        }
    }

    /// Creates the surface of a drag icon whose view measured `width` x
    /// `height`, for a drag that started on surface `origin`. An icon that is
    /// empty or does not fit (see `check_dnd_icon`) is refused, as is one
    /// whose object or identifier is live; a refused icon adds nothing to any
    /// map. A created icon gets its size at once and a widget tree, as it is
    /// drawn once and never configured.
    pub fn dnd_surface_created(&mut self, handle: ObjectId, icon: SurfaceId, origin: SurfaceId, width: u32, height: u32) -> (r: Result<(), DndIconError>)
        requires
            old(self).wf(),
        ensures
            final(self).wf(),
            dnd_icon_check(width, height, old(self).floor_size(origin)) is Err
                ==> r == dnd_icon_check(width, height, old(self).floor_size(origin)),
            dnd_icon_check(width, height, old(self).floor_size(origin)) is Ok && old(self).surface_ids@.contains_key(handle)
                ==> r == Err::<(), DndIconError>(DndIconError::Surface(SurfaceError::HandleInUse)),
            dnd_icon_check(width, height, old(self).floor_size(origin)) is Ok && !old(self).surface_ids@.contains_key(handle)
                && old(self).states@.contains_key(icon)
                ==> r == Err::<(), DndIconError>(DndIconError::Surface(SurfaceError::IdInUse)),
            dnd_icon_check(width, height, old(self).floor_size(origin)) is Ok && !old(self).surface_ids@.contains_key(handle)
                && !old(self).states@.contains_key(icon) ==> r is Ok,
            r is Err ==> {
                &&& final(self).surface_ids@ == old(self).surface_ids@
                &&& final(self).states@ == old(self).states@
                &&& final(self).interfaces@ == old(self).interfaces@
            },
            r is Ok ==> {
                let st = State::spec_new(SurfaceIdWrapper::Dnd(icon), old(self).application_scale, old(self).natural_scroll);
                let w = (width as int * LOGICAL_UNIT) as u64;
                let h = (height as int * LOGICAL_UNIT) as u64;
                &&& final(self).surface_ids@ == old(self).surface_ids@.insert(handle, SurfaceIdWrapper::Dnd(icon))
                &&& final(self).states@ == old(self).states@.insert(icon, State {
                    logical_width: w,
                    logical_height: h,
                    physical_width: crate::presentation::to_physical(w, st.application_scale, st.surface_scale),
                    physical_height: crate::presentation::to_physical(h, st.application_scale, st.surface_scale),
                    ..st
                })
                &&& final(self).interfaces@ == old(self).interfaces@.insert(icon, InterfaceSlot::Built)
            },
            final(self).auto_size@ == old(self).auto_size@,
            final(self).destroyed_surface_ids@ == old(self).destroyed_surface_ids@,
            final(self).kbd_surface_id == old(self).kbd_surface_id,
            final(self).messages@ == old(self).messages@,
            final(self).sctk_events@ == old(self).sctk_events@,
            final(self).redraw_pending == old(self).redraw_pending,
            final(self).application_scale == old(self).application_scale,
            final(self).natural_scroll == old(self).natural_scroll,
    {
        let parent = match self.states.get(origin) {
            Some(st) => Some((st.logical_width / 1024, st.logical_height / 1024)),
            None => None,
        };
        match check_dnd_icon(width, height, parent) {
            Err(e) => return Err(e),
            Ok(()) => {},
        }
        let surface = SurfaceIdWrapper::Dnd(icon);
        match self.surface_created(handle, surface) {
            Err(e) => return Err(DndIconError::Surface(e)),
            Ok(()) => {},
        }
        let mut state = self.states.get(icon).unwrap();
        proof {
            assert(width as u64 * 1024 <= MAX_LOGICAL);
            assert(height as u64 * 1024 <= MAX_LOGICAL);
            assert(!approx_eq((width as int * 1024) as u64, 0));
        }
        state.set_logical_size(width as u64 * 1024, height as u64 * 1024);
        let ghost mid = self.states@;
        self.states.insert(icon, state);
        self.interfaces.insert(icon, InterfaceSlot::Built);
        proof {
            assert(self.states@.dom() =~= mid.dom());
            assert(self.states@ =~= old(self).states@.insert(icon, state));
        }
        Ok(())
    }

    /// Ends a drag and drop: every drag icon surface is torn down (no close
    /// message is queued for them); the other surfaces stay as they were.
    pub fn dnd_finished(&mut self)
        requires
            old(self).wf(),
        ensures
            final(self).wf(),
            forall|h: ObjectId| #[trigger] final(self).surface_ids@.contains_key(h)
                <==> old(self).surface_ids@.contains_key(h) && !(old(self).surface_ids@[h] is Dnd),
            forall|h: ObjectId| #[trigger] final(self).surface_ids@.contains_key(h)
                ==> final(self).surface_ids@[h] == old(self).surface_ids@[h],
            forall|h: ObjectId| #[trigger] old(self).surface_ids@.contains_key(h) && old(self).surface_ids@[h] is Dnd
                ==> !final(self).states@.contains_key(old(self).surface_ids@[h].id_of())
                    && !final(self).interfaces@.contains_key(old(self).surface_ids@[h].id_of()),
            forall|id: SurfaceId| #[trigger] final(self).states@.contains_key(id)
                ==> old(self).states@.contains_key(id) && final(self).states@[id] == old(self).states@[id],
            forall|h: ObjectId| #[trigger] old(self).surface_ids@.contains_key(h) && old(self).surface_ids@[h] is Dnd
                ==> final(self).destroyed_surface_ids@.contains_key(h)
                    && final(self).destroyed_surface_ids@[h] == old(self).surface_ids@[h]
                    && !final(self).auto_size@.contains_key(old(self).surface_ids@[h].id_of()),
            forall|h: ObjectId| #[trigger] final(self).destroyed_surface_ids@.contains_key(h)
                ==> old(self).destroyed_surface_ids@.contains_key(h)
                    || (old(self).surface_ids@.contains_key(h) && old(self).surface_ids@[h] is Dnd),
            forall|id: SurfaceId| #[trigger] final(self).auto_size@.contains_key(id)
                ==> old(self).auto_size@.contains_key(id) && final(self).auto_size@[id] == old(self).auto_size@[id],
            final(self).kbd_surface_id == (match old(self).kbd_surface_id {
                Some(h) => if old(self).surface_ids@.contains_key(h) && old(self).surface_ids@[h] is Dnd {
                    None::<ObjectId>
                } else {
                    old(self).kbd_surface_id
                },
                None => None,
            }),
            final(self).messages@ == old(self).messages@,
            final(self).sctk_events@ == old(self).sctk_events@,
            final(self).redraw_pending == old(self).redraw_pending,
            final(self).application_scale == old(self).application_scale,
            final(self).natural_scroll == old(self).natural_scroll,
    {
        let mut dnd: Vec<ObjectId> = Vec::new();
        let n = self.surface_ids.len();
        let mut i: usize = 0;
        proof {
            self.surface_ids.lemma_keys();
        }
        while i < n
            invariant
                self.wf(),
                *self == *old(self),
                n == self.surface_ids.key_seq().len(),
                i <= n,
                forall|h: ObjectId| self.surface_ids@.contains_key(h) <==> self.surface_ids.key_seq().contains(h),
                forall|k: int| 0 <= k < dnd@.len() ==> self.surface_ids@.contains_key(#[trigger] dnd@[k]) && self.surface_ids@[dnd@[k]] is Dnd,
                forall|j: int| 0 <= j < i && self.surface_ids@[#[trigger] self.surface_ids.key_seq()[j]] is Dnd
                    ==> dnd@.contains(self.surface_ids.key_seq()[j]),
                self.surface_ids.key_seq().no_duplicates(),
                dnd@.no_duplicates(),
                forall|q: int| 0 <= q < dnd@.len() ==> exists|j: int| 0 <= j < i && self.surface_ids.key_seq()[j] == #[trigger] dnd@[q],
            decreases n - i,
        {
            let h = self.surface_ids.key_at(i);
            let s = self.surface_ids.get(h).unwrap();
            if matches!(s, SurfaceIdWrapper::Dnd(_)) {
                let ghost before = dnd@;
                dnd.push(h);
                proof {
                    assert(self.surface_ids.key_seq()[i as int] == h);
                    assert forall|q: int| 0 <= q < before.len() implies #[trigger] before[q] != h by {
                        let j = choose|j: int| 0 <= j < i && self.surface_ids.key_seq()[j] == before[q];
                        assert(self.surface_ids.key_seq()[j] != self.surface_ids.key_seq()[i as int]);
                    };
                    assert forall|q: int| 0 <= q < dnd@.len() implies exists|j: int| 0 <= j < i + 1 && self.surface_ids.key_seq()[j] == #[trigger] dnd@[q] by {
                        if q < before.len() {
                            assert(dnd@[q] == before[q]);
                            let j = choose|j: int| 0 <= j < i && self.surface_ids.key_seq()[j] == before[q];
                            assert(self.surface_ids.key_seq()[j] == dnd@[q]);
                        } else {
                            assert(self.surface_ids.key_seq()[i as int] == dnd@[q]);
                        }
                    };
                    assert forall|j: int| 0 <= j < i + 1 && self.surface_ids@[#[trigger] self.surface_ids.key_seq()[j]] is Dnd
                        implies dnd@.contains(self.surface_ids.key_seq()[j]) by {
                        if j == i {
                            assert(dnd@[dnd@.len() - 1] == h);
                        } else {
                            let k = choose|k: int| 0 <= k < before.len() && before[k] == self.surface_ids.key_seq()[j];
                            assert(dnd@[k] == before[k]);
                        }
                    };
                }
            }
            i = i + 1;
        }
        proof {
            assert forall|h: ObjectId| old(self).surface_ids@.contains_key(h) && old(self).surface_ids@[h] is Dnd implies dnd@.contains(h) by {
                assert(self.surface_ids.key_seq().contains(h));
                let j = choose|j: int| 0 <= j < n && self.surface_ids.key_seq()[j] == h;
                assert(self.surface_ids@[self.surface_ids.key_seq()[j]] is Dnd);
            };
        }
        let mut k: usize = 0;
        while k < dnd.len()
            invariant
                self.wf(),
                old(self).wf(),
                forall|k2: int| 0 <= k2 < dnd@.len() ==> old(self).surface_ids@.contains_key(#[trigger] dnd@[k2]) && old(self).surface_ids@[dnd@[k2]] is Dnd,
                forall|h: ObjectId| old(self).surface_ids@.contains_key(h) && old(self).surface_ids@[h] is Dnd ==> dnd@.contains(h),
                forall|h: ObjectId| #[trigger] self.surface_ids@.contains_key(h)
                    ==> old(self).surface_ids@.contains_key(h) && self.surface_ids@[h] == old(self).surface_ids@[h],
                forall|h: ObjectId| #[trigger] old(self).surface_ids@.contains_key(h) && !(old(self).surface_ids@[h] is Dnd)
                    ==> self.surface_ids@.contains_key(h),
                forall|k2: int| 0 <= k2 < k ==> !self.surface_ids@.contains_key(#[trigger] dnd@[k2])
                    && !self.states@.contains_key(old(self).surface_ids@[dnd@[k2]].id_of())
                    && !self.interfaces@.contains_key(old(self).surface_ids@[dnd@[k2]].id_of()),
                forall|id: SurfaceId| #[trigger] self.states@.contains_key(id)
                    ==> old(self).states@.contains_key(id) && self.states@[id] == old(self).states@[id],
                forall|k2: int| 0 <= k2 < k ==> self.destroyed_surface_ids@.contains_key(#[trigger] dnd@[k2])
                    && self.destroyed_surface_ids@[dnd@[k2]] == old(self).surface_ids@[dnd@[k2]]
                    && !self.auto_size@.contains_key(old(self).surface_ids@[dnd@[k2]].id_of()),
                forall|h: ObjectId| #[trigger] self.destroyed_surface_ids@.contains_key(h)
                    ==> old(self).destroyed_surface_ids@.contains_key(h)
                        || (old(self).surface_ids@.contains_key(h) && old(self).surface_ids@[h] is Dnd),
                forall|id: SurfaceId| #[trigger] self.auto_size@.contains_key(id)
                    ==> old(self).auto_size@.contains_key(id) && self.auto_size@[id] == old(self).auto_size@[id],
                self.kbd_surface_id == old(self).kbd_surface_id || (self.kbd_surface_id is None
                    && (old(self).kbd_surface_id matches Some(h) && old(self).surface_ids@.contains_key(h) && old(self).surface_ids@[h] is Dnd)),
                forall|k2: int| 0 <= k2 < k ==> self.kbd_surface_id != Some(#[trigger] dnd@[k2]),
                dnd@.no_duplicates(),
                forall|k3: int| k <= k3 < dnd@.len() ==> self.surface_ids@.contains_key(#[trigger] dnd@[k3])
                    && self.surface_ids@[dnd@[k3]] == old(self).surface_ids@[dnd@[k3]],
                self.messages@ == old(self).messages@,
                self.sctk_events@ == old(self).sctk_events@,
                self.redraw_pending == old(self).redraw_pending,
                self.application_scale == old(self).application_scale,
                self.natural_scroll == old(self).natural_scroll,
            decreases dnd@.len() - k,
        {
            let h = dnd[k];
            let ghost before_ids = self.surface_ids@;
            let ghost before_states = self.states@;
            let ghost before_ifs = self.interfaces@;
            let r = self.teardown(h);
            proof {
                let id = old(self).surface_ids@[h].id_of();
                if before_ids.contains_key(h) {
                    assert(before_ids[h] == old(self).surface_ids@[h]);
                } else {
                    // Already gone: its identifier left with it, as no other
                    // object has that identifier.
                    assert(!before_states.contains_key(id)) by {
                        if before_states.contains_key(id) {
                            assert(before_states.dom().contains(id));
                            assert(ids_have_handles(before_states.dom(), before_ids));
                            assert(exists|h2: ObjectId| #[trigger] before_ids.contains_key(h2) && before_ids[h2].id_of() == id);
                            let h2 = choose|h2: ObjectId| #[trigger] before_ids.contains_key(h2) && before_ids[h2].id_of() == id;
                            assert(old(self).surface_ids@.contains_key(h2));
                            assert(before_ids[h2] == old(self).surface_ids@[h2]);
                            assert(h2 != h);
                            assert(dnd@[k as int] == h);
                            assert(old(self).surface_ids@.contains_key(h));
                            assert(old(self).surface_ids@[h].id_of() != old(self).surface_ids@[h2].id_of());
                        }
                    };
                }
                assert forall|k2: int| 0 <= k2 < k + 1 implies !self.surface_ids@.contains_key(#[trigger] dnd@[k2])
                    && !self.states@.contains_key(old(self).surface_ids@[dnd@[k2]].id_of())
                    && !self.interfaces@.contains_key(old(self).surface_ids@[dnd@[k2]].id_of()) by {
                    if k2 < k {
                        assert(!before_ids.contains_key(dnd@[k2]));
                    }
                };
                assert forall|h2: ObjectId| #[trigger] old(self).surface_ids@.contains_key(h2) && !(old(self).surface_ids@[h2] is Dnd)
                    implies self.surface_ids@.contains_key(h2) by {
                    assert(before_ids.contains_key(h2));
                    assert(h2 != h);
                };
                assert(dnd@[k as int] == h);
                assert forall|k2: int| 0 <= k2 < k + 1 implies self.destroyed_surface_ids@.contains_key(#[trigger] dnd@[k2])
                    && self.destroyed_surface_ids@[dnd@[k2]] == old(self).surface_ids@[dnd@[k2]]
                    && !self.auto_size@.contains_key(old(self).surface_ids@[dnd@[k2]].id_of()) by {
                    if k2 < k {
                        assert(dnd@[k2] != dnd@[k as int]);
                    }
                };
                assert forall|k2: int| 0 <= k2 < k + 1 implies self.kbd_surface_id != Some(#[trigger] dnd@[k2]) by {
                    if k2 < k {
                        assert(dnd@[k2] != dnd@[k as int]);
                    }
                };
                assert forall|k3: int| k + 1 <= k3 < dnd@.len() implies self.surface_ids@.contains_key(#[trigger] dnd@[k3])
                    && self.surface_ids@[dnd@[k3]] == old(self).surface_ids@[dnd@[k3]] by {
                    assert(dnd@[k3] != dnd@[k as int]);
                };
            }
            k = k + 1;
        }
        proof {
            assert forall|h: ObjectId| #[trigger] old(self).surface_ids@.contains_key(h) && old(self).surface_ids@[h] is Dnd
                implies !self.surface_ids@.contains_key(h)
                    && !self.states@.contains_key(old(self).surface_ids@[h].id_of())
                    && !self.interfaces@.contains_key(old(self).surface_ids@[h].id_of()) by {
                assert(dnd@.contains(h));
                let k2 = choose|k2: int| 0 <= k2 < dnd@.len() && dnd@[k2] == h;
                assert(!self.surface_ids@.contains_key(dnd@[k2]));
            };
            assert forall|h: ObjectId| #[trigger] old(self).surface_ids@.contains_key(h) && old(self).surface_ids@[h] is Dnd
                implies self.destroyed_surface_ids@.contains_key(h)
                    && self.destroyed_surface_ids@[h] == old(self).surface_ids@[h]
                    && !self.auto_size@.contains_key(old(self).surface_ids@[h].id_of()) by {
                assert(dnd@.contains(h));
                let k2 = choose|k2: int| 0 <= k2 < dnd@.len() && dnd@[k2] == h;
                assert(self.destroyed_surface_ids@.contains_key(dnd@[k2]));
            };
            if let Some(h) = old(self).kbd_surface_id {
                if old(self).surface_ids@.contains_key(h) && old(self).surface_ids@[h] is Dnd {
                    assert(dnd@.contains(h));
                    let k2 = choose|k2: int| 0 <= k2 < dnd@.len() && dnd@[k2] == h;
                    assert(self.kbd_surface_id != Some(dnd@[k2]));
                }
            }
        }
    }

    /// Records the pointer interaction that a drawn widget tree reported.
    /// Returns the cursor shape to ask the compositor for when it differs
    /// from the one shown.
    pub fn set_mouse_interaction(&mut self, interaction: Interaction) -> (r: Option<CursorIcon>)
        ensures
            r == (if interaction != old(self).mouse_interaction {
                Some(icon_of(interaction))
            } else {
                None::<CursorIcon>
            }),
            *final(self) == (Session { mouse_interaction: interaction, ..*old(self) }),
    {
        if interaction != self.mouse_interaction {
            self.mouse_interaction = interaction;
            Some(cursor_icon(interaction))
        } else {
            None
        }
    }

    /// Decides what to do as a batch ends (after its output events were
    /// taken out).
    pub fn batch_plan(&self) -> (r: BatchPlan)
        requires
            self.wf(),
        ensures
            r == (if !self.redraw_pending && self.sctk_events@.len() == 0 && self.messages@.len() == 0 {
                BatchPlan::Idle
            } else if self.surface_ids@.is_empty() && self.messages@.len() > 0 {
                BatchPlan::NoSurfaces
            } else {
                BatchPlan::Surfaces
            }),
    {
        if self.is_idle() {
            BatchPlan::Idle
        } else if self.surface_ids.len() == 0 && self.messages.len() > 0 {
            proof {
                assert(self.surface_ids@.dom().len() == 0);
                assert(self.surface_ids@.dom().finite());
                self.surface_ids@.dom().lemma_len0_is_empty();
            }
            BatchPlan::NoSurfaces
        } else {
            proof {
                if self.surface_ids@.is_empty() && self.messages@.len() > 0 {
                    assert(self.surface_ids@.dom() == Set::<ObjectId>::empty());
                    assert(Set::<ObjectId>::empty().len() == 0);
                    assert(self.surface_ids@.dom().len() == 0);
                }
            }
            BatchPlan::Surfaces
        }
    }

    /// Ends a pass that handled events: picks the surfaces to redraw (see
    /// `surfaces_to_redraw`), each with its object and the way to wait after
    /// it (`next_control_flow` of what its widget tree reported, with
    /// `needs_update`), and, when none is redrawn, the bounded wait from
    /// `now_ms`. The pending redraw of the batch is used up.
    pub fn schedule_redraws(&mut self, needs_update: bool, now_ms: u64) -> (r: (Vec<RedrawOrder>, Option<ControlFlow>))
        requires
            old(self).wf(),
        ensures
            final(self).wf(),
            !final(self).redraw_pending,
            forall|k: int| 0 <= k < r.0@.len() ==> {
                let o = #[trigger] r.0@[k];
                &&& old(self).redraw_due(o.id)
                &&& old(self).surface_ids@.contains_key(o.handle)
                &&& old(self).surface_ids@[o.handle].id_of() == o.id
                &&& o.flow == control_flow_spec(old(self).states@[o.id].interface_state, needs_update)
            },
            forall|k1: int, k2: int| 0 <= k1 < r.0@.len() && 0 <= k2 < r.0@.len() && k1 != k2
                ==> (#[trigger] r.0@[k1]).id != (#[trigger] r.0@[k2]).id,
            forall|id: SurfaceId| #[trigger] old(self).redraw_due(id) ==> exists|k: int| 0 <= k < r.0@.len() && r.0@[k].id == id,
            r.1 == (if r.0@.len() == 0 {
                Some(ControlFlow::WaitUntil(if now_ms <= u64::MAX - FALLBACK_WAIT_MS { (now_ms + FALLBACK_WAIT_MS) as u64 } else { u64::MAX }))
            } else {
                None::<ControlFlow>
            }),
            final(self).states@.dom() == old(self).states@.dom(),
            forall|id: SurfaceId| #[trigger] old(self).states@.contains_key(id) ==> final(self).states@[id] == old(self).picked(id),
            final(self).surface_ids@ == old(self).surface_ids@,
            final(self).interfaces@ == old(self).interfaces@,
            final(self).auto_size@ == old(self).auto_size@,
            final(self).messages@ == old(self).messages@,
            final(self).sctk_events@ == old(self).sctk_events@,
    {
        let ids = self.surfaces_to_redraw();
        let mut orders: Vec<RedrawOrder> = Vec::new();
        let mut k: usize = 0;
        while k < ids.len()
            invariant
                self.wf(),
                old(self).wf(),
                k <= ids@.len(),
                orders@.len() == k,
                ids@.no_duplicates(),
                forall|q: int| 0 <= q < ids@.len() ==> old(self).redraw_due(#[trigger] ids@[q]),
                self.surface_ids@ == old(self).surface_ids@,
                self.states@.dom() == old(self).states@.dom(),
                forall|id: SurfaceId| #[trigger] old(self).states@.contains_key(id) ==> self.states@[id] == old(self).picked(id),
                forall|q: int| 0 <= q < k ==> {
                    let o = #[trigger] orders@[q];
                    &&& o.id == ids@[q]
                    &&& old(self).surface_ids@.contains_key(o.handle)
                    &&& old(self).surface_ids@[o.handle].id_of() == o.id
                    &&& o.flow == control_flow_spec(old(self).states@[o.id].interface_state, needs_update)
                },
            decreases ids@.len() - k,
        {
            let id = ids[k];
            let handle = self.handle_of(id).unwrap();
            let st = self.states.get(id).unwrap();
            let flow = next_control_flow(st.interface_state, needs_update);
            orders.push(RedrawOrder { handle, id, flow });
            k = k + 1;
        }
        let fallback = if orders.len() == 0 {
            Some(fallback_control_flow(now_ms))
        } else {
            None
        };
        self.redraw_pending = false;
        proof {
            assert forall|k1: int, k2: int| 0 <= k1 < orders@.len() && 0 <= k2 < orders@.len() && k1 != k2
                implies (#[trigger] orders@[k1]).id != (#[trigger] orders@[k2]).id by {
                assert(orders@[k1].id == ids@[k1]);
                assert(orders@[k2].id == ids@[k2]);
            };
            assert forall|id: SurfaceId| #[trigger] old(self).redraw_due(id) implies exists|q: int| 0 <= q < orders@.len() && orders@[q].id == id by {
                assert(ids@.contains(id));
                let q = choose|q: int| 0 <= q < ids@.len() && ids@[q] == id;
                assert(orders@[q].id == ids@[q]);
            };
        }
        (orders, fallback)
    }

    /// The surface whose widget tree runs the widget operations of an
    /// update: the first surface, in creation order, that is marked for
    /// redraw, or none.
    pub fn widget_target(&self) -> (r: Option<SurfaceId>)
        requires
            self.wf(),
        ensures
            r matches Some(id) ==> self.states@.contains_key(id) && self.states@[id].needs_redraw
                && exists|i: int| 0 <= i < self.states.key_seq().len() && self.states.key_seq()[i] == id
                    && forall|j: int| 0 <= j < i ==> !self.states@[#[trigger] self.states.key_seq()[j]].needs_redraw,
            r is None ==> forall|id: SurfaceId| #[trigger] self.states@.contains_key(id) ==> !self.states@[id].needs_redraw,
    {
        let n = self.states.len();
        let mut i: usize = 0;
        proof {
            self.states.lemma_keys();
        }
        while i < n
            invariant
                self.wf(),
                n == self.states.key_seq().len(),
                i <= n,
                forall|id: SurfaceId| self.states@.contains_key(id) <==> self.states.key_seq().contains(id),
                forall|j: int| 0 <= j < i ==> !self.states@[#[trigger] self.states.key_seq()[j]].needs_redraw,
            decreases n - i,
        {
            let id = self.states.key_at(i);
            let st = self.states.get(id).unwrap();
            if st.needs_redraw() {
                proof {
                    assert(self.states.key_seq()[i as int] == id);
                }
                return Some(id);
            }
            i = i + 1;
        }
        proof {
            assert forall|id: SurfaceId| #[trigger] self.states@.contains_key(id) implies !self.states@[id].needs_redraw by {
                assert(self.states.key_seq().contains(id));
                let j = choose|j: int| 0 <= j < n && self.states.key_seq()[j] == id;
                assert(!self.states@[self.states.key_seq()[j]].needs_redraw);
            };
        }
        None
    }

    /// The one drawing of a drag icon, right after it is created: at its
    /// physical size, with no frame callback. Anything but a live drag icon
    /// gets `None`.
    pub fn icon_plan(&self, handle: ObjectId) -> (r: Option<RedrawPlan>)
        requires
            self.wf(),
        ensures
            r is Some <==> self.surface_ids@.contains_key(handle) && self.surface_ids@[handle] is Dnd,
            r matches Some(p) ==> {
                let id = self.surface_ids@[handle].id_of();
                p == RedrawPlan {
                    id,
                    request_frame: false,
                    reconfigure: Some(PhysicalSize { width: self.states@[id].physical_width, height: self.states@[id].physical_height }),
                }
            },
    {
        match self.surface_ids.get(handle) {
            Some(SurfaceIdWrapper::Dnd(id)) => {
                let st = self.states.get(id).unwrap();
                let (width, height) = st.physical_size();
                Some(RedrawPlan { id, request_frame: false, reconfigure: Some(PhysicalSize { width, height }) })
            },
            _ => None,
        }
    }
}

} // verus!
