use vstd::prelude::*;
use crate::autosize::{after_configure, configure_accepts, redraw_allowed, AutoSizeEntry};
use crate::event::{KeyboardEventVariant, SctkEvent};
use crate::presentation::{approx_eq, State};
use crate::session::{focus_after, Session};
use crate::surface::{ObjectId, SurfaceId};

verus! {

/// The size negotiation table after the compositor sent the configures
/// `sizes` for surface `id`, in order.
pub open spec fn after_configures(m: Map<SurfaceId, AutoSizeEntry>, id: SurfaceId, sizes: Seq<(u32, u32)>) -> Map<SurfaceId, AutoSizeEntry>
    decreases sizes.len(),
{
    if sizes.len() == 0 {
        m
    } else {
        let prev = after_configures(m, id, sizes.drop_last());
        after_configure(prev, id, sizes.last().0, sizes.last().1)
    }
}

/// Configures of any size but the one asked for never settle a surface that
/// is sized by its content: after any number of them it is still
/// unconfirmed, at the size it asked for.
pub proof fn lemma_partial_configures_keep_dirty(m: Map<SurfaceId, AutoSizeEntry>, id: SurfaceId, sizes: Seq<(u32, u32)>)
    requires
        m.contains_key(id),
        m[id].dirty,
        forall|k: int| 0 <= k < sizes.len() ==> #[trigger] sizes[k] != (m[id].width, m[id].height),
    ensures
        after_configures(m, id, sizes).contains_key(id),
        after_configures(m, id, sizes)[id] == m[id],
    decreases sizes.len(),
{
    if sizes.len() > 0 {
        let prefix = sizes.drop_last();
        assert forall|k: int| 0 <= k < prefix.len() implies #[trigger] prefix[k] != (m[id].width, m[id].height) by {
            assert(prefix[k] == sizes[k]);
        };
        lemma_partial_configures_keep_dirty(m, id, prefix);
        assert(sizes[sizes.len() - 1] != (m[id].width, m[id].height));
    }
}

/// Measure, request, confirm: once the compositor configures a surface that
/// is sized by its content to the size it asked for, after any configures of
/// other sizes, the surface is settled, that configure lets it be laid out,
/// and it may be redrawn at that size.
pub proof fn lemma_size_convergence(m: Map<SurfaceId, AutoSizeEntry>, id: SurfaceId, partial: Seq<(u32, u32)>)
    requires
        m.contains_key(id),
        m[id].dirty,
        forall|k: int| 0 <= k < partial.len() ==> #[trigger] partial[k] != (m[id].width, m[id].height),
    ensures
        ({
            let w = m[id].width;
            let h = m[id].height;
            let before = after_configures(m, id, partial);
            let settled = after_configures(m, id, partial.push((w, h)));
            &&& configure_accepts(before, id, w, h)
            &&& settled.contains_key(id)
            &&& !settled[id].dirty
            &&& settled[id].width == w && settled[id].height == h
            &&& redraw_allowed(settled, id, w as u64, h as u64)
        }),
{
    lemma_partial_configures_keep_dirty(m, id, partial);
    let w = m[id].width;
    let h = m[id].height;
    assert(partial.push((w, h)).drop_last() =~= partial);
}

/// Once a surface has been picked for redraw it is not due again until
/// something marks it anew: a settled surface is redrawn once per request.
pub proof fn lemma_single_redraw<M>(s: Session<M>, t: Session<M>, id: SurfaceId)
    requires
        s.redraw_due(id),
        t.states@ == s.states@.insert(id, s.picked(id)),
        t.auto_size@ == s.auto_size@,
    ensures
        !t.redraw_due(id),
{
}

/// A surface whose size is not yet confirmed is never due for a redraw,
/// whatever its logical size and however often that was set.
pub proof fn lemma_dirty_blocks_redraw<M>(s: Session<M>, id: SurfaceId)
    requires
        s.auto_size@.contains_key(id),
        s.auto_size@[id].dirty,
    ensures
        !s.redraw_due(id),
        forall|lw: u64, lh: u64| !redraw_allowed(s.auto_size@, id, lw, lh),
{
}

/// Setting a logical size within the jitter margin of the current one
/// changes nothing, the viewport flag included.
pub proof fn lemma_jitter_is_noop(st: State, w: u64, h: u64)
    requires
        approx_eq(w, st.logical_width),
        approx_eq(h, st.logical_height),
    ensures
        st.with_logical_size(w, h) == st,
{
}

/// Two calls of `set_logical_size` whose sizes differ by less than the
/// margin: when the first one took effect, the second marks no viewport
/// change, even after the flag of the first was cleared by a redraw.
pub proof fn lemma_epsilon_stability(st: State, w1: u64, h1: u64, w2: u64, h2: u64)
    requires
        !(approx_eq(w1, st.logical_width) && approx_eq(h1, st.logical_height)),
        approx_eq(w2, w1),
        approx_eq(h2, h1),
    ensures
        ({
            let first = st.with_logical_size(w1, h1);
            let redrawn = State { viewport_changed: false, ..first };
            &&& first.with_logical_size(w2, h2) == first
            &&& redrawn.with_logical_size(w2, h2) == redrawn
            &&& !redrawn.with_logical_size(w2, h2).viewport_changed
        }),
{
}

/// An input event for an object that is not a live surface changes the
/// state of no surface.
pub proof fn lemma_unknown_pointer_event<M>(s: Session<M>, e: SctkEvent)
    requires
        e matches SctkEvent::PointerEvent { surface, .. } && !s.surface_ids@.contains_key(surface),
    ensures
        s.states_after(e) == s.states@,
{
}

/// Keyboard modifiers for a focus that no live surface holds change no
/// surface's state.
pub proof fn lemma_unknown_focus_modifiers<M>(s: Session<M>, e: SctkEvent, h: ObjectId)
    requires
        e matches SctkEvent::KeyboardEvent { variant: KeyboardEventVariant::Modifiers(_) },
        s.kbd_surface_id == Some(h),
        !s.surface_ids@.contains_key(h),
    ensures
        s.states_after(e) == s.states@,
{
}

/// A keyboard leave for an object that does not hold the focus leaves the
/// focus where it is.
pub proof fn lemma_stray_leave_keeps_focus(focus: Option<ObjectId>, h: ObjectId)
    requires
        focus != Some(h),
    ensures
        focus_after(SctkEvent::KeyboardEvent { variant: KeyboardEventVariant::Leave(h) }, focus) == focus,
{
}

/// Keyboard enter then leave of the same object leaves no focus.
pub proof fn lemma_enter_leave_clears_focus(focus: Option<ObjectId>, h: ObjectId)
    ensures
        focus_after(
            SctkEvent::KeyboardEvent { variant: KeyboardEventVariant::Leave(h) },
            focus_after(SctkEvent::KeyboardEvent { variant: KeyboardEventVariant::Enter(h) }, focus),
        ) is None,
{
}

} // verus!
