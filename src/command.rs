use vstd::prelude::*;
use crate::autosize::{Limits, Size};
use crate::surface::{SurfaceId, SurfaceIdWrapper};

verus! {

/// One action of a command that the application's `update` returned.
///
/// Work that the loop cannot hold itself (a future, a widget operation, a
/// request of the protocol layer) is named by the key under which the
/// runtime keeps it.
#[derive(Debug, Clone, Copy, PartialEq, Eq, Structural)]
pub enum Action {
    /// An asynchronous task to spawn.
    Future(u64),
    /// A query for system information, answered off the loop thread.
    QueryInformation(u64),
    /// A widget operation, run against the widget tree of the surface being updated.
    Widget(u64),
    /// A request for a new surface; without a size the surface is sized by
    /// its content.
    NewSurface { surface: SurfaceIdWrapper, size: Option<Size>, limits: Limits },
    /// Any other request for the compositor (resize, show or hide a popup,
    /// data device, virtual keyboard, input method), passed on as it is.
    Request(u64),
}

/// What the loop does, in order, while it processes messages.
#[derive(Debug, Clone, Copy, PartialEq, Eq, Structural)]
pub enum Effect {
    /// The application's `update` was called on the queued message at this position.
    Updated(usize),
    Spawn(u64),
    QueryInformation(u64),
    Operate { target: SurfaceId, operation: u64 },
    /// Ask the compositor for a surface of this size; `auto` says that the
    /// size was measured from the surface's content.
    Create { surface: SurfaceIdWrapper, width: u32, height: u32, limits: Limits, auto: bool },
    /// Ask the compositor to resize a surface.
    Resize { surface: SurfaceIdWrapper, width: u32, height: u32 },
    Forward(u64),
    /// Read the application's subscriptions again, after its messages were
    /// handled.
    TrackSubscriptions,
}

/// The application as its author writes it.
pub trait Program<M> {
    /// Handles one message and returns the actions of the resulting command.
    fn update(&mut self, message: M) -> Vec<Action>;

    /// The message that tells the application that a surface was closed.
    fn close_requested(&self, id: SurfaceId) -> M;

    /// The natural size, in whole logical pixels, of the view of surface
    /// `id` laid out within `limits`.
    fn natural_size(&self, id: SurfaceId, limits: Limits) -> (u32, u32);

    /// Whether the application wants the loop to end.
    fn should_exit(&self) -> bool;
}

/// One measurement of a surface's view.
#[derive(Debug, Clone, Copy, PartialEq, Eq, Structural)]
pub struct Measurement {
    pub id: SurfaceId,
    pub limits: Limits,
    pub width: u32,
    pub height: u32,
}

/// The application as the loop drives it: the program, and the record of
/// what it was asked and what it answered.
pub struct Host<M, P> {
    program: P,
    received: Ghost<Seq<M>>,
    commands: Ghost<Seq<Seq<Action>>>,
    closes: Ghost<Seq<(SurfaceId, M)>>,
    measured: Ghost<Seq<Measurement>>,
}

impl<M, P: Program<M>> Host<M, P> {
    /// The messages handed to the program's `update`, in order.
    pub closed spec fn received(&self) -> Seq<M> {
        self.received@
    }

    /// The commands that the program's `update` returned, in order.
    pub closed spec fn commands(&self) -> Seq<Seq<Action>> {
        self.commands@
    }

    /// The close messages the program gave, with the surface of each.
    pub closed spec fn closes(&self) -> Seq<(SurfaceId, M)> {
        self.closes@
    }

    /// The measurements the program gave, in order.
    pub closed spec fn measured(&self) -> Seq<Measurement> {
        self.measured@
    }

    pub fn new(program: P) -> (r: Host<M, P>)
        ensures
            r.received() == Seq::<M>::empty(),
            r.commands() == Seq::<Seq<Action>>::empty(),
            r.closes() == Seq::<(SurfaceId, M)>::empty(),
            r.measured() == Seq::<Measurement>::empty(),
    {
        Host {
            program,
            received: Ghost(Seq::empty()),
            commands: Ghost(Seq::empty()),
            closes: Ghost(Seq::empty()),
            measured: Ghost(Seq::empty()),
        }
    }

    /// Hands `message` to the program's `update`.
    pub fn update(&mut self, message: M) -> (r: Vec<Action>)
        ensures
            final(self).received() == old(self).received().push(message),
            final(self).commands() == old(self).commands().push(r@),
            final(self).closes() == old(self).closes(),
            final(self).measured() == old(self).measured(),
    {
        let ghost m = message;
        let r = self.program.update(message);
        self.received = Ghost(self.received@.push(m));
        self.commands = Ghost(self.commands@.push(r@));
        r
    }

    /// The program's close message for surface `id`.
    pub fn close_requested(&mut self, id: SurfaceId) -> (r: M)
        ensures
            final(self).closes() == old(self).closes().push((id, r)),
            final(self).received() == old(self).received(),
            final(self).commands() == old(self).commands(),
            final(self).measured() == old(self).measured(),
    {
        let r = self.program.close_requested(id);
        self.closes = Ghost(self.closes@.push((id, r)));
        r
    }

    /// Measures the view of surface `id` within `limits`.
    pub fn natural_size(&mut self, id: SurfaceId, limits: Limits) -> (r: (u32, u32))
        ensures
            final(self).measured() == old(self).measured().push(Measurement { id, limits, width: r.0, height: r.1 }),
            final(self).received() == old(self).received(),
            final(self).commands() == old(self).commands(),
            final(self).closes() == old(self).closes(),
    {
        let r = self.program.natural_size(id, limits);
        self.measured = Ghost(self.measured@.push(Measurement { id, limits, width: r.0, height: r.1 }));
        r
    }

    pub fn should_exit(&self) -> bool {
        self.program.should_exit()
    }

    /// The program, to read.
    pub fn program(&self) -> &P {
        &self.program
    }

    /// The program, to change between passes (its answers are recorded only
    /// through the calls above).
    pub fn program_mut(&mut self) -> &mut P {
        &mut self.program
    }
}

/// What carries out effects as they come: spawning tasks, sending requests
/// to the compositor, running widget operations.
pub trait Executor {
    fn perform(&mut self, effect: Effect);
}

/// An executor, and the record of the effects handed to it.
pub struct Sink<X> {
    executor: X,
    performed: Ghost<Seq<Effect>>,
}

impl<X: Executor> Sink<X> {
    /// The effects handed to the executor, in order.
    pub closed spec fn performed(&self) -> Seq<Effect> {
        self.performed@
    }

    pub fn new(executor: X) -> (r: Sink<X>)
        ensures
            r.performed() == Seq::<Effect>::empty(),
    {
        Sink { executor, performed: Ghost(Seq::empty()) }
    }

    pub fn perform(&mut self, effect: Effect)
        ensures
            final(self).performed() == old(self).performed().push(effect),
    {
        self.executor.perform(effect);
        self.performed = Ghost(self.performed@.push(effect));
    }

    /// The executor, to read.
    pub fn executor(&self) -> &X {
        &self.executor
    }

    /// The executor, to drive between passes.
    pub fn executor_mut(&mut self) -> &mut X {
        &mut self.executor
    }
}

/// An executor that keeps the effects in order, for a loop that carries
/// them out later.
pub struct EffectLog {
    pub effects: Vec<Effect>,
}

impl Executor for EffectLog {
    fn perform(&mut self, effect: Effect) {
        self.effects.push(effect);
    }
}

/// Whether `e` is the effect that action `a` gives, when surface `target` is
/// the one being updated. A request for a surface without a size gives a
/// creation request of whatever size the view measured.
pub open spec fn effect_of(a: Action, target: Option<SurfaceId>, e: Effect) -> bool {
    match a {
        Action::Future(k) => e == Effect::Spawn(k),
        Action::QueryInformation(k) => e == Effect::QueryInformation(k),
        Action::Widget(op) => match target {
            Some(s) => e == Effect::Operate { target: s, operation: op },
            None => false,
        },
        Action::NewSurface { surface, size, limits } => match size {
            Some(sz) => e == Effect::Create { surface, width: sz.width, height: sz.height, limits, auto: false },
            None => e matches Effect::Create { surface: s2, limits: l2, auto: true, .. } && s2 == surface && l2 == limits,
        },
        Action::Request(k) => e == Effect::Forward(k),
    }
}

/// Whether the action gives an effect at all: a widget operation needs a
/// surface to run on.
pub open spec fn has_effect(a: Action, target: Option<SurfaceId>) -> bool {
    !(a is Widget && target is None)
}

/// Whether `effects` are the effects of `actions`, one for each action that
/// has one, in the same order.
pub open spec fn effects_of(actions: Seq<Action>, target: Option<SurfaceId>, effects: Seq<Effect>) -> bool
    decreases actions.len(),
{
    if actions.len() == 0 {
        effects.len() == 0
    } else if has_effect(actions.last(), target) {
        effects.len() > 0 && effect_of(actions.last(), target, effects.last())
            && effects_of(actions.drop_last(), target, effects.drop_last())
    } else {
        effects_of(actions.drop_last(), target, effects)
    }
}

/// How many effects the actions give.
pub open spec fn effect_count(actions: Seq<Action>, target: Option<SurfaceId>) -> nat
    decreases actions.len(),
{
    if actions.len() == 0 {
        0
    } else {
        effect_count(actions.drop_last(), target) + if has_effect(actions.last(), target) { 1nat } else { 0nat }
    }
}

/// Effects of actions are as many as the actions that have one.
pub proof fn lemma_effects_len(actions: Seq<Action>, target: Option<SurfaceId>, effects: Seq<Effect>)
    requires
        effects_of(actions, target, effects),
    ensures
        effects.len() == effect_count(actions, target),
    decreases actions.len(),
{
    if actions.len() > 0 {
        if has_effect(actions.last(), target) {
            lemma_effects_len(actions.drop_last(), target, effects.drop_last());
        } else {
            lemma_effects_len(actions.drop_last(), target, effects);
        }
    }
}

/// Whether `effects` is the log of the update of messages whose commands
/// were `commands`, in order: for the `k`-th message the mark
/// `Updated(k)`, then exactly the effects of its command.
pub open spec fn blocks(effects: Seq<Effect>, commands: Seq<Seq<Action>>, target: Option<SurfaceId>) -> bool
    decreases commands.len(),
{
    if commands.len() == 0 {
        effects.len() == 0
    } else {
        let c = effect_count(commands.last(), target) as int;
        let n = effects.len() as int;
        &&& n >= c + 1
        &&& effects[n - c - 1] == Effect::Updated((commands.len() - 1) as usize)
        &&& effects_of(commands.last(), target, effects.subrange(n - c, n))
        &&& blocks(effects.subrange(0, n - c - 1), commands.drop_last(), target)
    }
}

/// Whether `e` marks a call of the application's `update`.
pub open spec fn is_update(e: Effect) -> bool {
    e is Updated
}

} // verus!
