use vstd::prelude::*;

use crate::window::{window_of, numbered, Window};

verus! {

/// What the producer sends over the sample channel.
pub enum Message<T> {
    Value(T),
    Shutdown,
}

/// What the loop's driver reports after carrying out the previous action.
pub enum Event<T> {
    /// The channel yielded a message.
    Received(Message<T>),
    /// The channel had nothing more to give (empty, or its producer is gone).
    Drained,
    /// A frame was drawn.
    Drawn,
    /// The input poll saw a key press.
    KeyPressed,
    /// The input poll ended without a key press.
    Quiet,
    /// Drawing or polling failed.
    Failed,
    /// The attempt to restore the terminal is over.
    Restored,
}

/// What the driver is to do next.
#[derive(PartialEq, Eq, Structural, Clone, Copy, Debug)]
pub enum Action {
    /// Try to take the next message from the channel.
    Receive,
    /// Draw a frame of the current window.
    Draw,
    /// Poll the terminal input for one cycle.
    Poll,
    /// Restore the terminal.
    Restore,
    /// Leave the loop.
    Exit,
}

#[derive(PartialEq, Eq, Structural, Clone, Copy, Debug)]
pub enum Phase {
    Running,
    ShuttingDown,
    Terminated,
}

/// One step of the loop: from its phase and the values accepted so far, and an
/// event, the next phase, the values accepted then, and the action to take.
pub open spec fn transition<T>(phase: Phase, accepted: Seq<T>, ev: Event<T>) -> (
    Phase,
    Seq<T>,
    Action,
) {
    match phase {
        Phase::Running => match ev {
            Event::Received(Message::Value(v)) => if accepted.len() < u64::MAX {
                (Phase::Running, accepted.push(v), Action::Receive)
            } else {
                (Phase::ShuttingDown, accepted, Action::Restore)
            },
            Event::Received(Message::Shutdown) => (Phase::ShuttingDown, accepted, Action::Restore),
            Event::Drained => (Phase::Running, accepted, Action::Draw),
            Event::Drawn => (Phase::Running, accepted, Action::Poll),
            Event::KeyPressed => (Phase::ShuttingDown, accepted, Action::Restore),
            Event::Quiet => (Phase::Running, accepted, Action::Receive),
            Event::Failed => (Phase::ShuttingDown, accepted, Action::Restore),
            Event::Restored => (Phase::Running, accepted, Action::Receive),
        },
        Phase::ShuttingDown => (Phase::Terminated, accepted, Action::Exit),
        Phase::Terminated => (Phase::Terminated, accepted, Action::Exit),
    }
}

/// The loop fed `evs` in order: the final phase, the values accepted, and the
/// action answered to each event.
pub open spec fn run<T>(phase: Phase, accepted: Seq<T>, evs: Seq<Event<T>>) -> (
    Phase,
    Seq<T>,
    Seq<Action>,
)
    decreases evs.len(),
{
    if evs.len() == 0 {
        (phase, accepted, Seq::empty())
    } else {
        let prev = run(phase, accepted, evs.drop_last());
        let next = transition(prev.0, prev.1, evs.last());
        (next.0, next.1, prev.2.push(next.2))
    }
}

/// How many of `acts` are `Restore`.
pub open spec fn restore_count(acts: Seq<Action>) -> nat
    decreases acts.len(),
{
    if acts.len() == 0 {
        0
    } else {
        restore_count(acts.drop_last()) + if acts.last() == Action::Restore {
            1nat
        } else {
            0nat
        }
    }
}

/// One `Received(Value(v))` event for each value, in order.
pub open spec fn value_events<T>(vals: Seq<T>) -> Seq<Event<T>> {
    Seq::new(vals.len(), |i: int| Event::Received(Message::Value(vals[i])))
}

/// The terminal is restored exactly once on every path out of `Running`, and
/// never while the loop is still running.
pub proof fn lemma_restore_exactly_once<T>(accepted: Seq<T>, evs: Seq<Event<T>>)
    ensures
        restore_count(run(Phase::Running, accepted, evs).2) == if run(
            Phase::Running,
            accepted,
            evs,
        ).0 == Phase::Running {
            0nat
        } else {
            1nat
        },
    decreases evs.len(),
{
    if evs.len() > 0 {
        lemma_restore_exactly_once(accepted, evs.drop_last());
        let prev = run(Phase::Running, accepted, evs.drop_last());
        assert(prev.2.push(transition(prev.0, prev.1, evs.last()).2).drop_last() == prev.2);
    }
}

/// Once shutdown has begun it cannot be undone: the loop never runs again, no
/// value is accepted any more, and every later event is answered with `Exit`.
pub proof fn lemma_shutdown_is_final<T>(phase: Phase, accepted: Seq<T>, evs: Seq<Event<T>>)
    requires
        phase != Phase::Running,
    ensures
        run(phase, accepted, evs).0 != Phase::Running,
        run(phase, accepted, evs).1 == accepted,
        evs.len() > 0 ==> run(phase, accepted, evs).0 == Phase::Terminated,
        forall|i: int|
            0 <= i < evs.len() ==> #[trigger] run(phase, accepted, evs).2[i] == Action::Exit,
    decreases evs.len(),
{
    if evs.len() > 0 {
        lemma_shutdown_is_final(phase, accepted, evs.drop_last());
    }
    assert(run(phase, accepted, evs).2.len() == evs.len()) by {
        lemma_run_len(phase, accepted, evs);
    }
}

/// One action is answered to each event.
pub proof fn lemma_run_len<T>(phase: Phase, accepted: Seq<T>, evs: Seq<Event<T>>)
    ensures
        run(phase, accepted, evs).2.len() == evs.len(),
    decreases evs.len(),
{
    if evs.len() > 0 {
        lemma_run_len(phase, accepted, evs.drop_last());
    }
}

/// Values are accepted in the order they were sent: a running loop that
/// receives `vals` keeps running, asks for the next message after each, and
/// has accepted exactly `vals` after what it had before.
pub proof fn lemma_send_order<T>(accepted: Seq<T>, vals: Seq<T>)
    requires
        accepted.len() + vals.len() <= u64::MAX,
    ensures
        run(Phase::Running, accepted, value_events(vals)).0 == Phase::Running,
        run(Phase::Running, accepted, value_events(vals)).1 == accepted + vals,
        run(Phase::Running, accepted, value_events(vals)).2 == Seq::new(
            vals.len(),
            |i: int| Action::Receive,
        ),
    decreases vals.len(),
{
    if vals.len() > 0 {
        let init = vals.drop_last();
        assert(value_events(vals).drop_last() =~= value_events(init));
        lemma_send_order(accepted, init);
        assert(accepted + init + seq![vals.last()] =~= accepted + vals);
        assert(Seq::new(init.len(), |i: int| Action::Receive).push(Action::Receive) =~= Seq::new(
            vals.len(),
            |i: int| Action::Receive,
        ));
    }
}

/// Values sent before the shutdown message are all accepted before the loop
/// begins to shut down; from a fresh loop, up to `CAPACITY` of them are all in
/// the window, the k-th with step k.
pub proof fn lemma_drain_before_shutdown<T>(vals: Seq<T>)
    requires
        vals.len() <= crate::window::CAPACITY,
    ensures
        run(
            Phase::Running,
            Seq::empty(),
            value_events(vals).push(Event::Received(Message::Shutdown)),
        ).0 == Phase::ShuttingDown,
        run(
            Phase::Running,
            Seq::empty(),
            value_events(vals).push(Event::Received(Message::Shutdown)),
        ).1 == vals,
        window_of(vals) == numbered(vals),
{
    let evs = value_events(vals).push(Event::Received(Message::Shutdown));
    assert(evs.drop_last() == value_events(vals));
    lemma_send_order(Seq::<T>::empty(), vals);
    assert(Seq::<T>::empty() + vals =~= vals);
}

/// The render loop's decisions, with the window it owns.
pub struct RenderLoop<T> {
    window: Window<T>,
    phase: Phase,
}

impl<T> RenderLoop<T> {
    pub closed spec fn wf(&self) -> bool {
        self.window.wf()
    }

    pub closed spec fn spec_phase(&self) -> Phase {
        self.phase
    }

    /// Every value accepted into the window, in order.
    pub closed spec fn accepted(&self) -> Seq<T> {
        self.window.accepted()
    }

    /// What the window holds.
    pub closed spec fn window_view(&self) -> Seq<(u64, T)> {
        self.window@
    }

    /// A running loop with an empty window.
    pub fn new() -> (r: Self)
        ensures
            r.wf(),
            r.spec_phase() == Phase::Running,
            r.accepted() == Seq::<T>::empty(),
    {
        RenderLoop { window: Window::new(), phase: Phase::Running }
    }

    /// Takes one event and answers the next action, as `transition` says.
    pub fn handle(&mut self, ev: Event<T>) -> (act: Action)
        requires
            old(self).wf(),
        ensures
            final(self).wf(),
            (final(self).spec_phase(), final(self).accepted(), act) == transition(
                old(self).spec_phase(),
                old(self).accepted(),
                ev,
            ),
    {
        match self.phase {
            Phase::Running => match ev {
                Event::Received(Message::Value(v)) => {
                    if self.window.has_room_for_step() {
                        self.window.push(v);
                        Action::Receive
                    } else {
                        self.phase = Phase::ShuttingDown;
                        Action::Restore
                    }
                },
                Event::Received(Message::Shutdown) | Event::KeyPressed | Event::Failed => {
                    self.phase = Phase::ShuttingDown;
                    Action::Restore
                },
                Event::Drained => Action::Draw,
                Event::Drawn => Action::Poll,
                Event::Quiet | Event::Restored => Action::Receive,
            },
            Phase::ShuttingDown | Phase::Terminated => {
                self.phase = Phase::Terminated;
                Action::Exit
            },
        }
    }

    /// The current phase.
    pub fn phase(&self) -> (r: Phase)
        ensures
            r == self.spec_phase(),
    {
        self.phase
    }

    /// The window, for drawing.
    pub fn window(&self) -> (r: &Window<T>)
        requires
            self.wf(),
        ensures
            r.wf(),
            r@ == self.window_view(),
            r.accepted() == self.accepted(),
    {
        &self.window
    }
}

} // verus!
