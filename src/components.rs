//! A unit ("blox"): its state machine and the receive ends of its mailboxes.
use crate::runtime::Runtime;
use crate::state_machine::{Components, State, StateMachine, StateEnum};
use crate::supervisor::{SupervisorLocalPayload, SupervisorPayload};
use vstd::prelude::*;

verus! {

/// One unit: a state machine together with the receive ends it consumes.
pub struct Blox<C: Components> {
    pub state_machine: StateMachine<C>,
    pub receivers: C::Receivers,
}

impl<C: Components> Blox<C> where C::States: State<C> {
    /// A unit in its initial state.
    pub fn new(receivers: C::Receivers, extended_state: C::ExtendedState, self_handles: C::Handles) -> (r: Self)
        ensures
            r.state_machine.current_state == C::States::initial(),
            r.state_machine.extended_state == extended_state,
            r.state_machine.self_handles == self_handles,
            r.receivers == receivers,
    {
        Blox { state_machine: StateMachine::new(extended_state, self_handles), receivers }
    }
}

/// A unit that scheduler `R` can run.
pub trait Runnable<R: Runtime>: Sized {
    /// The work that runs this unit.
    fn run(self) -> R::Work;

    /// A request asking the supervisor to launch this unit.
    fn into_request(self) -> (r: SupervisorPayload<R::Work>)
        ensures
            r is Spawn,
    {
        SupervisorPayload::Spawn(self.run())
    }
}

/// A unit whose work must stay on the thread that starts it.
pub trait RunnableLocal<W>: Sized {
    /// The work that runs this unit.
    fn run_local(self) -> W;

    /// A request asking the supervisor to launch this unit on its own thread.
    fn into_request(self) -> (r: SupervisorLocalPayload<W>)
        ensures
            r is SpawnLocal,
    {
        SupervisorLocalPayload::SpawnLocal(self.run_local())
    }
}

} // verus!
