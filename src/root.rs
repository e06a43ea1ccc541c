//! The root unit: the first unit the supervisor launches. It asks for a mailbox, starts a
//! counter on it, bounds it at 4, and drives it to its bound.
use crate::components::{Blox, Runnable};
use crate::counter::{
    CountEvent, CounterComponents, CounterExtendedState, CounterHandle, CounterHandles,
    CounterInitArgs, CounterPayload, CounterReceivers, CounterSender,
};
use crate::messaging::{
    Handle, Message, MessageSet, StandardHandle, StandardPayload, StandardReceiver,
    DEFAULT_CHANNEL_SIZE,
};
use crate::runtime::Runtime;
use crate::state_machine::{Components, ExtendedState, State, StateEnum, Transition};
use crate::supervisor::{SupervisorHandle, SupervisorPayload};
use vstd::prelude::*;

verus! {

/// The bound the root gives its counter.
pub const COUNTER_MAX: usize = 4;

/// The root's context, with a record of every message it has handed to the supervisor's
/// mailbox and to the counter's, in order: the mailbox's identity and the envelope.
pub struct RootExtState<R: Runtime> {
    pub supervisor_handle: SupervisorHandle<R>,
    pub counter_handle: Option<CounterHandle>,
    pub to_supervisor: Ghost<Seq<(u16, Message<SupervisorPayload<R::Work>>)>>,
    pub to_counter: Ghost<Seq<(u16, Message<CounterPayload>)>>,
}

/// What the root is started with.
pub struct RootInitArgs<R: Runtime> {
    pub supervisor_handle: SupervisorHandle<R>,
    pub counter_handle: Option<CounterHandle>,
}

impl<R: Runtime> ExtendedState for RootExtState<R> {
    type InitArgs = RootInitArgs<R>;

    open spec fn built_from(args: RootInitArgs<R>, r: Self) -> bool {
        &&& r.supervisor_handle == args.supervisor_handle
        &&& r.counter_handle == args.counter_handle
        &&& r.to_supervisor@.len() == 0
        &&& r.to_counter@.len() == 0
    }

    fn new(args: RootInitArgs<R>) -> (r: Self) {
        RootExtState {
            supervisor_handle: args.supervisor_handle,
            counter_handle: args.counter_handle,
            to_supervisor: Ghost(Seq::empty()),
            to_counter: Ghost(Seq::empty()),
        }
    }
}

/// The root's handles onto its own mailboxes.
pub struct RootHandles {
    pub standard_handle: StandardHandle,
    pub counter_handle: CounterHandle,
}

/// The receive ends of the root's mailboxes.
pub struct RootReceivers {
    pub std_rx: StandardReceiver,
    pub counter_rx: tokio::sync::mpsc::Receiver<Message<CounterPayload>>,
}

/// What the root's dispatch accepts.
pub enum RootMessageSet {
    StandardMessage(Message<StandardPayload>),
    CounterMessage(Message<CounterPayload>),
}

impl MessageSet for RootMessageSet {

}

/// The root of the root unit's hierarchy.
#[derive(Clone, Copy, PartialEq, Eq, Structural, Debug)]
pub struct Uninit;

/// Not doing anything; parent of `Starting`, `Finished` and `Error`.
#[derive(Clone, Copy, PartialEq, Eq, Structural, Debug)]
pub struct Idle;

/// Waiting for a mailbox to start the counter on.
#[derive(Clone, Copy, PartialEq, Eq, Structural, Debug)]
pub struct Starting;

/// Driving the counter.
#[derive(Clone, Copy, PartialEq, Eq, Structural, Debug)]
pub struct Counting;

/// The counter reached a bound.
#[derive(Clone, Copy, PartialEq, Eq, Structural, Debug)]
pub struct Finished;

/// Something went wrong.
#[derive(Clone, Copy, PartialEq, Eq, Structural, Debug)]
pub struct Error;

/// The root unit's states.
#[derive(Clone, Copy, PartialEq, Eq, Structural, Debug)]
pub enum RootStates {
    Uninit(Uninit),
    Idle(Idle),
    Starting(Starting),
    Counting(Counting),
    Finished(Finished),
    Error(Error),
}

impl StateEnum for RootStates {
    open spec fn parent_of(self) -> Self {
        match self {
            RootStates::Starting(_) | RootStates::Finished(_) | RootStates::Error(_) => RootStates::Idle(
                Idle,
            ),
            _ => RootStates::Uninit(Uninit),
        }
    }

    open spec fn depth(self) -> nat {
        match self {
            RootStates::Uninit(_) => 0,
            RootStates::Idle(_) | RootStates::Counting(_) => 1,
            _ => 2,
        }
    }

    open spec fn initial() -> Self {
        RootStates::Uninit(Uninit)
    }

    proof fn lemma_parent_depth(self) {
    }

    fn new() -> (r: Self) {
        RootStates::Uninit(Uninit)
    }

    fn parent(&self) -> (r: Self) {
        match self {
            RootStates::Starting(_) | RootStates::Finished(_) | RootStates::Error(_) => RootStates::Idle(
                Idle,
            ),
            _ => RootStates::Uninit(Uninit),
        }
    }

    fn same(&self, other: &Self) -> (r: bool) {
        *self == *other
    }
}

/// `e` holding a handle onto counter mailbox `c`.
pub open spec fn with_counter<R: Runtime>(e: RootExtState<R>, c: CounterHandle) -> RootExtState<R> {
    RootExtState { counter_handle: Some(c), ..e }
}

/// `e` after handing `p`, from `from`, to the supervisor.
pub open spec fn told_supervisor<R: Runtime>(
    e: RootExtState<R>,
    from: u16,
    p: SupervisorPayload<R::Work>,
) -> RootExtState<R> {
    RootExtState {
        to_supervisor: Ghost(
            e.to_supervisor@.push((e.supervisor_handle.dest_id, Message { source_id: from, payload: p })),
        ),
        ..e
    }
}

/// `e` after handing `p`, from `from`, to the counter mailbox with identity `to`.
pub open spec fn told_counter<R: Runtime>(
    e: RootExtState<R>,
    to: u16,
    from: u16,
    p: CounterPayload,
) -> RootExtState<R> {
    RootExtState {
        to_counter: Ghost(e.to_counter@.push((to, Message { source_id: from, payload: p }))),
        ..e
    }
}

/// Entering `Starting` asks the supervisor for a standard mailbox.
pub open spec fn root_entered<R: Runtime>(s: RootStates, from: u16, before: RootExtState<R>) -> RootExtState<R> {
    match s {
        RootStates::Starting(_) => told_supervisor(
            before,
            from,
            SupervisorPayload::RequestNewStandardHandle(DEFAULT_CHANNEL_SIZE),
        ),
        _ => before,
    }
}

/// Leaving `Starting` tells the counter, if there is one, to start.
pub open spec fn root_exited<R: Runtime>(s: RootStates, from: u16, before: RootExtState<R>) -> RootExtState<R> {
    match (s, before.counter_handle) {
        (RootStates::Starting(_), Some(c)) => told_counter(
            before,
            c.dest_id,
            from,
            CounterPayload::CountEvent(Box::new(CountEvent::StartCounting)),
        ),
        _ => before,
    }
}

/// How each root state, whose standard mailbox has identity `from`, answers a message.
/// `Starting`, given a fresh standard mailbox, keeps a handle onto a counter mailbox of the
/// same identity, hands the supervisor a `Spawn` request, hands the counter `SetMax(4)`, and
/// moves to `Counting`. `Counting` moves to `Finished` when the counter reports a bound, and
/// answers each count it reports with `Increment(1)` and then `GetCount`. Everything else
/// leaves the context and state alone and sends nothing.
pub open spec fn root_outcome<R: Runtime>(
    s: RootStates,
    from: u16,
    before: RootExtState<R>,
    msg: RootMessageSet,
    after: RootExtState<R>,
    t: Option<Transition<RootStates, RootMessageSet>>,
) -> bool {
    match (s, msg) {
        (RootStates::Starting(_), RootMessageSet::StandardMessage(m)) => match m.payload {
            StandardPayload::StandardChannel(h, _) => {
                &&& exists|w: R::Work, c: CounterHandle|
                    {
                        &&& c.dest_id == h.dest_id
                        &&& after == told_counter(
                            #[trigger] told_supervisor(
                                with_counter(before, c),
                                from,
                                SupervisorPayload::Spawn(w),
                            ),
                            h.dest_id,
                            from,
                            CounterPayload::SetMax(Box::new(COUNTER_MAX)),
                        )
                    }
                &&& t == Some(Transition::<RootStates, RootMessageSet>::To(RootStates::Counting(Counting)))
            },
            _ => after == before && t is None,
        },
        (RootStates::Counting(_), RootMessageSet::CounterMessage(m)) => match m.payload {
            CounterPayload::CountEvent(ev) => {
                &&& after == before
                &&& t == if *ev == CountEvent::MaxReached || *ev == CountEvent::MinReached {
                    Some(Transition::<RootStates, RootMessageSet>::To(RootStates::Finished(Finished)))
                } else {
                    None
                }
            },
            CounterPayload::SetCount(_) => {
                &&& t is None
                &&& after == match before.counter_handle {
                    Some(c) => told_counter(
                        told_counter(before, c.dest_id, from, CounterPayload::Increment(Box::new(1))),
                        c.dest_id,
                        from,
                        CounterPayload::CountEvent(Box::new(CountEvent::GetCount)),
                    ),
                    None => before,
                }
            },
            _ => after == before && t is None,
        },
        _ => after == before && t is None,
    }
}

impl Starting {
    /// Asks the supervisor for a standard mailbox.
    pub fn on_entry<R: Runtime>(&self, ext: &mut RootExtState<R>, h: &RootHandles)
        ensures
            *final(ext) == root_entered(RootStates::Starting(*self), h.standard_handle.dest_id, *old(ext)),
    {
        let request = SupervisorPayload::RequestNewStandardHandle(DEFAULT_CHANNEL_SIZE);
        let msg = Message::new(h.standard_handle.dest_id, request);
        ext.supervisor_handle.send_logged(msg, &mut ext.to_supervisor);
    }

    /// Tells the counter to start.
    pub fn on_exit<R: Runtime>(&self, ext: &mut RootExtState<R>, h: &RootHandles)
        ensures
            *final(ext) == root_exited(RootStates::Starting(*self), h.standard_handle.dest_id, *old(ext)),
    {
        match &ext.counter_handle {
            Some(counter) => {
                let start = CounterPayload::CountEvent(Box::new(CountEvent::StartCounting));
                counter.send_logged(Message::new(h.standard_handle.dest_id, start), &mut ext.to_counter);
            },
            None => {},
        }
    }

    /// On a fresh standard mailbox: creates the counter's own mailbox under the same identity,
    /// builds the counter (with this unit subscribed), asks the supervisor to launch it, sets
    /// its bound, and moves to `Counting`.
    pub fn handle_message<R: Runtime>(
        &self,
        ext: &mut RootExtState<R>,
        h: &RootHandles,
        msg: RootMessageSet,
    ) -> (r: Option<Transition<RootStates, RootMessageSet>>)
        where
            Blox<CounterComponents<R>>: Runnable<R>,
        ensures
            root_outcome(
                RootStates::Starting(*self),
                h.standard_handle.dest_id,
                *old(ext),
                msg,
                *final(ext),
                r,
            ),
    {
        match msg {
            RootMessageSet::StandardMessage(m) => match m.payload {
                StandardPayload::StandardChannel(new_standard_handle, standard_receiver) => {
                    let from = h.standard_handle.dest_id;
                    let id = new_standard_handle.dest_id;
                    let (counter_handle, counter_receiver) =
                        Handle::<CounterSender>::create_channel_with_size(id, DEFAULT_CHANNEL_SIZE);
                    ext.counter_handle = Some(counter_handle.clone());
                    let ghost c = ext.counter_handle->Some_0;
                    let receivers = CounterReceivers { standard_receiver, counter_receiver };
                    let handles = CounterHandles {
                        standard_handle: new_standard_handle,
                        counter_handle: counter_handle.clone(),
                    };
                    let args = CounterInitArgs { supervisor_handle: ext.supervisor_handle.clone() };
                    let mut counter_ext = <CounterExtendedState<R> as ExtendedState>::new(args);
                    counter_ext.subscribers.push(h.counter_handle.clone());
                    let blox = Blox::<CounterComponents<R>>::new(receivers, counter_ext, handles);
                    let request = blox.into_request();
                    let ghost w = request->Spawn_0;
                    ext.supervisor_handle.send_logged(Message::new(from, request), &mut ext.to_supervisor);
                    let bound = CounterPayload::SetMax(Box::new(COUNTER_MAX));
                    counter_handle.send_logged(Message::new(from, bound), &mut ext.to_counter);
                    assert(*ext == told_counter(
                        told_supervisor(with_counter(*old(ext), c), from, SupervisorPayload::Spawn(w)),
                        id,
                        from,
                        CounterPayload::SetMax(Box::new(COUNTER_MAX)),
                    ));
                    Some(Transition::To(RootStates::Counting(Counting)))
                },
                _ => None,
            },
            _ => None,
        }
    }
}

impl Counting {
    /// Reports of a bound move to `Finished`; each count the counter reports is answered with
    /// one increment and a request for the count.
    pub fn handle_message<R: Runtime>(
        &self,
        ext: &mut RootExtState<R>,
        h: &RootHandles,
        msg: RootMessageSet,
    ) -> (r: Option<Transition<RootStates, RootMessageSet>>)
        ensures
            root_outcome(
                RootStates::Counting(*self),
                h.standard_handle.dest_id,
                *old(ext),
                msg,
                *final(ext),
                r,
            ),
    {
        match msg {
            RootMessageSet::CounterMessage(m) => match m.payload {
                CounterPayload::CountEvent(ev) => match *ev {
                    CountEvent::MaxReached => Some(Transition::To(RootStates::Finished(Finished))),
                    CountEvent::MinReached => Some(Transition::To(RootStates::Finished(Finished))),
                    _ => None,
                },
                CounterPayload::SetCount(_) => {
                    match &ext.counter_handle {
                        Some(counter) => {
                            let from = h.standard_handle.dest_id;
                            let step = CounterPayload::Increment(Box::new(1));
                            counter.send_logged(Message::new(from, step), &mut ext.to_counter);
                            let ask = CounterPayload::CountEvent(Box::new(CountEvent::GetCount));
                            counter.send_logged(Message::new(from, ask), &mut ext.to_counter);
                        },
                        None => {},
                    }
                    None
                },
                _ => None,
            },
            _ => None,
        }
    }
}

/// The root unit's types.
pub struct RootComponents<R: Runtime> {
    pub runtime: core::marker::PhantomData<R>,
}

impl<R: Runtime> Components for RootComponents<R> {
    type States = RootStates;
    type ExtendedState = RootExtState<R>;
    type MessageSet = RootMessageSet;
    type Handles = RootHandles;
    type Receivers = RootReceivers;
}

impl<R: Runtime> State<RootComponents<R>> for RootStates where
    Blox<CounterComponents<R>>: Runnable<R>,
{
    open spec fn entry_rel(self, h: RootHandles, before: RootExtState<R>, after: RootExtState<R>) -> bool {
        after == root_entered(self, h.standard_handle.dest_id, before)
    }

    open spec fn exit_rel(self, h: RootHandles, before: RootExtState<R>, after: RootExtState<R>) -> bool {
        after == root_exited(self, h.standard_handle.dest_id, before)
    }

    open spec fn exit_ok(self, h: RootHandles, e: RootExtState<R>) -> bool {
        true
    }

    open spec fn handle_rel(
        self,
        h: RootHandles,
        before: RootExtState<R>,
        msg: RootMessageSet,
        after: RootExtState<R>,
        t: Option<Transition<RootStates, RootMessageSet>>,
    ) -> bool {
        root_outcome(self, h.standard_handle.dest_id, before, msg, after, t)
    }

    fn on_entry(&self, ext: &mut RootExtState<R>, h: &RootHandles) {
        match self {
            RootStates::Starting(s) => s.on_entry(ext, h),
            _ => {},
        }
    }

    fn on_exit(&self, ext: &mut RootExtState<R>, h: &RootHandles) {
        match self {
            RootStates::Starting(s) => s.on_exit(ext, h),
            _ => {},
        }
    }

    fn handle_message(
        &self,
        ext: &mut RootExtState<R>,
        h: &RootHandles,
        msg: RootMessageSet,
    ) -> (r: Option<Transition<RootStates, RootMessageSet>>) {
        match self {
            RootStates::Starting(s) => s.handle_message(ext, h, msg),
            RootStates::Counting(s) => s.handle_message(ext, h, msg),
            _ => None,
        }
    }
}

} // verus!
