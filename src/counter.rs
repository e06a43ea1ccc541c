//! A counting unit: it takes a bound, counts increments and decrements once started, and
//! tells its subscribers when a bound is reached.
use crate::messaging::{
    Handle, Message, MessageSet, StandardHandle, StandardPayload, StandardReceiver,
};
use crate::runtime::Runtime;
use crate::state_machine::{
    dispatched, hook_holds, hooks_ran, trace_follows, Components, ExtendedState, Hook, State,
    StateEnum, Transition,
};
use crate::supervisor::SupervisorHandle;
use vstd::prelude::*;

verus! {

/// What the counter's own mailbox carries.
#[derive(Debug, PartialEq, Eq)]
pub enum CounterPayload {
    SetCount(Box<usize>),
    Increment(Box<usize>),
    Decrement(Box<usize>),
    SetMax(Box<usize>),
    SetMin(Box<usize>),
    CountEvent(Box<CountEvent>),
}

/// Events about the count.
#[derive(Debug, Clone, Copy, PartialEq, Eq, Structural)]
pub enum CountEvent {
    GetCount,
    MaxReached,
    MinReached,
    Reset,
    StartCounting,
}

/// The sending side of a counter mailbox.
pub type CounterSender = tokio::sync::mpsc::Sender<Message<CounterPayload>>;

/// A handle onto a counter mailbox.
pub type CounterHandle = Handle<CounterSender>;

/// What the counter's dispatch accepts.
pub enum CounterMessageSet {
    StandardMessage(Message<StandardPayload>),
    CounterMessage(Message<CounterPayload>),
}

impl MessageSet for CounterMessageSet {

}

/// The counter's handles onto its own mailboxes.
pub struct CounterHandles {
    pub standard_handle: StandardHandle,
    pub counter_handle: CounterHandle,
}

/// The receive ends of the counter's mailboxes.
pub struct CounterReceivers {
    pub standard_receiver: StandardReceiver,
    pub counter_receiver: tokio::sync::mpsc::Receiver<Message<CounterPayload>>,
}

/// The counter's context.
pub struct CounterExtendedState<R: Runtime> {
    pub count: usize,
    pub max: usize,
    pub min: usize,
    /// Handles that hear about the count.
    pub subscribers: Vec<CounterHandle>,
    pub supervisor_handle: SupervisorHandle<R>,
    /// Every message handed to a mailbox, in order: the mailbox's identity and the envelope.
    pub sent: Ghost<Seq<(u16, Message<CounterPayload>)>>,
}

/// What the counter is started with.
pub struct CounterInitArgs<R: Runtime> {
    pub supervisor_handle: SupervisorHandle<R>,
}

impl<R: Runtime> ExtendedState for CounterExtendedState<R> {
    type InitArgs = CounterInitArgs<R>;

    open spec fn built_from(args: CounterInitArgs<R>, r: Self) -> bool {
        &&& r.count == 0
        &&& r.max == 10
        &&& r.min == 0
        &&& r.subscribers@.len() == 0
        &&& r.supervisor_handle == args.supervisor_handle
        &&& r.sent@ == Seq::<(u16, Message<CounterPayload>)>::empty()
    }

    /// A count of 0 between the bounds 0 and 10, with no subscribers.
    fn new(args: CounterInitArgs<R>) -> (r: Self) {
        CounterExtendedState {
            count: 0,
            max: 10,
            min: 0,
            subscribers: Vec::new(),
            supervisor_handle: args.supervisor_handle,
            sent: Ghost(Seq::empty()),
        }
    }
}

/// The root of the counter's hierarchy.
#[derive(Clone, Copy, PartialEq, Eq, Structural, Debug)]
pub struct Uninit;

/// Not counting; parent of `NotStarted`, `Finished` and `Error`. It answers `Reset`.
#[derive(Clone, Copy, PartialEq, Eq, Structural, Debug)]
pub struct Idle;

/// Taking settings, waiting to start.
#[derive(Clone, Copy, PartialEq, Eq, Structural, Debug)]
pub struct NotStarted;

/// Counting.
#[derive(Clone, Copy, PartialEq, Eq, Structural, Debug)]
pub struct Counting;

/// A bound was reached.
#[derive(Clone, Copy, PartialEq, Eq, Structural, Debug)]
pub struct Finished;

/// Something went wrong.
#[derive(Clone, Copy, PartialEq, Eq, Structural, Debug)]
pub struct Error;

/// The counter's states.
#[derive(Clone, Copy, PartialEq, Eq, Structural, Debug)]
pub enum CounterStateEnum {
    Uninit(Uninit),
    Idle(Idle),
    NotStarted(NotStarted),
    Counting(Counting),
    Finished(Finished),
    Error(Error),
}

impl StateEnum for CounterStateEnum {
    open spec fn parent_of(self) -> Self {
        match self {
            CounterStateEnum::Uninit(_) => CounterStateEnum::Uninit(Uninit),
            CounterStateEnum::Idle(_) => CounterStateEnum::Uninit(Uninit),
            CounterStateEnum::NotStarted(_) => CounterStateEnum::Idle(Idle),
            CounterStateEnum::Counting(_) => CounterStateEnum::Uninit(Uninit),
            CounterStateEnum::Finished(_) => CounterStateEnum::Idle(Idle),
            CounterStateEnum::Error(_) => CounterStateEnum::Idle(Idle),
        }
    }

    open spec fn depth(self) -> nat {
        match self {
            CounterStateEnum::Uninit(_) => 0,
            CounterStateEnum::Idle(_) => 1,
            CounterStateEnum::Counting(_) => 1,
            _ => 2,
        }
    }

    open spec fn initial() -> Self {
        CounterStateEnum::Uninit(Uninit)
    }

    proof fn lemma_parent_depth(self) {
    }

    fn new() -> (r: Self) {
        CounterStateEnum::Uninit(Uninit)
    }

    fn parent(&self) -> (r: Self) {
        match self {
            CounterStateEnum::Uninit(_) => CounterStateEnum::Uninit(Uninit),
            CounterStateEnum::Idle(_) => CounterStateEnum::Uninit(Uninit),
            CounterStateEnum::NotStarted(_) => CounterStateEnum::Idle(Idle),
            CounterStateEnum::Counting(_) => CounterStateEnum::Uninit(Uninit),
            CounterStateEnum::Finished(_) => CounterStateEnum::Idle(Idle),
            CounterStateEnum::Error(_) => CounterStateEnum::Idle(Idle),
        }
    }

    fn same(&self, other: &Self) -> (r: bool) {
        *self == *other
    }
}

/// The counter's context with another count.
pub open spec fn with_count<R: Runtime>(e: CounterExtendedState<R>, count: usize) -> CounterExtendedState<R> {
    CounterExtendedState { count, ..e }
}

/// The payload that carries `ev`.
pub open spec fn event_payload(ev: CountEvent) -> CounterPayload {
    CounterPayload::CountEvent(Box::new(ev))
}

/// One envelope from `from` carrying `p` for each of `subs`, in order.
pub open spec fn notes(subs: Seq<CounterHandle>, from: u16, p: CounterPayload) -> Seq<
    (u16, Message<CounterPayload>),
> {
    subs.map_values(|h: CounterHandle| (h.dest_id, Message { source_id: from, payload: p }))
}

/// `e` after every subscriber has been handed `p` from `from`.
pub open spec fn notified<R: Runtime>(e: CounterExtendedState<R>, from: u16, p: CounterPayload) -> CounterExtendedState<R> {
    CounterExtendedState { sent: Ghost(e.sent@ + notes(e.subscribers@, from, p)), ..e }
}

/// The payload of `msg` when it came on the counter mailbox.
pub open spec fn counter_payload(msg: CounterMessageSet) -> Option<CounterPayload> {
    match msg {
        CounterMessageSet::CounterMessage(m) => Some(m.payload),
        _ => None,
    }
}

/// How each state of the counter, whose standard mailbox has identity `from`, answers a
/// message: the new context (with what was sent) and the transition.
pub open spec fn counter_outcome<R: Runtime>(
    s: CounterStateEnum,
    from: u16,
    e: CounterExtendedState<R>,
    msg: CounterMessageSet,
) -> (CounterExtendedState<R>, Option<Transition<CounterStateEnum, CounterMessageSet>>) {
    match s {
        CounterStateEnum::Finished(_) | CounterStateEnum::Error(_) => (
            e,
            Some(Transition::Parent(msg)),
        ),
        CounterStateEnum::Idle(_) => match counter_payload(msg) {
            Some(CounterPayload::CountEvent(ev)) if *ev == CountEvent::Reset => (
                with_count(e, 0),
                Some(Transition::To(CounterStateEnum::NotStarted(NotStarted))),
            ),
            _ => (e, None),
        },
        CounterStateEnum::NotStarted(_) => match counter_payload(msg) {
            Some(CounterPayload::SetCount(v)) => (with_count(e, *v), None),
            Some(CounterPayload::SetMax(v)) => (CounterExtendedState { max: *v, ..e }, None),
            Some(CounterPayload::SetMin(v)) => (CounterExtendedState { min: *v, ..e }, None),
            Some(CounterPayload::CountEvent(ev)) if *ev == CountEvent::StartCounting => (
                notified(e, from, CounterPayload::SetCount(Box::new(e.count))),
                Some(Transition::To(CounterStateEnum::Counting(Counting))),
            ),
            _ => (e, None),
        },
        CounterStateEnum::Counting(_) => match counter_payload(msg) {
            Some(CounterPayload::Increment(a)) => {
                let c = e.count.saturating_add(*a);
                if c >= e.max {
                    (
                        notified(with_count(e, c), from, event_payload(CountEvent::MaxReached)),
                        Some(Transition::To(CounterStateEnum::Finished(Finished))),
                    )
                } else {
                    (with_count(e, c), None)
                }
            },
            Some(CounterPayload::Decrement(a)) => {
                let c = e.count.saturating_sub(*a);
                if c <= e.min {
                    (
                        notified(with_count(e, c), from, event_payload(CountEvent::MinReached)),
                        Some(Transition::To(CounterStateEnum::Finished(Finished))),
                    )
                } else {
                    (with_count(e, c), None)
                }
            },
            Some(CounterPayload::CountEvent(ev)) if *ev == CountEvent::GetCount => (
                notified(e, from, CounterPayload::SetCount(Box::new(e.count))),
                None,
            ),
            Some(CounterPayload::CountEvent(ev)) if *ev == CountEvent::Reset => (
                e,
                Some(Transition::To(CounterStateEnum::NotStarted(NotStarted))),
            ),
            _ => (e, None),
        },
        CounterStateEnum::Uninit(_) => (e, None),
    }
}

/// Hands a copy of `payload` from `from` to every subscriber, in order, dropping refused
/// sends.
fn notify_all(
    subscribers: &Vec<CounterHandle>,
    from: u16,
    payload: &CounterPayload,
    log: &mut Ghost<Seq<(u16, Message<CounterPayload>)>>,
)
    ensures
        final(log)@ == old(log)@ + notes(subscribers@, from, *payload),
{
    let mut i: usize = 0;
    while i < subscribers.len()
        invariant
            i <= subscribers.len(),
            log@ == old(log)@ + notes(subscribers@.take(i as int), from, *payload),
        decreases subscribers.len() - i,
    {
        let copy = copy_payload(payload);
        subscribers[i].send_logged(Message::new(from, copy), log);
        proof {
            assert(subscribers@.take(i + 1) =~= subscribers@.take(i as int).push(subscribers@[i as int]));
            assert(notes(subscribers@.take(i + 1), from, *payload) =~= notes(
                subscribers@.take(i as int),
                from,
                *payload,
            ).push((subscribers@[i as int].dest_id, Message { source_id: from, payload: *payload })));
        }
        i = i + 1;
    }
    assert(subscribers@.take(subscribers@.len() as int) =~= subscribers@);
}

/// A copy of a payload.
pub fn copy_payload(p: &CounterPayload) -> (r: CounterPayload)
    ensures
        r == *p,
{
    match p {
        CounterPayload::SetCount(v) => CounterPayload::SetCount(Box::new(**v)),
        CounterPayload::Increment(v) => CounterPayload::Increment(Box::new(**v)),
        CounterPayload::Decrement(v) => CounterPayload::Decrement(Box::new(**v)),
        CounterPayload::SetMax(v) => CounterPayload::SetMax(Box::new(**v)),
        CounterPayload::SetMin(v) => CounterPayload::SetMin(Box::new(**v)),
        CounterPayload::CountEvent(e) => CounterPayload::CountEvent(Box::new(**e)),
    }
}

impl Idle {
    /// `Reset` zeroes the count and moves to `NotStarted`; everything else is ignored.
    pub fn handle_message<R: Runtime>(
        &self,
        ext: &mut CounterExtendedState<R>,
        h: &CounterHandles,
        msg: CounterMessageSet,
    ) -> (r: Option<Transition<CounterStateEnum, CounterMessageSet>>)
        ensures
            (*final(ext), r) == counter_outcome(
                CounterStateEnum::Idle(*self),
                h.standard_handle.dest_id,
                *old(ext),
                msg,
            ),
    {
        match msg {
            CounterMessageSet::CounterMessage(m) => match m.payload {
                CounterPayload::CountEvent(ev) => match *ev {
                    CountEvent::Reset => {
                        ext.count = 0;
                        Some(Transition::To(CounterStateEnum::NotStarted(NotStarted)))
                    },
                    _ => None,
                },
                _ => None,
            },
            _ => None,
        }
    }
}

impl NotStarted {
    /// Takes a count and bounds; `StartCounting` sends the count to the subscribers and
    /// moves to `Counting`.
    pub fn handle_message<R: Runtime>(
        &self,
        ext: &mut CounterExtendedState<R>,
        h: &CounterHandles,
        msg: CounterMessageSet,
    ) -> (r: Option<Transition<CounterStateEnum, CounterMessageSet>>)
        ensures
            (*final(ext), r) == counter_outcome(
                CounterStateEnum::NotStarted(*self),
                h.standard_handle.dest_id,
                *old(ext),
                msg,
            ),
    {
        match msg {
            CounterMessageSet::CounterMessage(m) => match m.payload {
                CounterPayload::SetCount(v) => {
                    ext.count = *v;
                    None
                },
                CounterPayload::SetMax(v) => {
                    ext.max = *v;
                    None
                },
                CounterPayload::SetMin(v) => {
                    ext.min = *v;
                    None
                },
                CounterPayload::CountEvent(ev) => match *ev {
                    CountEvent::StartCounting => {
                        let count = CounterPayload::SetCount(Box::new(ext.count));
                        notify_all(&ext.subscribers, h.standard_handle.dest_id, &count, &mut ext.sent);
                        Some(Transition::To(CounterStateEnum::Counting(Counting)))
                    },
                    _ => None,
                },
                _ => None,
            },
            _ => None,
        }
    }
}

impl Counting {
    /// Counts; reaching the upper bound (at or above `max`) or the lower one (at or below
    /// `min`) tells the subscribers and moves to `Finished`. The count saturates at the ends
    /// of `usize`. `GetCount` sends the count to the subscribers; `Reset` moves to
    /// `NotStarted`.
    pub fn handle_message<R: Runtime>(
        &self,
        ext: &mut CounterExtendedState<R>,
        h: &CounterHandles,
        msg: CounterMessageSet,
    ) -> (r: Option<Transition<CounterStateEnum, CounterMessageSet>>)
        ensures
            (*final(ext), r) == counter_outcome(
                CounterStateEnum::Counting(*self),
                h.standard_handle.dest_id,
                *old(ext),
                msg,
            ),
    {
        let from = h.standard_handle.dest_id;
        match msg {
            CounterMessageSet::CounterMessage(m) => match m.payload {
                CounterPayload::Increment(a) => {
                    ext.count = ext.count.saturating_add(*a);
                    if ext.count >= ext.max {
                        let note = CounterPayload::CountEvent(Box::new(CountEvent::MaxReached));
                        notify_all(&ext.subscribers, from, &note, &mut ext.sent);
                        Some(Transition::To(CounterStateEnum::Finished(Finished)))
                    } else {
                        None
                    }
                },
                CounterPayload::Decrement(a) => {
                    ext.count = ext.count.saturating_sub(*a);
                    if ext.count <= ext.min {
                        let note = CounterPayload::CountEvent(Box::new(CountEvent::MinReached));
                        notify_all(&ext.subscribers, from, &note, &mut ext.sent);
                        Some(Transition::To(CounterStateEnum::Finished(Finished)))
                    } else {
                        None
                    }
                },
                CounterPayload::CountEvent(ev) => match *ev {
                    CountEvent::GetCount => {
                        let count = CounterPayload::SetCount(Box::new(ext.count));
                        notify_all(&ext.subscribers, from, &count, &mut ext.sent);
                        None
                    },
                    CountEvent::Reset => Some(
                        Transition::To(CounterStateEnum::NotStarted(NotStarted)),
                    ),
                    _ => None,
                },
                _ => None,
            },
            _ => None,
        }
    }
}

/// The counter's types.
pub struct CounterComponents<R: Runtime> {
    pub runtime: core::marker::PhantomData<R>,
}

impl<R: Runtime> Components for CounterComponents<R> {
    type States = CounterStateEnum;
    type ExtendedState = CounterExtendedState<R>;
    type MessageSet = CounterMessageSet;
    type Handles = CounterHandles;
    type Receivers = CounterReceivers;
}

impl<R: Runtime> State<CounterComponents<R>> for CounterStateEnum {
    open spec fn entry_rel(
        self,
        h: CounterHandles,
        before: CounterExtendedState<R>,
        after: CounterExtendedState<R>,
    ) -> bool {
        after == before
    }

    open spec fn exit_rel(
        self,
        h: CounterHandles,
        before: CounterExtendedState<R>,
        after: CounterExtendedState<R>,
    ) -> bool {
        after == before
    }

    open spec fn exit_ok(self, h: CounterHandles, e: CounterExtendedState<R>) -> bool {
        true
    }

    open spec fn handle_rel(
        self,
        h: CounterHandles,
        before: CounterExtendedState<R>,
        msg: CounterMessageSet,
        after: CounterExtendedState<R>,
        t: Option<Transition<CounterStateEnum, CounterMessageSet>>,
    ) -> bool {
        (after, t) == counter_outcome(self, h.standard_handle.dest_id, before, msg)
    }

    fn on_entry(&self, ext: &mut CounterExtendedState<R>, h: &CounterHandles) {
    }

    fn on_exit(&self, ext: &mut CounterExtendedState<R>, h: &CounterHandles) {
    }

    /// `Finished` and `Error` hand every message to `Idle`.
    fn handle_message(
        &self,
        ext: &mut CounterExtendedState<R>,
        h: &CounterHandles,
        msg: CounterMessageSet,
    ) -> (r: Option<Transition<CounterStateEnum, CounterMessageSet>>) {
        match self {
            CounterStateEnum::Uninit(_) => None,
            CounterStateEnum::Idle(s) => s.handle_message(ext, h, msg),
            CounterStateEnum::NotStarted(s) => s.handle_message(ext, h, msg),
            CounterStateEnum::Counting(s) => s.handle_message(ext, h, msg),
            CounterStateEnum::Finished(_) => Some(Transition::Parent(msg)),
            CounterStateEnum::Error(_) => Some(Transition::Parent(msg)),
        }
    }
}

/// The counter's entry and exit hooks change nothing, so a run of them leaves the context
/// (and what was sent) as it was.
pub proof fn lemma_counter_hooks_keep_context<R: Runtime>(
    hooks: Seq<Hook<CounterStateEnum>>,
    h: CounterHandles,
    before: CounterExtendedState<R>,
    after: CounterExtendedState<R>,
)
    requires
        hooks_ran::<CounterComponents<R>>(hooks, h, before, after),
    ensures
        after == before,
{
    let trace = choose|trace: Seq<CounterExtendedState<R>>|
        {
            &&& #[trigger] trace_follows::<CounterComponents<R>>(hooks, h, trace)
            &&& trace[0] == before
            &&& trace[hooks.len() as int] == after
        };
    lemma_counter_trace_constant::<R>(hooks, h, trace, hooks.len() as int);
}

proof fn lemma_counter_trace_constant<R: Runtime>(
    hooks: Seq<Hook<CounterStateEnum>>,
    h: CounterHandles,
    trace: Seq<CounterExtendedState<R>>,
    i: int,
)
    requires
        trace_follows::<CounterComponents<R>>(hooks, h, trace),
        0 <= i <= hooks.len(),
    ensures
        trace[i] == trace[0],
    decreases i,
{
    if i > 0 {
        lemma_counter_trace_constant::<R>(hooks, h, trace, i - 1);
        let j = i - 1;
        assert(hook_holds::<CounterComponents<R>>(hooks[j], h, trace[j], trace[j + 1]));
    }
}

/// Reaching the bound: dispatching, in `Counting`, an increment that takes the count to
/// `max` or beyond hands `MaxReached` to every subscriber in order, moves to `Finished`, and
/// the hooks of that move send nothing more.
pub proof fn lemma_max_reached_notifies<R: Runtime>(
    h: CounterHandles,
    before: CounterExtendedState<R>,
    m: Message<CounterPayload>,
    after: CounterExtendedState<R>,
    cur_after: CounterStateEnum,
    r: Result<(), CounterMessageSet>,
)
    requires
        dispatched::<CounterComponents<R>>(
            CounterStateEnum::Counting(Counting),
            h,
            before,
            CounterMessageSet::CounterMessage(m),
            CounterStateEnum::Counting(Counting),
            after,
            cur_after,
            r,
        ),
        m.payload matches CounterPayload::Increment(a) && before.count.saturating_add(*a)
            >= before.max,
    ensures
        r is Ok,
        cur_after == CounterStateEnum::Finished(Finished),
        after.sent@ == before.sent@ + notes(
            before.subscribers@,
            h.standard_handle.dest_id,
            event_payload(CountEvent::MaxReached),
        ),
{
    let s = CounterStateEnum::Counting(Counting);
    let msg = CounterMessageSet::CounterMessage(m);
    let (mid, t) = choose|mid: CounterExtendedState<R>, t: Option<Transition<CounterStateEnum, CounterMessageSet>>|
        {
            &&& #[trigger] s.handle_rel(h, before, msg, mid, t)
            &&& match t {
                None => after == mid && cur_after == s && r is Ok,
                Some(Transition::To(dest)) => {
                    &&& cur_after == dest
                    &&& hooks_ran::<CounterComponents<R>>(
                        crate::state_machine::transition_hooks(s, dest),
                        h,
                        mid,
                        after,
                    )
                    &&& r is Ok
                },
                Some(Transition::Parent(m1)) => {
                    if s.depth() == 0 || s.parent_of().depth() >= s.depth() {
                        after == mid && cur_after == s && r == Err::<(), CounterMessageSet>(m1)
                    } else {
                        dispatched::<CounterComponents<R>>(s.parent_of(), h, mid, m1, s, after, cur_after, r)
                    }
                },
            }
        };
    lemma_counter_hooks_keep_context::<R>(
        crate::state_machine::transition_hooks(s, CounterStateEnum::Finished(Finished)),
        h,
        mid,
        after,
    );
}

} // verus!
