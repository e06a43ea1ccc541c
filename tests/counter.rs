use bloxide::components::Blox;
use bloxide::counter::{
    CountEvent, CounterComponents, CounterExtendedState, CounterHandles, CounterInitArgs,
    CounterMessageSet, CounterPayload, CounterReceivers, CounterSender, CounterStateEnum,
    Counting, Finished, Idle, NotStarted, Uninit,
};
use bloxide::messaging::{Handle, Message, StandardSender};
use bloxide::runtime::Runtime;
use bloxide::state_machine::{ExtendedState, StateEnum, StateMachine};
use bloxide::supervisor::SupervisorSender;
use tokio::sync::mpsc::Receiver;

struct Inline;

impl Runtime for Inline {
    type Work = Box<dyn FnOnce() + Send>;
    fn spawn(work: Self::Work) {
        work()
    }
}

type Machine = StateMachine<CounterComponents<Inline>>;

fn counter_with_peer() -> (Machine, Receiver<Message<CounterPayload>>) {
    let (sup, _sup_rx) = Handle::<SupervisorSender<Inline>>::create_channel_with_size(0, 8);
    let (std_h, _std_rx) = Handle::<StandardSender>::create_channel_with_size(3, 8);
    let (own, _own_rx) = Handle::<CounterSender>::create_channel_with_size(3, 8);
    let (peer, peer_rx) = Handle::<CounterSender>::create_channel_with_size(7, 16);
    let mut ext = CounterExtendedState::<Inline>::new(CounterInitArgs { supervisor_handle: sup });
    ext.subscribers.push(peer);
    let handles = CounterHandles { standard_handle: std_h, counter_handle: own };
    let mut sm = Machine::new(ext, handles);
    sm.init(&CounterStateEnum::Uninit(Uninit), &CounterStateEnum::NotStarted(NotStarted));
    (sm, peer_rx)
}

fn send(sm: &mut Machine, payload: CounterPayload) {
    let r = sm.deliver(CounterMessageSet::CounterMessage(Message::new(1, payload)));
    assert!(r.is_ok());
}

fn event(e: CountEvent) -> CounterPayload {
    CounterPayload::CountEvent(Box::new(e))
}

#[test]
fn new_counter_context_defaults() {
    let (sup, _rx) = Handle::<SupervisorSender<Inline>>::create_channel_with_size(0, 1);
    let ext = CounterExtendedState::<Inline>::new(CounterInitArgs { supervisor_handle: sup });
    assert_eq!(ext.count, 0);
    assert_eq!(ext.max, 10);
    assert_eq!(ext.min, 0);
    assert!(ext.subscribers.is_empty());
    assert_eq!(ext.supervisor_handle.dest_id(), 0);
}

#[test]
fn machine_starts_uninitialised_and_init_enters_entry_point() {
    let (sup, _rx) = Handle::<SupervisorSender<Inline>>::create_channel_with_size(0, 1);
    let (std_h, _s) = Handle::<StandardSender>::create_channel_with_size(3, 1);
    let (own, _o) = Handle::<CounterSender>::create_channel_with_size(3, 1);
    let ext = CounterExtendedState::<Inline>::new(CounterInitArgs { supervisor_handle: sup });
    let mut sm = Machine::new(ext, CounterHandles { standard_handle: std_h, counter_handle: own });
    assert_eq!(sm.current_state, CounterStateEnum::Uninit(Uninit));
    assert_eq!(sm.current_state, CounterStateEnum::new());
    sm.init(&CounterStateEnum::Uninit(Uninit), &CounterStateEnum::NotStarted(NotStarted));
    assert_eq!(sm.current_state, CounterStateEnum::NotStarted(NotStarted));
}

#[test]
fn counter_hierarchy_parents() {
    assert_eq!(CounterStateEnum::Uninit(Uninit).parent(), CounterStateEnum::Uninit(Uninit));
    assert_eq!(CounterStateEnum::Idle(Idle).parent(), CounterStateEnum::Uninit(Uninit));
    assert_eq!(CounterStateEnum::NotStarted(NotStarted).parent(), CounterStateEnum::Idle(Idle));
    assert_eq!(CounterStateEnum::Counting(Counting).parent(), CounterStateEnum::Uninit(Uninit));
    assert_eq!(CounterStateEnum::Finished(Finished).parent(), CounterStateEnum::Idle(Idle));
    assert!(CounterStateEnum::Idle(Idle).same(&CounterStateEnum::Idle(Idle)));
    assert!(!CounterStateEnum::Idle(Idle).same(&CounterStateEnum::Counting(Counting)));
}

#[test]
fn counting_to_four_reaches_finished_and_tells_peer() {
    let (mut sm, mut peer_rx) = counter_with_peer();
    send(&mut sm, CounterPayload::SetMax(Box::new(4)));
    assert_eq!(sm.extended_state.max, 4);
    send(&mut sm, event(CountEvent::StartCounting));
    assert_eq!(sm.current_state, CounterStateEnum::Counting(Counting));
    assert_eq!(peer_rx.try_recv().unwrap().payload, CounterPayload::SetCount(Box::new(0)));
    for i in 1..4usize {
        send(&mut sm, CounterPayload::Increment(Box::new(1)));
        assert_eq!(sm.extended_state.count, i);
        assert_eq!(sm.current_state, CounterStateEnum::Counting(Counting));
        assert!(peer_rx.try_recv().is_err());
    }
    send(&mut sm, CounterPayload::Increment(Box::new(1)));
    assert_eq!(sm.extended_state.count, 4);
    assert_eq!(sm.current_state, CounterStateEnum::Finished(Finished));
    let note = peer_rx.try_recv().unwrap();
    assert_eq!(note.source_id, 3);
    assert_eq!(note.payload, event(CountEvent::MaxReached));
}

#[test]
fn increments_before_start_are_ignored() {
    let (mut sm, _peer_rx) = counter_with_peer();
    send(&mut sm, CounterPayload::Increment(Box::new(5)));
    assert_eq!(sm.extended_state.count, 0);
    assert_eq!(sm.current_state, CounterStateEnum::NotStarted(NotStarted));
}

#[test]
fn settings_apply_while_not_started() {
    let (mut sm, _peer_rx) = counter_with_peer();
    send(&mut sm, CounterPayload::SetCount(Box::new(5)));
    send(&mut sm, CounterPayload::SetMin(Box::new(2)));
    send(&mut sm, CounterPayload::SetMax(Box::new(9)));
    assert_eq!(sm.extended_state.count, 5);
    assert_eq!(sm.extended_state.min, 2);
    assert_eq!(sm.extended_state.max, 9);
}

#[test]
fn decrement_to_minimum_finishes() {
    let (mut sm, mut peer_rx) = counter_with_peer();
    send(&mut sm, CounterPayload::SetCount(Box::new(3)));
    send(&mut sm, CounterPayload::SetMin(Box::new(1)));
    send(&mut sm, event(CountEvent::StartCounting));
    assert_eq!(peer_rx.try_recv().unwrap().payload, CounterPayload::SetCount(Box::new(3)));
    send(&mut sm, CounterPayload::Decrement(Box::new(1)));
    assert_eq!(sm.current_state, CounterStateEnum::Counting(Counting));
    send(&mut sm, CounterPayload::Decrement(Box::new(1)));
    assert_eq!(sm.extended_state.count, 1);
    assert_eq!(sm.current_state, CounterStateEnum::Finished(Finished));
    assert_eq!(peer_rx.try_recv().unwrap().payload, event(CountEvent::MinReached));
}

#[test]
fn decrement_below_zero_saturates() {
    let (mut sm, _peer_rx) = counter_with_peer();
    send(&mut sm, CounterPayload::SetCount(Box::new(2)));
    send(&mut sm, event(CountEvent::StartCounting));
    send(&mut sm, CounterPayload::Decrement(Box::new(10)));
    assert_eq!(sm.extended_state.count, 0);
    assert_eq!(sm.current_state, CounterStateEnum::Finished(Finished));
}

#[test]
fn increment_saturates_at_usize_max() {
    let (mut sm, _peer_rx) = counter_with_peer();
    send(&mut sm, CounterPayload::SetCount(Box::new(usize::MAX - 1)));
    send(&mut sm, CounterPayload::SetMax(Box::new(usize::MAX)));
    send(&mut sm, event(CountEvent::StartCounting));
    send(&mut sm, CounterPayload::Increment(Box::new(5)));
    assert_eq!(sm.extended_state.count, usize::MAX);
    assert_eq!(sm.current_state, CounterStateEnum::Finished(Finished));
}

#[test]
fn get_count_reports_to_subscribers() {
    let (mut sm, mut peer_rx) = counter_with_peer();
    send(&mut sm, event(CountEvent::StartCounting));
    let _ = peer_rx.try_recv();
    send(&mut sm, CounterPayload::Increment(Box::new(2)));
    send(&mut sm, event(CountEvent::GetCount));
    assert_eq!(peer_rx.try_recv().unwrap().payload, CounterPayload::SetCount(Box::new(2)));
}

#[test]
fn reset_while_counting_keeps_count() {
    let (mut sm, _peer_rx) = counter_with_peer();
    send(&mut sm, event(CountEvent::StartCounting));
    send(&mut sm, CounterPayload::Increment(Box::new(2)));
    send(&mut sm, event(CountEvent::Reset));
    assert_eq!(sm.current_state, CounterStateEnum::NotStarted(NotStarted));
    assert_eq!(sm.extended_state.count, 2);
}

#[test]
fn reset_after_finish_is_handled_by_parent() {
    let (mut sm, _peer_rx) = counter_with_peer();
    send(&mut sm, CounterPayload::SetMax(Box::new(1)));
    send(&mut sm, event(CountEvent::StartCounting));
    send(&mut sm, CounterPayload::Increment(Box::new(1)));
    assert_eq!(sm.current_state, CounterStateEnum::Finished(Finished));
    // Finished hands the message to Idle, which zeroes the count.
    send(&mut sm, event(CountEvent::Reset));
    assert_eq!(sm.extended_state.count, 0);
    assert_eq!(sm.current_state, CounterStateEnum::NotStarted(NotStarted));
}

#[test]
fn dispatch_against_a_delegating_state_reaches_its_ancestor() {
    let (mut sm, _peer_rx) = counter_with_peer();
    sm.extended_state.count = 6;
    let state = CounterStateEnum::Error(bloxide::counter::Error);
    let msg = CounterMessageSet::CounterMessage(Message::new(1, event(CountEvent::Reset)));
    assert!(sm.dispatch(msg, &state).is_ok());
    assert_eq!(sm.extended_state.count, 0);
    assert_eq!(sm.current_state, CounterStateEnum::NotStarted(NotStarted));
}

#[test]
fn messages_nobody_handles_are_consumed() {
    let (mut sm, _peer_rx) = counter_with_peer();
    let state = CounterStateEnum::Finished(Finished);
    let msg = CounterMessageSet::CounterMessage(Message::new(1, CounterPayload::Increment(Box::new(1))));
    assert!(sm.dispatch(msg, &state).is_ok());
    assert_eq!(sm.current_state, CounterStateEnum::NotStarted(NotStarted));
    assert_eq!(sm.extended_state.count, 0);
}

#[test]
fn blox_starts_in_initial_state() {
    let (sup, _rx) = Handle::<SupervisorSender<Inline>>::create_channel_with_size(0, 1);
    let (std_h, std_rx) = Handle::<StandardSender>::create_channel_with_size(3, 1);
    let (own, own_rx) = Handle::<CounterSender>::create_channel_with_size(3, 1);
    let ext = CounterExtendedState::<Inline>::new(CounterInitArgs { supervisor_handle: sup });
    let blox = Blox::<CounterComponents<Inline>>::new(
        CounterReceivers { standard_receiver: std_rx, counter_receiver: own_rx },
        ext,
        CounterHandles { standard_handle: std_h, counter_handle: own },
    );
    assert_eq!(blox.state_machine.current_state, CounterStateEnum::Uninit(Uninit));
    assert_eq!(blox.state_machine.self_handles.standard_handle.dest_id(), 3);
}
