use bloxide::messaging::{Handle, Message, StandardPayload, StandardReceiver, StandardSender};
use bloxide::runtime::Runtime;
use bloxide::state_machine::{ExtendedState, StateMachine};
use bloxide::supervisor::{
    Running, SupervisorComponents, SupervisorExtendedState, SupervisorHandles,
    SupervisorInitArgs, SupervisorMessageSet, SupervisorPayload, SupervisorSender,
    SupervisorStateEnum, Uninit,
};
use std::sync::mpsc;

struct Inline;

impl Runtime for Inline {
    type Work = Box<dyn FnOnce() + Send>;
    fn spawn(work: Self::Work) {
        work()
    }
}

type Machine = StateMachine<SupervisorComponents<Inline>>;

fn supervisor() -> (Machine, StandardReceiver, mpsc::Receiver<&'static str>) {
    let (root_h, root_rx) = Handle::<StandardSender>::create_channel_with_size(1, 8);
    let (tx, rx) = mpsc::channel();
    let work: Box<dyn FnOnce() + Send> = Box::new(move || tx.send("root").unwrap());
    let ext = SupervisorExtendedState::<Inline>::new(SupervisorInitArgs {
        root_standard_handle: root_h,
        root_future: work,
    });
    let (own_std, _a) = Handle::<StandardSender>::create_channel_with_size(0, 8);
    let (own_sup, _b) = Handle::<SupervisorSender<Inline>>::create_channel_with_size(0, 8);
    let sm = Machine::new(
        ext,
        SupervisorHandles { standard_handle: own_std, supervisor_handle: own_sup },
    );
    (sm, root_rx, rx)
}

fn request(sm: &mut Machine, from: u16, capacity: usize) {
    let msg = SupervisorMessageSet::SupervisorMessage(Message::new(
        from,
        SupervisorPayload::RequestNewStandardHandle(capacity),
    ));
    assert!(sm.deliver(msg).is_ok());
}

fn start(sm: &mut Machine) {
    sm.init(&SupervisorStateEnum::Uninit(Uninit), &SupervisorStateEnum::Running(Running));
}

#[test]
fn new_supervisor_registers_first_unit() {
    let (sm, _root_rx, _spawned) = supervisor();
    let ext = &sm.extended_state;
    assert_eq!(ext.next_id, 2);
    assert_eq!(ext.handle_for(1).unwrap().dest_id(), 1);
    assert!(ext.handle_for(2).is_none());
    assert!(ext.root_future.is_some());
    assert_eq!(sm.current_state, SupervisorStateEnum::Uninit(Uninit));
}

#[test]
fn leaving_uninit_launches_first_unit_once() {
    let (mut sm, _root_rx, spawned) = supervisor();
    start(&mut sm);
    assert_eq!(sm.current_state, SupervisorStateEnum::Running(Running));
    assert_eq!(spawned.try_recv().unwrap(), "root");
    assert!(sm.extended_state.root_future.is_none());
    assert!(spawned.try_recv().is_err());
}

#[test]
fn requested_mailbox_goes_to_requester_with_increasing_identities() {
    let (mut sm, mut root_rx, _spawned) = supervisor();
    start(&mut sm);
    request(&mut sm, 1, 32);
    let reply = root_rx.0.try_recv().unwrap();
    assert_eq!(reply.source_id, 0);
    match reply.payload {
        StandardPayload::StandardChannel(h, _rx) => assert_eq!(h.dest_id(), 2),
        _ => panic!("expected a StandardChannel"),
    }
    assert!(sm.extended_state.handle_for(2).is_some());
    assert_eq!(sm.extended_state.next_id, 3);
    request(&mut sm, 1, 32);
    match root_rx.0.try_recv().unwrap().payload {
        StandardPayload::StandardChannel(h, _rx) => assert_eq!(h.dest_id(), 3),
        _ => panic!("expected a StandardChannel"),
    }
    assert!(sm.extended_state.handle_for(3).is_some());
    assert_eq!(sm.extended_state.next_id, 4);
}

#[test]
fn minted_mailbox_carries_messages() {
    let (mut sm, mut root_rx, _spawned) = supervisor();
    start(&mut sm);
    request(&mut sm, 1, 4);
    match root_rx.0.try_recv().unwrap().payload {
        StandardPayload::StandardChannel(h, mut rx) => {
            assert!(h.try_send(Message::new(1, StandardPayload::PollState)).is_ok());
            assert!(matches!(rx.0.try_recv().unwrap().payload, StandardPayload::PollState));
            let registered = sm.extended_state.handle_for(2).unwrap();
            assert!(registered.try_send(Message::new(0, StandardPayload::Shutdown)).is_ok());
            assert!(matches!(rx.0.try_recv().unwrap().payload, StandardPayload::Shutdown));
        }
        _ => panic!("expected a StandardChannel"),
    }
}

#[test]
fn zero_capacity_request_is_refused() {
    let (mut sm, mut root_rx, _spawned) = supervisor();
    start(&mut sm);
    request(&mut sm, 1, 0);
    assert!(root_rx.0.try_recv().is_err());
    assert_eq!(sm.extended_state.next_id, 2);
    assert!(sm.extended_state.handle_for(2).is_none());
}

#[test]
fn request_from_unknown_unit_still_registers() {
    let (mut sm, mut root_rx, _spawned) = supervisor();
    start(&mut sm);
    request(&mut sm, 9, 8);
    assert!(root_rx.0.try_recv().is_err());
    assert!(sm.extended_state.handle_for(2).is_some());
    assert_eq!(sm.extended_state.next_id, 3);
}

#[test]
fn spawn_request_hands_work_to_scheduler() {
    let (mut sm, _root_rx, _spawned) = supervisor();
    start(&mut sm);
    let (tx, rx) = mpsc::channel();
    let work: Box<dyn FnOnce() + Send> = Box::new(move || tx.send(7u8).unwrap());
    let msg = SupervisorMessageSet::SupervisorMessage(Message::new(1, SupervisorPayload::Spawn(work)));
    assert!(sm.deliver(msg).is_ok());
    assert_eq!(rx.try_recv().unwrap(), 7);
}

#[test]
fn identities_run_out_without_reuse() {
    let (mut sm, _root_rx, _spawned) = supervisor();
    sm.extended_state.next_id = u16::MAX - 1;
    let (h, _rx) = sm.extended_state.request_new_standard_handle(2).unwrap();
    assert_eq!(h.dest_id(), u16::MAX - 1);
    assert_eq!(sm.extended_state.next_id, u16::MAX);
    assert!(sm.extended_state.request_new_standard_handle(2).is_none());
    assert_eq!(sm.extended_state.next_id, u16::MAX);
}

#[test]
fn root_with_high_identity_moves_next_identity_past_it() {
    let (root_h, _root_rx) = Handle::<StandardSender>::create_channel_with_size(40, 1);
    let work: Box<dyn FnOnce() + Send> = Box::new(|| ());
    let ext = SupervisorExtendedState::<Inline>::new(SupervisorInitArgs {
        root_standard_handle: root_h,
        root_future: work,
    });
    assert_eq!(ext.next_id, 41);
    assert!(ext.handle_for(40).is_some());
}
