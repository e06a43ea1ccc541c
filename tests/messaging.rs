use bloxide::counter::{CountEvent, CounterPayload, CounterSender};
use bloxide::messaging::{
    Handle, Message, MessageSender, StandardPayload, StandardSender, TrySendError,
};

#[test]
fn message_keeps_source_and_payload() {
    let m = Message::new(7, 42u32);
    assert_eq!(m.source_id(), 7);
    assert_eq!(m.payload, 42);
}

#[test]
fn created_handle_carries_identity() {
    let (h, _rx) = Handle::<CounterSender>::create_channel_with_size(5, 4);
    assert_eq!(h.dest_id(), 5);
    let d = h.clone();
    assert_eq!(d.dest_id(), 5);
}

#[test]
fn try_send_delivers_in_order() {
    let (h, mut rx) = Handle::<CounterSender>::create_channel_with_size(1, 4);
    assert!(h.try_send(Message::new(9, CounterPayload::Increment(Box::new(1)))).is_ok());
    assert!(h.try_send(Message::new(9, CounterPayload::Increment(Box::new(2)))).is_ok());
    let first = rx.try_recv().unwrap();
    assert_eq!(first.source_id, 9);
    assert_eq!(first.payload, CounterPayload::Increment(Box::new(1)));
    assert_eq!(rx.try_recv().unwrap().payload, CounterPayload::Increment(Box::new(2)));
}

#[test]
fn try_send_on_full_mailbox_returns_envelope_unchanged() {
    let (h, _rx) = Handle::<CounterSender>::create_channel_with_size(1, 1);
    assert!(h.try_send(Message::new(3, CounterPayload::SetMax(Box::new(1)))).is_ok());
    let refused = h.try_send(Message::new(4, CounterPayload::CountEvent(Box::new(CountEvent::Reset))));
    match refused {
        Err(TrySendError::Full(m)) => {
            assert_eq!(m.source_id, 4);
            assert_eq!(m.payload, CounterPayload::CountEvent(Box::new(CountEvent::Reset)));
        }
        _ => panic!("expected a full mailbox"),
    }
}

#[test]
fn try_send_to_dropped_receiver_returns_envelope() {
    let (h, rx) = Handle::<CounterSender>::create_channel_with_size(1, 2);
    drop(rx);
    let e = h.try_send(Message::new(2, CounterPayload::SetMin(Box::new(6)))).unwrap_err();
    assert!(matches!(e, TrySendError::Closed(_)));
    let m = e.into_message();
    assert_eq!(m.source_id, 2);
    assert_eq!(m.payload, CounterPayload::SetMin(Box::new(6)));
}

#[test]
fn standard_mailbox_full_returns_envelope() {
    let (h, mut rx) = Handle::<StandardSender>::create_channel_with_size(2, 1);
    assert!(h.try_send(Message::new(0, StandardPayload::Shutdown)).is_ok());
    let e = h.try_send(Message::new(0, StandardPayload::RawInbound(5, vec![1, 2, 3]))).unwrap_err();
    match e {
        TrySendError::Full(m) => match m.payload {
            StandardPayload::RawInbound(peer, bytes) => {
                assert_eq!(peer, 5);
                assert_eq!(bytes, vec![1, 2, 3]);
            }
            _ => panic!("payload changed"),
        },
        _ => panic!("expected a full mailbox"),
    }
    assert!(matches!(rx.0.try_recv().unwrap().payload, StandardPayload::Shutdown));
}

#[test]
fn handles_compare_by_identity() {
    let (a, _ra) = Handle::<CounterSender>::create_channel_with_size(4, 1);
    let (b, _rb) = Handle::<CounterSender>::create_channel_with_size(4, 1);
    let (c, _rc) = Handle::<CounterSender>::create_channel_with_size(5, 1);
    assert!(a == b);
    assert!(a != c);
}

#[test]
fn sender_trait_creates_working_channel() {
    let (tx, mut rx) = <CounterSender as MessageSender>::create_channel(2);
    let h = Handle::new(8, tx);
    assert_eq!(h.dest_id(), 8);
    assert!(h.try_send(Message::new(1, CounterPayload::SetCount(Box::new(3)))).is_ok());
    assert_eq!(rx.try_recv().unwrap().payload, CounterPayload::SetCount(Box::new(3)));
}

#[test]
fn equal_handles_compare_with_assert_eq() {
    let (a, _ra) = Handle::<CounterSender>::create_channel_with_size(6, 1);
    let b = a.clone();
    assert_eq!(a, b);
}

#[test]
fn handle_reply_carries_a_working_handle() {
    let (h, mut rx) = Handle::<StandardSender>::create_channel_with_size(3, 2);
    let (peer, mut peer_rx) = Handle::<StandardSender>::create_channel_with_size(9, 2);
    assert!(peer.try_send(Message::new(9, StandardPayload::Handle(h.clone()))).is_ok());
    match peer_rx.0.try_recv().unwrap().payload {
        StandardPayload::Handle(got) => {
            assert_eq!(got.dest_id(), 3);
            assert!(got.try_send(Message::new(9, StandardPayload::State(Box::new("Idle".to_string())))).is_ok());
        }
        _ => panic!("expected a handle"),
    }
    match rx.0.try_recv().unwrap().payload {
        StandardPayload::State(name) => assert_eq!(*name, "Idle"),
        _ => panic!("expected a state name"),
    }
}

#[test]
fn copied_payload_is_equal() {
    let p = CounterPayload::CountEvent(Box::new(CountEvent::MinReached));
    assert_eq!(bloxide::counter::copy_payload(&p), p);
    let q = CounterPayload::Decrement(Box::new(11));
    assert_eq!(bloxide::counter::copy_payload(&q), q);
}
