use bloxide::pool::ChannelPool;

#[test]
fn acquire_takes_handles_in_slot_order() {
    let mut p = ChannelPool::new(vec![10u16, 11, 12]);
    assert_eq!(p.acquire(), Some(10));
    assert_eq!(p.acquire(), Some(11));
    assert_eq!(p.acquire(), Some(12));
    assert_eq!(p.acquire(), None);
}

#[test]
fn release_fills_first_empty_slot() {
    let mut p = ChannelPool::new(vec![1u16, 2]);
    assert_eq!(p.acquire(), Some(1));
    assert_eq!(p.acquire(), Some(2));
    p.release(7);
    assert_eq!(p.pool, vec![Some(7), None]);
    assert_eq!(p.acquire(), Some(7));
}

#[test]
fn release_into_full_pool_drops_handle() {
    let mut p = ChannelPool::new(vec![1u16]);
    p.release(9);
    assert_eq!(p.pool, vec![Some(1)]);
}

#[test]
fn empty_pool_has_nothing() {
    let mut p: ChannelPool<u16> = ChannelPool::new(Vec::new());
    assert_eq!(p.acquire(), None);
}
