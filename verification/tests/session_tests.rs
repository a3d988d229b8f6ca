use rodbus::{
    next_state, Indexed, Promise, RequestError, RetryStrategy, SendBuffer, SessionEvent,
    SessionMap, SessionState,
};

fn buffer(index: u16, value: bool) -> SendBuffer<Indexed<bool>> {
    SendBuffer::new(Indexed::new(index, value), Promise::new())
}

#[test]
fn transaction_ids_count_up_from_zero() {
    let mut map: SessionMap<Indexed<bool>> = SessionMap::new(16);
    assert!(matches!(map.insert(1, 100, buffer(0, true)), Ok(0)));
    assert!(matches!(map.insert(1, 100, buffer(1, true)), Ok(1)));
    assert!(matches!(map.insert(1, 100, buffer(2, true)), Ok(2)));
    assert_eq!(map.len(), 3);
}

#[test]
fn a_full_map_pauses_intake() {
    let mut map: SessionMap<Indexed<bool>> = SessionMap::new(1);
    assert!(!map.is_full());
    assert!(matches!(map.insert(1, 100, buffer(0, true)), Ok(0)));
    assert!(map.is_full());
    assert!(map.insert(1, 100, buffer(1, true)).is_err());
    assert_eq!(map.len(), 1);
}

#[test]
fn a_matching_response_takes_its_request() {
    let mut map: SessionMap<Indexed<bool>> = SessionMap::new(16);
    let tx_id = map.insert(0x2A, 100, buffer(5, true)).ok().unwrap();
    let entry = map.remove(tx_id, 0x2A).unwrap();
    assert_eq!(entry.tx_id, tx_id);
    assert_eq!(entry.unit_id, 0x2A);
    assert_eq!(entry.buffer.request, Indexed::new(5, true));
    assert_eq!(map.len(), 0);
}

#[test]
fn a_stray_response_is_ignored() {
    let mut map: SessionMap<Indexed<bool>> = SessionMap::new(16);
    let tx_id = map.insert(0x2A, 100, buffer(5, true)).ok().unwrap();
    // unknown transaction id
    assert!(map.remove(tx_id.wrapping_add(9), 0x2A).is_none());
    // known transaction id but the wrong unit
    assert!(map.remove(tx_id, 0x2B).is_none());
    assert_eq!(map.len(), 1);
}

#[test]
fn expired_requests_leave_the_map_and_fresh_ones_stay() {
    let mut map: SessionMap<Indexed<bool>> = SessionMap::new(16);
    let early = map.insert(1, 100, buffer(0, true)).ok().unwrap();
    let late = map.insert(1, 900, buffer(1, false)).ok().unwrap();
    let mut expired = map.pop_expired(500).unwrap();
    assert_eq!(expired.tx_id, early);
    assert!(expired.deadline < 500);
    expired.buffer.failure(RequestError::ResponseTimeout);
    assert_eq!(
        expired.buffer.promise.result(),
        &Some(Err(RequestError::ResponseTimeout))
    );
    assert!(map.pop_expired(500).is_none());
    assert_eq!(map.len(), 1);
    assert!(map.remove(late, 1).is_some());
}

#[test]
fn the_supervisor_walks_the_documented_transitions() {
    let s = SessionState::Disabled;
    let s = next_state(s, SessionEvent::Enable);
    assert_eq!(s, SessionState::Connecting);
    let s = next_state(s, SessionEvent::ConnectFailed);
    assert_eq!(s, SessionState::WaitRetry);
    let s = next_state(s, SessionEvent::RetryElapsed);
    assert_eq!(s, SessionState::Connecting);
    let s = next_state(s, SessionEvent::ConnectSucceeded);
    assert_eq!(s, SessionState::Connected);
    let s = next_state(s, SessionEvent::TransportFault);
    assert_eq!(s, SessionState::WaitRetry);
    let s = next_state(s, SessionEvent::Shutdown);
    assert_eq!(s, SessionState::Shutdown);
    // shutdown absorbs every further event
    assert_eq!(next_state(s, SessionEvent::Enable), SessionState::Shutdown);
    // enable is idempotent outside Disabled
    assert_eq!(
        next_state(SessionState::Connected, SessionEvent::Enable),
        SessionState::Connected
    );
}

#[test]
fn retry_delays_double_up_to_the_maximum_and_reset() {
    let mut retry = RetryStrategy::new(100, 1000);
    assert_eq!(retry.next_delay(), 100);
    assert_eq!(retry.next_delay(), 200);
    assert_eq!(retry.next_delay(), 400);
    assert_eq!(retry.next_delay(), 800);
    assert_eq!(retry.next_delay(), 1000);
    assert_eq!(retry.next_delay(), 1000);
    retry.reset();
    assert_eq!(retry.next_delay(), 100);
}
