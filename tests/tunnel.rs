use lighthouse::correlation::{Correlator, Expiry, REQUEST_TIMEOUT_MILLIS};
use lighthouse::message::{Request, Response};
use lighthouse::session::{SendError, Session, State};
use lighthouse::store::{AlreadyConnected, Store};

const D: u128 = 0x37c6a8bd264c4653a641c9b574207be5;

#[test]
fn reply_reaches_the_caller() {
    let mut store = Store::new();
    let instance = store.add(D).unwrap();
    let (key, request) = store
        .send_request(D, Request::new(b"ON".to_vec()), 0, REQUEST_TIMEOUT_MILLIS)
        .unwrap();
    assert_eq!(request.data, b"ON".to_vec());
    let (routed, response) = store.receive(D, instance, Response::new(b"OK".to_vec())).unwrap();
    assert_eq!(routed, key);
    assert_eq!(response.data, b"OK".to_vec());
    assert_eq!(store.time_out(D, instance, key, 1000), Expiry::Resolved);
}

#[test]
fn silent_device_times_out() {
    let mut store = Store::new();
    let instance = store.add(D).unwrap();
    let (key, _) = store
        .send_request(D, Request::new(b"ON".to_vec()), 100, REQUEST_TIMEOUT_MILLIS)
        .unwrap();
    assert_eq!(store.time_out(D, instance, key, 5099), Expiry::NotYet);
    assert_eq!(store.time_out(D, instance, key, 5100), Expiry::Expired);
    assert_eq!(store.time_out(D, instance, key, 5200), Expiry::Resolved);
    // The late reply is dropped, not handed to a later caller.
    let (next, _) = store.send_request(D, Request::new(b"OFF".to_vec()), 6000, 5000).unwrap();
    assert_eq!(store.receive(D, instance, Response::new(b"late".to_vec())).map(|r| r.0), None);
    let (routed, response) = store.receive(D, instance, Response::new(b"OK".to_vec())).unwrap();
    assert_eq!(routed, next);
    assert_eq!(response.data, b"OK".to_vec());
}

#[test]
fn second_connection_is_refused() {
    let mut store = Store::new();
    let first = store.add(D).unwrap();
    assert_eq!(store.add(D), Err(AlreadyConnected));
    assert_eq!(store.add(D), Err(AlreadyConnected));
    let session = store.lookup(D).unwrap();
    assert_eq!(session.instance(), first);
    assert_eq!(session.state(), State::Active);
    assert!(store.send_request(D, Request::new(vec![1]), 0, 10).is_ok());
}

#[test]
fn dropped_transport_fails_requests_in_flight() {
    let mut store = Store::new();
    let instance = store.add(D).unwrap();
    let (key, _) = store.send_request(D, Request::new(b"ON".to_vec()), 0, 5000).unwrap();
    assert_eq!(store.remove(D, instance), vec![key]);
    assert!(store.lookup(D).is_none());
    assert!(!store.contains(D));
    assert_eq!(
        store.send_request(D, Request::new(b"ON".to_vec()), 0, 5000).map(|r| r.0),
        Err(SendError::DeviceNotFound)
    );
}

#[test]
fn replies_follow_submission_order() {
    let mut store = Store::new();
    let instance = store.add(D).unwrap();
    let mut keys = Vec::new();
    for i in 0..5u8 {
        let (key, _) = store.send_request(D, Request::new(vec![i]), 0, 5000).unwrap();
        keys.push(key);
    }
    assert_eq!(keys, vec![0, 1, 2, 3, 4]);
    for i in 0..5u8 {
        let (routed, response) = store.receive(D, instance, Response::new(vec![10 + i])).unwrap();
        assert_eq!(routed, keys[i as usize]);
        assert_eq!(response.data, vec![10 + i]);
    }
    assert!(store.receive(D, instance, Response::new(vec![99])).is_none());
}

#[test]
fn close_fails_every_waiting_caller() {
    let mut store = Store::new();
    let instance = store.add(D).unwrap();
    for _ in 0..4 {
        store.send_request(D, Request::new(vec![0]), 0, 10).unwrap();
    }
    // The second request timed out; its caller is no longer waiting.
    assert_eq!(store.time_out(D, instance, 1, 10), Expiry::Expired);
    assert_eq!(store.remove(D, instance), vec![0, 2, 3]);
    assert!(store.lookup(D).is_none());
    assert_eq!(store.remove(D, instance), Vec::<u64>::new());
}

#[test]
fn stale_connection_does_not_touch_newer_session() {
    let mut store = Store::new();
    let old = store.add(D).unwrap();
    store.send_request(D, Request::new(vec![0]), 0, 10).unwrap();
    assert_eq!(store.remove(D, old), vec![0]);
    let new = store.add(D).unwrap();
    assert_ne!(old, new);
    let (key, _) = store.send_request(D, Request::new(vec![1]), 0, 10).unwrap();
    assert_eq!(key, 0);
    assert!(store.receive(D, old, Response::new(vec![2])).is_none());
    assert_eq!(store.time_out(D, old, key, 100), Expiry::Resolved);
    assert_eq!(store.remove(D, old), Vec::<u64>::new());
    assert!(store.lookup(D).is_some());
    assert_eq!(store.receive(D, new, Response::new(vec![3])).map(|r| r.0), Some(key));
}

#[test]
fn devices_are_independent() {
    let mut store = Store::new();
    let a = store.add(1).unwrap();
    let b = store.add(2).unwrap();
    store.send_request(1, Request::new(vec![1]), 0, 10).unwrap();
    store.send_request(2, Request::new(vec![2]), 0, 10).unwrap();
    assert_eq!(store.remove(1, a), vec![0]);
    assert!(store.lookup(2).is_some());
    assert_eq!(store.receive(2, b, Response::new(vec![7])).map(|r| r.0), Some(0));
}

#[test]
fn unknown_device_is_offline() {
    let mut store = Store::new();
    assert!(store.lookup(D).is_none());
    assert_eq!(
        store.send_request(D, Request::new(vec![]), 0, 10).map(|r| r.0),
        Err(SendError::DeviceNotFound)
    );
    assert!(store.receive(D, 0, Response::new(vec![1])).is_none());
}

#[test]
fn session_lifecycle() {
    let mut session = Session::new(D, 3);
    assert_eq!(session.state(), State::Connecting);
    assert_eq!(session.send(0, 10), Err(SendError::SessionClosed));
    session.activate();
    assert_eq!(session.state(), State::Active);
    assert_eq!(session.send(0, 10), Ok(0));
    assert_eq!(session.send(0, 10), Ok(1));
    assert_eq!(session.receive(), Some(0));
    assert_eq!(session.close(), vec![1]);
    assert_eq!(session.state(), State::Closed);
    assert_eq!(session.send(0, 10), Err(SendError::SessionClosed));
    assert_eq!(session.receive(), None);
    assert_eq!(session.device(), D);
    assert_eq!(session.instance(), 3);
}

#[test]
fn deadline_saturates() {
    let mut c = Correlator::new();
    let key = c.submit(u64::MAX - 1, 10).unwrap();
    assert_eq!(c.time_out(key, u64::MAX - 1), Expiry::NotYet);
    assert_eq!(c.time_out(key, u64::MAX), Expiry::Expired);
}

#[test]
fn closed_correlator_refuses_requests() {
    let mut c = Correlator::new();
    assert!(!c.closed());
    assert!(c.has_keys_left());
    c.submit(0, 1).unwrap();
    assert_eq!(c.close(), vec![0]);
    assert!(c.closed());
    assert_eq!(c.submit(0, 1), None);
    assert_eq!(c.deliver(), None);
    assert_eq!(c.time_out(0, 5), Expiry::Resolved);
}

#[test]
fn default_timeout_is_five_seconds() {
    assert_eq!(REQUEST_TIMEOUT_MILLIS, 5000);
}

#[test]
fn response_text() {
    assert_eq!(Response::new(b"OK".to_vec()).text(), Some("OK".to_string()));
    assert_eq!(Response::new(vec![]).text(), Some(String::new()));
    assert_eq!(Response::new(vec![0xff, 0xfe]).text(), None);
}
