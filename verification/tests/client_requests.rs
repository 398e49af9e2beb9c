use tarpc::client::in_flight_requests::InFlightRequests;

#[test]
fn client_tracks_requests_until_completed() {
    let mut requests = InFlightRequests::new();
    assert!(requests.is_empty());
    assert!(requests.insert_request(1, "one").is_ok());
    assert!(requests.insert_request(2, "two").is_ok());
    assert_eq!(requests.len(), 2);
    match requests.insert_request(1, "again") {
        Err((_, d)) => assert_eq!(d, "again"),
        Ok(()) => panic!("duplicate accepted"),
    }
    assert_eq!(requests.complete_request(1), Some("one"));
    assert_eq!(requests.complete_request(1), None);
    assert_eq!(requests.len(), 1);
}

#[test]
fn client_cancel_and_expire_remove_the_request() {
    let mut requests = InFlightRequests::new();
    assert!(requests.insert_request(1, 10).is_ok());
    assert!(requests.insert_request(2, 20).is_ok());
    assert_eq!(requests.cancel_request(1), Some(10));
    assert_eq!(requests.cancel_request(1), None);
    assert_eq!(requests.expire(2), Some(20));
    assert!(requests.is_empty());
}

#[test]
fn complete_all_requests_hands_back_everything() {
    let mut requests = InFlightRequests::new();
    for id in 0..5u64 {
        assert!(requests.insert_request(id, id * 10).is_ok());
    }
    let mut all = requests.complete_all_requests();
    all.sort();
    assert_eq!(all, vec![0, 10, 20, 30, 40]);
    assert!(requests.is_empty());
    assert!(requests.complete_all_requests().is_empty());
}
