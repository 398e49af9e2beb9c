use std::time::Duration;
use tarpc::time::wasm::delay_queue::{Expired, Key, KeyInternal};
use tarpc::time::wasm::{ms, Round};
use tarpc::util::TimeUntil;

#[test]
fn ms_rounds_the_sub_second_part() {
    assert_eq!(ms(Duration::from_millis(1500), Round::Down), 1500);
    assert_eq!(ms(Duration::from_millis(1500), Round::Up), 1500);
    assert_eq!(ms(Duration::from_nanos(1_000_001), Round::Down), 1);
    assert_eq!(ms(Duration::from_nanos(1_000_001), Round::Up), 2);
    assert_eq!(ms(Duration::from_nanos(1), Round::Up), 1);
    assert_eq!(ms(Duration::ZERO, Round::Up), 0);
    assert_eq!(ms(Duration::new(3, 999_999_999), Round::Down), 3999);
    assert_eq!(ms(Duration::new(3, 999_999_999), Round::Up), 4000);
}

#[test]
fn ms_saturates() {
    assert_eq!(ms(Duration::MAX, Round::Down), u64::MAX);
    assert_eq!(ms(Duration::from_secs(u64::MAX / 1000), Round::Up), (u64::MAX / 1000) * 1000);
}

#[test]
fn expired_hands_back_its_data() {
    assert_eq!(Expired::new("data").into_inner(), "data");
}

#[test]
fn keys_convert_one_to_one() {
    let k = Key::new(7);
    let i = KeyInternal::from(k);
    assert_eq!(i, KeyInternal::new(7));
    assert_eq!(Key::from(i), k);
}

#[test]
fn time_until_is_zero_for_the_past() {
    let past = std::time::SystemTime::now() - Duration::from_secs(1);
    assert_eq!(past.time_until(), Duration::ZERO);
    let future = std::time::SystemTime::now() + Duration::from_secs(100);
    let left = future.time_until();
    assert!(left > Duration::from_secs(99) && left <= Duration::from_secs(100));
}
