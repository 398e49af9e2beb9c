use tarpc::server::limits::channels_per_key::MaxChannelsPerKey;

const KEY: u64 = 0x6b6579;

#[test]
fn channel_filter_increment_channels_for_key() {
    let mut filter = MaxChannelsPerKey::new(2);
    assert_eq!(filter.increment_channels_for_key(KEY), Ok(1));
    assert_eq!(filter.open_channels(KEY), 1);
    assert_eq!(filter.increment_channels_for_key(KEY), Ok(2));
    assert_eq!(filter.open_channels(KEY), 2);
    assert_eq!(filter.increment_channels_for_key(KEY), Err(KEY));
    assert!(!filter.channel_closed(KEY));
    assert_eq!(filter.open_channels(KEY), 1);
}

#[test]
fn tracker_drop() {
    let mut filter = MaxChannelsPerKey::new(5);
    assert_eq!(filter.increment_channels_for_key(1), Ok(1));
    // Dropping the last channel of key 1 announces that key.
    assert!(filter.channel_closed(1));
}

#[test]
fn channel_filter_poll_closed_channels() {
    let mut filter = MaxChannelsPerKey::new(2);
    assert!(filter.increment_channels_for_key(KEY).is_ok());
    assert_eq!(filter.tracked_keys(), 1);
    assert!(filter.channel_closed(KEY));
    filter.poll_closed_channels(KEY);
    assert_eq!(filter.tracked_keys(), 0);
}

#[test]
fn keys_are_limited_independently() {
    let mut filter = MaxChannelsPerKey::new(1);
    assert_eq!(filter.increment_channels_for_key(1), Ok(1));
    assert_eq!(filter.increment_channels_for_key(2), Ok(1));
    assert_eq!(filter.increment_channels_for_key(1), Err(1));
    assert_eq!(filter.increment_channels_for_key(2), Err(2));
    assert_eq!(filter.tracked_keys(), 2);
}

#[test]
fn closed_key_starts_over_before_its_notice_is_handled() {
    let mut filter = MaxChannelsPerKey::new(1);
    assert_eq!(filter.increment_channels_for_key(3), Ok(1));
    assert!(filter.channel_closed(3));
    assert_eq!(filter.open_channels(3), 0);
    assert_eq!(filter.increment_channels_for_key(3), Ok(1));
}

#[test]
fn limit_of_zero_admits_a_first_channel_only() {
    let mut filter = MaxChannelsPerKey::new(0);
    assert_eq!(filter.increment_channels_for_key(4), Ok(1));
    assert_eq!(filter.increment_channels_for_key(4), Err(4));
    assert!(filter.channel_closed(4));
    assert_eq!(filter.increment_channels_for_key(4), Err(4));
    filter.poll_closed_channels(4);
    assert_eq!(filter.increment_channels_for_key(4), Ok(1));
}
