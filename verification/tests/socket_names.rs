use tarpc::serde_transport::unix::{random_socket_name, socket_name};

#[test]
fn socket_name_appends_sixteen_hex_digits() {
    assert_eq!(socket_name("test", 0xdeadbeef), "test_00000000deadbeef");
    assert_eq!(socket_name("uds", u64::MAX), "uds_ffffffffffffffff");
    assert_eq!(socket_name("", 0), "_0000000000000000");
}

#[test]
fn random_socket_name_has_the_name_and_sixteen_hex_digits() {
    let fname = random_socket_name("test");
    assert!(fname.starts_with("test_"));
    assert_eq!(fname.len(), 21);
    assert!(fname[5..].chars().all(|c| c.is_ascii_hexdigit() && !c.is_ascii_uppercase()));
}
