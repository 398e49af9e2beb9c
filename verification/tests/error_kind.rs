use tarpc::error_kind::{decode_kind, encode_kind};
use tarpc::util::serde::{deserialize_io_error_kind_from_u32, serialize_io_error_kind_as_u32};
use tarpc::ErrorKind;

const TABLE: [(ErrorKind, u32); 18] = [
    (ErrorKind::NotFound, 0),
    (ErrorKind::PermissionDenied, 1),
    (ErrorKind::ConnectionRefused, 2),
    (ErrorKind::ConnectionReset, 3),
    (ErrorKind::ConnectionAborted, 4),
    (ErrorKind::NotConnected, 5),
    (ErrorKind::AddrInUse, 6),
    (ErrorKind::AddrNotAvailable, 7),
    (ErrorKind::BrokenPipe, 8),
    (ErrorKind::AlreadyExists, 9),
    (ErrorKind::WouldBlock, 10),
    (ErrorKind::InvalidInput, 11),
    (ErrorKind::InvalidData, 12),
    (ErrorKind::TimedOut, 13),
    (ErrorKind::WriteZero, 14),
    (ErrorKind::Interrupted, 15),
    (ErrorKind::Other, 16),
    (ErrorKind::UnexpectedEof, 17),
];

#[test]
fn error_kinds_encode_to_their_wire_codes() {
    for (kind, code) in TABLE {
        assert_eq!(encode_kind(kind), code);
        assert_eq!(serialize_io_error_kind_as_u32(&kind), code);
    }
    assert_eq!(encode_kind(ErrorKind::Unlisted), 16);
}

#[test]
fn wire_codes_decode_to_their_error_kinds() {
    for (kind, code) in TABLE {
        assert_eq!(decode_kind(code), kind);
        assert_eq!(deserialize_io_error_kind_from_u32(code), kind);
    }
    assert_eq!(decode_kind(18), ErrorKind::Other);
    assert_eq!(deserialize_io_error_kind_from_u32(u32::MAX), ErrorKind::Other);
}

#[test]
fn error_kind_roundtrip_through_wire_code() {
    for (kind, _) in TABLE {
        assert_eq!(decode_kind(encode_kind(kind)), kind);
    }
    assert_eq!(decode_kind(encode_kind(ErrorKind::Unlisted)), ErrorKind::Other);
}
