use tarpc::protocol::framing::{ReadState, WriteState};

/// Writes a whole packet, `step` bytes at a time, and returns the bytes in the order written.
fn write_all(id: u64, payload: Vec<u8>, step: usize) -> Vec<u8> {
    let mut out = Vec::new();
    let mut state = Some(WriteState::start(id, payload));
    while let Some(s) = state {
        let pending = s.pending_field();
        let n = pending.len().min(step);
        out.extend_from_slice(&pending[..n]);
        state = s.advance(n);
    }
    out
}

/// Feeds `bytes` to a reader, at most `step` bytes at a time, collecting the packets it completes.
fn read_all(bytes: &[u8], step: usize) -> (ReadState, Vec<(u64, Vec<u8>)>) {
    let mut state = ReadState::init();
    let mut packets = Vec::new();
    let mut i = 0;
    loop {
        let cap = state.capacity() as usize;
        if cap == 0 {
            let (next, done) = state.advance(Vec::new());
            state = next;
            if let Some(p) = done {
                packets.push(p);
            }
            continue;
        }
        if i == bytes.len() {
            break;
        }
        let n = cap.min(step).min(bytes.len() - i);
        let (next, done) = state.advance(bytes[i..i + n].to_vec());
        state = next;
        if let Some(p) = done {
            packets.push(p);
        }
        i += n;
    }
    (state, packets)
}

#[test]
fn packet_is_id_then_length_then_payload_big_endian() {
    let bytes = write_all(0x0102030405060708, b"hi".to_vec(), 64);
    assert_eq!(
        bytes,
        vec![1, 2, 3, 4, 5, 6, 7, 8, 0, 0, 0, 0, 0, 0, 0, 2, b'h', b'i']
    );
}

#[test]
fn writing_one_byte_at_a_time_gives_the_same_bytes() {
    let whole = write_all(7, b"Test one, check check.".to_vec(), 1000);
    let bytewise = write_all(7, b"Test one, check check.".to_vec(), 1);
    assert_eq!(whole, bytewise);
    assert_eq!(whole.len(), 16 + 22);
}

#[test]
fn empty_payload_is_sixteen_header_bytes() {
    let bytes = write_all(0, Vec::new(), 3);
    assert_eq!(bytes, vec![0u8; 16]);
    let (_, packets) = read_all(&bytes, 5);
    assert_eq!(packets, vec![(0, Vec::new())]);
}

#[test]
fn reader_gets_back_what_writer_wrote() {
    let mut stream = write_all(1, b"first".to_vec(), 3);
    stream.extend(write_all(u64::MAX, vec![0xff; 300], 7));
    stream.extend(write_all(42, b"third".to_vec(), 1));
    for step in [1, 2, 5, 8, 16, 1000] {
        let (state, packets) = read_all(&stream, step);
        assert_eq!(
            packets,
            vec![
                (1, b"first".to_vec()),
                (u64::MAX, vec![0xff; 300]),
                (42, b"third".to_vec())
            ]
        );
        assert_eq!(state.capacity(), 8);
    }
}

#[test]
fn reader_capacity_follows_the_field_being_read() {
    let state = ReadState::init();
    assert_eq!(state.capacity(), 8);
    let (state, done) = state.advance(vec![0, 0, 0, 0, 0]);
    assert!(done.is_none());
    assert_eq!(state.capacity(), 3);
    let (state, done) = state.advance(vec![0, 0, 9]);
    assert!(done.is_none());
    assert_eq!(state.capacity(), 8);
    let (state, done) = state.advance(vec![0, 0, 0, 0, 0, 0, 0, 4]);
    assert!(done.is_none());
    assert_eq!(state.capacity(), 4);
    let (state, done) = state.advance(b"abcd".to_vec());
    assert_eq!(done, Some((9, b"abcd".to_vec())));
    assert_eq!(state.capacity(), 8);
}
