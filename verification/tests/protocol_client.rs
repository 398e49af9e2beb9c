use tarpc::protocol::client::{Client, Dispatcher, Interest, ReadOutcome};
use tarpc::protocol::framing::{IoProgress, WriteState};

fn frame(id: u64, payload: &[u8]) -> Vec<u8> {
    let mut v = id.to_be_bytes().to_vec();
    v.extend_from_slice(&(payload.len() as u64).to_be_bytes());
    v.extend_from_slice(payload);
    v
}

/// Drives the client's writer until its queue is empty, returning what went out.
fn flush(client: &mut Client<&'static str>) -> Vec<u8> {
    let mut out = Vec::new();
    for _ in 0..100 {
        match client.write_chunk() {
            Some(chunk) => {
                out.extend_from_slice(&chunk);
                client.writable(IoProgress::Moved(chunk.len()));
            }
            None => {
                client.writable(IoProgress::WouldBlock);
                if client.write_chunk().is_none() {
                    break;
                }
            }
        }
    }
    out
}

#[test]
fn new_client_only_listens_for_hangups() {
    let client: Client<()> = Client::new();
    assert_eq!(
        client.get_interest(),
        Interest { readable: false, writable: false, hup: true }
    );
}

#[test]
fn notify_numbers_requests_and_asks_to_write() {
    let mut client = Client::new();
    assert_eq!(client.notify(b"a".to_vec(), "first"), 0);
    assert_eq!(client.notify(b"b".to_vec(), "second"), 1);
    assert!(client.get_interest().writable);
    let out = flush(&mut client);
    let mut expected = frame(0, b"a");
    expected.extend(frame(1, b"b"));
    assert_eq!(out, expected);
    let i = client.get_interest();
    assert!(i.readable);
    assert!(!i.writable);
}

#[test]
fn would_block_keeps_the_packet_being_written() {
    let mut client = Client::new();
    client.on_notify(9, b"xyz".to_vec(), "s");
    client.writable(IoProgress::WouldBlock);
    let first = client.write_chunk().unwrap();
    assert_eq!(first, 9u64.to_be_bytes().to_vec());
    client.writable(IoProgress::WouldBlock);
    assert_eq!(client.write_chunk().unwrap(), first);
    client.writable(IoProgress::Moved(3));
    assert_eq!(client.write_chunk().unwrap(), first[3..].to_vec());
}

#[test]
fn failed_write_drops_the_packet_and_stops_writing() {
    let mut client = Client::new();
    client.on_notify(1, b"p".to_vec(), "s");
    client.writable(IoProgress::Moved(0));
    assert!(client.write_chunk().is_some());
    client.writable(IoProgress::Failed);
    assert!(client.write_chunk().is_none());
    assert!(!client.get_interest().writable);
}

#[test]
fn reply_is_delivered_to_its_waiting_sender() {
    let mut client = Client::new();
    let id = client.notify(b"question".to_vec(), "waiter");
    let reply = frame(id, b"answer");
    let mut delivered = Vec::new();
    let mut i = 0;
    while i < reply.len() {
        let n = (client.read_capacity() as usize).min(3).min(reply.len() - i);
        if let Some(d) = client.readable(ReadOutcome::Data(reply[i..i + n].to_vec())) {
            delivered.push((d.id, d.payload, d.sender));
        }
        i += n;
    }
    assert_eq!(delivered, vec![(id, b"answer".to_vec(), Some("waiter"))]);
    // A second reply with the same id finds nobody waiting.
    let mut again = None;
    let mut i = 0;
    while i < reply.len() {
        let n = (client.read_capacity() as usize).min(reply.len() - i);
        again = client.readable(ReadOutcome::Data(reply[i..i + n].to_vec()));
        i += n;
    }
    let d = again.unwrap();
    assert_eq!(d.sender, None);
}

#[test]
fn failed_read_stops_reading() {
    let mut client: Client<()> = Client::new();
    let mut c2: Client<()> = Client::new();
    c2.notify(Vec::new(), ());
    assert!(client.readable(ReadOutcome::WouldBlock).is_none());
    assert!(client.readable(ReadOutcome::Failed).is_none());
    assert!(!client.get_interest().readable);
}

#[test]
fn drain_inbound_hands_back_every_waiting_sender() {
    let mut client = Client::new();
    client.notify(Vec::new(), "a");
    client.notify(Vec::new(), "b");
    client.notify(Vec::new(), "c");
    let mut senders = client.drain_inbound();
    senders.sort();
    assert_eq!(senders, vec!["a", "b", "c"]);
    assert!(client.drain_inbound().is_empty());
}

#[test]
fn dispatcher_hands_out_fresh_tokens() {
    let mut d: Dispatcher<u32> = Dispatcher::new();
    assert_eq!(d.get_next_handler_id(), 0);
    let t0 = d.register();
    let t1 = d.register();
    assert_eq!((t0, t1), (0, 1));
    assert!(d.is_registered(t0));
    let _ = d.deregister(t0);
    assert!(!d.is_registered(t0));
    let t2 = d.register();
    assert_eq!(t2, 2);
}

#[test]
fn dispatcher_numbers_rpcs_across_connections() {
    let mut d: Dispatcher<u32> = Dispatcher::new();
    let a = d.register();
    let b = d.register();
    assert_eq!(d.rpc(a, b"x".to_vec(), 10).ok(), Some(0));
    assert_eq!(d.rpc(b, b"y".to_vec(), 11).ok(), Some(1));
    assert_eq!(d.rpc(a, b"z".to_vec(), 12).ok(), Some(2));
    assert_eq!(d.get_next_rpc_id(), 3);
    assert!(d.interest(a).writable);
    // An rpc to an unknown connection hands the sender back.
    assert_eq!(d.rpc(99, Vec::new(), 13).err(), Some(13));
    let mut waiting = d.hangup(a);
    waiting.sort();
    assert_eq!(waiting, vec![10, 12]);
}

#[test]
fn dispatcher_routes_writes_and_reads_to_the_connection() {
    let mut d: Dispatcher<&'static str> = Dispatcher::new();
    let t = d.register();
    let id = d.rpc(t, b"ping".to_vec(), "caller").ok().unwrap();
    let mut wire = Vec::new();
    for _ in 0..10 {
        d.writable(t, IoProgress::WouldBlock);
        match d.write_chunk(t) {
            Some(c) => {
                wire.extend_from_slice(&c);
                d.writable(t, IoProgress::Moved(c.len()));
            }
            None => break,
        }
    }
    assert_eq!(wire, frame(id, b"ping"));
    let reply = frame(id, b"pong");
    let mut got = None;
    let mut i = 0;
    while i < reply.len() {
        let n = (d.read_capacity(t) as usize).min(reply.len() - i);
        if let Some(dl) = d.readable(t, ReadOutcome::Data(reply[i..i + n].to_vec())) {
            got = Some((dl.id, dl.payload, dl.sender));
        }
        i += n;
    }
    assert_eq!(got, Some((id, b"pong".to_vec(), Some("caller"))));
}

#[test]
fn write_state_start_pends_the_id_first() {
    let s = WriteState::start(5, b"abc".to_vec());
    assert_eq!(s.pending_field(), vec![0, 0, 0, 0, 0, 0, 0, 5]);
}
