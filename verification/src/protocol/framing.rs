//! Framing of packets on a byte stream, and the nonblocking writer and reader state machines
//! that move a packet through a socket a few bytes at a time.

use vstd::prelude::*;
use byteorder::{BigEndian, ByteOrder};

verus! {


/// The eight big-endian bytes of `n`.
pub open spec fn be_bytes(n: u64) -> Seq<u8> {
    seq![
        (n >> 56u64) as u8,
        (n >> 48u64) as u8,
        (n >> 40u64) as u8,
        (n >> 32u64) as u8,
        (n >> 24u64) as u8,
        (n >> 16u64) as u8,
        (n >> 8u64) as u8,
        n as u8,
    ]
}

/// The number whose big-endian bytes are the first eight bytes of `b`.
pub open spec fn be_value(b: Seq<u8>) -> u64 {
    ((b[0] as u64) << 56u64) | ((b[1] as u64) << 48u64) | ((b[2] as u64) << 40u64) | ((b[3]
        as u64) << 32u64) | ((b[4] as u64) << 24u64) | ((b[5] as u64) << 16u64) | ((b[6] as u64)
        << 8u64) | (b[7] as u64)
}

/// The bytes that carry a packet on the wire: id, payload length, payload.
pub open spec fn frame(id: u64, payload: Seq<u8>) -> Seq<u8> {
    be_bytes(id) + be_bytes(payload.len() as u64) + payload
}

/// Reading back the big-endian bytes of a number gives the number.
pub proof fn lemma_be_value_of_bytes(n: u64)
    ensures
        be_value(be_bytes(n)) == n,
        be_bytes(n).len() == 8,
{
    let b = be_bytes(n);
    assert(b[0] == (n >> 56u64) as u8);
    assert(b[1] == (n >> 48u64) as u8);
    assert(b[2] == (n >> 40u64) as u8);
    assert(b[3] == (n >> 32u64) as u8);
    assert(b[4] == (n >> 24u64) as u8);
    assert(b[5] == (n >> 16u64) as u8);
    assert(b[6] == (n >> 8u64) as u8);
    assert(b[7] == n as u8);
    assert(((((n >> 56u64) as u8) as u64) << 56u64) | ((((n >> 48u64) as u8) as u64) << 48u64)
        | ((((n >> 40u64) as u8) as u64) << 40u64) | ((((n >> 32u64) as u8) as u64) << 32u64)
        | ((((n >> 24u64) as u8) as u64) << 24u64) | ((((n >> 16u64) as u8) as u64) << 16u64)
        | ((((n >> 8u64) as u8) as u64) << 8u64) | ((n as u8) as u64) == n) by (bit_vector);
}

/// Eight bytes are the big-endian bytes of the number they denote.
pub proof fn lemma_be_bytes_of_value(b: Seq<u8>)
    requires
        b.len() == 8,
    ensures
        be_bytes(be_value(b)) == b,
{
    let b0 = b[0];
    let b1 = b[1];
    let b2 = b[2];
    let b3 = b[3];
    let b4 = b[4];
    let b5 = b[5];
    let b6 = b[6];
    let b7 = b[7];
    let v = be_value(b);
    assert(v == ((b0 as u64) << 56u64) | ((b1 as u64) << 48u64) | ((b2 as u64) << 40u64) | ((b3
        as u64) << 32u64) | ((b4 as u64) << 24u64) | ((b5 as u64) << 16u64) | ((b6 as u64)
        << 8u64) | (b7 as u64));
    assert((v >> 56u64) as u8 == b0 && (v >> 48u64) as u8 == b1 && (v >> 40u64) as u8 == b2 && (v
        >> 32u64) as u8 == b3 && (v >> 24u64) as u8 == b4 && (v >> 16u64) as u8 == b5 && (v
        >> 8u64) as u8 == b6 && v as u8 == b7) by (bit_vector)
        requires
            v == ((b0 as u64) << 56u64) | ((b1 as u64) << 48u64) | ((b2 as u64) << 40u64) | ((b3
                as u64) << 32u64) | ((b4 as u64) << 24u64) | ((b5 as u64) << 16u64) | ((b6
                as u64) << 8u64) | (b7 as u64),
    ;
    assert(be_bytes(v) =~= b);
}

/// Two numbers with the same big-endian bytes are equal.
pub proof fn lemma_be_bytes_injective(a: u64, b: u64)
    requires
        be_bytes(a) == be_bytes(b),
    ensures
        a == b,
{
    lemma_be_value_of_bytes(a);
    lemma_be_value_of_bytes(b);
}

/// Writes `n` as eight big-endian bytes with `byteorder::BigEndian::write_u64`, which copies
/// `n.to_be_bytes()` into the buffer.
#[verifier::external_body]
pub(crate) fn write_u64_be(n: u64) -> (bytes: [u8; 8])
    ensures
        bytes@ == be_bytes(n),
{
    let mut bytes = [0u8; 8];
    BigEndian::write_u64(&mut bytes, n);
    bytes
}

/// Reads a big-endian number from the first eight bytes of `buf` with
/// `byteorder::BigEndian::read_u64`, which is `u64::from_be_bytes` of those bytes; it panics on
/// a shorter buffer, which `requires` rules out.
#[verifier::external_body]
pub(crate) fn read_u64_be(buf: &[u8]) -> (n: u64)
    requires
        buf@.len() >= 8,
    ensures
        n == be_value(buf@),
{
    BigEndian::read_u64(buf)
}

/// The outcome of one nonblocking attempt to move bytes through a socket.
#[derive(Clone, Copy, Debug, PartialEq, Eq, Structural)]
pub enum IoProgress {
    /// The socket was not ready; nothing moved.
    WouldBlock,
    /// This many bytes moved.
    Moved(usize),
    /// The socket reported an error.
    Failed,
}

/// Progress of a packet that is being written.
pub enum WriteState {
    /// Writing the id; `written` bytes of it are out.
    WriteId { written: u8, id: [u8; 8], size: [u8; 8], payload: Vec<u8> },
    /// Writing the payload length; `written` bytes of it are out.
    WriteSize { written: u8, size: [u8; 8], payload: Vec<u8> },
    /// Writing the payload; the buffer holds what is still to be written.
    WriteData(Vec<u8>),
}

/// The mathematical content of a [`WriteState`].
pub enum WriteStateView {
    WriteId { written: nat, id: Seq<u8>, size: Seq<u8>, payload: Seq<u8> },
    WriteSize { written: nat, size: Seq<u8>, payload: Seq<u8> },
    WriteData(Seq<u8>),
}

impl View for WriteState {
    type V = WriteStateView;

    open spec fn view(&self) -> WriteStateView {
        match self {
            WriteState::WriteId { written, id, size, payload } => WriteStateView::WriteId {
                written: *written as nat,
                id: id@,
                size: size@,
                payload: payload@,
            },
            WriteState::WriteSize { written, size, payload } => WriteStateView::WriteSize {
                written: *written as nat,
                size: size@,
                payload: payload@,
            },
            WriteState::WriteData(buf) => WriteStateView::WriteData(buf@),
        }
    }
}

impl WriteStateView {
    /// Counters stay below the width of the field they count.
    pub open spec fn wf(self) -> bool {
        match self {
            WriteStateView::WriteId { written, id, size, .. } => written < 8 && id.len() == 8
                && size.len() == 8,
            WriteStateView::WriteSize { written, size, .. } => written < 8 && size.len() == 8,
            WriteStateView::WriteData(_) => true,
        }
    }

    /// The bytes of the field being written that are not yet out.
    pub open spec fn pending_field(self) -> Seq<u8> {
        match self {
            WriteStateView::WriteId { written, id, .. } => id.subrange(written as int, 8),
            WriteStateView::WriteSize { written, size, .. } => size.subrange(written as int, 8),
            WriteStateView::WriteData(buf) => buf,
        }
    }

    /// All bytes of the packet that are not yet out.
    pub open spec fn remaining(self) -> Seq<u8> {
        match self {
            WriteStateView::WriteId { written, id, size, payload } => id.subrange(
                written as int,
                8,
            ) + size + payload,
            WriteStateView::WriteSize { written, size, payload } => size.subrange(
                written as int,
                8,
            ) + payload,
            WriteStateView::WriteData(buf) => buf,
        }
    }
}

/// The state that writing `n` more bytes of the pending field leads to; `None` once the whole
/// payload is out.
pub open spec fn write_advance(s: WriteStateView, n: nat) -> Option<WriteStateView> {
    match s {
        WriteStateView::WriteId { written, id, size, payload } => if written + n == 8 {
            Some(WriteStateView::WriteSize { written: 0, size, payload })
        } else {
            Some(WriteStateView::WriteId { written: written + n, id, size, payload })
        },
        WriteStateView::WriteSize { written, size, payload } => if written + n == 8 {
            Some(WriteStateView::WriteData(payload))
        } else {
            Some(WriteStateView::WriteSize { written: written + n, size, payload })
        },
        WriteStateView::WriteData(buf) => if n == buf.len() {
            None
        } else {
            Some(WriteStateView::WriteData(buf.skip(n as int)))
        },
    }
}

/// The bytes still to write of an optional write state.
pub open spec fn remaining_of(s: Option<WriteStateView>) -> Seq<u8> {
    match s {
        Some(s) => s.remaining(),
        None => Seq::empty(),
    }
}

/// Writing never loses or repeats a byte: after `n` more bytes of the pending field are out,
/// what remains to write is exactly what remained, without its first `n` bytes.
pub proof fn lemma_write_advance_consumes(s: WriteStateView, n: nat)
    requires
        s.wf(),
        n <= s.pending_field().len(),
    ensures
        remaining_of(write_advance(s, n)) == s.remaining().skip(n as int),
        write_advance(s, n) matches Some(t) ==> t.wf(),
{
    match s {
        WriteStateView::WriteId { written, id, size, payload } => {
            assert(id.subrange(written as int, 8).skip(n as int) =~= id.subrange(
                (written + n) as int,
                8,
            ));
            assert((id.subrange(written as int, 8) + size + payload).skip(n as int) =~= id.subrange(
                (written + n) as int,
                8,
            ) + size + payload);
            if written + n == 8 {
                assert(size.subrange(0, 8) =~= size);
            }
        },
        WriteStateView::WriteSize { written, size, payload } => {
            assert((size.subrange(written as int, 8) + payload).skip(n as int) =~= size.subrange(
                (written + n) as int,
                8,
            ) + payload);
        },
        WriteStateView::WriteData(buf) => {
            if n == buf.len() {
                assert(buf.skip(n as int) =~= Seq::<u8>::empty());
            }
        },
    }
}

/// Writes one step after another, each moving the given number of bytes of the pending field,
/// collecting the bytes that went out.
pub open spec fn write_feed(s: Option<WriteStateView>, steps: Seq<nat>) -> (
    Option<WriteStateView>,
    Seq<u8>,
)
    decreases steps.len(),
{
    if steps.len() == 0 {
        (s, Seq::empty())
    } else {
        match s {
            None => (None, Seq::empty()),
            Some(w) => {
                let (s2, rest) = write_feed(write_advance(w, steps[0]), steps.drop_first());
                (s2, w.pending_field().take(steps[0] as int) + rest)
            },
        }
    }
}

/// Each step moves no more than the field being written holds.
pub open spec fn write_fits(s: Option<WriteStateView>, steps: Seq<nat>) -> bool
    decreases steps.len(),
{
    steps.len() == 0 || match s {
        None => true,
        Some(w) => steps[0] <= w.pending_field().len() && write_fits(
            write_advance(w, steps[0]),
            steps.drop_first(),
        ),
    }
}

/// The bytes that a writer puts out, followed by what it still has to write, are what it had to
/// write at the start: nothing is lost, repeated or reordered.
pub proof fn lemma_write_feed_conserves(s: Option<WriteStateView>, steps: Seq<nat>)
    requires
        s matches Some(w) ==> w.wf(),
        write_fits(s, steps),
    ensures
        write_feed(s, steps).0 matches Some(w) ==> w.wf(),
        write_feed(s, steps).1 + remaining_of(write_feed(s, steps).0) == remaining_of(s),
    decreases steps.len(),
{
    if steps.len() > 0 {
        match s {
            None => {
                assert(Seq::<u8>::empty() + Seq::<u8>::empty() =~= Seq::<u8>::empty());
            },
            Some(w) => {
                let n = steps[0];
                lemma_write_advance_consumes(w, n);
                lemma_pending_field_is_prefix(w);
                lemma_write_feed_conserves(write_advance(w, n), steps.drop_first());
                let (s2, rest) = write_feed(write_advance(w, n), steps.drop_first());
                let r = w.remaining();
                assert(w.pending_field().take(n as int) =~= r.take(n as int));
                assert(r.take(n as int) + r.skip(n as int) =~= r);
                assert(w.pending_field().take(n as int) + rest + remaining_of(s2) =~= r);
            },
        }
    } else {
        assert(Seq::<u8>::empty() + remaining_of(s) =~= remaining_of(s));
    }
}

/// The field being written is where the rest of the packet starts.
pub proof fn lemma_pending_field_is_prefix(s: WriteStateView)
    requires
        s.wf(),
    ensures
        s.pending_field().len() <= s.remaining().len(),
        s.remaining().take(s.pending_field().len() as int) == s.pending_field(),
{
    match s {
        WriteStateView::WriteId { written, id, size, payload } => {
            assert((id.subrange(written as int, 8) + size + payload).take(8 - written) =~= id.subrange(
                written as int,
                8,
            ));
        },
        WriteStateView::WriteSize { written, size, payload } => {
            assert((size.subrange(written as int, 8) + payload).take(8 - written) =~= size.subrange(
                written as int,
                8,
            ));
        },
        WriteStateView::WriteData(buf) => {
            assert(buf.take(buf.len() as int) =~= buf);
        },
    }
}

/// A writer that starts a packet and writes until it is done puts out exactly the packet's
/// frame, however the writes are split.
pub proof fn lemma_writer_emits_frame(id: u64, payload: Seq<u8>, steps: Seq<nat>)
    requires
        payload.len() <= u64::MAX,
        write_fits(
            Some(
                WriteStateView::WriteId {
                    written: 0,
                    id: be_bytes(id),
                    size: be_bytes(payload.len() as u64),
                    payload,
                },
            ),
            steps,
        ),
        write_feed(
            Some(
                WriteStateView::WriteId {
                    written: 0,
                    id: be_bytes(id),
                    size: be_bytes(payload.len() as u64),
                    payload,
                },
            ),
            steps,
        ).0 is None,
    ensures
        write_feed(
            Some(
                WriteStateView::WriteId {
                    written: 0,
                    id: be_bytes(id),
                    size: be_bytes(payload.len() as u64),
                    payload,
                },
            ),
            steps,
        ).1 == frame(id, payload),
{
    let w = WriteStateView::WriteId {
        written: 0,
        id: be_bytes(id),
        size: be_bytes(payload.len() as u64),
        payload,
    };
    lemma_be_value_of_bytes(id);
    lemma_be_value_of_bytes(payload.len() as u64);
    lemma_write_feed_conserves(Some(w), steps);
    assert(be_bytes(id).subrange(0, 8) =~= be_bytes(id));
    assert(write_feed(Some(w), steps).1 + Seq::<u8>::empty() =~= write_feed(Some(w), steps).1);
}

impl WriteState {
    /// Starts writing a packet.
    pub fn start(id: u64, payload: Vec<u8>) -> (s: WriteState)
        ensures
            s@.wf(),
            s@.remaining() == frame(id, payload@),
            s@ == (WriteStateView::WriteId {
                written: 0,
                id: be_bytes(id),
                size: be_bytes(payload@.len() as u64),
                payload: payload@,
            }),
    {
        let size = payload.len() as u64;
        let id_buf = write_u64_be(id);
        let size_buf = write_u64_be(size);
        proof {
            assert(id_buf@.subrange(0, 8) =~= id_buf@);
        }
        WriteState::WriteId { written: 0, id: id_buf, size: size_buf, payload }
    }

    /// A copy of the bytes of the field being written that are not yet out.
    pub fn pending_field(&self) -> (chunk: Vec<u8>)
        requires
            self@.wf(),
        ensures
            chunk@ == self@.pending_field(),
    {
        match self {
            WriteState::WriteId { written, id, .. } => copy_tail(id, *written),
            WriteState::WriteSize { written, size, .. } => copy_tail(size, *written),
            WriteState::WriteData(buf) => buf.clone(),
        }
    }

    /// Accounts for `n` more bytes of the pending field having been written.
    pub fn advance(self, n: usize) -> (next: Option<WriteState>)
        requires
            self@.wf(),
            n <= self@.pending_field().len(),
        ensures
            match next {
                Some(t) => write_advance(self@, n as nat) == Some(t@),
                None => write_advance(self@, n as nat) is None,
            },
    {
        match self {
            WriteState::WriteId { written, id, size, payload } => {
                let w = written + n as u8;
                if w == 8 {
                    Some(WriteState::WriteSize { written: 0, size, payload })
                } else {
                    Some(WriteState::WriteId { written: w, id, size, payload })
                }
            },
            WriteState::WriteSize { written, size, payload } => {
                let w = written + n as u8;
                if w == 8 {
                    Some(WriteState::WriteData(payload))
                } else {
                    Some(WriteState::WriteSize { written: w, size, payload })
                }
            },
            WriteState::WriteData(buf) => {
                let mut buf = buf;
                let tail = buf.split_off(n);
                if tail.len() == 0 {
                    None
                } else {
                    Some(WriteState::WriteData(tail))
                }
            },
        }
    }
}

/// Copies the bytes of `a` from index `from` on.
fn copy_tail(a: &[u8; 8], from: u8) -> (out: Vec<u8>)
    requires
        from < 8,
    ensures
        out@ == a@.subrange(from as int, 8),
{
    let mut out: Vec<u8> = Vec::new();
    let mut i: usize = from as usize;
    while i < 8
        invariant
            from <= i <= 8,
            out@ == a@.subrange(from as int, i as int),
        decreases 8 - i,
    {
        out.push(a[i]);
        i = i + 1;
        proof {
            assert(out@ =~= a@.subrange(from as int, i as int));
        }
    }
    out
}


/// Progress of a packet that is being read.
pub enum ReadState {
    /// Reading the id; `buf` holds the id bytes read so far.
    ReadId { buf: Vec<u8> },
    /// Reading the payload length of packet `id`; `buf` holds its bytes read so far.
    ReadSize { id: u64, buf: Vec<u8> },
    /// Reading the `message_len` payload bytes of packet `id`; `buf` holds those read so far.
    ReadData { id: u64, message_len: u64, buf: Vec<u8> },
}

/// The mathematical content of a [`ReadState`].
pub enum ReadStateView {
    ReadId { bytes: Seq<u8> },
    ReadSize { id: u64, bytes: Seq<u8> },
    ReadData { id: u64, len: u64, bytes: Seq<u8> },
}

impl View for ReadState {
    type V = ReadStateView;

    open spec fn view(&self) -> ReadStateView {
        match self {
            ReadState::ReadId { buf } => ReadStateView::ReadId { bytes: buf@ },
            ReadState::ReadSize { id, buf } => ReadStateView::ReadSize { id: *id, bytes: buf@ },
            ReadState::ReadData { id, message_len, buf } => ReadStateView::ReadData {
                id: *id,
                len: *message_len,
                bytes: buf@,
            },
        }
    }
}

/// The state of a reader that is waiting for the first byte of a packet.
pub open spec fn read_init() -> ReadStateView {
    ReadStateView::ReadId { bytes: Seq::empty() }
}

impl ReadStateView {
    /// A field being read is never complete: a complete field is turned into the next state at
    /// once.
    pub open spec fn wf(self) -> bool {
        match self {
            ReadStateView::ReadId { bytes } => bytes.len() < 8,
            ReadStateView::ReadSize { bytes, .. } => bytes.len() < 8,
            ReadStateView::ReadData { len, bytes, .. } => bytes.len() <= len,
        }
    }

    /// How many more bytes the field being read can take.
    pub open spec fn capacity(self) -> nat {
        match self {
            ReadStateView::ReadId { bytes } => (8 - bytes.len()) as nat,
            ReadStateView::ReadSize { bytes, .. } => (8 - bytes.len()) as nat,
            ReadStateView::ReadData { len, bytes, .. } => (len - bytes.len()) as nat,
        }
    }

    /// The bytes of the current packet that the reader has taken in so far.
    pub open spec fn consumed(self) -> Seq<u8> {
        match self {
            ReadStateView::ReadId { bytes } => bytes,
            ReadStateView::ReadSize { id, bytes } => be_bytes(id) + bytes,
            ReadStateView::ReadData { id, len, bytes } => be_bytes(id) + be_bytes(len) + bytes,
        }
    }
}

/// The state that reading `chunk` leads to, and the packet it completes, if any.
pub open spec fn read_advance(s: ReadStateView, chunk: Seq<u8>) -> (ReadStateView, Option<
    (u64, Seq<u8>),
>) {
    match s {
        ReadStateView::ReadId { bytes } => {
            let nb = bytes + chunk;
            if nb.len() == 8 {
                (ReadStateView::ReadSize { id: be_value(nb), bytes: Seq::empty() }, None)
            } else {
                (ReadStateView::ReadId { bytes: nb }, None)
            }
        },
        ReadStateView::ReadSize { id, bytes } => {
            let nb = bytes + chunk;
            if nb.len() == 8 {
                (ReadStateView::ReadData { id, len: be_value(nb), bytes: Seq::empty() }, None)
            } else {
                (ReadStateView::ReadSize { id, bytes: nb }, None)
            }
        },
        ReadStateView::ReadData { id, len, bytes } => {
            let nb = bytes + chunk;
            if nb.len() == len {
                (read_init(), Some((id, nb)))
            } else {
                (ReadStateView::ReadData { id, len, bytes: nb }, None)
            }
        },
    }
}

/// One read step loses and invents nothing: the bytes taken in so far grow by the chunk, and
/// when a packet completes, everything taken in for it is exactly the packet's frame.
pub proof fn lemma_read_advance_consumes(s: ReadStateView, chunk: Seq<u8>)
    requires
        s.wf(),
        chunk.len() <= s.capacity(),
    ensures
        read_advance(s, chunk).0.wf(),
        match read_advance(s, chunk).1 {
            None => read_advance(s, chunk).0.consumed() == s.consumed() + chunk,
            Some(p) => {
                &&& s.consumed() + chunk == frame(p.0, p.1)
                &&& p.1.len() <= u64::MAX
                &&& read_advance(s, chunk).0 == read_init()
            },
        },
{
    match s {
        ReadStateView::ReadId { bytes } => {
            let nb = bytes + chunk;
            if nb.len() == 8 {
                lemma_be_bytes_of_value(nb);
                assert(be_bytes(be_value(nb)) + Seq::<u8>::empty() =~= nb);
            }
        },
        ReadStateView::ReadSize { id, bytes } => {
            let nb = bytes + chunk;
            if nb.len() == 8 {
                lemma_be_bytes_of_value(nb);
                assert(be_bytes(id) + be_bytes(be_value(nb)) + Seq::<u8>::empty() =~= be_bytes(id)
                    + (bytes + chunk));
            }
            assert(be_bytes(id) + (bytes + chunk) =~= be_bytes(id) + bytes + chunk);
        },
        ReadStateView::ReadData { id, len, bytes } => {
            let nb = bytes + chunk;
            assert(be_bytes(id) + be_bytes(len) + (bytes + chunk) =~= be_bytes(id) + be_bytes(len)
                + bytes + chunk);
        },
    }
}

/// The concatenation of a sequence of chunks.
pub open spec fn concat(chunks: Seq<Seq<u8>>) -> Seq<u8>
    decreases chunks.len(),
{
    if chunks.len() == 0 {
        Seq::empty()
    } else {
        chunks[0] + concat(chunks.drop_first())
    }
}

/// The frames of a sequence of packets, one after the other.
pub open spec fn frames(packets: Seq<(u64, Seq<u8>)>) -> Seq<u8>
    decreases packets.len(),
{
    if packets.len() == 0 {
        Seq::empty()
    } else {
        frame(packets[0].0, packets[0].1) + frames(packets.drop_first())
    }
}

/// The packets that an optional delivery stands for.
pub open spec fn delivered_seq(d: Option<(u64, Seq<u8>)>) -> Seq<(u64, Seq<u8>)> {
    match d {
        Some(p) => seq![p],
        None => Seq::empty(),
    }
}

/// Feeds a reader one chunk after another, collecting the packets it completes.
pub open spec fn read_feed(s: ReadStateView, chunks: Seq<Seq<u8>>) -> (ReadStateView, Seq<
    (u64, Seq<u8>),
>)
    decreases chunks.len(),
{
    if chunks.len() == 0 {
        (s, Seq::empty())
    } else {
        let (s1, d) = read_advance(s, chunks[0]);
        let (s2, ds) = read_feed(s1, chunks.drop_first());
        (s2, delivered_seq(d) + ds)
    }
}

/// Each chunk fits in the field that the reader is filling when the chunk arrives.
pub open spec fn feed_fits(s: ReadStateView, chunks: Seq<Seq<u8>>) -> bool
    decreases chunks.len(),
{
    chunks.len() == 0 || (chunks[0].len() <= s.capacity() && feed_fits(
        read_advance(s, chunks[0]).0,
        chunks.drop_first(),
    ))
}

/// What a reader gives back of what was written: whatever chunks arrive, the frames of the
/// packets the reader completes, followed by what it still holds, are exactly what it held at
/// the start followed by every byte it was given.
pub proof fn lemma_read_feed_conserves(s: ReadStateView, chunks: Seq<Seq<u8>>)
    requires
        s.wf(),
        feed_fits(s, chunks),
    ensures
        read_feed(s, chunks).0.wf(),
        packets_fit(read_feed(s, chunks).1),
        frames(read_feed(s, chunks).1) + read_feed(s, chunks).0.consumed() == s.consumed()
            + concat(chunks),
    decreases chunks.len(),
{
    if chunks.len() > 0 {
        let (s1, d) = read_advance(s, chunks[0]);
        lemma_read_advance_consumes(s, chunks[0]);
        lemma_read_feed_conserves(s1, chunks.drop_first());
        let (s2, ds) = read_feed(s1, chunks.drop_first());
        let all = delivered_seq(d) + ds;
        match d {
            Some(p) => {
                assert(all.drop_first() =~= ds);
                assert(all[0] == p);
                assert(s1.consumed() =~= Seq::<u8>::empty());
                assert forall|i: int| 0 <= i < all.len() implies #[trigger] all[i].1.len()
                    <= u64::MAX by {
                    if i > 0 {
                        assert(all[i] == ds[i - 1]);
                    }
                }
            },
            None => {
                assert(all =~= ds);
            },
        }
        assert(frames(all) + s2.consumed() =~= s.consumed() + concat(chunks));
    }
}

/// Every payload's length can be written in the eight bytes that carry it.
pub open spec fn packets_fit(packets: Seq<(u64, Seq<u8>)>) -> bool {
    forall|i: int| 0 <= i < packets.len() ==> #[trigger] packets[i].1.len() <= u64::MAX
}

/// The frames of two sequences of packets are equal only when the packets are: the framing is
/// unambiguous.
pub proof fn lemma_frames_injective(a: Seq<(u64, Seq<u8>)>, b: Seq<(u64, Seq<u8>)>)
    requires
        packets_fit(a),
        packets_fit(b),
        frames(a) == frames(b),
    ensures
        a == b,
    decreases a.len(),
{
    if a.len() == 0 {
        if b.len() > 0 {
            lemma_be_value_of_bytes(b[0].0);
            lemma_be_value_of_bytes(b[0].1.len() as u64);
            assert(frames(b).len() >= 16);
        }
        assert(a =~= b);
    } else if b.len() == 0 {
        lemma_be_value_of_bytes(a[0].0);
        lemma_be_value_of_bytes(a[0].1.len() as u64);
        assert(frames(a).len() >= 16);
    } else {
        let (ia, pa) = a[0];
        let (ib, pb) = b[0];
        let fa = frames(a);
        let fb = frames(b);
        lemma_be_value_of_bytes(ia);
        lemma_be_value_of_bytes(ib);
        lemma_be_value_of_bytes(pa.len() as u64);
        lemma_be_value_of_bytes(pb.len() as u64);
        assert(fa.subrange(0, 8) =~= be_bytes(ia));
        assert(fb.subrange(0, 8) =~= be_bytes(ib));
        lemma_be_bytes_injective(ia, ib);
        assert(fa.subrange(8, 16) =~= be_bytes(pa.len() as u64));
        assert(fb.subrange(8, 16) =~= be_bytes(pb.len() as u64));
        lemma_be_bytes_injective(pa.len() as u64, pb.len() as u64);
        let n = pa.len() as int;
        assert(pa.len() == pb.len());
        assert(fa.subrange(16, 16 + n) =~= pa);
        assert(fb.subrange(16, 16 + n) =~= pb);
        assert(fa.skip(16 + n) =~= frames(a.drop_first()));
        assert(fb.skip(16 + n) =~= frames(b.drop_first()));
        assert(packets_fit(a.drop_first())) by {
            assert forall|i: int| 0 <= i < a.drop_first().len() implies #[trigger] a.drop_first()[
                i].1.len() <= u64::MAX by {
                assert(a.drop_first()[i] == a[i + 1]);
            }
        }
        assert(packets_fit(b.drop_first())) by {
            assert forall|i: int| 0 <= i < b.drop_first().len() implies #[trigger] b.drop_first()[
                i].1.len() <= u64::MAX by {
                assert(b.drop_first()[i] == b[i + 1]);
            }
        }
        lemma_frames_injective(a.drop_first(), b.drop_first());
        assert(a =~= seq![a[0]] + a.drop_first());
        assert(b =~= seq![b[0]] + b.drop_first());
    }
}

/// The central round trip of the framing: a reader that starts empty, is given (in any chunks
/// that fit) the frames of a sequence of packets, and ends empty again, has handed back exactly
/// those packets, in order.
pub proof fn lemma_reader_gives_back_frames(chunks: Seq<Seq<u8>>, packets: Seq<(u64, Seq<u8>)>)
    requires
        packets_fit(packets),
        feed_fits(read_init(), chunks),
        concat(chunks) == frames(packets),
        read_feed(read_init(), chunks).0 == read_init(),
    ensures
        read_feed(read_init(), chunks).1 == packets,
{
    lemma_read_feed_conserves(read_init(), chunks);
    let ds = read_feed(read_init(), chunks).1;
    assert(read_init().consumed() =~= Seq::<u8>::empty());
    assert(frames(ds) =~= frames(packets));
    lemma_frames_injective(ds, packets);
}

/// A state that a reader can be in after starting empty: besides being well formed, a payload
/// that has been read in full has always been handed back already, unless it is empty.
pub open spec fn read_reachable(s: ReadStateView) -> bool {
    &&& s.wf()
    &&& match s {
        ReadStateView::ReadData { len, bytes, .. } => bytes.len() < len || bytes.len() == 0,
        _ => true,
    }
}

/// Feeding a reader keeps it in a reachable state.
proof fn lemma_read_feed_reachable(s: ReadStateView, chunks: Seq<Seq<u8>>)
    requires
        read_reachable(s),
        feed_fits(s, chunks),
    ensures
        read_reachable(read_feed(s, chunks).0),
    decreases chunks.len(),
{
    if chunks.len() > 0 {
        lemma_read_advance_consumes(s, chunks[0]);
        lemma_read_feed_reachable(read_advance(s, chunks[0]).0, chunks.drop_first());
    }
}

/// A frame that is followed by more bytes and makes up another frame is that frame, and nothing
/// follows it.
proof fn lemma_frame_prefix(a: (u64, Seq<u8>), b: (u64, Seq<u8>), rest: Seq<u8>)
    requires
        a.1.len() <= u64::MAX,
        b.1.len() <= u64::MAX,
        frame(a.0, a.1) + rest == frame(b.0, b.1),
    ensures
        a == b,
        rest == Seq::<u8>::empty(),
{
    let fa = frame(a.0, a.1) + rest;
    let fb = frame(b.0, b.1);
    lemma_be_value_of_bytes(a.0);
    lemma_be_value_of_bytes(b.0);
    lemma_be_value_of_bytes(a.1.len() as u64);
    lemma_be_value_of_bytes(b.1.len() as u64);
    assert(fa.subrange(0, 8) =~= be_bytes(a.0));
    assert(fb.subrange(0, 8) =~= be_bytes(b.0));
    lemma_be_bytes_injective(a.0, b.0);
    assert(fa.subrange(8, 16) =~= be_bytes(a.1.len() as u64));
    assert(fb.subrange(8, 16) =~= be_bytes(b.1.len() as u64));
    lemma_be_bytes_injective(a.1.len() as u64, b.1.len() as u64);
    let n = a.1.len() as int;
    assert(fa.subrange(16, 16 + n) =~= a.1);
    assert(fb.subrange(16, 16 + n) =~= b.1);
    assert(rest =~= Seq::<u8>::empty());
}

/// Reading a single frame whose payload is not empty, in any chunks that fit, from a reader that
/// starts empty, hands back exactly that packet and leaves the reader empty again.
pub proof fn lemma_reader_reads_one_frame(chunks: Seq<Seq<u8>>, id: u64, data: Seq<u8>)
    requires
        1 <= data.len() <= u64::MAX,
        feed_fits(read_init(), chunks),
        concat(chunks) == frame(id, data),
    ensures
        read_feed(read_init(), chunks).0 == read_init(),
        read_feed(read_init(), chunks).1 == seq![(id, data)],
{
    lemma_read_feed_conserves(read_init(), chunks);
    lemma_read_feed_reachable(read_init(), chunks);
    let (end, ds) = read_feed(read_init(), chunks);
    assert(read_init().consumed() + concat(chunks) =~= frame(id, data));
    lemma_be_value_of_bytes(id);
    lemma_be_value_of_bytes(data.len() as u64);
    if ds.len() == 0 {
        assert(frames(ds) + end.consumed() =~= end.consumed());
        match end {
            ReadStateView::ReadId { bytes } => {
                assert(end.consumed().len() < 8);
            },
            ReadStateView::ReadSize { id: i2, bytes } => {
                lemma_be_value_of_bytes(i2);
                assert(end.consumed().len() < 16);
            },
            ReadStateView::ReadData { id: i2, len, bytes } => {
                let c = end.consumed();
                let f = frame(id, data);
                lemma_be_value_of_bytes(i2);
                lemma_be_value_of_bytes(len);
                assert(c.subrange(8, 16) =~= be_bytes(len));
                assert(f.subrange(8, 16) =~= be_bytes(data.len() as u64));
                lemma_be_bytes_injective(len, data.len() as u64);
                assert(c.len() == 16 + bytes.len());
                assert(bytes.len() == len);
            },
        }
    } else {
        let rest = ds.drop_first();
        assert(ds[0].1.len() <= u64::MAX);
        assert(frames(ds) == frame(ds[0].0, ds[0].1) + frames(rest));
        assert(frame(ds[0].0, ds[0].1) + (frames(rest) + end.consumed()) =~= frames(ds)
            + end.consumed());
        lemma_frame_prefix(ds[0], (id, data), frames(rest) + end.consumed());
        if rest.len() > 0 {
            lemma_be_value_of_bytes(rest[0].0);
            lemma_be_value_of_bytes(rest[0].1.len() as u64);
            assert(frames(rest).len() >= 16);
        }
        assert(rest.len() == 0);
        assert(ds =~= seq![(id, data)]);
        match end {
            ReadStateView::ReadId { bytes } => {
                assert(bytes =~= Seq::<u8>::empty());
            },
            ReadStateView::ReadSize { id: i2, bytes } => {
                lemma_be_value_of_bytes(i2);
                assert(end.consumed().len() >= 8);
            },
            ReadStateView::ReadData { id: i2, len, bytes } => {
                lemma_be_value_of_bytes(i2);
                assert(end.consumed().len() >= 8);
            },
        }
    }
}

impl ReadState {
    /// A reader waiting for the first byte of a packet.
    pub fn init() -> (s: ReadState)
        ensures
            s@ == read_init(),
    {
        ReadState::ReadId { buf: Vec::new() }
    }

    /// How many more bytes the field being read can take.
    pub fn capacity(&self) -> (n: u64)
        requires
            self@.wf(),
        ensures
            n == self@.capacity(),
    {
        match self {
            ReadState::ReadId { buf } => 8 - buf.len() as u64,
            ReadState::ReadSize { buf, .. } => 8 - buf.len() as u64,
            ReadState::ReadData { message_len, buf, .. } => *message_len - buf.len() as u64,
        }
    }

    /// Takes in `chunk`, returning the next state and the packet it completes, if any.
    pub fn advance(self, chunk: Vec<u8>) -> (res: (ReadState, Option<(u64, Vec<u8>)>))
        requires
            self@.wf(),
            chunk@.len() <= self@.capacity(),
        ensures
            res.0@ == read_advance(self@, chunk@).0,
            match res.1 {
                Some(p) => read_advance(self@, chunk@).1 == Some((p.0, p.1@)),
                None => read_advance(self@, chunk@).1 is None,
            },
    {
        let mut chunk = chunk;
        match self {
            ReadState::ReadId { buf } => {
                let mut nb = buf;
                nb.append(&mut chunk);
                if nb.len() == 8 {
                    let id = read_u64_be(nb.as_slice());
                    (ReadState::ReadSize { id, buf: Vec::new() }, None)
                } else {
                    (ReadState::ReadId { buf: nb }, None)
                }
            },
            ReadState::ReadSize { id, buf } => {
                let mut nb = buf;
                nb.append(&mut chunk);
                if nb.len() == 8 {
                    let message_len = read_u64_be(nb.as_slice());
                    (ReadState::ReadData { id, message_len, buf: Vec::new() }, None)
                } else {
                    (ReadState::ReadSize { id, buf: nb }, None)
                }
            },
            ReadState::ReadData { id, message_len, buf } => {
                let mut nb = buf;
                nb.append(&mut chunk);
                if nb.len() as u64 == message_len {
                    (ReadState::init(), Some((id, nb)))
                } else {
                    (ReadState::ReadData { id, message_len, buf: nb }, None)
                }
            },
        }
    }
}

} // verus!
