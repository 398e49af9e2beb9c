//! The client side of a connection: requests queued for writing, the senders waiting for
//! replies, the framing state of each direction, and the dispatcher that multiplexes many
//! connections and numbers their requests.

use vstd::prelude::*;
use std::collections::{HashMap, VecDeque};
use crate::util::map_keys;
use crate::protocol::framing::{
    be_bytes, frame, frames, lemma_be_value_of_bytes, lemma_pending_field_is_prefix,
    lemma_read_advance_consumes, lemma_write_advance_consumes, read_advance, read_init,
    remaining_of, concat, feed_fits, lemma_reader_reads_one_frame, read_feed,
    IoProgress, ReadState, ReadStateView, WriteState, WriteStateView, write_advance,
};

verus! {

broadcast use vstd::std_specs::hash::group_hash_axioms;

/// The readiness events a connection wants to be woken for.
#[derive(Clone, Copy, Debug, PartialEq, Eq, Structural)]
pub struct Interest {
    pub readable: bool,
    pub writable: bool,
    pub hup: bool,
}

/// A request waiting to be written.
pub struct Packet {
    pub id: u64,
    pub payload: Vec<u8>,
}

/// The outcome of one nonblocking read attempt.
pub enum ReadOutcome {
    /// The socket was not ready; nothing was read.
    WouldBlock,
    /// These bytes were read.
    Data(Vec<u8>),
    /// The socket reported an error.
    Failed,
}

/// A reply that has been read in full, with the sender that was waiting for it, if any.
pub struct Delivery<V> {
    pub id: u64,
    pub payload: Vec<u8>,
    pub sender: Option<V>,
}

/// The state of one client connection. `V` is whatever the caller uses to hand a reply to the
/// code waiting for it.
pub struct Client<V> {
    outbound: VecDeque<Packet>,
    inbound: HashMap<u64, V>,
    tx: Option<WriteState>,
    rx: ReadState,
    interest: Interest,
    next_id: u64,
}

/// The packets of a queue of requests.
pub open spec fn packets_view(q: Seq<Packet>) -> Seq<(u64, Seq<u8>)> {
    q.map_values(|p: Packet| (p.id, p.payload@))
}

impl<V> Client<V> {
    /// Requests waiting to be written, in order.
    pub closed spec fn outbound(&self) -> Seq<(u64, Seq<u8>)> {
        packets_view(self.outbound@)
    }

    /// The senders waiting for replies, by request id.
    pub closed spec fn inbound(&self) -> Map<u64, V> {
        self.inbound@
    }

    /// The packet being written, if any.
    pub closed spec fn tx(&self) -> Option<WriteStateView> {
        match self.tx {
            Some(w) => Some(w@),
            None => None,
        }
    }

    /// The packet being read.
    pub closed spec fn rx(&self) -> ReadStateView {
        self.rx@
    }

    /// The events this connection wants to be woken for.
    pub closed spec fn interest(&self) -> Interest {
        self.interest
    }

    /// The id that the next request numbered by this connection gets.
    pub closed spec fn next_id(&self) -> u64 {
        self.next_id
    }

    /// Both framing states are consistent.
    pub open spec fn wf(&self) -> bool {
        &&& self.rx().wf()
        &&& self.tx() matches Some(w) ==> w.wf()
    }

    /// A freshly made connection.
    pub open spec fn is_fresh(&self) -> bool {
        &&& self.outbound() == Seq::<(u64, Seq<u8>)>::empty()
        &&& self.inbound() == Map::<u64, V>::empty()
        &&& self.tx() is None
        &&& self.rx() == read_init()
        &&& self.interest() == Interest { readable: false, writable: false, hup: true }
        &&& self.next_id() == 0
    }

    /// What a writable event with `progress` does to the connection state.
    pub open spec fn writable_effect(self, post: Self, progress: IoProgress) -> bool {
        &&& post.inbound() == self.inbound()
        &&& post.rx() == self.rx()
        &&& post.next_id() == self.next_id()
        &&& match self.tx() {
            None => if self.outbound().len() > 0 {
                let p = self.outbound()[0];
                &&& post.outbound() == self.outbound().drop_first()
                &&& post.tx() == Some(
                    WriteStateView::WriteId {
                        written: 0,
                        id: be_bytes(p.0),
                        size: be_bytes(p.1.len() as u64),
                        payload: p.1,
                    },
                )
                &&& post.interest() == self.interest()
            } else {
                &&& post.outbound() == self.outbound()
                &&& post.tx() is None
                &&& post.interest() == (Interest { writable: false, ..self.interest() })
            },
            Some(w) => {
                &&& post.outbound() == self.outbound()
                &&& match progress {
                    IoProgress::WouldBlock => {
                        &&& post.tx() == self.tx()
                        &&& post.interest() == self.interest()
                    },
                    IoProgress::Failed => {
                        &&& post.tx() is None
                        &&& post.interest() == (Interest { writable: false, ..self.interest() })
                    },
                    IoProgress::Moved(n) => {
                        &&& post.tx() == write_advance(w, n as nat)
                        &&& post.interest() == if write_advance(w, n as nat) is None {
                            Interest { readable: true, ..self.interest() }
                        } else {
                            self.interest()
                        }
                    },
                }
            },
        }
    }

    /// What a readable event with `outcome` does to the connection state, and the reply `d` it
    /// hands back.
    pub open spec fn readable_effect(
        self,
        post: Self,
        outcome: ReadOutcome,
        d: Option<Delivery<V>>,
    ) -> bool {
        &&& post.outbound() == self.outbound()
        &&& post.tx() == self.tx()
        &&& post.next_id() == self.next_id()
        &&& match outcome {
            ReadOutcome::WouldBlock => {
                &&& d is None
                &&& post.rx() == self.rx()
                &&& post.inbound() == self.inbound()
                &&& post.interest() == self.interest()
            },
            ReadOutcome::Failed => {
                &&& d is None
                &&& post.rx() == self.rx()
                &&& post.inbound() == self.inbound()
                &&& post.interest() == (Interest { readable: false, ..self.interest() })
            },
            ReadOutcome::Data(c) => {
                &&& post.interest() == self.interest()
                &&& post.rx() == read_advance(self.rx(), c@).0
                &&& match read_advance(self.rx(), c@).1 {
                    None => d is None && post.inbound() == self.inbound(),
                    Some(p) => {
                        &&& d matches Some(dl)
                        &&& dl.id == p.0
                        &&& dl.payload@ == p.1
                        &&& post.inbound() == self.inbound().remove(p.0)
                        &&& if self.inbound().contains_key(p.0) {
                            dl.sender == Some(self.inbound()[p.0])
                        } else {
                            dl.sender is None
                        }
                    },
                }
            },
        }
    }

    /// `post` is this state with every waiting sender removed, and `senders` are those senders,
    /// one for each request id that was waiting.
    pub open spec fn drained(self, post: Self, senders: Seq<V>) -> bool {
        &&& post.inbound() == Map::<u64, V>::empty()
        &&& post.outbound() == self.outbound()
        &&& post.tx() == self.tx()
        &&& post.rx() == self.rx()
        &&& post.interest() == self.interest()
        &&& post.next_id() == self.next_id()
        &&& exists|ids: Seq<u64>|
            {
                &&& ids.no_duplicates()
                &&& ids.to_set() == self.inbound().dom()
                &&& senders.len() == ids.len()
                &&& forall|i: int|
                    0 <= i < ids.len() ==> senders[i] == self.inbound()[#[trigger] ids[i]]
            }
    }

    /// Makes a new connection state that only listens for hang-ups.
    pub fn new() -> (c: Client<V>)
        ensures
            c.wf(),
            c.is_fresh(),
    {
        let c = Client {
            outbound: VecDeque::new(),
            inbound: HashMap::new(),
            tx: None,
            rx: ReadState::init(),
            interest: Interest { readable: false, writable: false, hup: true },
            next_id: 0,
        };
        proof {
            assert(packets_view(c.outbound@) =~= Seq::<(u64, Seq<u8>)>::empty());
        }
        c
    }

    /// The events this connection wants to be woken for.
    pub fn get_interest(&self) -> (i: Interest)
        ensures
            i == self.interest(),
    {
        self.interest
    }

    /// Queues request `id` for writing and records `sender` as waiting for its reply.
    pub fn on_notify(&mut self, id: u64, payload: Vec<u8>, sender: V)
        requires
            old(self).wf(),
        ensures
            final(self).wf(),
            final(self).outbound() == old(self).outbound().push((id, payload@)),
            final(self).inbound() == old(self).inbound().insert(id, sender),
            final(self).interest() == (Interest { writable: true, ..old(self).interest() }),
            final(self).tx() == old(self).tx(),
            final(self).rx() == old(self).rx(),
            final(self).next_id() == old(self).next_id(),
    {
        let ghost payload_view = payload@;
        self.outbound.push_back(Packet { id, payload });
        self.inbound.insert(id, sender);
        self.interest.writable = true;
        proof {
            assert(packets_view(self.outbound@) =~= packets_view(old(self).outbound@).push(
                (id, payload_view),
            ));
        }
    }

    /// Numbers a request with this connection's own counter and queues it.
    pub fn notify(&mut self, payload: Vec<u8>, sender: V) -> (id: u64)
        requires
            old(self).wf(),
            old(self).next_id() < u64::MAX,
        ensures
            id == old(self).next_id(),
            final(self).wf(),
            final(self).next_id() == old(self).next_id() + 1,
            final(self).outbound() == old(self).outbound().push((id, payload@)),
            final(self).inbound() == old(self).inbound().insert(id, sender),
            final(self).interest() == (Interest { writable: true, ..old(self).interest() }),
            final(self).tx() == old(self).tx(),
            final(self).rx() == old(self).rx(),
    {
        let id = self.next_id;
        self.next_id = self.next_id + 1;
        self.on_notify(id, payload, sender);
        id
    }

    /// The bytes that the next write attempt should try to write, or `None` when no packet is
    /// being written (the next writable event then starts the next queued packet).
    pub fn write_chunk(&self) -> (chunk: Option<Vec<u8>>)
        requires
            self.wf(),
        ensures
            match self.tx() {
                Some(w) => chunk matches Some(c) && c@ == w.pending_field(),
                None => chunk is None,
            },
    {
        match &self.tx {
            Some(w) => Some(w.pending_field()),
            None => None,
        }
    }

    /// Handles a writable event. When no packet is being written, the next queued packet is
    /// started (or, with none queued, interest in writability is dropped) and `progress` is
    /// not looked at; otherwise `progress` is the outcome of writing [`Self::write_chunk`].
    pub fn writable(&mut self, progress: IoProgress)
        requires
            old(self).wf(),
            progress matches IoProgress::Moved(n) ==> old(self).tx() matches Some(w) && n
                <= w.pending_field().len(),
        ensures
            final(self).wf(),
            old(self).writable_effect(*final(self), progress),
    {
        match self.tx.take() {
            None => {
                match self.outbound.pop_front() {
                    Some(packet) => {
                        proof {
                            assert(packets_view(self.outbound@) =~= packets_view(
                                old(self).outbound@,
                            ).drop_first());
                        }
                        self.tx = Some(WriteState::start(packet.id, packet.payload));
                    },
                    None => {
                        self.interest.writable = false;
                    },
                }
            },
            Some(w) => {
                match progress {
                    IoProgress::WouldBlock => {
                        self.tx = Some(w);
                    },
                    IoProgress::Failed => {
                        self.interest.writable = false;
                    },
                    IoProgress::Moved(n) => {
                        proof {
                            lemma_write_advance_consumes(w@, n as nat);
                        }
                        let next = w.advance(n);
                        if next.is_none() {
                            self.interest.readable = true;
                        }
                        self.tx = next;
                    },
                }
            },
        }
    }

    /// How many bytes the next read attempt may take in.
    pub fn read_capacity(&self) -> (n: u64)
        requires
            self.wf(),
        ensures
            n == self.rx().capacity(),
    {
        self.rx.capacity()
    }

    /// Handles a readable event whose read attempt had `outcome`. A read that completes a reply
    /// hands it back together with the sender that was waiting for it, which is no longer
    /// waiting.
    pub fn readable(&mut self, outcome: ReadOutcome) -> (d: Option<Delivery<V>>)
        requires
            old(self).wf(),
            outcome matches ReadOutcome::Data(c) ==> c@.len() <= old(self).rx().capacity(),
        ensures
            final(self).wf(),
            old(self).readable_effect(*final(self), outcome, d),
    {
        match outcome {
            ReadOutcome::WouldBlock => None,
            ReadOutcome::Failed => {
                self.interest.readable = false;
                None
            },
            ReadOutcome::Data(c) => {
                proof {
                    lemma_read_advance_consumes(self.rx@, c@);
                }
                let mut rx = ReadState::init();
                std::mem::swap(&mut rx, &mut self.rx);
                let (next, done) = rx.advance(c);
                self.rx = next;
                match done {
                    None => None,
                    Some((id, payload)) => {
                        let sender = self.inbound.remove(&id);
                        Some(Delivery { id, payload, sender })
                    },
                }
            },
        }
    }

    /// Removes every waiting sender, for example when the connection hangs up.
    pub fn drain_inbound(&mut self) -> (senders: Vec<V>)
        requires
            old(self).wf(),
        ensures
            final(self).wf(),
            old(self).drained(*final(self), senders@),
    {
        let ids = map_keys(&self.inbound);
        let ghost old_inbound = self.inbound@;
        let mut senders: Vec<V> = Vec::new();
        let mut i: usize = 0;
        while i < ids.len()
            invariant
                0 <= i <= ids@.len(),
                ids@.no_duplicates(),
                ids@.to_set() == old_inbound.dom(),
                senders@.len() == i,
                forall|j: int| 0 <= j < i ==> senders@[j] == old_inbound[#[trigger] ids@[j]],
                forall|j: int| i <= j < ids@.len() ==> self.inbound@.contains_key(#[trigger] ids@[j]),
                self.inbound@.dom() == old_inbound.dom().difference(ids@.take(i as int).to_set()),
                forall|k: u64| #[trigger] self.inbound@.contains_key(k) ==> self.inbound@[k]
                    == old_inbound[k],
                self.outbound@ == old(self).outbound@,
                self.tx == old(self).tx,
                self.rx == old(self).rx,
                self.interest == old(self).interest,
                self.next_id == old(self).next_id,
            decreases ids@.len() - i,
        {
            let id = ids[i];
            assert(ids@.take(i as int).to_set().insert(id) =~= ids@.take(i + 1).to_set()) by {
                assert(ids@.take(i + 1) =~= ids@.take(i as int).push(id));
                ids@.take(i as int).lemma_push_to_set_commute(id);
            }
            assert(forall|j: int| i < j < ids@.len() ==> ids@[j] != id);
            let s = self.inbound.remove(&id);
            senders.push(s.unwrap());
            i = i + 1;
        }
        proof {
            assert(ids@.take(ids@.len() as int) =~= ids@);
            assert(self.inbound@.dom() =~= Set::<u64>::empty());
            assert(self.inbound@ =~= Map::<u64, V>::empty());
        }
        senders
    }
}

/// Every byte the connection still has to send, in order: the rest of the packet being written,
/// then the frames of the queued requests.
pub open spec fn pending_bytes<V>(c: Client<V>) -> Seq<u8> {
    remaining_of(c.tx()) + frames(c.outbound())
}

/// The bytes that a writable event with `progress` puts on the wire.
pub open spec fn emitted(tx: Option<WriteStateView>, progress: IoProgress) -> Seq<u8> {
    match (tx, progress) {
        (Some(w), IoProgress::Moved(n)) => w.pending_field().take(n as int),
        _ => Seq::empty(),
    }
}

/// Requests go out whole and in the order they were queued: a writable event that does not fail
/// puts on the wire exactly the first bytes of what the connection had to send, and what it then
/// has to send is the rest.
pub proof fn lemma_writable_keeps_byte_order<V>(c: Client<V>, post: Client<V>, progress: IoProgress)
    requires
        c.wf(),
        progress matches IoProgress::Moved(n) ==> c.tx() matches Some(w) && n
            <= w.pending_field().len(),
        !(progress is Failed && c.tx() is Some),
        c.writable_effect(post, progress),
    ensures
        emitted(c.tx(), progress) + pending_bytes(post) == pending_bytes(c),
{
    match c.tx() {
        None => {
            if c.outbound().len() > 0 {
                let p = c.outbound()[0];
                lemma_be_value_of_bytes(p.0);
                lemma_be_value_of_bytes(p.1.len() as u64);
                assert(be_bytes(p.0).subrange(0, 8) =~= be_bytes(p.0));
                assert(remaining_of(post.tx()) =~= frame(p.0, p.1));
                assert(frames(c.outbound()) =~= frame(p.0, p.1) + frames(c.outbound().drop_first()));
                assert(emitted(c.tx(), progress) + pending_bytes(post) =~= pending_bytes(c));
            } else {
                assert(emitted(c.tx(), progress) + pending_bytes(post) =~= pending_bytes(c));
            }
        },
        Some(w) => {
            match progress {
                IoProgress::Moved(n) => {
                    lemma_write_advance_consumes(w, n as nat);
                    lemma_pending_field_is_prefix(w);
                    let r = w.remaining();
                    assert(w.pending_field().take(n as int) =~= r.take(n as int));
                    assert(r.take(n as int) + r.skip(n as int) =~= r);
                    assert(emitted(c.tx(), progress) + pending_bytes(post) =~= pending_bytes(c));
                },
                _ => {
                    assert(emitted(c.tx(), progress) + pending_bytes(post) =~= pending_bytes(c));
                },
            }
        },
    }
}

/// The reply to a request reaches the sender waiting for it, once: when a readable event
/// completes the reply for an id whose sender is waiting, that sender is handed back and stops
/// waiting.
pub proof fn lemma_reply_reaches_its_sender<V>(
    c: Client<V>,
    post: Client<V>,
    outcome: ReadOutcome,
    d: Option<Delivery<V>>,
    id: u64,
    sender: V,
)
    requires
        c.inbound().contains_key(id),
        c.inbound()[id] == sender,
        c.readable_effect(post, outcome, d),
        d matches Some(dl) && dl.id == id,
    ensures
        d matches Some(dl) && dl.sender == Some(sender),
        !post.inbound().contains_key(id),
{
}

/// Feeds a connection's reader one chunk after another, as readable events that read data do:
/// the reader's final state, the senders still waiting, and the replies completed on the way,
/// each with the sender that was waiting for it, if any.
pub open spec fn client_read_feed<V>(
    rx: ReadStateView,
    inbound: Map<u64, V>,
    chunks: Seq<Seq<u8>>,
) -> (ReadStateView, Map<u64, V>, Seq<(u64, Seq<u8>, Option<V>)>)
    decreases chunks.len(),
{
    if chunks.len() == 0 {
        (rx, inbound, Seq::empty())
    } else {
        let (rx1, done) = read_advance(rx, chunks[0]);
        match done {
            None => client_read_feed(rx1, inbound, chunks.drop_first()),
            Some(p) => {
                let sender = if inbound.contains_key(p.0) {
                    Some(inbound[p.0])
                } else {
                    None
                };
                let (rx2, inbound2, ds) = client_read_feed(
                    rx1,
                    inbound.remove(p.0),
                    chunks.drop_first(),
                );
                (rx2, inbound2, seq![(p.0, p.1, sender)] + ds)
            },
        }
    }
}

/// The packets of a sequence of replies with their senders.
pub open spec fn reply_packets<V>(ds: Seq<(u64, Seq<u8>, Option<V>)>) -> Seq<(u64, Seq<u8>)> {
    ds.map_values(|d: (u64, Seq<u8>, Option<V>)| (d.0, d.1))
}

/// The bytes a read outcome carries.
pub open spec fn outcome_bytes(o: ReadOutcome) -> Seq<u8> {
    match o {
        ReadOutcome::Data(c) => c@,
        _ => Seq::empty(),
    }
}

/// The replies a sequence of readable events handed back, with their senders.
pub open spec fn handed_back<V>(ds: Seq<Option<Delivery<V>>>) -> Seq<(u64, Seq<u8>, Option<V>)>
    decreases ds.len(),
{
    if ds.len() == 0 {
        Seq::empty()
    } else {
        match ds[0] {
            Some(d) => seq![(d.id, d.payload@, d.sender)] + handed_back(ds.drop_first()),
            None => handed_back(ds.drop_first()),
        }
    }
}

/// The reader part of a connection fed chunk by chunk is the framing reader fed the same chunks.
pub proof fn lemma_client_read_feed_is_read_feed<V>(
    rx: ReadStateView,
    inbound: Map<u64, V>,
    chunks: Seq<Seq<u8>>,
)
    ensures
        client_read_feed(rx, inbound, chunks).0 == read_feed(rx, chunks).0,
        reply_packets(client_read_feed(rx, inbound, chunks).2) == read_feed(rx, chunks).1,
    decreases chunks.len(),
{
    if chunks.len() > 0 {
        let (rx1, done) = read_advance(rx, chunks[0]);
        match done {
            None => {
                lemma_client_read_feed_is_read_feed(rx1, inbound, chunks.drop_first());
                assert(read_feed(rx, chunks).1 =~= read_feed(rx1, chunks.drop_first()).1);
            },
            Some(p) => {
                lemma_client_read_feed_is_read_feed(rx1, inbound.remove(p.0), chunks.drop_first());
                let ds = client_read_feed(rx, inbound, chunks).2;
                assert(reply_packets(ds) =~= read_feed(rx, chunks).1);
            },
        }
    } else {
        assert(reply_packets(Seq::<(u64, Seq<u8>, Option<V>)>::empty()) =~= Seq::<(u64, Seq<u8>)>::empty());
    }
}

/// A run of readable events that read data does to a connection what [`client_read_feed`] says:
/// the connection's reader and waiting senders end as the feed ends, and the replies handed back
/// are the feed's, with the senders that were waiting for them.
pub proof fn lemma_readable_run<V>(
    cs: Seq<Client<V>>,
    outcomes: Seq<ReadOutcome>,
    ds: Seq<Option<Delivery<V>>>,
)
    requires
        cs.len() == outcomes.len() + 1,
        ds.len() == outcomes.len(),
        forall|i: int| 0 <= i < outcomes.len() ==> #[trigger] outcomes[i] is Data,
        forall|i: int|
            0 <= i < outcomes.len() ==> #[trigger] cs[i].readable_effect(
                cs[i + 1],
                outcomes[i],
                ds[i],
            ),
    ensures
        ({
            let feed = client_read_feed(
                cs[0].rx(),
                cs[0].inbound(),
                outcomes.map_values(|o: ReadOutcome| outcome_bytes(o)),
            );
            &&& cs.last().rx() == feed.0
            &&& cs.last().inbound() == feed.1
            &&& handed_back(ds) == feed.2
        }),
    decreases outcomes.len(),
{
    let chunks = outcomes.map_values(|o: ReadOutcome| outcome_bytes(o));
    if outcomes.len() == 0 {
        assert(handed_back(ds) =~= Seq::<(u64, Seq<u8>, Option<V>)>::empty());
    } else {
        let cs1 = cs.drop_first();
        let os1 = outcomes.drop_first();
        let ds1 = ds.drop_first();
        assert forall|i: int| 0 <= i < os1.len() implies #[trigger] os1[i] is Data by {
            assert(os1[i] == outcomes[i + 1]);
        }
        assert forall|i: int| 0 <= i < os1.len() implies #[trigger] cs1[i].readable_effect(
            cs1[i + 1],
            os1[i],
            ds1[i],
        ) by {
            assert(cs1[i] == cs[i + 1] && cs1[i + 1] == cs[i + 2] && os1[i] == outcomes[i + 1]
                && ds1[i] == ds[i + 1]);
            assert(cs[i + 1].readable_effect(cs[i + 2], outcomes[i + 1], ds[i + 1]));
        }
        lemma_readable_run(cs1, os1, ds1);
        assert(cs[0].readable_effect(cs[1], outcomes[0], ds[0]));
        assert(chunks.drop_first() =~= os1.map_values(|o: ReadOutcome| outcome_bytes(o)));
        assert(chunks[0] == outcome_bytes(outcomes[0]));
        assert(cs1.last() == cs.last());
        assert(cs1[0] == cs[1]);
        match ds[0] {
            Some(d) => {
                assert(handed_back(ds) == seq![(d.id, d.payload@, d.sender)] + handed_back(ds1));
            },
            None => {
                assert(handed_back(ds) == handed_back(ds1));
            },
        }
    }
}

/// What reading a reply gives back: when a connection whose reader is at the start of a packet
/// reads, in any chunks that fit, exactly the frame of a reply to request `id` with a payload that
/// is not empty, exactly one reply comes back, with the reply's payload and the sender that was
/// waiting for `id` (none if nobody was), nobody waits for `id` any more, and the reader is back
/// at the start of a packet.
pub proof fn lemma_reply_read_once<V>(
    cs: Seq<Client<V>>,
    outcomes: Seq<ReadOutcome>,
    ds: Seq<Option<Delivery<V>>>,
    id: u64,
    data: Seq<u8>,
)
    requires
        cs.len() == outcomes.len() + 1,
        ds.len() == outcomes.len(),
        forall|i: int| 0 <= i < outcomes.len() ==> #[trigger] outcomes[i] is Data,
        forall|i: int|
            0 <= i < outcomes.len() ==> #[trigger] cs[i].readable_effect(
                cs[i + 1],
                outcomes[i],
                ds[i],
            ),
        cs[0].rx() == read_init(),
        1 <= data.len() <= u64::MAX,
        feed_fits(read_init(), outcomes.map_values(|o: ReadOutcome| outcome_bytes(o))),
        concat(outcomes.map_values(|o: ReadOutcome| outcome_bytes(o))) == frame(id, data),
    ensures
        cs.last().rx() == read_init(),
        handed_back(ds) == seq![
            (
                id,
                data,
                if cs[0].inbound().contains_key(id) {
                    Some(cs[0].inbound()[id])
                } else {
                    None
                },
            ),
        ],
        !cs.last().inbound().contains_key(id),
{
    let chunks = outcomes.map_values(|o: ReadOutcome| outcome_bytes(o));
    lemma_readable_run(cs, outcomes, ds);
    lemma_client_read_feed_is_read_feed(cs[0].rx(), cs[0].inbound(), chunks);
    lemma_reader_reads_one_frame(chunks, id, data);
    lemma_single_reply(cs[0].rx(), cs[0].inbound(), chunks, id, data);
}

/// A feed that completes exactly one reply hands back that reply with its waiting sender and
/// leaves nobody waiting for its id.
proof fn lemma_single_reply<V>(
    rx: ReadStateView,
    inbound: Map<u64, V>,
    chunks: Seq<Seq<u8>>,
    id: u64,
    data: Seq<u8>,
)
    requires
        reply_packets(client_read_feed(rx, inbound, chunks).2) == seq![(id, data)],
    ensures
        client_read_feed(rx, inbound, chunks).2 == seq![
            (
                id,
                data,
                if inbound.contains_key(id) {
                    Some(inbound[id])
                } else {
                    None
                },
            ),
        ],
        !client_read_feed(rx, inbound, chunks).1.contains_key(id),
    decreases chunks.len(),
{
    if chunks.len() == 0 {
        assert(reply_packets(client_read_feed(rx, inbound, chunks).2).len() == 0);
    } else {
        let (rx1, done) = read_advance(rx, chunks[0]);
        match done {
            None => {
                lemma_single_reply(rx1, inbound, chunks.drop_first(), id, data);
            },
            Some(p) => {
                let rest = client_read_feed(rx1, inbound.remove(p.0), chunks.drop_first());
                let ds = client_read_feed(rx, inbound, chunks).2;
                assert(reply_packets(ds)[0] == (p.0, p.1));
                assert(reply_packets(ds).len() == 1);
                assert(rest.2.len() == 0);
                assert(ds =~= seq![
                    (
                        id,
                        data,
                        if inbound.contains_key(id) {
                            Some(inbound[id])
                        } else {
                            None
                        },
                    ),
                ]);
                lemma_no_reply_keeps_waiting(rx1, inbound.remove(p.0), chunks.drop_first());
            },
        }
    }
}

/// A feed that completes no reply leaves the waiting senders as they were.
proof fn lemma_no_reply_keeps_waiting<V>(rx: ReadStateView, inbound: Map<u64, V>, chunks: Seq<Seq<u8>>)
    requires
        client_read_feed(rx, inbound, chunks).2.len() == 0,
    ensures
        client_read_feed(rx, inbound, chunks).1 == inbound,
    decreases chunks.len(),
{
    if chunks.len() > 0 {
        let (rx1, done) = read_advance(rx, chunks[0]);
        match done {
            None => lemma_no_reply_keeps_waiting(rx1, inbound, chunks.drop_first()),
            Some(p) => {},
        }
    }
}

/// Multiplexes many client connections: hands out connection tokens, numbers requests across
/// all connections, and routes events to the connection they concern.
pub struct Dispatcher<V> {
    handlers: HashMap<usize, Client<V>>,
    next_handler_id: usize,
    next_rpc_id: u64,
}

impl<V> Dispatcher<V> {
    /// The registered connections, by token.
    pub closed spec fn handlers(&self) -> Map<usize, Client<V>> {
        self.handlers@
    }

    /// The token that the next registered connection gets.
    pub closed spec fn next_handler_id(&self) -> usize {
        self.next_handler_id
    }

    /// The id that the next request gets.
    pub closed spec fn next_rpc_id(&self) -> u64 {
        self.next_rpc_id
    }

    /// Every token in use was handed out before, and every connection state is consistent.
    pub open spec fn wf(&self) -> bool {
        forall|t: usize| #[trigger]
            self.handlers().contains_key(t) ==> t < self.next_handler_id()
                && self.handlers()[t].wf()
    }

    /// A dispatcher with no connections.
    pub fn new() -> (d: Dispatcher<V>)
        ensures
            d.wf(),
            d.handlers() == Map::<usize, Client<V>>::empty(),
            d.next_handler_id() == 0,
            d.next_rpc_id() == 0,
    {
        Dispatcher { handlers: HashMap::new(), next_handler_id: 0, next_rpc_id: 0 }
    }

    /// The token that the next registered connection gets.
    pub fn get_next_handler_id(&self) -> (t: usize)
        ensures
            t == self.next_handler_id(),
    {
        self.next_handler_id
    }

    /// The id that the next request gets.
    pub fn get_next_rpc_id(&self) -> (id: u64)
        ensures
            id == self.next_rpc_id(),
    {
        self.next_rpc_id
    }

    /// Whether a connection is registered under `token`.
    pub fn is_registered(&self, token: usize) -> (b: bool)
        ensures
            b == self.handlers().contains_key(token),
    {
        self.handlers.contains_key(&token)
    }

    /// Registers a new connection under a token that no connection holds.
    pub fn register(&mut self) -> (token: usize)
        requires
            old(self).wf(),
            old(self).next_handler_id() < usize::MAX,
        ensures
            final(self).wf(),
            token == old(self).next_handler_id(),
            !old(self).handlers().contains_key(token),
            final(self).handlers().contains_key(token),
            final(self).handlers()[token].is_fresh(),
            final(self).handlers().remove(token) == old(self).handlers(),
            final(self).next_handler_id() == old(self).next_handler_id() + 1,
            final(self).next_rpc_id() == old(self).next_rpc_id(),
    {
        let token = self.next_handler_id;
        proof {
            if self.handlers().contains_key(token) {
                assert(token < self.next_handler_id());
            }
        }
        self.next_handler_id = self.next_handler_id + 1;
        let c = Client::new();
        self.handlers.insert(token, c);
        proof {
            assert(self.handlers@.remove(token) =~= old(self).handlers@);
        }
        token
    }

    /// Removes the connection registered under `token` and hands its state back.
    pub fn deregister(&mut self, token: usize) -> (c: Client<V>)
        requires
            old(self).wf(),
            old(self).handlers().contains_key(token),
        ensures
            final(self).wf(),
            c == old(self).handlers()[token],
            final(self).handlers() == old(self).handlers().remove(token),
            final(self).next_handler_id() == old(self).next_handler_id(),
            final(self).next_rpc_id() == old(self).next_rpc_id(),
    {
        self.handlers.remove(&token).unwrap()
    }

    /// Numbers a request and queues it on the connection registered under `token`; when no
    /// connection is registered there, the sender is handed back so that it can be told the
    /// connection is broken. The id is used up either way.
    pub fn rpc(&mut self, token: usize, payload: Vec<u8>, sender: V) -> (res: Result<u64, V>)
        requires
            old(self).wf(),
            old(self).next_rpc_id() < u64::MAX,
        ensures
            final(self).wf(),
            final(self).next_rpc_id() == old(self).next_rpc_id() + 1,
            final(self).next_handler_id() == old(self).next_handler_id(),
            if old(self).handlers().contains_key(token) {
                let c = old(self).handlers()[token];
                let c2 = final(self).handlers()[token];
                &&& res == Ok::<u64, V>(old(self).next_rpc_id())
                &&& final(self).handlers().contains_key(token)
                &&& final(self).handlers().remove(token) == old(self).handlers().remove(token)
                &&& c2.outbound() == c.outbound().push((old(self).next_rpc_id(), payload@))
                &&& c2.inbound() == c.inbound().insert(old(self).next_rpc_id(), sender)
                &&& c2.interest() == (Interest { writable: true, ..c.interest() })
                &&& c2.tx() == c.tx()
                &&& c2.rx() == c.rx()
                &&& c2.next_id() == c.next_id()
            } else {
                &&& res == Err::<u64, V>(sender)
                &&& final(self).handlers() == old(self).handlers()
            },
    {
        let id = self.next_rpc_id;
        self.next_rpc_id = self.next_rpc_id + 1;
        match self.handlers.remove(&token) {
            Some(mut c) => {
                c.on_notify(id, payload, sender);
                self.handlers.insert(token, c);
                proof {
                    assert(self.handlers@.remove(token) =~= old(self).handlers@.remove(token));
                }
                Ok(id)
            },
            None => Err(sender),
        }
    }

    /// Handles a hang-up of the connection under `token`: the connection is removed and the
    /// senders of all its waiting requests are handed back so that they can be told the
    /// connection is broken.
    pub fn hangup(&mut self, token: usize) -> (senders: Vec<V>)
        requires
            old(self).wf(),
            old(self).handlers().contains_key(token),
        ensures
            final(self).wf(),
            final(self).handlers() == old(self).handlers().remove(token),
            final(self).next_handler_id() == old(self).next_handler_id(),
            final(self).next_rpc_id() == old(self).next_rpc_id(),
            exists|post: Client<V>| old(self).handlers()[token].drained(post, senders@),
    {
        let mut c = self.handlers.remove(&token).unwrap();
        c.drain_inbound()
    }

    /// The events that the connection under `token` wants to be woken for.
    pub fn interest(&self, token: usize) -> (i: Interest)
        requires
            self.handlers().contains_key(token),
        ensures
            i == self.handlers()[token].interest(),
    {
        self.handlers.get(&token).unwrap().get_interest()
    }

    /// The bytes that the next write attempt on the connection under `token` should try.
    pub fn write_chunk(&self, token: usize) -> (chunk: Option<Vec<u8>>)
        requires
            self.wf(),
            self.handlers().contains_key(token),
        ensures
            match self.handlers()[token].tx() {
                Some(w) => chunk matches Some(c) && c@ == w.pending_field(),
                None => chunk is None,
            },
    {
        self.handlers.get(&token).unwrap().write_chunk()
    }

    /// How many bytes the next read attempt on the connection under `token` may take in.
    pub fn read_capacity(&self, token: usize) -> (n: u64)
        requires
            self.wf(),
            self.handlers().contains_key(token),
        ensures
            n == self.handlers()[token].rx().capacity(),
    {
        self.handlers.get(&token).unwrap().read_capacity()
    }

    /// Routes a writable event to the connection under `token`.
    pub fn writable(&mut self, token: usize, progress: IoProgress)
        requires
            old(self).wf(),
            old(self).handlers().contains_key(token),
            progress matches IoProgress::Moved(n) ==> old(self).handlers()[token].tx() matches Some(
                w,
            ) && n <= w.pending_field().len(),
        ensures
            final(self).wf(),
            final(self).handlers().contains_key(token),
            final(self).handlers().remove(token) == old(self).handlers().remove(token),
            old(self).handlers()[token].writable_effect(final(self).handlers()[token], progress),
            final(self).next_handler_id() == old(self).next_handler_id(),
            final(self).next_rpc_id() == old(self).next_rpc_id(),
    {
        let mut c = self.handlers.remove(&token).unwrap();
        c.writable(progress);
        self.handlers.insert(token, c);
        proof {
            assert(self.handlers@.remove(token) =~= old(self).handlers@.remove(token));
        }
    }

    /// Routes a readable event to the connection under `token`, handing back a reply that it
    /// completes.
    pub fn readable(&mut self, token: usize, outcome: ReadOutcome) -> (d: Option<Delivery<V>>)
        requires
            old(self).wf(),
            old(self).handlers().contains_key(token),
            outcome matches ReadOutcome::Data(c) ==> c@.len() <= old(self).handlers()[token].rx().capacity(),
        ensures
            final(self).wf(),
            final(self).handlers().contains_key(token),
            final(self).handlers().remove(token) == old(self).handlers().remove(token),
            old(self).handlers()[token].readable_effect(final(self).handlers()[token], outcome, d),
            final(self).next_handler_id() == old(self).next_handler_id(),
            final(self).next_rpc_id() == old(self).next_rpc_id(),
    {
        let mut c = self.handlers.remove(&token).unwrap();
        let d = c.readable(outcome);
        self.handlers.insert(token, c);
        proof {
            assert(self.handlers@.remove(token) =~= old(self).handlers@.remove(token));
        }
        d
    }
}

} // verus!
