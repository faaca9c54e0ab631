use vstd::prelude::*;

use crate::codec::utf8_to_string;
use crate::queue::BoundedQueue;
use crate::queue::CHANNEL_CAPACITY;

verus! {

/// One chunk of input handed to the network reader: what a single read on
/// the connection's read half produced.
#[derive(PartialEq, Eq, Debug)]
pub enum ReadEvent {
    /// The read returned zero bytes: the peer closed its write side.
    Closed,
    /// The read returned these bytes (one buffer's worth at most).
    Data(Vec<u8>),
    /// The read failed with an error other than end-of-stream.
    TransientError,
}

/// What the reader did with one event.
#[derive(Clone, Copy, PartialEq, Eq, Debug)]
pub enum ReadOutcome {
    /// End-of-stream was observed: the close signal is now pending and the
    /// reader hands its endpoint back.
    SessionClosed,
    /// The chunk decoded and was enqueued on the inbound channel.
    Forwarded,
    /// A transient read error: nothing changed, the loop goes on.
    Ignored,
}

/// The structural failures that abort the owning task.
#[derive(Clone, Copy, PartialEq, Eq, Debug)]
pub enum FatalError {
    /// A chunk from the peer was not valid UTF-8.
    MalformedUtf8,
    /// The inbound channel was full when a producer tried to enqueue.
    InboundFull,
    /// The outbound channel was full when the router tried to forward.
    OutboundFull,
}

/// The mathematical state of the server: the two channel contents, the
/// session lifecycle flags, and the log of messages already acknowledged,
/// oldest first.
#[verifier::ext_equal]
pub struct ServerView {
    /// Messages waiting between the input sources and the router.
    pub inbound: Seq<Seq<char>>,
    /// Messages waiting between the router and the network writer.
    pub outbound: Seq<Seq<char>>,
    /// Whether a connection is currently being served.
    pub connected: bool,
    /// Whether the reader has observed end-of-stream and the close signal
    /// has not yet reached the writer.
    pub shutdown_pending: bool,
    /// Every message the writer has acknowledged so far, in delivery order.
    pub served: Seq<Seq<char>>,
}

/// The reader observed end-of-stream: the close signal becomes pending.
pub open spec fn signal_close_step(v: ServerView) -> ServerView {
    ServerView { shutdown_pending: true, ..v }
}

/// A producer enqueued one message on the inbound channel.
pub open spec fn enqueue_step(v: ServerView, m: Seq<char>) -> ServerView {
    ServerView { inbound: v.inbound.push(m), ..v }
}

/// The router moved the oldest inbound message to the outbound channel.
pub open spec fn route_step(v: ServerView) -> ServerView {
    ServerView {
        inbound: v.inbound.drop_first(),
        outbound: v.outbound.push(v.inbound[0]),
        ..v
    }
}

/// The writer took the oldest outbound message and acknowledged it.
pub open spec fn serve_step(v: ServerView) -> ServerView {
    ServerView { outbound: v.outbound.drop_first(), served: v.served.push(v.outbound[0]), ..v }
}

/// The writer received the close signal: the session ends; both channels
/// keep whatever they hold for the next session.
pub open spec fn close_step(v: ServerView) -> ServerView {
    ServerView { connected: false, shutdown_pending: false, ..v }
}

/// The listener accepted a connection; the session starts with a fresh
/// close-signal channel and the channels as the last session left them.
pub open spec fn accept_step(v: ServerView) -> ServerView {
    ServerView { connected: true, shutdown_pending: false, ..v }
}

/// One message echoed end to end: enqueued, routed, acknowledged.
pub open spec fn echo_one_step(v: ServerView, m: Seq<char>) -> ServerView {
    serve_step(route_step(enqueue_step(v, m)))
}

/// A whole burst echoed in order, oldest first.
pub open spec fn echo_all_step(v: ServerView, msgs: Seq<Seq<char>>) -> ServerView
    decreases msgs.len(),
{
    if msgs.len() == 0 {
        v
    } else {
        echo_all_step(echo_one_step(v, msgs[0]), msgs.drop_first())
    }
}

/// The writer acknowledges everything waiting on the outbound channel.
pub open spec fn drain_step(v: ServerView) -> ServerView
    decreases v.outbound.len(),
{
    if v.outbound.len() == 0 {
        v
    } else {
        drain_step(serve_step(v))
    }
}

/// The session server: one connection at a time, the two bounded channels
/// threaded through every session.
///
/// The sockets, standard input and task runtime live outside the library;
/// each of their observations reaches the model as one plain event, and each
/// transition below says exactly what that event does to the state.
pub struct SessionServer {
    inbound: BoundedQueue,
    outbound: BoundedQueue,
    connected: bool,
    shutdown_pending: bool,
    served: Vec<String>,
}

impl View for SessionServer {
    type V = ServerView;

    closed spec fn view(&self) -> ServerView {
        ServerView {
            inbound: self.inbound@,
            outbound: self.outbound@,
            connected: self.connected,
            shutdown_pending: self.shutdown_pending,
            served: self.served.deep_view(),
        }
    }
}

impl SessionServer {
    /// Both channels respect their capacity bound.
    pub closed spec fn wf(&self) -> bool {
        self.inbound.wf() && self.outbound.wf()
    }

    /// A fresh server: empty channels, nothing served, no connection.
    pub fn new() -> (s: SessionServer)
        ensures
            s.wf(),
            s@ == (ServerView {
                inbound: Seq::<Seq<char>>::empty(),
                outbound: Seq::<Seq<char>>::empty(),
                connected: false,
                shutdown_pending: false,
                served: Seq::<Seq<char>>::empty(),
            }),
    {
        let s = SessionServer {
            inbound: BoundedQueue::new(),
            outbound: BoundedQueue::new(),
            connected: false,
            shutdown_pending: false,
            served: Vec::new(),
        };
        proof {
            assert(s.served.deep_view() =~= Seq::<Seq<char>>::empty());
        }
        s
    }

    /// The listener accepted the next connection.  At most one connection
    /// is served at a time, so none may be live already.
    pub fn accept_connection(&mut self)
        requires
            old(self).wf(),
            !old(self)@.connected,
        ensures
            final(self).wf(),
            final(self)@ == accept_step(old(self)@),
    {
        self.connected = true;
        self.shutdown_pending = false;
        proof {
            assert(self@ =~= accept_step(old(self)@));
        }
    }

    /// The network reader handles what one read on the connection produced.
    ///
    /// Zero bytes mean the peer closed: the close signal becomes pending,
    /// exactly once per session.  A data chunk is decoded as UTF-8 and
    /// enqueued inbound; malformed bytes and a full channel are fatal, and
    /// leave the state unchanged.  Any other read error is ignored.
    pub fn on_network_read(&mut self, event: ReadEvent) -> (r: Result<ReadOutcome, FatalError>)
        requires
            old(self).wf(),
            old(self)@.connected,
            event is Closed ==> !old(self)@.shutdown_pending,
        ensures
            final(self).wf(),
            event is Closed ==> {
                &&& r == Ok::<ReadOutcome, FatalError>(ReadOutcome::SessionClosed)
                &&& final(self)@ == signal_close_step(old(self)@)
            },
            event matches ReadEvent::Data(bytes) ==> {
                &&& !vstd::utf8::valid_utf8(bytes@) ==> {
                    &&& r == Err::<ReadOutcome, FatalError>(FatalError::MalformedUtf8)
                    &&& final(self)@ == old(self)@
                }
                &&& vstd::utf8::valid_utf8(bytes@) && old(self)@.inbound.len() < CHANNEL_CAPACITY
                    ==> {
                    &&& r == Ok::<ReadOutcome, FatalError>(ReadOutcome::Forwarded)
                    &&& final(self)@ == enqueue_step(
                        old(self)@,
                        vstd::utf8::decode_utf8(bytes@),
                    )
                }
                &&& vstd::utf8::valid_utf8(bytes@) && old(self)@.inbound.len()
                    >= CHANNEL_CAPACITY ==> {
                    &&& r == Err::<ReadOutcome, FatalError>(FatalError::InboundFull)
                    &&& final(self)@ == old(self)@
                }
            },
            event is TransientError ==> {
                &&& r == Ok::<ReadOutcome, FatalError>(ReadOutcome::Ignored)
                &&& final(self)@ == old(self)@
            },
    {
        match event {
            ReadEvent::Closed => {
                self.shutdown_pending = true;
                proof {
                    assert(self@ =~= signal_close_step(old(self)@));
                }
                Ok(ReadOutcome::SessionClosed)
            },
            ReadEvent::Data(bytes) => {
                match utf8_to_string(bytes.as_slice()) {
                    Some(text) => {
                        match self.inbound.try_send(text) {
                            Ok(()) => {
                                proof {
                                    assert(self@ =~= enqueue_step(
                                        old(self)@,
                                        vstd::utf8::decode_utf8(bytes@),
                                    ));
                                }
                                Ok(ReadOutcome::Forwarded)
                            },
                            Err(_) => Err(FatalError::InboundFull),
                        }
                    },
                    None => Err(FatalError::MalformedUtf8),
                }
            },
            ReadEvent::TransientError => Ok(ReadOutcome::Ignored),
        }
    }

    /// The local input reader forwards one line read from standard input.
    /// It runs whether or not a connection is live.  A full inbound channel
    /// is fatal, exactly as it is for the network reader.
    pub fn on_local_line(&mut self, line: String) -> (r: Result<(), FatalError>)
        requires
            old(self).wf(),
        ensures
            final(self).wf(),
            old(self)@.inbound.len() < CHANNEL_CAPACITY ==> {
                &&& r is Ok
                &&& final(self)@ == enqueue_step(old(self)@, line@)
            },
            old(self)@.inbound.len() >= CHANNEL_CAPACITY ==> {
                &&& r == Err::<(), FatalError>(FatalError::InboundFull)
                &&& final(self)@ == old(self)@
            },
    {
        match self.inbound.try_send(line) {
            Ok(()) => {
                proof {
                    assert(self@ =~= enqueue_step(old(self)@, line@));
                }
                Ok(())
            },
            Err(_) => Err(FatalError::InboundFull),
        }
    }

    /// The router forwards the oldest inbound message to the outbound
    /// channel, unchanged.  It blocks until something is inbound, so it is
    /// only ever stepped on a non-empty channel; the closed-channel case
    /// cannot arise, because the producer endpoints are never dropped.  A
    /// full outbound channel is fatal, and the message in flight is lost
    /// with the aborting router.
    pub fn router_step(&mut self) -> (r: Result<(), FatalError>)
        requires
            old(self).wf(),
            old(self)@.inbound.len() > 0,
        ensures
            final(self).wf(),
            old(self)@.outbound.len() < CHANNEL_CAPACITY ==> {
                &&& r is Ok
                &&& final(self)@ == route_step(old(self)@)
            },
            old(self)@.outbound.len() >= CHANNEL_CAPACITY ==> {
                &&& r == Err::<(), FatalError>(FatalError::OutboundFull)
                &&& final(self)@ == (ServerView {
                    inbound: old(self)@.inbound.drop_first(),
                    ..old(self)@
                })
            },
    {
        let m = self.inbound.recv().unwrap();
        match self.outbound.try_send(m) {
            Ok(()) => {
                proof {
                    assert(self@ =~= route_step(old(self)@));
                }
                Ok(())
            },
            Err(_) => Err(FatalError::OutboundFull),
        }
    }

    /// The writer's half of the race, signal side: a value arrived on the
    /// session's close-signal channel.  `true` ends the session at once —
    /// whatever the outbound channel still holds stays queued for the next
    /// session.  `false` only consumes the value and the loop goes on.
    pub fn on_close_signal(&mut self, value: bool) -> (stop: bool)
        requires
            old(self).wf(),
            old(self)@.connected,
            old(self)@.shutdown_pending,
        ensures
            final(self).wf(),
            stop == value,
            value ==> final(self)@ == close_step(old(self)@),
            !value ==> final(self)@ == (ServerView { shutdown_pending: false, ..old(self)@ }),
    {
        self.shutdown_pending = false;
        if value {
            self.connected = false;
            proof {
                assert(self@ =~= close_step(old(self)@));
            }
        }
        value
    }

    /// The writer's half of the race, message side: it takes the oldest
    /// outbound message, acknowledges it to the peer, and records it as
    /// served.  The returned message is what the caller logs; what goes on
    /// the wire is the fixed acknowledgment line, never the payload.
    pub fn serve_next(&mut self) -> (msg: String)
        requires
            old(self).wf(),
            old(self)@.connected,
            old(self)@.outbound.len() > 0,
        ensures
            final(self).wf(),
            msg@ == old(self)@.outbound[0],
            final(self)@ == serve_step(old(self)@),
    {
        let msg = self.outbound.recv().unwrap();
        let copy = msg.clone();
        self.served.push(copy);
        proof {
            assert(self.served.deep_view() =~= old(self).served.deep_view().push(msg@));
            assert(self@ =~= serve_step(old(self)@));
        }
        msg
    }

    /// One connected peer sends a burst of already-decoded messages, each
    /// routed and acknowledged before the next arrives.  The peer gets
    /// exactly one acknowledgment per message, in send order: the served
    /// log grows by exactly the burst, and the channels end as empty as
    /// they began.
    pub fn echo_burst(&mut self, msgs: Vec<String>) -> (n: usize)
        requires
            old(self).wf(),
            old(self)@.connected,
            old(self)@.inbound.len() == 0,
            old(self)@.outbound.len() == 0,
        ensures
            final(self).wf(),
            n == msgs.deep_view().len(),
            final(self)@.served == old(self)@.served + msgs.deep_view(),
            final(self)@.inbound.len() == 0,
            final(self)@.outbound.len() == 0,
            final(self)@.connected,
            final(self)@.shutdown_pending == old(self)@.shutdown_pending,
    {
        let ghost all = msgs.deep_view();
        let ghost start = self@;
        let mut n: usize = 0;
        while n < msgs.len()
            invariant
                self.wf(),
                n <= msgs.len(),
                all == msgs.deep_view(),
                all.len() == msgs@.len(),
                self@.connected,
                self@.shutdown_pending == start.shutdown_pending,
                self@.inbound.len() == 0,
                self@.outbound.len() == 0,
                self@.served == start.served + all.take(n as int),
            decreases msgs.len() - n,
        {
            let m = msgs[n].clone();
            proof {
                assert(all[n as int] == msgs@[n as int].deep_view());
                assert(m@ == all[n as int]);
            }
            let sent = self.on_local_line(m);
            proof {
                assert(sent is Ok);
            }
            let routed = self.router_step();
            proof {
                assert(routed is Ok);
            }
            let acked = self.serve_next();
            proof {
                assert(acked@ == all[n as int]);
                assert(self@.served =~= start.served + all.take(n as int + 1));
            }
            n = n + 1;
        }
        proof {
            assert(all.take(all.len() as int) =~= all);
        }
        n
    }

    /// The writer acknowledges, in order, every message still waiting on
    /// the outbound channel — in particular whatever was queued while no
    /// connection was attached.
    pub fn drain_pending(&mut self) -> (n: usize)
        requires
            old(self).wf(),
            old(self)@.connected,
        ensures
            final(self).wf(),
            n == old(self)@.outbound.len(),
            final(self)@ == drain_step(old(self)@),
            final(self)@.served == old(self)@.served + old(self)@.outbound,
            final(self)@.outbound.len() == 0,
            final(self)@.inbound == old(self)@.inbound,
            final(self)@.connected,
    {
        let ghost start = self@;
        let mut n: usize = 0;
        while self.outbound_len() > 0
            invariant
                self.wf(),
                start.outbound.len() <= CHANNEL_CAPACITY,
                n + self@.outbound.len() == start.outbound.len(),
                self@.outbound == start.outbound.subrange(
                    n as int,
                    start.outbound.len() as int,
                ),
                self@.served == start.served + start.outbound.take(n as int),
                self@.connected,
                self@.shutdown_pending == start.shutdown_pending,
                self@.inbound == start.inbound,
            decreases self@.outbound.len(),
        {
            let _msg = self.serve_next();
            proof {
                assert(self@.outbound =~= start.outbound.subrange(
                    n as int + 1,
                    start.outbound.len() as int,
                ));
                assert(self@.served =~= start.served + start.outbound.take(n as int + 1));
            }
            n = n + 1;
        }
        proof {
            assert(start.outbound.take(start.outbound.len() as int) =~= start.outbound);
            lemma_drain_acknowledges_all(start);
            assert(self@ =~= drain_step(start));
        }
        n
    }

    pub fn is_connected(&self) -> (b: bool)
        ensures
            b == self@.connected,
    {
        self.connected
    }

    pub fn close_signal_pending(&self) -> (b: bool)
        ensures
            b == self@.shutdown_pending,
    {
        self.shutdown_pending
    }

    pub fn inbound_len(&self) -> (n: usize)
        ensures
            n == self@.inbound.len(),
    {
        self.inbound.len()
    }

    pub fn outbound_len(&self) -> (n: usize)
        ensures
            n == self@.outbound.len(),
    {
        self.outbound.len()
    }

    /// Every message acknowledged so far, oldest first.
    pub fn served_messages(&self) -> (v: &Vec<String>)
        ensures
            v.deep_view() == self@.served,
    {
        &self.served
    }
}

/// Echoing a burst through otherwise empty channels acknowledges exactly
/// that burst, in send order, and leaves the channels and the lifecycle
/// flags as they were.
pub proof fn lemma_echo_in_order(v: ServerView, msgs: Seq<Seq<char>>)
    requires
        v.inbound.len() == 0,
        v.outbound.len() == 0,
    ensures
        echo_all_step(v, msgs).served == v.served + msgs,
        echo_all_step(v, msgs).inbound == v.inbound,
        echo_all_step(v, msgs).outbound == v.outbound,
        echo_all_step(v, msgs).connected == v.connected,
        echo_all_step(v, msgs).shutdown_pending == v.shutdown_pending,
    decreases msgs.len(),
{
    if msgs.len() == 0 {
        assert(echo_all_step(v, msgs).served =~= v.served + msgs);
    } else {
        let v1 = echo_one_step(v, msgs[0]);
        assert(v1.inbound =~= v.inbound);
        assert(v1.outbound =~= v.outbound);
        assert(v1.served =~= v.served.push(msgs[0]));
        lemma_echo_in_order(v1, msgs.drop_first());
        assert(v.served.push(msgs[0]) + msgs.drop_first() =~= v.served + msgs);
    }
}

/// Draining the outbound channel acknowledges everything it holds, oldest
/// first, and touches nothing else.
pub proof fn lemma_drain_acknowledges_all(v: ServerView)
    ensures
        drain_step(v).served == v.served + v.outbound,
        drain_step(v).outbound.len() == 0,
        drain_step(v).inbound == v.inbound,
        drain_step(v).connected == v.connected,
        drain_step(v).shutdown_pending == v.shutdown_pending,
    decreases v.outbound.len(),
{
    if v.outbound.len() == 0 {
        assert(drain_step(v).served =~= v.served + v.outbound);
    } else {
        lemma_drain_acknowledges_all(serve_step(v));
        assert(v.served.push(v.outbound[0]) + v.outbound.drop_first() =~= v.served + v.outbound);
    }
}

/// Closing a session and accepting the next one keeps the channels and the
/// served log exactly as they were, so the next connection's traffic is
/// routed by the same pipeline: echoing after the reconnect acknowledges
/// it just as it would have before.
pub proof fn lemma_reconnect_resumes_routing(v: ServerView, msgs: Seq<Seq<char>>)
    requires
        v.inbound.len() == 0,
        v.outbound.len() == 0,
    ensures
        accept_step(close_step(v)).inbound == v.inbound,
        accept_step(close_step(v)).outbound == v.outbound,
        accept_step(close_step(v)).served == v.served,
        accept_step(close_step(v)).connected,
        echo_all_step(accept_step(close_step(v)), msgs).served == v.served + msgs,
{
    lemma_echo_in_order(accept_step(close_step(v)), msgs);
}

/// Messages queued outbound while no connection is attached are not lost:
/// ending the session keeps them, and once the next session's writer
/// drains the channel they are acknowledged, in order, after everything
/// served before them.
pub proof fn lemma_pending_outbound_delivered(v: ServerView)
    ensures
        accept_step(close_step(v)).outbound == v.outbound,
        drain_step(accept_step(close_step(v))).served == v.served + v.outbound,
        drain_step(accept_step(close_step(v))).outbound.len() == 0,
        drain_step(accept_step(close_step(v))).connected,
{
    lemma_drain_acknowledges_all(accept_step(close_step(v)));
}

} // verus!
