//! The decisions of an RPC client connection: which frames to send, what to
//! do with each frame received, and the bookkeeping of requests in flight.
//!
//! The connection's sockets, channels and timers are driven by the caller,
//! which hands each event to the state kept here and performs the action it
//! gets back.

use vstd::prelude::*;

use crate::codec::append_bytes;
use crate::error::RpcError;
use crate::message::{req_type_code, resp_type_code, ReqType, RespType};
use crate::packet::{
    header_bytes, header_decoding, lemma_header_roundtrip, Decode, Encode, KeeperView, Packet,
    PacketsKeeper, ReqHeader, RespHeader, REQ_HEADER_SIZE,
};

verus! {

/// The operation code of a keep-alive request.
pub open spec fn keep_alive_op() -> u8 {
    req_type_code(ReqType::KeepAliveRequest)
}

/// What the receive loop does once a response header has been read.
#[derive(Debug, Clone, Copy, PartialEq, Eq, Structural)]
pub enum RecvStep {
    /// Stop receiving.
    Stop,
    /// Go on with the next header.
    Continue,
    /// Read a body of `len` bytes, the response to request `seq`.
    ReadBody { seq: u64, len: u64 },
}

/// The state of a client connection: the next sequence number to hand out,
/// and the requests sent and not yet answered.
pub struct RpcClientConnectionInner<P> where P: Packet + Send + Sync {
    /// The next sequence number, used to mark requests and responses.
    seq: u64,
    /// The requests in flight.
    packet_task: PacketsKeeper<P>,
}

/// The state of a client connection as a value.
pub struct ConnectionView<P> {
    pub next_seq: u64,
    pub tasks: KeeperView<P>,
}

impl<P: Packet> View for RpcClientConnectionInner<P> {
    type V = ConnectionView<P>;

    closed spec fn view(&self) -> ConnectionView<P> {
        ConnectionView { next_seq: self.seq, tasks: self.packet_task@ }
    }
}

/// The number after `n`, wrapping to 0 after `u64::MAX`.
pub open spec fn seq_after(n: u64) -> u64 {
    if n == u64::MAX {
        0
    } else {
        (n + 1) as u64
    }
}

/// The number that the `i`-th call of `next_seq` hands out, counting from 0,
/// on a state whose next number was `start`.
pub open spec fn nth_seq(start: u64, i: nat) -> u64 {
    ((start + i) % 0x1_0000_0000_0000_0000) as u64
}

/// Successive calls of `next_seq` hand out `nth_seq(start, 0)`,
/// `nth_seq(start, 1)`, and so on: each call gives the number after the one
/// before, wrapping after `u64::MAX`. Any `2^64` successive calls hand out
/// distinct numbers, and on a fresh state the `i`-th call hands out `i`.
pub proof fn lemma_seq_numbers_count_up(start: u64, i: nat, j: nat)
    ensures
        nth_seq(start, 0) == start,
        seq_after(nth_seq(start, i)) == nth_seq(start, i + 1),
        i < j < 0x1_0000_0000_0000_0000 ==> nth_seq(start, i) != nth_seq(start, j),
        i < 0x1_0000_0000_0000_0000 ==> nth_seq(0, i) == i,
{
    let m: int = 0x1_0000_0000_0000_0000;
    let a: int = start + i;
    vstd::arithmetic::div_mod::lemma_mod_pos_bound(a, m);
    vstd::arithmetic::div_mod::lemma_mod_pos_bound(a + 1, m);
    vstd::arithmetic::div_mod::lemma_small_mod(start as nat, m as nat);
    if a % m == m - 1 {
        assert((a + 1) % m == 0) by {
            vstd::arithmetic::div_mod::lemma_mod_adds(a, 1, m);
            vstd::arithmetic::div_mod::lemma_small_mod(1, m as nat);
        }
    } else {
        assert((a + 1) % m == a % m + 1) by {
            vstd::arithmetic::div_mod::lemma_mod_adds(a, 1, m);
            vstd::arithmetic::div_mod::lemma_small_mod(1, m as nat);
        }
    }
    if i < j < m {
        let b: int = start + j;
        if (a % m) == (b % m) {
            vstd::arithmetic::div_mod::lemma_mod_equivalence(b, a, m);
            vstd::arithmetic::div_mod::lemma_small_mod((j - i) as nat, m as nat);
            assert(false);
        }
    }
    if i < m {
        vstd::arithmetic::div_mod::lemma_small_mod(i, m as nat);
    }
}

/// The frame that carries `req`, whose body serialized to `body`: a request
/// header with the packet's sequence number and operation and the body's
/// length, followed by the body; nothing where serialization failed.
pub open spec fn request_frame<P: Packet>(req: P, body: Result<Seq<u8>, ()>) -> Option<Seq<u8>> {
    match body {
        Ok(b) => Some(header_bytes(req.seq_of(), req.op_of(), b.len() as u64) + b),
        Err(_) => None,
    }
}

/// A request frame reads back, as a request header, as the packet's sequence
/// number and operation and the body's length, and the body follows the
/// header.
pub proof fn lemma_request_frame_parses<P: Packet>(req: P, body: Seq<u8>)
    requires
        body.len() <= u64::MAX,
    ensures
        ReqHeader::decoding(request_frame(req, Ok(body)).unwrap()) == Some(
            (req.seq_of(), req.op_of(), body.len() as u64),
        ),
        request_frame(req, Ok(body)).unwrap().subrange(
            REQ_HEADER_SIZE as int,
            request_frame(req, Ok(body)).unwrap().len() as int,
        ) == body,
{
    let f = request_frame(req, Ok(body)).unwrap();
    lemma_header_roundtrip(req.seq_of(), req.op_of(), body.len() as u64, body);
    assert(f.subrange(17, f.len() as int) =~= body);
}

/// How a response header steers the receive loop, for every sequence number,
/// length and following bytes: a file block response (operation 0) leads to
/// reading a body of exactly the header's length for the header's sequence
/// number, a keep-alive (operation 1) to the next header, any other operation
/// and any buffer too short for a header to a stop.
pub proof fn lemma_recv_step_steers(seq: u64, op: u8, len: u64, rest: Seq<u8>, short: Seq<u8>)
    ensures
        recv_step(header_bytes(seq, 0, len) + rest) == (RecvStep::ReadBody { seq, len }),
        recv_step(header_bytes(seq, 1, len) + rest) == RecvStep::Continue,
        op >= 2 ==> recv_step(header_bytes(seq, op, len) + rest) == RecvStep::Stop,
        short.len() < 17 ==> recv_step(short) == RecvStep::Stop,
{
    lemma_header_roundtrip(seq, 0, len, rest);
    lemma_header_roundtrip(seq, 1, len, rest);
    lemma_header_roundtrip(seq, op, len, rest);
}

/// A request recorded at clock reading `sent` and answered at a reading no
/// more than the timeout later (or earlier than `sent`) is handed, as it was
/// recorded, to the body step, which fills it from the body; the response is
/// not dropped. Since `record_request` stamps and `on_response_body` looks
/// up with readings of the same clock, a request answered with no time
/// elapsed is always filled.
pub proof fn lemma_answer_in_time_is_filled<P: Packet>(
    c: ConnectionView<P>,
    req: P,
    sent: u64,
    answered: u64,
)
    requires
        answered <= sent + c.tasks.timeout,
    ensures
        c.tasks.with_task(req, sent).hands_out(req.seq_of(), answered),
        c.tasks.with_task(req, sent).packets[req.seq_of()] == req,
{
}

/// What the receive loop does with a response header read as `buf`: stop on
/// an unreadable header or an unknown operation, go on after a keep-alive,
/// read the body of a file block response.
pub open spec fn recv_step(buf: Seq<u8>) -> RecvStep {
    match header_decoding(buf) {
        None => RecvStep::Stop,
        Some((seq, op, len)) => if op == resp_type_code(RespType::FileBlockResponse) {
            RecvStep::ReadBody { seq, len }
        } else if op == resp_type_code(RespType::KeepAliveResponse) {
            RecvStep::Continue
        } else {
            RecvStep::Stop
        },
    }
}

impl<P: Packet + Send + Sync> RpcClientConnectionInner<P> {
    /// The latest reading of the runtime clock taken for the requests in
    /// flight: the stamp of one recorded by `record_request`, or the time at
    /// which `on_response_body` looked one up.
    pub closed spec fn clock_reading(&self) -> u64 {
        self.packet_task.clock_reading()
    }

    /// A fresh connection state: sequence numbers start at 0, and a pending
    /// request times out after `idle_timeout_secs` seconds.
    pub fn new(idle_timeout_secs: u64) -> (r: Self)
        ensures
            r@.next_seq == 0,
            r@.tasks.packets == Map::<u64, P>::empty(),
            r@.tasks.stamps == Map::<u64, u64>::empty(),
            r@.tasks.timeout == idle_timeout_secs,
    {
        RpcClientConnectionInner { seq: 0, packet_task: PacketsKeeper::new(idle_timeout_secs) }
    }

    /// Hands out the next sequence number.
    pub fn next_seq(&mut self) -> (r: u64)
        ensures
            r == old(self)@.next_seq,
            final(self)@.next_seq == seq_after(old(self)@.next_seq),
            final(self)@.tasks == old(self)@.tasks,
    {
        let r = self.seq;
        self.seq = self.seq.wrapping_add(1);
        r
    }

    /// The keep-alive frame to send on each tick: a request header with the
    /// next sequence number, the keep-alive operation and an empty body.
    pub fn keep_alive_message(&mut self) -> (msg: Vec<u8>)
        ensures
            msg@ == header_bytes(old(self)@.next_seq, keep_alive_op(), 0),
            final(self)@.next_seq == seq_after(old(self)@.next_seq),
            final(self)@.tasks == old(self)@.tasks,
    {
        let seq = self.next_seq();
        ReqHeader { seq, op: ReqType::KeepAliveRequest.to_u8(), len: 0 }.encode()
    }

    /// The frame that carries `req` once its body has been serialized to
    /// `body`.
    pub fn request_frame_for(req: &P, body: &Result<Vec<u8>, RpcError<String>>) -> (r: Option<
        Vec<u8>,
    >)
        ensures
            match r {
                Some(v) => request_frame(*req, body_view(*body)) == Some(v@),
                None => request_frame(*req, body_view(*body)) is None,
            },
    {
        match body {
            Ok(buf) => {
                let mut frame = ReqHeader { seq: req.seq(), op: req.op(), len: buf.len() as u64 }.encode();
                append_bytes(&mut frame, buf.as_slice());
                Some(frame)
            },
            Err(_) => None,
        }
    }

    /// Serializes `req` and gives the frame that carries it, or nothing where
    /// serialization fails.
    pub fn frame_request(&self, req: &P) -> (r: Option<Vec<u8>>)
        ensures
            exists|out: Result<Vec<u8>, RpcError<String>>|
                #[trigger] req.serialize_spec(&out) && match r {
                    Some(v) => request_frame(*req, body_view(out)) == Some(v@),
                    None => request_frame(*req, body_view(out)) is None,
                },
    {
        let body = req.serialize();
        Self::request_frame_for(req, &body)
    }

    /// Records a request whose frame has been sent, at time `now`.
    pub fn record_request_at(&mut self, req: P, now: u64)
        ensures
            final(self)@.tasks == old(self)@.tasks.with_task(req, now),
            final(self).clock_reading() == old(self).clock_reading(),
            final(self)@.next_seq == old(self)@.next_seq,
    {
        self.packet_task.add_task_at(req, now);
    }

    /// Records a request whose frame has been sent, stamped with the
    /// runtime's clock.
    pub fn record_request(&mut self, req: P)
        ensures
            exists|now: u64| final(self)@.tasks == old(self)@.tasks.with_task(req, now),
            final(self)@.tasks == old(self)@.tasks.with_task(req, final(self).clock_reading()),
            final(self)@.next_seq == old(self)@.next_seq,
    {
        self.packet_task.add_task(req);
        proof {
            let now = choose|now: u64| self.packet_task@ == old(self).packet_task@.with_task(req, now);
            assert(self@.tasks == old(self)@.tasks.with_task(req, now));
        }
    }

    /// Handles a response header read as `buf`. A keep-alive response
    /// changes nothing: the receive loop goes on with the next header.
    pub fn on_response_header(&self, buf: &[u8]) -> (r: RecvStep)
        ensures
            r == recv_step(buf@),
    {
        let header = match RespHeader::decode(buf) {
            Ok(h) => h,
            Err(_) => return RecvStep::Stop,
        };
        match RespType::from_u8(header.op) {
            Ok(RespType::KeepAliveResponse) => RecvStep::Continue,
            Ok(RespType::FileBlockResponse) => RecvStep::ReadBody { seq: header.seq, len: header.len },
            Err(_) => RecvStep::Stop,
        }
    }

    /// Handles the body of the response to request `seq` at time `now`: the
    /// request's packet, if it is still to be handed out, is filled from the
    /// body with `deserialize`, and where that succeeds a copy of the filled
    /// packet is the result. Where the packet cannot be filled from the body,
    /// nothing is handed out.
    pub fn on_response_body_at(&mut self, seq: u64, body: &[u8], now: u64) -> (r: Option<P>)
        ensures
            final(self).clock_reading() == old(self).clock_reading(),
            final(self)@.next_seq == old(self)@.next_seq,
            old(self)@.tasks.task_taken(
                final(self)@.tasks,
                seq,
                now,
                old(self)@.tasks.hands_out(seq, now),
                old(self)@.tasks.packets[seq],
                final(self)@.tasks.packets[seq],
            ),
            !old(self)@.tasks.hands_out(seq, now) ==> r is None,
            old(self)@.tasks.hands_out(seq, now) ==> old(self)@.tasks.packets[seq].deserialize_spec(
                body,
                &final(self)@.tasks.packets[seq],
                r is Some,
            ),
            r matches Some(c) ==> cloned::<P>(final(self)@.tasks.packets[seq], c),
    {
        match self.packet_task.get_task_at(seq, now) {
            Some(packet) => {
                match packet.deserialize(body) {
                    Ok(()) => Some(packet.clone()),
                    Err(_) => None,
                }
            },
            None => None,
        }
    }

    /// Handles the body of the response to request `seq` at a fresh reading
    /// of the runtime clock, the one that `record_request` stamps with.
    pub fn on_response_body(&mut self, seq: u64, body: &[u8]) -> (r: Option<P>)
        ensures
            final(self)@.next_seq == old(self)@.next_seq,
            exists|now: u64|
                #[trigger] old(self)@.tasks.task_taken(
                    final(self)@.tasks,
                    seq,
                    now,
                    old(self)@.tasks.hands_out(seq, now),
                    old(self)@.tasks.packets[seq],
                    final(self)@.tasks.packets[seq],
                ) && (!old(self)@.tasks.hands_out(seq, now) ==> r is None) && (
                old(self)@.tasks.hands_out(seq, now) ==> old(self)@.tasks.packets[seq].deserialize_spec(
                    body,
                    &final(self)@.tasks.packets[seq],
                    r is Some,
                )),
            r matches Some(c) ==> cloned::<P>(final(self)@.tasks.packets[seq], c),
            old(self)@.tasks.task_taken(
                final(self)@.tasks,
                seq,
                final(self).clock_reading(),
                old(self)@.tasks.hands_out(seq, final(self).clock_reading()),
                old(self)@.tasks.packets[seq],
                final(self)@.tasks.packets[seq],
            ),
            !old(self)@.tasks.hands_out(seq, final(self).clock_reading()) ==> r is None,
            old(self)@.tasks.hands_out(seq, final(self).clock_reading())
                ==> old(self)@.tasks.packets[seq].deserialize_spec(
                body,
                &final(self)@.tasks.packets[seq],
                r is Some,
            ),
    {
        let now = self.packet_task.read_clock();
        self.on_response_body_at(seq, body, now)
    }
}

/// A serialization result as a value.
pub open spec fn body_view(body: Result<Vec<u8>, RpcError<String>>) -> Result<Seq<u8>, ()> {
    match body {
        Ok(b) => Ok(b@),
        Err(_) => Err(()),
    }
}

} // verus!
