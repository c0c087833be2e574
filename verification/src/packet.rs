//! Frame headers, the packet abstraction and the table of packets in flight.

use vstd::prelude::*;

use crate::codec::{
    lemma_be_bytes_roundtrip, lemma_be_value_roundtrip, push_u64_be, read_u64_be, u64_from_be,
    u64_to_be,
};
use crate::error::RpcError;
use std::collections::hash_map::Entry;
use std::collections::HashMap;

verus! {

/// The size of the request header.
pub const REQ_HEADER_SIZE: u64 = 17;

/// The size of the response header.
pub const RESP_HEADER_SIZE: u64 = 17;

/// Types that can be written to a byte buffer.
pub trait Encode {
    /// The bytes that `encode` produces.
    spec fn encoding(&self) -> Seq<u8>;

    /// Encodes `self` into a fresh buffer.
    fn encode(&self) -> (out: Vec<u8>)
        ensures
            out@ == self.encoding(),
    ;
}

/// Types that can be read back from a byte buffer.
pub trait Decode: Sized + View {
    /// The buffers on which `decode` is defined.
    spec fn decodable(buf: Seq<u8>) -> bool;

    /// The value `decode` reads from `buf`, or `None` where it reports an error.
    spec fn decoding(buf: Seq<u8>) -> Option<Self::V>;

    /// Decodes a value from the front of `buf`.
    fn decode(buf: &[u8]) -> (r: Result<Self, RpcError<String>>)
        requires
            Self::decodable(buf@),
        ensures
            match r {
                Ok(v) => Self::decoding(buf@) == Some(v@),
                Err(_) => Self::decoding(buf@) is None,
            },
    ;
}

/// The bytes of a header with the given fields: sequence number, operation, length.
pub open spec fn header_bytes(seq: u64, op: u8, len: u64) -> Seq<u8> {
    u64_to_be(seq) + seq![op] + u64_to_be(len)
}

/// Builds the 17 header bytes.
fn encode_header(seq: u64, op: u8, len: u64) -> (out: Vec<u8>)
    ensures
        out@ == header_bytes(seq, op, len),
        out@.len() == 17,
{
    let mut buf: Vec<u8> = Vec::with_capacity(REQ_HEADER_SIZE as usize);
    push_u64_be(&mut buf, seq);
    buf.push(op);
    push_u64_be(&mut buf, len);
    assert(buf@ =~= header_bytes(seq, op, len));
    buf
}

/// Reads the three header fields from the first 17 bytes of `buf`.
fn decode_header_fields(buf: &[u8]) -> (r: (u64, u8, u64))
    requires
        buf@.len() >= 17,
    ensures
        r.0 == u64_from_be(buf@.subrange(0, 8)),
        r.1 == buf@[8],
        r.2 == u64_from_be(buf@.subrange(9, 17)),
{
    let seq = read_u64_be(buf, 0);
    let op = buf[8];
    let len = read_u64_be(buf, 9);
    (seq, op, len)
}

/// The header that precedes every request.
#[derive(Debug)]
pub struct ReqHeader {
    /// The sequence number of the request.
    pub seq: u64,
    /// The operation type of the request; 0 is a keep-alive, the others are
    /// defined by the user.
    pub op: u8,
    /// The length of the request body.
    pub len: u64,
}

impl View for ReqHeader {
    type V = (u64, u8, u64);

    open spec fn view(&self) -> (u64, u8, u64) {
        (self.seq, self.op, self.len)
    }
}

/// The header fields that the first 17 bytes of `buf` hold, if there are so many.
pub open spec fn header_decoding(buf: Seq<u8>) -> Option<(u64, u8, u64)> {
    if buf.len() < 17 {
        None
    } else {
        Some((u64_from_be(buf.subrange(0, 8)), buf[8], u64_from_be(buf.subrange(9, 17))))
    }
}

impl Encode for ReqHeader {
    open spec fn encoding(&self) -> Seq<u8> {
        header_bytes(self.seq, self.op, self.len)
    }

    fn encode(&self) -> (out: Vec<u8>) {
        encode_header(self.seq, self.op, self.len)
    }
}

impl Decode for ReqHeader {
    open spec fn decodable(buf: Seq<u8>) -> bool {
        true
    }

    open spec fn decoding(buf: Seq<u8>) -> Option<(u64, u8, u64)> {
        header_decoding(buf)
    }

    fn decode(buf: &[u8]) -> (r: Result<Self, RpcError<String>>)
        ensures
            r matches Err(e) ==> e matches RpcError::InvalidRequest(m) && m@
                == "Invalid request header"@,
    {
        if buf.len() < REQ_HEADER_SIZE as usize {
            return Err(RpcError::InvalidRequest("Invalid request header".to_string()));
        }
        let (seq, op, len) = decode_header_fields(buf);
        Ok(ReqHeader { seq, op, len })
    }
}

/// The header that precedes every response.
#[derive(Debug, PartialEq, Eq, Structural, Clone, Copy)]
pub struct RespHeader {
    /// The sequence number of the request this response answers.
    pub seq: u64,
    /// The operation type of the response.
    pub op: u8,
    /// The length of the response body.
    pub len: u64,
}

impl View for RespHeader {
    type V = (u64, u8, u64);

    open spec fn view(&self) -> (u64, u8, u64) {
        (self.seq, self.op, self.len)
    }
}

impl Encode for RespHeader {
    open spec fn encoding(&self) -> Seq<u8> {
        header_bytes(self.seq, self.op, self.len)
    }

    fn encode(&self) -> (out: Vec<u8>) {
        encode_header(self.seq, self.op, self.len)
    }
}

impl Decode for RespHeader {
    open spec fn decodable(buf: Seq<u8>) -> bool {
        true
    }

    open spec fn decoding(buf: Seq<u8>) -> Option<(u64, u8, u64)> {
        header_decoding(buf)
    }

    fn decode(buf: &[u8]) -> (r: Result<Self, RpcError<String>>)
        ensures
            r matches Err(e) ==> e matches RpcError::InvalidResponse(m) && m@
                == "Invalid response header"@,
    {
        if buf.len() < RESP_HEADER_SIZE as usize {
            return Err(RpcError::InvalidResponse("Invalid response header".to_string()));
        }
        let (seq, op, len) = decode_header_fields(buf);
        Ok(RespHeader { seq, op, len })
    }
}

/// A header is 17 bytes long, and decoding its encoding gives it back,
/// whatever follows it in the buffer.
pub proof fn lemma_header_roundtrip(seq: u64, op: u8, len: u64, rest: Seq<u8>)
    ensures
        header_bytes(seq, op, len).len() == REQ_HEADER_SIZE,
        header_bytes(seq, op, len).len() == RESP_HEADER_SIZE,
        header_decoding(header_bytes(seq, op, len) + rest) == Some((seq, op, len)),
{
    let b = header_bytes(seq, op, len) + rest;
    assert(b.subrange(0, 8) =~= u64_to_be(seq));
    assert(b.subrange(9, 17) =~= u64_to_be(len));
    lemma_be_value_roundtrip(seq);
    lemma_be_value_roundtrip(len);
}

/// Header bytes, field by field: bytes 0..8 are the sequence number in
/// big-endian order, byte 8 the operation, bytes 9..17 the length in
/// big-endian order. Any buffer of 17 bytes or more decodes, reading the
/// fields from those places; a shorter one does not.
pub proof fn lemma_header_layout(seq: u64, op: u8, len: u64, buf: Seq<u8>)
    ensures
        header_bytes(seq, op, len).len() == 17,
        header_bytes(seq, op, len).subrange(0, 8) == u64_to_be(seq),
        header_bytes(seq, op, len)[8] == op,
        header_bytes(seq, op, len).subrange(9, 17) == u64_to_be(len),
        header_decoding(buf) is Some <==> buf.len() >= 17,
        buf.len() >= 17 && buf.subrange(0, 8) == u64_to_be(seq) && buf[8] == op && buf.subrange(
            9,
            17,
        ) == u64_to_be(len) ==> header_decoding(buf) == Some((seq, op, len)),
{
    let b = header_bytes(seq, op, len);
    assert(b.subrange(0, 8) =~= u64_to_be(seq));
    assert(b.subrange(9, 17) =~= u64_to_be(len));
    lemma_be_value_roundtrip(seq);
    lemma_be_value_roundtrip(len);
}

/// Whatever a buffer decodes to encodes back to the 17 bytes it was read
/// from: a header has a single encoding.
pub proof fn lemma_header_canonical(buf: Seq<u8>)
    requires
        header_decoding(buf) is Some,
    ensures
        ({
            let (seq, op, len) = header_decoding(buf).unwrap();
            header_bytes(seq, op, len) == buf.subrange(0, 17)
        }),
{
    lemma_be_bytes_roundtrip(buf.subrange(0, 8));
    lemma_be_bytes_roundtrip(buf.subrange(9, 17));
    let (seq, op, len) = header_decoding(buf).unwrap();
    assert(header_bytes(seq, op, len) =~= buf.subrange(0, 17));
}

/// Decoding an encoded request header, alone or followed by more bytes,
/// gives the header back.
pub proof fn lemma_req_header_roundtrip(h: ReqHeader, rest: Seq<u8>)
    ensures
        ReqHeader::decoding(h.encoding() + rest) == Some(h@),
{
    lemma_header_roundtrip(h.seq, h.op, h.len, rest);
}

/// Decoding an encoded response header, alone or followed by more bytes,
/// gives the header back.
pub proof fn lemma_resp_header_roundtrip(h: RespHeader, rest: Seq<u8>)
    ensures
        RespHeader::decoding(h.encoding() + rest) == Some(h@),
{
    lemma_header_roundtrip(h.seq, h.op, h.len, rest);
}

/// The packet abstraction that users implement for the messages they send.
///
/// A client serializes a packet, sends it, and keeps it until the response
/// with the same sequence number arrives; the response is then deserialized
/// into the kept packet, whose status tells how the exchange went.
///
/// `seq_of`, `op_of` and `status_of` name what the getters return, and
/// `serialize_spec` and `deserialize_spec` what `serialize` and `deserialize`
/// may do; an implementation outside verified code defines the first three as
/// the getters and the last two as the relations its methods keep.
pub trait Packet: Sized + Clone + Send + Sync + std::fmt::Debug {
    /// The sequence number the packet carries.
    spec fn seq_of(&self) -> u64;

    /// The operation code the packet carries.
    spec fn op_of(&self) -> u8;

    /// The status the packet carries.
    spec fn status_of(&self) -> u8;

    /// Gets the packet's sequence number.
    fn seq(&self) -> (r: u64)
        ensures
            r == self.seq_of(),
    ;

    /// Sets the packet's sequence number.
    fn set_seq(&mut self, seq: u64)
        ensures
            final(self).seq_of() == seq,
            final(self).op_of() == old(self).op_of(),
            final(self).status_of() == old(self).status_of(),
    ;

    /// Gets the packet's operation code.
    fn op(&self) -> (r: u8)
        ensures
            r == self.op_of(),
    ;

    /// Sets the packet's operation code.
    fn set_op(&mut self, op: u8)
        ensures
            final(self).op_of() == op,
            final(self).seq_of() == old(self).seq_of(),
            final(self).status_of() == old(self).status_of(),
    ;

    /// Whether `out` is a result that `serialize` may give for this packet.
    spec fn serialize_spec(&self, out: &Result<Vec<u8>, RpcError<String>>) -> bool;

    /// Whether filling this packet from `data` may leave it as `after`, with
    /// `ok` telling whether `deserialize` reported success.
    spec fn deserialize_spec(&self, data: &[u8], after: &Self, ok: bool) -> bool;

    /// Serializes the packet's request body.
    fn serialize(&self) -> (r: Result<Vec<u8>, RpcError<String>>)
        ensures
            self.serialize_spec(&r),
    ;

    /// Fills the packet from a response body.
    fn deserialize(&mut self, data: &[u8]) -> (r: Result<(), RpcError<String>>)
        ensures
            old(self).deserialize_spec(data, &*final(self), r is Ok),
    ;

    /// Gets the packet's status.
    fn status(&self) -> (r: u8)
        ensures
            r == self.status_of(),
    ;

    /// Sets the packet's status.
    fn set_status(&mut self, status: u8)
        ensures
            final(self).status_of() == status,
            final(self).seq_of() == old(self).seq_of(),
            final(self).op_of() == old(self).op_of(),
    ;
}

/// Where the exchange of a packet stands.
#[derive(Debug, Clone, Copy, PartialEq, Eq, Structural)]
pub enum PacketStatus {
    Pending,
    Success,
    Failed,
    Timeout,
}

/// The byte that stands for a status.
pub open spec fn status_code(s: PacketStatus) -> u8 {
    match s {
        PacketStatus::Pending => 0,
        PacketStatus::Success => 1,
        PacketStatus::Failed => 2,
        PacketStatus::Timeout => 3,
    }
}

/// The status a byte stands for; bytes with no status of their own count as failures.
pub open spec fn status_of_code(b: u8) -> PacketStatus {
    if b == 0 {
        PacketStatus::Pending
    } else if b == 1 {
        PacketStatus::Success
    } else if b == 3 {
        PacketStatus::Timeout
    } else {
        PacketStatus::Failed
    }
}

impl PacketStatus {
    /// The byte that stands for this status.
    pub fn to_u8(&self) -> (r: u8)
        ensures
            r == status_code(*self),
    {
        match self {
            PacketStatus::Pending => 0,
            PacketStatus::Success => 1,
            PacketStatus::Failed => 2,
            PacketStatus::Timeout => 3,
        }
    }

    /// The status a byte stands for.
    pub fn from_u8(status: u8) -> (r: Self)
        ensures
            r == status_of_code(status),
    {
        match status {
            0 => PacketStatus::Pending,
            1 => PacketStatus::Success,
            2 => PacketStatus::Failed,
            3 => PacketStatus::Timeout,
            _ => PacketStatus::Failed,
        }
    }
}

/// A status survives the round trip through its byte, and a byte survives
/// the round trip through its status exactly when it is one of 0 to 3.
pub proof fn lemma_status_code_roundtrip(s: PacketStatus, b: u8)
    ensures
        status_of_code(status_code(s)) == s,
        status_code(status_of_code(b)) == b <==> b <= 3,
{
}

/// What the table of packets holds: the packets by sequence number, the
/// time each was recorded at, and the number of seconds after which a
/// pending packet counts as timed out.
pub struct KeeperView<P> {
    pub packets: Map<u64, P>,
    pub stamps: Map<u64, u64>,
    pub timeout: u64,
}

/// What a lookup of a sequence number finds.
#[derive(Debug, Clone, Copy, PartialEq, Eq, Structural)]
pub enum TaskLookup {
    /// No packet is handed out.
    Absent,
    /// The packet is pending and older than the timeout: it is marked as
    /// timed out, and not handed out.
    Expired,
    /// The packet is handed out.
    Found,
}

impl<P: Packet> KeeperView<P> {
    /// The table after recording `p` at time `now`.
    pub open spec fn with_task(self, p: P, now: u64) -> Self {
        KeeperView {
            packets: self.packets.insert(p.seq_of(), p),
            stamps: self.stamps.insert(p.seq_of(), now),
            timeout: self.timeout,
        }
    }

    /// `after` is the table once a lookup of `seq` at time `now` is done
    /// with; `handed` tells whether a packet was handed out, `given` is that
    /// packet as it was handed out and `left` as the caller left it.
    pub open spec fn task_taken(
        self,
        after: Self,
        seq: u64,
        now: u64,
        handed: bool,
        given: P,
        left: P,
    ) -> bool {
        &&& after.stamps == self.stamps
        &&& after.timeout == self.timeout
        &&& match self.lookup(seq, now) {
            TaskLookup::Absent => !handed && after.packets =~= self.packets,
            TaskLookup::Expired => {
                let p = after.packets[seq];
                &&& !handed
                &&& after.packets =~= self.packets.insert(seq, p)
                &&& p.status_of() == status_code(PacketStatus::Timeout)
                &&& p.seq_of() == self.packets[seq].seq_of()
                &&& p.op_of() == self.packets[seq].op_of()
            },
            TaskLookup::Found => {
                &&& handed
                &&& given == self.packets[seq]
                &&& after.packets =~= self.packets.insert(seq, left)
            },
        }
    }

    /// Every recorded packet has a time, and every time belongs to a packet.
    pub open spec fn well_formed(self) -> bool {
        self.packets.dom() =~= self.stamps.dom()
    }

    /// Whether a lookup of `seq` at time `now` hands out a packet.
    pub open spec fn hands_out(self, seq: u64, now: u64) -> bool {
        self.lookup(seq, now) == TaskLookup::Found
    }

    /// What a lookup of `seq` at time `now` finds. A packet that is not
    /// pending is always handed out; a pending one is handed out while no
    /// more than `timeout` seconds have passed since it was recorded (a clock
    /// reading before the recorded one counts as no time passed), and not at
    /// all if no time was recorded for it.
    pub open spec fn lookup(self, seq: u64, now: u64) -> TaskLookup {
        if !self.packets.contains_key(seq) {
            TaskLookup::Absent
        } else if status_of_code(self.packets[seq].status_of()) != PacketStatus::Pending {
            TaskLookup::Found
        } else if !self.stamps.contains_key(seq) {
            TaskLookup::Absent
        } else if now >= self.stamps[seq] && now - self.stamps[seq] > self.timeout {
            TaskLookup::Expired
        } else {
            TaskLookup::Found
        }
    }
}

/// A packet just recorded at time `now` is found again under its sequence
/// number, as it was recorded: unless it is pending and more than the timeout
/// has passed since `now`, in which case the lookup expires it.
pub proof fn lemma_recorded_task_found<P: Packet>(v: KeeperView<P>, p: P, now: u64, later: u64)
    ensures
        v.with_task(p, now).packets[p.seq_of()] == p,
        v.with_task(p, now).lookup(p.seq_of(), later) == (if status_of_code(p.status_of())
            == PacketStatus::Pending && later >= now && later - now > v.timeout {
            TaskLookup::Expired
        } else {
            TaskLookup::Found
        }),
{
}

/// Recording a packet changes nothing that a lookup of another sequence
/// number finds.
pub proof fn lemma_record_keeps_others<P: Packet>(
    v: KeeperView<P>,
    p: P,
    now: u64,
    seq: u64,
    later: u64,
)
    requires
        seq != p.seq_of(),
    ensures
        v.with_task(p, now).lookup(seq, later) == v.lookup(seq, later),
        v.with_task(p, now).packets[seq] == v.packets[seq],
{
}

/// Once a lookup has expired a packet, every later lookup hands it out,
/// marked as timed out.
pub proof fn lemma_expired_task_found<P: Packet>(
    v: KeeperView<P>,
    after: KeeperView<P>,
    seq: u64,
    now: u64,
    handed: bool,
    given: P,
    left: P,
    later: u64,
)
    requires
        v.lookup(seq, now) == TaskLookup::Expired,
        v.task_taken(after, seq, now, handed, given, left),
    ensures
        after.lookup(seq, later) == TaskLookup::Found,
        status_of_code(after.packets[seq].status_of()) == PacketStatus::Timeout,
{
}

/// A lookup that hands out a packet which the caller leaves as it was
/// leaves the whole table as it was.
pub proof fn lemma_lookup_read_only<P: Packet>(
    v: KeeperView<P>,
    after: KeeperView<P>,
    seq: u64,
    now: u64,
    handed: bool,
    given: P,
)
    requires
        v.lookup(seq, now) != TaskLookup::Expired,
        v.task_taken(after, seq, now, handed, given, given),
    ensures
        after == v,
{
    if handed {
        assert(after.packets =~= v.packets);
    }
}

/// Recording and looking up packets keep every packet stamped with a time
/// and no time without a packet; in such a table, a lookup of a recorded
/// sequence number always finds the packet, or expires it.
pub proof fn lemma_table_stays_well_formed<P: Packet>(
    v: KeeperView<P>,
    p: P,
    now: u64,
    after: KeeperView<P>,
    seq: u64,
    handed: bool,
    given: P,
    left: P,
)
    requires
        v.well_formed(),
    ensures
        v.with_task(p, now).well_formed(),
        v.task_taken(after, seq, now, handed, given, left) ==> after.well_formed(),
        v.packets.contains_key(seq) ==> v.lookup(seq, now) != TaskLookup::Absent,
{
}

/// An instant of tokio's clock.
#[verifier::external_type_specification]
#[verifier::external_body]
pub struct ExTokioInstant(tokio::time::Instant);

/// Takes an instant of the runtime's clock with `tokio::time::Instant::now`.
/// Nothing is stated of it: it depends on the clock.
#[verifier::external_body]
fn instant_now() -> tokio::time::Instant {
    tokio::time::Instant::now()
}

/// The whole seconds elapsed since `start`, from tokio's `Instant::elapsed`
/// (which saturates at zero) converted with `Duration::as_secs`. Nothing is
/// stated of the result: it depends on the clock.
#[verifier::external_body]
fn elapsed_secs(start: &tokio::time::Instant) -> u64 {
    start.elapsed().as_secs()
}

/// Reads the runtime's clock as the timestamps of the table are made: the
/// whole seconds elapsed on an instant taken just now.
pub(crate) fn clock_secs() -> u64 {
    let start = instant_now();
    elapsed_secs(&start)
}

/// The packets in flight, by sequence number, with the time each was
/// recorded at.
pub struct PacketsKeeper<P> where P: Packet + Send + Sync {
    /// Current tasks, by sequence number.
    packets: HashMap<u64, P>,
    /// The time each task was recorded at, by sequence number.
    timestamp: HashMap<u64, u64>,
    /// Seconds after which a pending task counts as timed out.
    timeout: u64,
    /// The latest reading of the runtime clock taken for the table.
    reading: Ghost<u64>,
}

impl<P: Packet> View for PacketsKeeper<P> {
    type V = KeeperView<P>;

    closed spec fn view(&self) -> KeeperView<P> {
        KeeperView { packets: self.packets@, stamps: self.timestamp@, timeout: self.timeout }
    }
}

impl<P: Packet + Send + Sync> PacketsKeeper<P> {
    /// The latest reading of the runtime clock taken for the table: the
    /// stamp of a packet recorded with `add_task`, or the time at which
    /// `get_task` looked a packet up.
    pub closed spec fn clock_reading(&self) -> u64 {
        self.reading@
    }

    /// An empty table with the given timeout in seconds.
    pub fn new(timeout: u64) -> (r: Self)
        ensures
            r@.packets == Map::<u64, P>::empty(),
            r@.stamps == Map::<u64, u64>::empty(),
            r@.timeout == timeout,
            r@.well_formed(),
            r.clock_reading() == 0,
    {
        PacketsKeeper {
            packets: HashMap::new(),
            timestamp: HashMap::new(),
            timeout,
            reading: Ghost(0),
        }
    }

    /// Reads the runtime's clock, the one the table's stamps come from, and
    /// notes the reading.
    pub(crate) fn read_clock(&mut self) -> (t: u64)
        ensures
            final(self)@ == old(self)@,
            final(self).clock_reading() == t,
    {
        let t = clock_secs();
        self.reading = Ghost(t);
        t
    }

    /// Records `packet` under its sequence number, stamped with time `now`,
    /// replacing any packet recorded under the same number.
    pub fn add_task_at(&mut self, packet: P, now: u64)
        ensures
            final(self)@ == old(self)@.with_task(packet, now),
            final(self).clock_reading() == old(self).clock_reading(),
    {
        broadcast use vstd::std_specs::hash::group_hash_axioms;

        let seq = packet.seq();
        self.packets.insert(seq, packet);
        self.timestamp.insert(seq, now);
        assert(self@.packets == old(self)@.with_task(packet, now).packets);
    }

    /// Records `packet` under its sequence number, stamped with the
    /// runtime's clock.
    pub fn add_task(&mut self, packet: P)
        ensures
            exists|now: u64| final(self)@ == old(self)@.with_task(packet, now),
            final(self)@ == old(self)@.with_task(packet, final(self).clock_reading()),
    {
        let now = self.read_clock();
        self.add_task_at(packet, now);
        assert(self@ == old(self)@.with_task(packet, now));
    }

    /// Looks up the packet recorded under `seq` at time `now`: hands it out
    /// for the caller to fill in, or, where it has been pending for longer
    /// than the timeout, marks it as timed out and hands out nothing.
    pub fn get_task_at(&mut self, seq: u64, now: u64) -> (r: Option<&mut P>)
        ensures
            final(self).clock_reading() == old(self).clock_reading(),
            old(self)@.task_taken(
                final(self)@,
                seq,
                now,
                r is Some,
                *r.unwrap(),
                *final(r.unwrap()),
            ),
    {
        broadcast use vstd::std_specs::hash::group_hash_axioms;

        let stamp = match self.timestamp.get(&seq) {
            Some(t) => Some(*t),
            None => None,
        };
        let timeout = self.timeout;
        match self.packets.entry(seq) {
            Entry::Vacant(_) => None,
            Entry::Occupied(occupied) => {
                let packet = occupied.into_mut();
                match PacketStatus::from_u8(packet.status()) {
                    PacketStatus::Success => Some(packet),
                    PacketStatus::Failed => Some(packet),
                    PacketStatus::Timeout => Some(packet),
                    PacketStatus::Pending => {
                        match stamp {
                            Some(t) => {
                                if now >= t && now - t > timeout {
                                    packet.set_status(PacketStatus::Timeout.to_u8());
                                    None
                                } else {
                                    Some(packet)
                                }
                            },
                            None => None,
                        }
                    },
                }
            },
        }
    }

    /// Looks up the packet recorded under `seq` at a fresh reading of the
    /// runtime clock, the one the stamps come from, as `get_task_at` does.
    pub fn get_task(&mut self, seq: u64) -> (r: Option<&mut P>)
        ensures
            exists|now: u64|
                #[trigger] old(self)@.task_taken(
                    final(self)@,
                    seq,
                    now,
                    r is Some,
                    *r.unwrap(),
                    *final(r.unwrap()),
                ),
            old(self)@.task_taken(
                final(self)@,
                seq,
                final(self).clock_reading(),
                r is Some,
                *r.unwrap(),
                *final(r.unwrap()),
            ),
    {
        let now = self.read_clock();
        self.get_task_at(seq, now)
    }
}

} // verus!
