use file_async_rpc::client::{RecvStep, RpcClientConnectionInner};
use file_async_rpc::error::RpcError;
use file_async_rpc::packet::{Decode, Encode, Packet, PacketsKeeper, ReqHeader, RespHeader};

#[derive(Debug, Clone, PartialEq)]
struct TestPacket {
    seq: u64,
    op: u8,
    status: u8,
    body: Vec<u8>,
    fail_serialize: bool,
}

impl TestPacket {
    fn new(seq: u64, op: u8, status: u8) -> Self {
        TestPacket { seq, op, status, body: Vec::new(), fail_serialize: false }
    }
}

impl Packet for TestPacket {
    fn seq_of(&self) -> u64 {
        self.seq
    }
    fn op_of(&self) -> u8 {
        self.op
    }
    fn status_of(&self) -> u8 {
        self.status
    }
    fn serialize_spec(&self, out: &Result<Vec<u8>, RpcError<String>>) -> bool {
        *out == self.serialize()
    }
    fn deserialize_spec(&self, data: &[u8], after: &Self, ok: bool) -> bool {
        let mut filled = self.clone();
        let r = filled.deserialize(data);
        r.is_ok() == ok && filled == *after
    }
    fn seq(&self) -> u64 {
        self.seq
    }
    fn set_seq(&mut self, seq: u64) {
        self.seq = seq;
    }
    fn op(&self) -> u8 {
        self.op
    }
    fn set_op(&mut self, op: u8) {
        self.op = op;
    }
    fn serialize(&self) -> Result<Vec<u8>, RpcError<String>> {
        if self.fail_serialize {
            Err(RpcError::InternalError("cannot serialize".to_string()))
        } else {
            Ok(vec![0u8; 5])
        }
    }
    fn deserialize(&mut self, data: &[u8]) -> Result<(), RpcError<String>> {
        if data.is_empty() {
            return Err(RpcError::InvalidResponse("empty".to_string()));
        }
        self.body = data.to_vec();
        self.status = 1;
        Ok(())
    }
    fn status(&self) -> u8 {
        self.status
    }
    fn set_status(&mut self, status: u8) {
        self.status = status;
    }
}

#[test]
fn recorded_task_is_found_within_timeout() {
    let mut k = PacketsKeeper::new(10);
    k.add_task_at(TestPacket::new(7, 1, 0), 100);
    let p = k.get_task_at(7, 110).expect("found");
    assert_eq!(*p, TestPacket::new(7, 1, 0));
    p.set_status(1);
    assert_eq!(k.get_task_at(7, 1000).unwrap().status, 1);
}

#[test]
fn pending_task_expires_after_timeout() {
    let mut k = PacketsKeeper::new(10);
    k.add_task_at(TestPacket::new(7, 1, 0), 100);
    assert!(k.get_task_at(7, 111).is_none());
    let p = k.get_task_at(7, 111).expect("an expired task is handed out afterwards");
    assert_eq!(p.status, 3);
}

#[test]
fn unknown_sequence_number_is_absent() {
    let mut k: PacketsKeeper<TestPacket> = PacketsKeeper::new(10);
    assert!(k.get_task_at(1, 0).is_none());
    k.add_task_at(TestPacket::new(2, 1, 0), 0);
    assert!(k.get_task_at(1, 0).is_none());
}

#[test]
fn clock_before_stamp_counts_as_no_time() {
    let mut k = PacketsKeeper::new(0);
    k.add_task_at(TestPacket::new(4, 1, 0), 50);
    assert!(k.get_task_at(4, 10).is_some());
    assert!(k.get_task_at(4, 51).is_none());
}

#[test]
fn finished_tasks_never_expire() {
    let mut k = PacketsKeeper::new(1);
    k.add_task_at(TestPacket::new(4, 1, 2), 0);
    assert_eq!(k.get_task_at(4, u64::MAX).unwrap().status, 2);
}

#[test]
fn recording_replaces_same_sequence_number() {
    let mut k = PacketsKeeper::new(5);
    k.add_task_at(TestPacket::new(9, 1, 0), 0);
    k.add_task_at(TestPacket::new(9, 2, 0), 100);
    let p = k.get_task_at(9, 104).unwrap();
    assert_eq!(p.op, 2);
}

#[test]
fn clock_driven_lookup_finds_fresh_task() {
    let mut k = PacketsKeeper::new(3600);
    k.add_task(TestPacket::new(1, 1, 0));
    assert!(k.get_task(1).is_some());
    assert!(k.get_task(2).is_none());
}

#[test]
fn sequence_numbers_count_up() {
    let mut c: RpcClientConnectionInner<TestPacket> = RpcClientConnectionInner::new(10);
    assert_eq!(c.next_seq(), 0);
    assert_eq!(c.next_seq(), 1);
    assert_eq!(c.next_seq(), 2);
}

#[test]
fn keep_alive_frames_carry_fresh_sequence_numbers() {
    let mut c: RpcClientConnectionInner<TestPacket> = RpcClientConnectionInner::new(10);
    let first = c.keep_alive_message();
    let second = c.keep_alive_message();
    assert_eq!(first, vec![0u8; 17]);
    let mut expected = vec![0u8; 17];
    expected[7] = 1;
    assert_eq!(second, expected);
}

#[test]
fn request_frame_carries_header_and_body() {
    let c: RpcClientConnectionInner<TestPacket> = RpcClientConnectionInner::new(10);
    let req = TestPacket::new(3, 1, 0);
    let frame = c.frame_request(&req).unwrap();
    let mut expected = vec![0u8; 22];
    expected[7] = 3;
    expected[8] = 1;
    expected[16] = 5;
    assert_eq!(frame, expected);
    let mut bad = TestPacket::new(3, 1, 0);
    bad.fail_serialize = true;
    assert!(c.frame_request(&bad).is_none());
    let frame = RpcClientConnectionInner::<TestPacket>::request_frame_for(&req, &Ok(vec![9, 8]));
    let frame = frame.unwrap();
    assert_eq!(frame.len(), 19);
    assert_eq!(frame[16], 2);
    assert_eq!(&frame[17..], &[9, 8]);
    let none = RpcClientConnectionInner::<TestPacket>::request_frame_for(
        &req,
        &Err(RpcError::InternalError(String::new())),
    );
    assert!(none.is_none());
}

#[test]
fn response_headers_steer_the_receive_loop() {
    let c: RpcClientConnectionInner<TestPacket> = RpcClientConnectionInner::new(10);
    let block = RespHeader { seq: 4, op: 0, len: 99 }.encode();
    assert_eq!(c.on_response_header(&block), RecvStep::ReadBody { seq: 4, len: 99 });
    let keep_alive = RespHeader { seq: 4, op: 1, len: 0 }.encode();
    assert_eq!(c.on_response_header(&keep_alive), RecvStep::Continue);
    let unknown = RespHeader { seq: 4, op: 2, len: 0 }.encode();
    assert_eq!(c.on_response_header(&unknown), RecvStep::Stop);
    assert_eq!(c.on_response_header(&[0u8; 5]), RecvStep::Stop);
}

#[test]
fn keep_alive_response_leaves_requests_alone() {
    let mut c: RpcClientConnectionInner<TestPacket> = RpcClientConnectionInner::new(10);
    c.record_request_at(TestPacket::new(4, 1, 0), 0);
    let keep_alive = RespHeader { seq: 4, op: 1, len: 0 }.encode();
    assert_eq!(c.on_response_header(&keep_alive), RecvStep::Continue);
    let p = c.on_response_body_at(4, &[1], 5).unwrap();
    assert_eq!(p.status, 1);
}

#[test]
fn response_body_fills_recorded_request() {
    let mut c: RpcClientConnectionInner<TestPacket> = RpcClientConnectionInner::new(10);
    c.record_request_at(TestPacket::new(4, 1, 0), 0);
    let p = c.on_response_body_at(4, &[5, 6], 3).unwrap();
    assert_eq!(p.body, vec![5, 6]);
    assert_eq!(p.status, 1);
    assert!(c.on_response_body_at(5, &[5, 6], 3).is_none());
}

#[test]
fn response_body_for_expired_request_is_dropped() {
    let mut c: RpcClientConnectionInner<TestPacket> = RpcClientConnectionInner::new(10);
    c.record_request_at(TestPacket::new(4, 1, 0), 0);
    assert!(c.on_response_body_at(4, &[5], 11).is_none());
}

#[test]
fn unreadable_response_body_hands_out_nothing() {
    let mut c: RpcClientConnectionInner<TestPacket> = RpcClientConnectionInner::new(10);
    c.record_request(TestPacket::new(4, 1, 0));
    assert!(c.on_response_body(4, &[]).is_none());
    assert!(c.on_response_body(4, &[1]).is_some());
}

#[test]
fn request_frame_reads_back_as_header_and_body() {
    let c: RpcClientConnectionInner<TestPacket> = RpcClientConnectionInner::new(10);
    let req = TestPacket::new(0xabcdef, 1, 0);
    let frame = c.frame_request(&req).unwrap();
    let h = ReqHeader::decode(&frame).unwrap();
    assert_eq!((h.seq, h.op, h.len), (0xabcdef, 1, 5));
    assert_eq!(&frame[17..], &[0u8; 5]);
}

#[test]
fn filled_packet_is_the_one_kept() {
    let mut c: RpcClientConnectionInner<TestPacket> = RpcClientConnectionInner::new(10);
    let kept = TestPacket::new(6, 1, 0);
    c.record_request_at(kept.clone(), 0);
    let got = c.on_response_body_at(6, &[3, 1, 4], 2).unwrap();
    assert!(kept.deserialize_spec(&[3, 1, 4], &got, true));
    let again = c.on_response_body_at(6, &[], 2);
    assert!(again.is_none());
    assert!(got.deserialize_spec(&[], &got, false));
}

#[test]
fn frame_follows_serialization() {
    let c: RpcClientConnectionInner<TestPacket> = RpcClientConnectionInner::new(10);
    let req = TestPacket::new(2, 1, 0);
    assert!(req.serialize_spec(&Ok(vec![0u8; 5])));
    assert_eq!(c.frame_request(&req).unwrap().len(), 22);
}

#[test]
fn sequence_numbers_are_distinct_over_many_calls() {
    let mut c: RpcClientConnectionInner<TestPacket> = RpcClientConnectionInner::new(10);
    let mut seen = Vec::new();
    for i in 0..1000u64 {
        let n = c.next_seq();
        assert_eq!(n, i);
        assert!(!seen.contains(&n));
        seen.push(n);
    }
}
