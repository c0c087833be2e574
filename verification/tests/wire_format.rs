use file_async_rpc::error::RpcError;
use file_async_rpc::server::dispatch_reply;
use file_async_rpc::message::{
    decode_file_block_request, decode_file_block_response, encode_file_block_request,
    encode_file_block_response, FileBlockRequest, FileBlockResponse, ReqType, RespType,
    StatusCode,
};
use file_async_rpc::packet::{
    Decode, Encode, PacketStatus, ReqHeader, RespHeader, REQ_HEADER_SIZE, RESP_HEADER_SIZE,
};

#[test]
fn req_header_encodes_big_endian() {
    let h = ReqHeader { seq: 0x0102030405060708, op: 9, len: 0x1122 };
    let bytes = h.encode();
    assert_eq!(
        bytes,
        vec![1, 2, 3, 4, 5, 6, 7, 8, 9, 0, 0, 0, 0, 0, 0, 0x11, 0x22]
    );
    assert_eq!(bytes.len() as u64, REQ_HEADER_SIZE);
}

#[test]
fn req_header_roundtrip_with_trailing_bytes() {
    let h = ReqHeader { seq: u64::MAX, op: 255, len: 42 };
    let mut bytes = h.encode();
    bytes.extend_from_slice(&[7, 7, 7]);
    let d = ReqHeader::decode(&bytes).unwrap();
    assert_eq!((d.seq, d.op, d.len), (u64::MAX, 255, 42));
}

#[test]
fn req_header_short_buffer_is_invalid_request() {
    let r = ReqHeader::decode(&[0u8; 16]);
    assert_eq!(r.unwrap_err(), RpcError::InvalidRequest("Invalid request header".to_string()));
}

#[test]
fn resp_header_roundtrip() {
    let h = RespHeader { seq: 77, op: 1, len: 4096 };
    let bytes = h.encode();
    assert_eq!(bytes.len() as u64, RESP_HEADER_SIZE);
    assert_eq!(RespHeader::decode(&bytes).unwrap(), h);
}

#[test]
fn resp_header_short_buffer_is_invalid_response() {
    let r = RespHeader::decode(&[]);
    assert_eq!(r.unwrap_err(), RpcError::InvalidResponse("Invalid response header".to_string()));
}

#[test]
fn req_type_codes() {
    assert_eq!(ReqType::from_u8(0).unwrap(), ReqType::KeepAliveRequest);
    assert_eq!(ReqType::from_u8(1).unwrap(), ReqType::FileBlockRequest);
    assert_eq!(ReqType::KeepAliveRequest.to_u8(), 0);
    assert_eq!(ReqType::FileBlockRequest.to_u8(), 1);
    assert_eq!(
        ReqType::from_u8(2).unwrap_err(),
        RpcError::InternalError("Invalid operation type: 2".to_string())
    );
    assert_eq!(
        ReqType::from_u8(255).unwrap_err(),
        RpcError::InternalError("Invalid operation type: 255".to_string())
    );
}

#[test]
fn resp_type_codes() {
    assert_eq!(RespType::from_u8(0).unwrap(), RespType::FileBlockResponse);
    assert_eq!(RespType::from_u8(1).unwrap(), RespType::KeepAliveResponse);
    assert_eq!(RespType::FileBlockResponse.to_u8(), 0);
    assert_eq!(RespType::KeepAliveResponse.to_u8(), 1);
    assert_eq!(
        RespType::from_u8(10).unwrap_err(),
        RpcError::InternalError("Invalid operation type: 10".to_string())
    );
}

#[test]
fn packet_status_codes() {
    for (s, b) in [
        (PacketStatus::Pending, 0u8),
        (PacketStatus::Success, 1),
        (PacketStatus::Failed, 2),
        (PacketStatus::Timeout, 3),
    ] {
        assert_eq!(s.to_u8(), b);
        assert_eq!(PacketStatus::from_u8(b), s);
    }
    assert_eq!(PacketStatus::from_u8(4), PacketStatus::Failed);
    assert_eq!(PacketStatus::from_u8(200), PacketStatus::Failed);
}

#[test]
fn file_block_request_roundtrip() {
    let req = FileBlockRequest { seq: 1, file_id: 2, block_id: 3, block_size: 4 };
    let bytes = encode_file_block_request(&req);
    assert_eq!(bytes.len(), 32);
    assert_eq!(&bytes[0..8], &[0, 0, 0, 0, 0, 0, 0, 1]);
    assert_eq!(&bytes[24..32], &[0, 0, 0, 0, 0, 0, 0, 4]);
    let back = decode_file_block_request(&bytes).unwrap();
    assert_eq!((back.seq, back.file_id, back.block_id, back.block_size), (1, 2, 3, 4));
    let via_trait = FileBlockRequest::decode(&req.encode()).unwrap();
    assert_eq!(via_trait.block_size, 4);
}

#[test]
fn file_block_request_short_buffer() {
    let r = decode_file_block_request(&[0u8; 31]);
    assert_eq!(r.unwrap_err(), RpcError::InternalError("Insufficient bytes".to_string()));
}

#[test]
fn file_block_request_default_is_zero() {
    let d = FileBlockRequest::default();
    assert_eq!(encode_file_block_request(&d), vec![0u8; 32]);
}

#[test]
fn file_block_response_roundtrip() {
    let resp = FileBlockResponse {
        seq: 5,
        file_id: 6,
        block_id: 7,
        block_size: 3,
        status: StatusCode::VersionMismatch,
        data: vec![9, 8, 7],
    };
    let bytes = encode_file_block_response(&resp);
    assert_eq!(bytes.len(), 36);
    assert_eq!(bytes[24], 3);
    assert_eq!(&bytes[33..], &[9, 8, 7]);
    let back = decode_file_block_response(&bytes).unwrap();
    assert_eq!(back.seq, 5);
    assert_eq!(back.file_id, 6);
    assert_eq!(back.block_id, 7);
    assert_eq!(back.block_size, 3);
    assert_eq!(back.status, StatusCode::VersionMismatch);
    assert_eq!(back.data, vec![9, 8, 7]);
    assert_eq!(back.encode(), bytes);
}

#[test]
fn file_block_response_status_bytes() {
    for (s, b) in [
        (StatusCode::Success, 0u8),
        (StatusCode::NotFound, 1),
        (StatusCode::InternalError, 2),
        (StatusCode::VersionMismatch, 3),
    ] {
        let resp = FileBlockResponse { status: s, ..FileBlockResponse::default() };
        let bytes = resp.encode();
        assert_eq!(bytes.len(), 33);
        assert_eq!(bytes[24], b);
        assert_eq!(FileBlockResponse::decode(&bytes).unwrap().status, s);
    }
}

#[test]
fn file_block_response_invalid_status() {
    let mut bytes = vec![0u8; 40];
    bytes[24] = 4;
    let r = decode_file_block_response(&bytes);
    assert_eq!(r.unwrap_err(), RpcError::InternalError("Invalid status code".to_string()));
    let mut short = vec![0u8; 32];
    short[24] = 9;
    let r = decode_file_block_response(&short);
    assert_eq!(r.unwrap_err(), RpcError::InternalError("Invalid status code".to_string()));
}

#[test]
fn file_block_response_short_buffer() {
    let r = decode_file_block_response(&[1u8; 20]);
    assert_eq!(r.unwrap_err(), RpcError::InternalError("Insufficient bytes".to_string()));
}

#[test]
fn file_block_response_default() {
    let d = FileBlockResponse::default();
    assert_eq!(d.status, StatusCode::Success);
    assert!(d.data.is_empty());
    assert_eq!(StatusCode::default(), StatusCode::Success);
}

#[test]
fn file_block_request_gets_reply_frame() {
    let h = ReqHeader { seq: 12, op: 1, len: 32 };
    let reply = dispatch_reply(&h, &[4, 5, 6]).unwrap();
    assert_eq!(reply.len(), 20);
    let header = RespHeader::decode(&reply).unwrap();
    assert_eq!(header, RespHeader { seq: 12, op: 1, len: 3 });
    assert_eq!(&reply[17..], &[4, 5, 6]);
}

#[test]
fn other_requests_get_no_reply() {
    assert!(dispatch_reply(&ReqHeader { seq: 1, op: 0, len: 0 }, &[1]).is_none());
    assert!(dispatch_reply(&ReqHeader { seq: 1, op: 7, len: 0 }, &[]).is_none());
}

#[test]
fn header_decoding_reads_only_first_seventeen_bytes() {
    let bytes: Vec<u8> = (0u8..40).collect();
    let h = RespHeader::decode(&bytes).unwrap();
    assert_eq!(h.seq, 0x0001020304050607);
    assert_eq!(h.op, 8);
    assert_eq!(h.len, 0x090a0b0c0d0e0f10);
    assert_eq!(h.encode(), bytes[..17].to_vec());
}
