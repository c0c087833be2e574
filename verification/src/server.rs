//! The server's side of a file block exchange.

use vstd::prelude::*;

use crate::codec::append_bytes;
use crate::message::{req_type_code, ReqType};
use crate::packet::{
    header_bytes, header_decoding, lemma_header_roundtrip, Encode, ReqHeader, RespHeader,
};

verus! {

/// The reply a file block handler sends for a request with header `h`
/// (sequence number, operation, length) whose response body is `body`: a
/// response header with the request's sequence number and operation and the
/// body's length, followed by the body. Requests of any other type get no
/// reply.
pub open spec fn reply_frame(h: (u64, u8, u64), body: Seq<u8>) -> Option<Seq<u8>> {
    if h.1 == req_type_code(ReqType::FileBlockRequest) {
        Some(header_bytes(h.0, h.1, body.len() as u64) + body)
    } else {
        None
    }
}

/// The reply to a file block request (operation 1) reads back, as a
/// response header, as the request's sequence number and operation and the
/// body's length, and the body follows the 17 header bytes; requests of
/// any other operation get no reply.
pub proof fn lemma_reply_frame_reads_back(h: (u64, u8, u64), body: Seq<u8>)
    requires
        body.len() <= u64::MAX,
    ensures
        h.1 == 1 ==> reply_frame(h, body) is Some,
        h.1 == 1 ==> header_decoding(reply_frame(h, body).unwrap()) == Some(
            (h.0, h.1, body.len() as u64),
        ),
        h.1 == 1 ==> reply_frame(h, body).unwrap().subrange(
            17,
            reply_frame(h, body).unwrap().len() as int,
        ) == body,
        h.1 != 1 ==> reply_frame(h, body) is None,
{
    lemma_header_roundtrip(h.0, h.1, body.len() as u64, body);
    if h.1 == 1 {
        let f = reply_frame(h, body).unwrap();
        assert(f.subrange(17, f.len() as int) =~= body);
    }
}

/// Builds the reply to the request with header `req_header`, whose response
/// body is `resp_body`.
pub fn dispatch_reply(req_header: &ReqHeader, resp_body: &[u8]) -> (r: Option<Vec<u8>>)
    ensures
        match r {
            Some(v) => reply_frame(req_header@, resp_body@) == Some(v@),
            None => reply_frame(req_header@, resp_body@) is None,
        },
{
    match ReqType::from_u8(req_header.op) {
        Ok(ReqType::FileBlockRequest) => {
            let header = RespHeader {
                seq: req_header.seq,
                op: req_header.op,
                len: resp_body.len() as u64,
            };
            let mut packet = header.encode();
            append_bytes(&mut packet, resp_body);
            Some(packet)
        },
        _ => None,
    }
}

} // verus!
