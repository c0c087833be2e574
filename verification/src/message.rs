//! The operations of the protocol and the file block messages.

use vstd::prelude::*;

use crate::codec::{
    append_bytes, lemma_be_bytes_roundtrip, lemma_be_value_roundtrip, push_u64_be, read_u64_be,
    u64_from_be, u64_to_be,
};
use crate::error::RpcError;
use crate::packet::{Decode, Encode};

verus! {

/// The decimal digit that stands for `d`, which is below 10.
pub open spec fn digit_char(d: nat) -> char {
    ('0' as nat + d) as char
}

/// The decimal notation of `n`, without sign or leading zeros.
pub open spec fn decimal(n: nat) -> Seq<char>
    decreases n,
{
    if n < 10 {
        seq![digit_char(n)]
    } else {
        decimal(n / 10).push(digit_char(n % 10))
    }
}

/// The message of the error for an operation code that stands for no operation.
pub open spec fn invalid_op_text(op: u8) -> Seq<char> {
    "Invalid operation type: "@ + decimal(op as nat)
}

/// Formats the error message for an unknown operation code with std's
/// `format!`, which writes a `u8` in decimal.
#[verifier::external_body]
fn invalid_op_message(op: u8) -> (s: String)
    ensures
        s@ == invalid_op_text(op),
{
    format!("Invalid operation type: {}", op)
}

/// The request type of a request.
#[derive(Debug, Clone, Copy, PartialEq, Eq, Structural)]
pub enum ReqType {
    KeepAliveRequest,
    FileBlockRequest,
}

/// The code that stands for a request type.
pub open spec fn req_type_code(t: ReqType) -> u8 {
    match t {
        ReqType::KeepAliveRequest => 0,
        ReqType::FileBlockRequest => 1,
    }
}

impl ReqType {
    /// The request type a code stands for; codes above 1 stand for none.
    pub fn from_u8(op: u8) -> (r: Result<Self, RpcError<String>>)
        ensures
            op == 0 ==> r == Ok::<ReqType, RpcError<String>>(ReqType::KeepAliveRequest),
            op == 1 ==> r == Ok::<ReqType, RpcError<String>>(ReqType::FileBlockRequest),
            op > 1 ==> (r matches Err(RpcError::InternalError(m)) && m@ == invalid_op_text(op)),
    {
        match op {
            0 => Ok(Self::KeepAliveRequest),
            1 => Ok(Self::FileBlockRequest),
            _ => Err(RpcError::InternalError(invalid_op_message(op))),
        }
    }

    /// The code of this request type.
    pub fn to_u8(&self) -> (r: u8)
        ensures
            r == req_type_code(*self),
    {
        match self {
            Self::KeepAliveRequest => 0,
            Self::FileBlockRequest => 1,
        }
    }
}

/// The operation type of a response.
#[derive(Debug, Clone, Copy, PartialEq, Eq, Structural)]
pub enum RespType {
    FileBlockResponse,
    KeepAliveResponse,
}

/// The code that stands for a response type.
pub open spec fn resp_type_code(t: RespType) -> u8 {
    match t {
        RespType::FileBlockResponse => 0,
        RespType::KeepAliveResponse => 1,
    }
}

impl RespType {
    /// The response type a code stands for; codes above 1 stand for none.
    pub fn from_u8(op: u8) -> (r: Result<Self, RpcError<String>>)
        ensures
            op == 0 ==> r == Ok::<RespType, RpcError<String>>(RespType::FileBlockResponse),
            op == 1 ==> r == Ok::<RespType, RpcError<String>>(RespType::KeepAliveResponse),
            op > 1 ==> (r matches Err(RpcError::InternalError(m)) && m@ == invalid_op_text(op)),
    {
        match op {
            0 => Ok(Self::FileBlockResponse),
            1 => Ok(Self::KeepAliveResponse),
            _ => Err(RpcError::InternalError(invalid_op_message(op))),
        }
    }

    /// The code of this response type.
    pub fn to_u8(&self) -> (r: u8)
        ensures
            r == resp_type_code(*self),
    {
        match self {
            Self::FileBlockResponse => 0,
            Self::KeepAliveResponse => 1,
        }
    }
}

/// A request type survives the round trip through its code, and a code
/// stands for a request type exactly when it is 0 or 1.
pub proof fn lemma_req_type_code_roundtrip(t: ReqType, op: u8)
    ensures
        req_type_code(t) <= 1,
        op <= 1 ==> exists|u: ReqType| req_type_code(u) == op,
        forall|u: ReqType| req_type_code(u) == req_type_code(t) ==> u == t,
{
    if op == 0 {
        assert(req_type_code(ReqType::KeepAliveRequest) == op);
    } else if op == 1 {
        assert(req_type_code(ReqType::FileBlockRequest) == op);
    }
}

/// A response type survives the round trip through its code, and a code
/// stands for a response type exactly when it is 0 or 1.
pub proof fn lemma_resp_type_code_roundtrip(t: RespType, op: u8)
    ensures
        resp_type_code(t) <= 1,
        op <= 1 ==> exists|u: RespType| resp_type_code(u) == op,
        forall|u: RespType| resp_type_code(u) == resp_type_code(t) ==> u == t,
{
    if op == 0 {
        assert(resp_type_code(RespType::FileBlockResponse) == op);
    } else if op == 1 {
        assert(resp_type_code(RespType::KeepAliveResponse) == op);
    }
}

/// A request for one block of a file.
#[derive(Debug)]
pub struct FileBlockRequest {
    /// The sequence number of the request.
    pub seq: u64,
    /// The file ID.
    pub file_id: u64,
    /// The block ID.
    pub block_id: u64,
    /// The block size.
    pub block_size: u64,
}

impl Default for FileBlockRequest {
    fn default() -> (r: Self)
        ensures
            r.seq == 0 && r.file_id == 0 && r.block_id == 0 && r.block_size == 0,
    {
        FileBlockRequest { seq: 0, file_id: 0, block_id: 0, block_size: 0 }
    }
}

impl View for FileBlockRequest {
    type V = (u64, u64, u64, u64);

    open spec fn view(&self) -> (u64, u64, u64, u64) {
        (self.seq, self.file_id, self.block_id, self.block_size)
    }
}

/// The 32 bytes of a file block request: the four fields in big-endian order.
pub open spec fn block_request_bytes(r: (u64, u64, u64, u64)) -> Seq<u8> {
    u64_to_be(r.0) + u64_to_be(r.1) + u64_to_be(r.2) + u64_to_be(r.3)
}

/// The request that the first 32 bytes of `buf` hold, if there are so many.
pub open spec fn block_request_decoding(buf: Seq<u8>) -> Option<(u64, u64, u64, u64)> {
    if buf.len() < 32 {
        None
    } else {
        Some(
            (
                u64_from_be(buf.subrange(0, 8)),
                u64_from_be(buf.subrange(8, 16)),
                u64_from_be(buf.subrange(16, 24)),
                u64_from_be(buf.subrange(24, 32)),
            ),
        )
    }
}

/// Decodes a file block request from the first 32 bytes of the buffer;
/// shorter buffers are refused.
pub fn decode_file_block_request(buf: &[u8]) -> (r: Result<FileBlockRequest, RpcError<String>>)
    ensures
        match r {
            Ok(req) => block_request_decoding(buf@) == Some(req@),
            Err(e) => block_request_decoding(buf@) is None && (e matches RpcError::InternalError(
                m,
            ) && m@ == "Insufficient bytes"@),
        },
{
    if buf.len() < 32 {
        return Err(RpcError::InternalError("Insufficient bytes".to_string()));
    }
    let seq = read_u64_be(buf, 0);
    let file_id = read_u64_be(buf, 8);
    let block_id = read_u64_be(buf, 16);
    let block_size = read_u64_be(buf, 24);
    Ok(FileBlockRequest { seq, file_id, block_id, block_size })
}

/// Encodes a file block request into 32 bytes.
pub fn encode_file_block_request(req: &FileBlockRequest) -> (out: Vec<u8>)
    ensures
        out@ == block_request_bytes(req@),
{
    let mut bytes: Vec<u8> = Vec::new();
    push_u64_be(&mut bytes, req.seq);
    push_u64_be(&mut bytes, req.file_id);
    push_u64_be(&mut bytes, req.block_id);
    push_u64_be(&mut bytes, req.block_size);
    bytes
}

impl Encode for FileBlockRequest {
    open spec fn encoding(&self) -> Seq<u8> {
        block_request_bytes(self@)
    }

    fn encode(&self) -> (out: Vec<u8>) {
        encode_file_block_request(self)
    }
}

impl Decode for FileBlockRequest {
    open spec fn decodable(buf: Seq<u8>) -> bool {
        true
    }

    open spec fn decoding(buf: Seq<u8>) -> Option<(u64, u64, u64, u64)> {
        block_request_decoding(buf)
    }

    fn decode(buf: &[u8]) -> (r: Result<Self, RpcError<String>>)
        ensures
            r matches Err(e) ==> e matches RpcError::InternalError(m) && m@
                == "Insufficient bytes"@,
    {
        decode_file_block_request(buf)
    }
}

/// An encoded file block request is 32 bytes long, and decoding it, alone or
/// followed by more bytes, gives the request back.
pub proof fn lemma_block_request_roundtrip(r: (u64, u64, u64, u64), rest: Seq<u8>)
    ensures
        block_request_bytes(r).len() == 32,
        block_request_decoding(block_request_bytes(r) + rest) == Some(r),
{
    let b = block_request_bytes(r) + rest;
    assert(b.subrange(0, 8) =~= u64_to_be(r.0));
    assert(b.subrange(8, 16) =~= u64_to_be(r.1));
    assert(b.subrange(16, 24) =~= u64_to_be(r.2));
    assert(b.subrange(24, 32) =~= u64_to_be(r.3));
    lemma_be_value_roundtrip(r.0);
    lemma_be_value_roundtrip(r.1);
    lemma_be_value_roundtrip(r.2);
    lemma_be_value_roundtrip(r.3);
}

/// Request bytes, field by field: the sequence number in bytes 0..8, the
/// file ID in 8..16, the block ID in 16..24 and the block size in 24..32,
/// each in big-endian order; and a buffer of 32 bytes or more that holds
/// given values in those places decodes to them.
pub proof fn lemma_block_request_layout(r: (u64, u64, u64, u64), buf: Seq<u8>)
    ensures
        block_request_bytes(r).len() == 32,
        block_request_bytes(r).subrange(0, 8) == u64_to_be(r.0),
        block_request_bytes(r).subrange(8, 16) == u64_to_be(r.1),
        block_request_bytes(r).subrange(16, 24) == u64_to_be(r.2),
        block_request_bytes(r).subrange(24, 32) == u64_to_be(r.3),
        block_request_decoding(buf) is Some <==> buf.len() >= 32,
        ({
            &&& buf.len() >= 32
            &&& buf.subrange(0, 8) == u64_to_be(r.0)
            &&& buf.subrange(8, 16) == u64_to_be(r.1)
            &&& buf.subrange(16, 24) == u64_to_be(r.2)
            &&& buf.subrange(24, 32) == u64_to_be(r.3)
        }) ==> block_request_decoding(buf) == Some(r),
{
    let b = block_request_bytes(r);
    assert(b.subrange(0, 8) =~= u64_to_be(r.0));
    assert(b.subrange(8, 16) =~= u64_to_be(r.1));
    assert(b.subrange(16, 24) =~= u64_to_be(r.2));
    assert(b.subrange(24, 32) =~= u64_to_be(r.3));
    lemma_be_value_roundtrip(r.0);
    lemma_be_value_roundtrip(r.1);
    lemma_be_value_roundtrip(r.2);
    lemma_be_value_roundtrip(r.3);
}

/// Whatever a buffer decodes to as a request encodes back to the 32 bytes it
/// was read from.
pub proof fn lemma_block_request_canonical(buf: Seq<u8>)
    requires
        block_request_decoding(buf) is Some,
    ensures
        block_request_bytes(block_request_decoding(buf).unwrap()) == buf.subrange(0, 32),
{
    lemma_be_bytes_roundtrip(buf.subrange(0, 8));
    lemma_be_bytes_roundtrip(buf.subrange(8, 16));
    lemma_be_bytes_roundtrip(buf.subrange(16, 24));
    lemma_be_bytes_roundtrip(buf.subrange(24, 32));
    assert(block_request_bytes(block_request_decoding(buf).unwrap()) =~= buf.subrange(0, 32));
}

/// The status code of a response.
#[derive(Debug, Clone, Copy, PartialEq, Eq, Structural)]
pub enum StatusCode {
    /// The request is successful.
    Success,
    /// The request is not found.
    NotFound,
    /// The request is invalid.
    InternalError,
    /// The request is out dated.
    VersionMismatch,
}

impl Default for StatusCode {
    fn default() -> (r: Self)
        ensures
            r == StatusCode::Success,
    {
        Self::Success
    }
}

/// The byte that stands for a status code on the wire.
pub open spec fn status_code_byte(s: StatusCode) -> u8 {
    match s {
        StatusCode::Success => 0,
        StatusCode::NotFound => 1,
        StatusCode::InternalError => 2,
        StatusCode::VersionMismatch => 3,
    }
}

/// The status code a byte stands for; bytes above 3 stand for none.
pub open spec fn status_code_of_byte(b: u8) -> Option<StatusCode> {
    if b == 0 {
        Some(StatusCode::Success)
    } else if b == 1 {
        Some(StatusCode::NotFound)
    } else if b == 2 {
        Some(StatusCode::InternalError)
    } else if b == 3 {
        Some(StatusCode::VersionMismatch)
    } else {
        None
    }
}

/// The response to a file block request.
#[derive(Debug)]
pub struct FileBlockResponse {
    /// The sequence number of the response.
    pub seq: u64,
    /// The file ID.
    pub file_id: u64,
    /// The block ID.
    pub block_id: u64,
    /// The block size.
    pub block_size: u64,
    /// The status of the response.
    pub status: StatusCode,
    /// The data of the block.
    pub data: Vec<u8>,
}

impl Default for FileBlockResponse {
    fn default() -> (r: Self)
        ensures
            r.seq == 0 && r.file_id == 0 && r.block_id == 0 && r.block_size == 0,
            r.status == StatusCode::Success,
            r.data@ == Seq::<u8>::empty(),
    {
        FileBlockResponse {
            seq: 0,
            file_id: 0,
            block_id: 0,
            block_size: 0,
            status: StatusCode::default(),
            data: Vec::new(),
        }
    }
}

/// A file block response as a value: its fields, with the data as a sequence.
pub struct BlockResponseView {
    pub seq: u64,
    pub file_id: u64,
    pub block_id: u64,
    pub block_size: u64,
    pub status: StatusCode,
    pub data: Seq<u8>,
}

impl View for FileBlockResponse {
    type V = BlockResponseView;

    open spec fn view(&self) -> BlockResponseView {
        BlockResponseView {
            seq: self.seq,
            file_id: self.file_id,
            block_id: self.block_id,
            block_size: self.block_size,
            status: self.status,
            data: self.data@,
        }
    }
}

/// The bytes of a file block response: sequence number, file ID and block ID,
/// the status byte, the block size, then the data to the end.
pub open spec fn block_response_bytes(r: BlockResponseView) -> Seq<u8> {
    u64_to_be(r.seq) + u64_to_be(r.file_id) + u64_to_be(r.block_id) + seq![
        status_code_byte(r.status),
    ] + u64_to_be(r.block_size) + r.data
}

/// The buffers that `decode_file_block_response` is defined on: all but
/// those of exactly 32 bytes whose status byte is valid, where the block size
/// would be read past the end.
pub open spec fn block_response_decodable(buf: Seq<u8>) -> bool {
    !(buf.len() == 32 && buf[24] <= 3)
}

/// The response that `buf` holds: refused if it is shorter than 32 bytes or
/// its status byte stands for no status code.
pub open spec fn block_response_decoding(buf: Seq<u8>) -> Option<BlockResponseView> {
    if buf.len() < 32 || status_code_of_byte(buf[24]) is None {
        None
    } else {
        Some(
            BlockResponseView {
                seq: u64_from_be(buf.subrange(0, 8)),
                file_id: u64_from_be(buf.subrange(8, 16)),
                block_id: u64_from_be(buf.subrange(16, 24)),
                status: status_code_of_byte(buf[24]).unwrap(),
                block_size: u64_from_be(buf.subrange(25, 33)),
                data: buf.subrange(33, buf.len() as int),
            },
        )
    }
}

/// Decodes a file block response; the data is everything after the block size.
pub fn decode_file_block_response(buf: &[u8]) -> (r: Result<FileBlockResponse, RpcError<String>>)
    requires
        block_response_decodable(buf@),
    ensures
        match r {
            Ok(resp) => block_response_decoding(buf@) == Some(resp@),
            Err(e) => {
                &&& block_response_decoding(buf@) is None
                &&& buf@.len() < 32 ==> (e matches RpcError::InternalError(m) && m@
                    == "Insufficient bytes"@)
                &&& buf@.len() >= 32 ==> (e matches RpcError::InternalError(m) && m@
                    == "Invalid status code"@)
            },
        },
{
    if buf.len() < 32 {
        return Err(RpcError::InternalError("Insufficient bytes".to_string()));
    }
    let seq = read_u64_be(buf, 0);
    let file_id = read_u64_be(buf, 8);
    let block_id = read_u64_be(buf, 16);
    let status = match buf[24] {
        0 => StatusCode::Success,
        1 => StatusCode::NotFound,
        2 => StatusCode::InternalError,
        3 => StatusCode::VersionMismatch,
        _ => return Err(RpcError::InternalError("Invalid status code".to_string())),
    };
    let block_size = read_u64_be(buf, 25);
    let data = vstd::slice::slice_to_vec(vstd::slice::slice_subrange(buf, 33, buf.len()));
    Ok(FileBlockResponse { seq, file_id, block_id, block_size, status, data })
}

/// Encodes a file block response.
pub fn encode_file_block_response(resp: &FileBlockResponse) -> (out: Vec<u8>)
    ensures
        out@ == block_response_bytes(resp@),
{
    let mut bytes: Vec<u8> = Vec::new();
    push_u64_be(&mut bytes, resp.seq);
    push_u64_be(&mut bytes, resp.file_id);
    push_u64_be(&mut bytes, resp.block_id);
    match resp.status {
        StatusCode::Success => bytes.push(0),
        StatusCode::NotFound => bytes.push(1),
        StatusCode::InternalError => bytes.push(2),
        StatusCode::VersionMismatch => bytes.push(3),
    }
    push_u64_be(&mut bytes, resp.block_size);
    append_bytes(&mut bytes, resp.data.as_slice());
    bytes
}

impl Encode for FileBlockResponse {
    open spec fn encoding(&self) -> Seq<u8> {
        block_response_bytes(self@)
    }

    fn encode(&self) -> (out: Vec<u8>) {
        encode_file_block_response(self)
    }
}

impl Decode for FileBlockResponse {
    open spec fn decodable(buf: Seq<u8>) -> bool {
        block_response_decodable(buf)
    }

    open spec fn decoding(buf: Seq<u8>) -> Option<BlockResponseView> {
        block_response_decoding(buf)
    }

    fn decode(buf: &[u8]) -> (r: Result<Self, RpcError<String>>)
        ensures
            r matches Err(e) ==> ({
                &&& buf@.len() < 32 ==> (e matches RpcError::InternalError(m) && m@
                    == "Insufficient bytes"@)
                &&& buf@.len() >= 32 ==> (e matches RpcError::InternalError(m) && m@
                    == "Invalid status code"@)
            }),
    {
        decode_file_block_response(buf)
    }
}

/// An encoded response is 33 bytes longer than its data, can be decoded,
/// and decodes to the response it was made from.
pub proof fn lemma_block_response_roundtrip(r: BlockResponseView)
    ensures
        block_response_bytes(r).len() == 33 + r.data.len(),
        block_response_decodable(block_response_bytes(r)),
        block_response_decoding(block_response_bytes(r)) == Some(r),
{
    let b = block_response_bytes(r);
    assert(b.subrange(0, 8) =~= u64_to_be(r.seq));
    assert(b.subrange(8, 16) =~= u64_to_be(r.file_id));
    assert(b.subrange(16, 24) =~= u64_to_be(r.block_id));
    assert(b.subrange(25, 33) =~= u64_to_be(r.block_size));
    assert(b.subrange(33, b.len() as int) =~= r.data);
    lemma_be_value_roundtrip(r.seq);
    lemma_be_value_roundtrip(r.file_id);
    lemma_be_value_roundtrip(r.block_id);
    lemma_be_value_roundtrip(r.block_size);
    assert(status_code_of_byte(b[24]) == Some(r.status));
}

/// Response bytes, field by field: the sequence number in bytes 0..8, the
/// file ID in 8..16, the block ID in 16..24, the status byte at 24, the block
/// size in 25..33, each integer in big-endian order, then the data; and a
/// buffer that holds given values in those places, a valid status byte and
/// the data after them decodes to them.
pub proof fn lemma_block_response_layout(r: BlockResponseView, buf: Seq<u8>)
    ensures
        block_response_bytes(r).len() == 33 + r.data.len(),
        block_response_bytes(r).subrange(0, 8) == u64_to_be(r.seq),
        block_response_bytes(r).subrange(8, 16) == u64_to_be(r.file_id),
        block_response_bytes(r).subrange(16, 24) == u64_to_be(r.block_id),
        block_response_bytes(r)[24] == status_code_byte(r.status),
        block_response_bytes(r).subrange(25, 33) == u64_to_be(r.block_size),
        block_response_bytes(r).subrange(33, 33 + r.data.len() as int) == r.data,
        status_code_byte(StatusCode::Success) == 0,
        status_code_byte(StatusCode::NotFound) == 1,
        status_code_byte(StatusCode::InternalError) == 2,
        status_code_byte(StatusCode::VersionMismatch) == 3,
        ({
            &&& buf.len() >= 33
            &&& buf.subrange(0, 8) == u64_to_be(r.seq)
            &&& buf.subrange(8, 16) == u64_to_be(r.file_id)
            &&& buf.subrange(16, 24) == u64_to_be(r.block_id)
            &&& buf[24] == status_code_byte(r.status)
            &&& buf.subrange(25, 33) == u64_to_be(r.block_size)
            &&& buf.subrange(33, buf.len() as int) == r.data
        }) ==> block_response_decoding(buf) == Some(r),
{
    let b = block_response_bytes(r);
    assert(b.subrange(0, 8) =~= u64_to_be(r.seq));
    assert(b.subrange(8, 16) =~= u64_to_be(r.file_id));
    assert(b.subrange(16, 24) =~= u64_to_be(r.block_id));
    assert(b.subrange(25, 33) =~= u64_to_be(r.block_size));
    assert(b.subrange(33, 33 + r.data.len() as int) =~= r.data);
    lemma_be_value_roundtrip(r.seq);
    lemma_be_value_roundtrip(r.file_id);
    lemma_be_value_roundtrip(r.block_id);
    lemma_be_value_roundtrip(r.block_size);
    if buf.len() >= 33 && buf[24] == status_code_byte(r.status) {
        assert(status_code_of_byte(buf[24]) == Some(r.status));
    }
}

/// Whatever a buffer decodes to as a response encodes back to the whole
/// buffer: a response has a single encoding.
pub proof fn lemma_block_response_canonical(buf: Seq<u8>)
    requires
        block_response_decodable(buf),
        block_response_decoding(buf) is Some,
    ensures
        block_response_bytes(block_response_decoding(buf).unwrap()) == buf,
{
    lemma_be_bytes_roundtrip(buf.subrange(0, 8));
    lemma_be_bytes_roundtrip(buf.subrange(8, 16));
    lemma_be_bytes_roundtrip(buf.subrange(16, 24));
    lemma_be_bytes_roundtrip(buf.subrange(25, 33));
    let v = block_response_decoding(buf).unwrap();
    assert(status_code_byte(v.status) == buf[24]);
    assert(block_response_bytes(v) =~= buf);
}

} // verus!
