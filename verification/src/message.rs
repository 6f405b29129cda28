//! The wire protocol: requests and responses encoded as length-prefixed
//! binary frames.
//!
//! A frame is a 4-byte big-endian payload length followed by exactly that
//! many payload bytes; the payload's first byte is a variant tag and the
//! rest is the variant's data. All identifiers travel as 64-bit big-endian
//! fields so the format does not depend on the machine's word width.

use crate::bytes::{
    be32_bytes, be32_value, be64_at, be64_bytes, be64_value, id_list_bytes, ids_decoded,
    lemma_be32_round_trip, lemma_be64_round_trip, lemma_id_list_bytes_push, lemma_ids_round_trip,
    push_be32, push_be64, read_be32, read_be64,
};
use vstd::prelude::*;
use vstd::utf8::*;

verus! {

/// A request from a client to the server.
#[derive(Debug, PartialEq)]
pub enum Request {
    /// Add the document `doc` to the archive.
    Publish { doc: String },
    /// Search the archive for documents containing `word`.
    Search { word: String },
    /// Retrieve the document with identifier `id` from the archive.
    Retrieve { id: u64 },
}

/// A response from the server to a client.
#[derive(Debug, PartialEq)]
pub enum Response {
    /// The document was added and got the returned identifier.
    PublishSuccess(u64),
    /// The search succeeded; the identifiers of the matching documents are
    /// returned in the order the store produced them.
    SearchSuccess(Vec<u64>),
    /// The retrieval succeeded and the document is returned.
    RetrieveSuccess(String),
    /// The request failed.
    Failure,
}

/// The mathematical value of a [`Request`]: its text as character
/// sequences, free of any particular heap representation.
#[verifier::ext_equal]
pub enum RequestModel {
    Publish { doc: Seq<char> },
    Search { word: Seq<char> },
    Retrieve { id: u64 },
}

/// The mathematical value of a [`Response`].
#[verifier::ext_equal]
pub enum ResponseModel {
    PublishSuccess { id: u64 },
    SearchSuccess { ids: Seq<u64> },
    RetrieveSuccess { doc: Seq<char> },
    Failure,
}

impl View for Request {
    type V = RequestModel;

    open spec fn view(&self) -> RequestModel {
        match self {
            Request::Publish { doc } => RequestModel::Publish { doc: doc@ },
            Request::Search { word } => RequestModel::Search { word: word@ },
            Request::Retrieve { id } => RequestModel::Retrieve { id: *id },
        }
    }
}

impl View for Response {
    type V = ResponseModel;

    open spec fn view(&self) -> ResponseModel {
        match self {
            Response::PublishSuccess(id) => ResponseModel::PublishSuccess { id: *id },
            Response::SearchSuccess(ids) => ResponseModel::SearchSuccess { ids: ids@ },
            Response::RetrieveSuccess(doc) => ResponseModel::RetrieveSuccess { doc: doc@ },
            Response::Failure => ResponseModel::Failure,
        }
    }
}

/// The payload of a request frame: its tag byte followed by the variant's
/// data.
pub open spec fn request_payload(m: RequestModel) -> Seq<u8> {
    match m {
        RequestModel::Publish { doc } => seq![0u8] + encode_utf8(doc),
        RequestModel::Search { word } => seq![1u8] + encode_utf8(word),
        RequestModel::Retrieve { id } => seq![2u8] + be64_bytes(id),
    }
}

/// The payload of a response frame.
pub open spec fn response_payload(m: ResponseModel) -> Seq<u8> {
    match m {
        ResponseModel::PublishSuccess { id } => seq![0u8] + be64_bytes(id),
        ResponseModel::SearchSuccess { ids } => seq![1u8] + id_list_bytes(ids),
        ResponseModel::RetrieveSuccess { doc } => seq![2u8] + encode_utf8(doc),
        ResponseModel::Failure => seq![3u8],
    }
}

/// Whether a payload is small enough for its length to be declared in the
/// frame's 4-byte length field.
pub open spec fn payload_fits(p: Seq<u8>) -> bool {
    p.len() <= u32::MAX
}

/// Whether a request is small enough to be framed.
pub open spec fn request_fits(m: RequestModel) -> bool {
    payload_fits(request_payload(m))
}

/// Whether a response is small enough to be framed.
pub open spec fn response_fits(m: ResponseModel) -> bool {
    payload_fits(response_payload(m))
}

/// A complete frame: the payload's length as a 4-byte big-endian field,
/// then the payload itself.
pub open spec fn frame(payload: Seq<u8>) -> Seq<u8>
    recommends
        payload_fits(payload),
{
    be32_bytes(payload.len() as u32) + payload
}

/// The byte encoding of a whole request.
pub open spec fn request_frame(m: RequestModel) -> Seq<u8> {
    frame(request_payload(m))
}

/// The byte encoding of a whole response.
pub open spec fn response_frame(m: ResponseModel) -> Seq<u8> {
    frame(response_payload(m))
}

/// The payload carried by the frame at the start of `data`: `None` when
/// the length field itself is cut short, or when `data` ends before the
/// declared payload length is satisfied. Bytes after the frame are the
/// stream's business, not this frame's, and are ignored.
pub open spec fn frame_payload(data: Seq<u8>) -> Option<Seq<u8>> {
    if data.len() < 4 {
        None
    } else {
        let len = be32_value(data[0], data[1], data[2], data[3]) as int;
        if data.len() - 4 < len {
            None
        } else {
            Some(data.subrange(4, 4 + len))
        }
    }
}

/// The request a payload decodes to: `None` for an empty payload, a tag
/// outside the request set, a text field that is not valid UTF-8, or an
/// identifier field shorter than its fixed width.
pub open spec fn request_from_payload(p: Seq<u8>) -> Option<RequestModel> {
    if p.len() < 1 {
        None
    } else if p[0] == 0 {
        if valid_utf8(p.skip(1)) {
            Some(RequestModel::Publish { doc: decode_utf8(p.skip(1)) })
        } else {
            None
        }
    } else if p[0] == 1 {
        if valid_utf8(p.skip(1)) {
            Some(RequestModel::Search { word: decode_utf8(p.skip(1)) })
        } else {
            None
        }
    } else if p[0] == 2 {
        if p.len() >= 9 {
            Some(RequestModel::Retrieve { id: be64_at(p, 1) })
        } else {
            None
        }
    } else {
        None
    }
}

/// The response a payload decodes to, under the same failure rules; in a
/// `SearchSuccess` payload a trailing group shorter than one identifier's
/// eight bytes is ignored.
pub open spec fn response_from_payload(p: Seq<u8>) -> Option<ResponseModel> {
    if p.len() < 1 {
        None
    } else if p[0] == 0 {
        if p.len() >= 9 {
            Some(ResponseModel::PublishSuccess { id: be64_at(p, 1) })
        } else {
            None
        }
    } else if p[0] == 1 {
        Some(ResponseModel::SearchSuccess { ids: ids_decoded(p.skip(1)) })
    } else if p[0] == 2 {
        if valid_utf8(p.skip(1)) {
            Some(ResponseModel::RetrieveSuccess { doc: decode_utf8(p.skip(1)) })
        } else {
            None
        }
    } else if p[0] == 3 {
        Some(ResponseModel::Failure)
    } else {
        None
    }
}

/// What the bytes at the start of `data` decode to as a request.
pub open spec fn request_decoded(data: Seq<u8>) -> Option<RequestModel> {
    match frame_payload(data) {
        Some(p) => request_from_payload(p),
        None => None,
    }
}

/// What the bytes at the start of `data` decode to as a response.
pub open spec fn response_decoded(data: Seq<u8>) -> Option<ResponseModel> {
    match frame_payload(data) {
        Some(p) => response_from_payload(p),
        None => None,
    }
}

/// Relies on String::from_utf8: it succeeds exactly on input that is valid
/// UTF-8, and the returned string holds the characters those bytes encode.
#[verifier::external_body]
fn string_from_utf8(data: Vec<u8>) -> (r: Option<String>)
    ensures
        (match r {
            Some(s) => valid_utf8(data@) && s@ == decode_utf8(data@),
            None => !valid_utf8(data@),
        }),
{
    String::from_utf8(data).ok()
}

/// Prefixes a payload with its length to form a complete frame.
fn frame_bytes(payload: Vec<u8>) -> (r: Vec<u8>)
    requires
        payload_fits(payload@),
    ensures
        r@ == frame(payload@),
{
    let mut out: Vec<u8> = Vec::new();
    push_be32(&mut out, payload.len() as u32);
    let mut rest = payload;
    out.append(&mut rest);
    out
}

impl Request {
    /// The payload for this request: tag byte, then the variant's data.
    fn payload_bytes(&self) -> (r: Vec<u8>)
        ensures
            r@ == request_payload(self@),
    {
        let mut payload: Vec<u8> = Vec::new();
        match self {
            Request::Publish { doc } => {
                payload.push(0u8);
                payload.extend_from_slice(doc.as_str().as_bytes());
                proof {
                    assert(payload@ =~= request_payload(self@));
                }
            },
            Request::Search { word } => {
                payload.push(1u8);
                payload.extend_from_slice(word.as_str().as_bytes());
                proof {
                    assert(payload@ =~= request_payload(self@));
                }
            },
            Request::Retrieve { id } => {
                payload.push(2u8);
                push_be64(&mut payload, *id);
                proof {
                    assert(payload@ =~= request_payload(self@));
                }
            },
        }
        payload
    }

    /// Encodes this request as a complete frame.
    pub fn to_bytes(&self) -> (r: Vec<u8>)
        requires
            request_fits(self@),
        ensures
            r@ == request_frame(self@),
    {
        let payload = self.payload_bytes();
        frame_bytes(payload)
    }

    /// Encodes this request as a complete frame, or reports that the
    /// payload is too long for the 4-byte length field.
    pub fn try_to_bytes(&self) -> (r: Option<Vec<u8>>)
        ensures
            request_fits(self@) ==> (r matches Some(v) && v@ == request_frame(self@)),
            !request_fits(self@) ==> r is None,
    {
        let payload = self.payload_bytes();
        if payload.len() <= u32::MAX as usize {
            Some(frame_bytes(payload))
        } else {
            None
        }
    }
}

impl Response {
    /// The payload for this response: tag byte, then the variant's data.
    fn payload_bytes(&self) -> (r: Vec<u8>)
        ensures
            r@ == response_payload(self@),
    {
        let mut payload: Vec<u8> = Vec::new();
        match self {
            Response::PublishSuccess(id) => {
                payload.push(0u8);
                push_be64(&mut payload, *id);
                proof {
                    assert(payload@ =~= response_payload(self@));
                }
            },
            Response::SearchSuccess(ids) => {
                payload.push(1u8);
                let mut i: usize = 0;
                while i < ids.len()
                    invariant
                        i <= ids@.len(),
                        payload@ == seq![1u8] + id_list_bytes(ids@.take(i as int)),
                    decreases ids@.len() - i,
                {
                    push_be64(&mut payload, ids[i]);
                    proof {
                        lemma_id_list_bytes_push(ids@.take(i as int), ids@[i as int]);
                        assert(ids@.take(i as int).push(ids@[i as int]) =~= ids@.take(
                            i as int + 1,
                        ));
                        assert((seq![1u8] + id_list_bytes(ids@.take(i as int))) + be64_bytes(
                            ids@[i as int],
                        ) =~= seq![1u8] + (id_list_bytes(ids@.take(i as int)) + be64_bytes(
                            ids@[i as int],
                        )));
                    }
                    i = i + 1;
                }
                proof {
                    assert(ids@.take(ids@.len() as int) =~= ids@);
                }
            },
            Response::RetrieveSuccess(doc) => {
                payload.push(2u8);
                payload.extend_from_slice(doc.as_str().as_bytes());
                proof {
                    assert(payload@ =~= response_payload(self@));
                }
            },
            Response::Failure => {
                payload.push(3u8);
                proof {
                    assert(payload@ =~= response_payload(self@));
                }
            },
        }
        payload
    }

    /// Encodes this response as a complete frame.
    pub fn to_bytes(&self) -> (r: Vec<u8>)
        requires
            response_fits(self@),
        ensures
            r@ == response_frame(self@),
    {
        let payload = self.payload_bytes();
        frame_bytes(payload)
    }

    /// Encodes this response as a complete frame, or reports that the
    /// payload is too long for the 4-byte length field.
    pub fn try_to_bytes(&self) -> (r: Option<Vec<u8>>)
        ensures
            response_fits(self@) ==> (r matches Some(v) && v@ == response_frame(self@)),
            !response_fits(self@) ==> r is None,
    {
        let payload = self.payload_bytes();
        if payload.len() <= u32::MAX as usize {
            Some(frame_bytes(payload))
        } else {
            None
        }
    }
}

/// Framing is lossless: the frame built from a payload that fits gives
/// back exactly that payload.
pub proof fn lemma_frame_round_trip(p: Seq<u8>)
    requires
        payload_fits(p),
    ensures
        frame_payload(frame(p)) == Some(p),
{
    let data = frame(p);
    let n = p.len() as u32;
    lemma_be32_round_trip(n);
    assert(be32_bytes(n).len() == 4);
    assert(data.len() == 4 + p.len());
    assert(data[0] == be32_bytes(n)[0] && data[1] == be32_bytes(n)[1] && data[2] == be32_bytes(
        n,
    )[2] && data[3] == be32_bytes(n)[3]);
    assert(be32_value(data[0], data[1], data[2], data[3]) == n);
    assert(n as int == p.len());
    assert(data.subrange(4, 4 + p.len() as int) =~= p);
}

/// A request payload decodes to the request it was built from.
#[verifier::rlimit(30)]
proof fn lemma_request_payload_round_trip(m: RequestModel)
    ensures
        request_from_payload(request_payload(m)) == Some(m),
{
    let p = request_payload(m);
    match m {
        RequestModel::Publish { doc } => {
            assert(p[0] == 0);
            assert(p.skip(1) =~= encode_utf8(doc));
            encode_utf8_valid_utf8(doc);
            encode_utf8_decode_utf8(doc);
        },
        RequestModel::Search { word } => {
            assert(p[0] == 1);
            assert(p.skip(1) =~= encode_utf8(word));
            encode_utf8_valid_utf8(word);
            encode_utf8_decode_utf8(word);
        },
        RequestModel::Retrieve { id } => {
            assert(p[0] == 2);
            assert(p.len() == 9);
            lemma_be64_round_trip(id);
            assert(forall|j: int| 0 <= j < 8 ==> p[1 + j] == be64_bytes(id)[j]);
            assert(be64_at(p, 1) == be64_at(be64_bytes(id), 0));
        },
    }
}

/// Round trip for requests: every request that fits in a frame decodes
/// from its own encoding, unchanged.
pub proof fn lemma_request_round_trip(m: RequestModel)
    requires
        request_fits(m),
    ensures
        request_decoded(request_frame(m)) == Some(m),
{
    lemma_frame_round_trip(request_payload(m));
    lemma_request_payload_round_trip(m);
}

/// A response payload decodes to the response it was built from.
#[verifier::rlimit(30)]
proof fn lemma_response_payload_round_trip(m: ResponseModel)
    ensures
        response_from_payload(response_payload(m)) == Some(m),
{
    let p = response_payload(m);
    match m {
        ResponseModel::PublishSuccess { id } => {
            assert(p[0] == 0);
            assert(p.len() == 9);
            lemma_be64_round_trip(id);
            assert(forall|j: int| 0 <= j < 8 ==> p[1 + j] == be64_bytes(id)[j]);
            assert(be64_at(p, 1) == be64_at(be64_bytes(id), 0));
        },
        ResponseModel::SearchSuccess { ids } => {
            assert(p[0] == 1);
            assert(p.skip(1) =~= id_list_bytes(ids));
            lemma_ids_round_trip(ids);
        },
        ResponseModel::RetrieveSuccess { doc } => {
            assert(p[0] == 2);
            assert(p.skip(1) =~= encode_utf8(doc));
            encode_utf8_valid_utf8(doc);
            encode_utf8_decode_utf8(doc);
        },
        ResponseModel::Failure => {
            assert(p[0] == 3);
        },
    }
}

/// Round trip for responses: every response that fits in a frame decodes
/// from its own encoding, unchanged.
pub proof fn lemma_response_round_trip(m: ResponseModel)
    requires
        response_fits(m),
    ensures
        response_decoded(response_frame(m)) == Some(m),
{
    lemma_frame_round_trip(response_payload(m));
    lemma_response_payload_round_trip(m);
}

/// Truncation safety: a stream that ends before the 4-byte length field,
/// or before the declared payload length is satisfied, decodes to nothing,
/// as a request and as a response alike.
pub proof fn lemma_truncated_decodes_to_none(data: Seq<u8>)
    requires
        data.len() < 4 || data.len() - 4 < be32_value(data[0], data[1], data[2], data[3]) as int,
    ensures
        request_decoded(data) is None,
        response_decoded(data) is None,
{
}

/// Unknown-tag safety: a complete frame whose tag byte lies outside the
/// defined set, {0, 1, 2} for requests or {0, 1, 2, 3} for responses,
/// decodes to an explicit failure.
pub proof fn lemma_unknown_tag_decodes_to_none(data: Seq<u8>, p: Seq<u8>)
    requires
        frame_payload(data) == Some(p),
        p.len() >= 1,
    ensures
        !(p[0] == 0 || p[0] == 1 || p[0] == 2) ==> request_decoded(data) is None,
        !(p[0] == 0 || p[0] == 1 || p[0] == 2 || p[0] == 3) ==> response_decoded(data) is None,
{
}

/// Copies `data[from..to]` into a fresh vector.
fn copy_range(data: &Vec<u8>, from: usize, to: usize) -> (r: Vec<u8>)
    requires
        from <= to <= data.len(),
    ensures
        r@ == data@.subrange(from as int, to as int),
{
    let mut out: Vec<u8> = Vec::new();
    let mut i: usize = from;
    while i < to
        invariant
            from <= i <= to <= data@.len(),
            out@ == data@.subrange(from as int, i as int),
        decreases to - i,
    {
        out.push(data[i]);
        proof {
            assert(out@ =~= data@.subrange(from as int, i + 1 as int));
        }
        i = i + 1;
    }
    out
}

impl Request {
    /// Decodes the request framed at the start of `data`; returns `None`
    /// when the stream ends before the declared length is satisfied or the
    /// payload is malformed, and never panics on attacker-controlled
    /// bytes.
    pub fn from_bytes(data: &Vec<u8>) -> (r: Option<Request>)
        ensures
            (match r {
                Some(req) => request_decoded(data@) == Some(req@),
                None => request_decoded(data@) is None,
            }),
    {
        if data.len() < 4 {
            return None;
        }
        let len = read_be32(data[0], data[1], data[2], data[3]) as usize;
        if data.len() - 4 < len {
            return None;
        }
        let ghost p = data@.subrange(4, 4 + len as int);
        if len < 1 {
            return None;
        }
        let tag = data[4];
        proof {
            assert(p[0] == data@[4]);
            assert(p.skip(1) =~= data@.subrange(5, 4 + len as int));
        }
        if tag == 0 || tag == 1 {
            let text = copy_range(data, 5, 4 + len);
            match string_from_utf8(text) {
                Some(s) => {
                    if tag == 0 {
                        Some(Request::Publish { doc: s })
                    } else {
                        Some(Request::Search { word: s })
                    }
                },
                None => None,
            }
        } else if tag == 2 {
            if len < 9 {
                return None;
            }
            let id = read_be64(
                data[5],
                data[6],
                data[7],
                data[8],
                data[9],
                data[10],
                data[11],
                data[12],
            );
            proof {
                assert(be64_at(p, 1) == be64_value(
                    data@[5],
                    data@[6],
                    data@[7],
                    data@[8],
                    data@[9],
                    data@[10],
                    data@[11],
                    data@[12],
                ));
            }
            Some(Request::Retrieve { id })
        } else {
            None
        }
    }
}

impl Response {
    /// Decodes the response framed at the start of `data`, under the same
    /// failure rules as request decoding.
    pub fn from_bytes(data: &Vec<u8>) -> (r: Option<Response>)
        ensures
            (match r {
                Some(resp) => response_decoded(data@) == Some(resp@),
                None => response_decoded(data@) is None,
            }),
    {
        if data.len() < 4 {
            return None;
        }
        let len = read_be32(data[0], data[1], data[2], data[3]) as usize;
        if data.len() - 4 < len {
            return None;
        }
        let ghost p = data@.subrange(4, 4 + len as int);
        if len < 1 {
            return None;
        }
        let tag = data[4];
        proof {
            assert(p[0] == data@[4]);
            assert(p.skip(1) =~= data@.subrange(5, 4 + len as int));
        }
        if tag == 0 {
            if len < 9 {
                return None;
            }
            let id = read_be64(
                data[5],
                data[6],
                data[7],
                data[8],
                data[9],
                data[10],
                data[11],
                data[12],
            );
            proof {
                assert(be64_at(p, 1) == be64_value(
                    data@[5],
                    data@[6],
                    data@[7],
                    data@[8],
                    data@[9],
                    data@[10],
                    data@[11],
                    data@[12],
                ));
            }
            Some(Response::PublishSuccess(id))
        } else if tag == 1 {
            let mut ids: Vec<u64> = Vec::new();
            let mut i: usize = 5;
            while 4 + len - i >= 8
                invariant
                    5 <= i <= 4 + len,
                    4 + len <= data@.len(),
                    4 + len <= usize::MAX,
                    1 <= len,
                    ids@ + ids_decoded(data@.subrange(i as int, 4 + len as int)) == ids_decoded(
                        data@.subrange(5, 4 + len as int),
                    ),
                decreases 4 + len - i,
            {
                let id = read_be64(
                    data[i],
                    data[i + 1],
                    data[i + 2],
                    data[i + 3],
                    data[i + 4],
                    data[i + 5],
                    data[i + 6],
                    data[i + 7],
                );
                let ghost ids_pre = ids@;
                ids.push(id);
                proof {
                    let s = data@.subrange(i as int, 4 + len as int);
                    assert(s.len() >= 8);
                    assert(be64_at(s, 0) == id);
                    assert(s.skip(8) =~= data@.subrange(i as int + 8, 4 + len as int));
                    assert(ids_decoded(s) == seq![id] + ids_decoded(s.skip(8)));
                    assert(ids_pre.push(id) =~= ids_pre + seq![id]);
                    assert((ids_pre + seq![id]) + ids_decoded(s.skip(8)) =~= ids_pre + (seq![id]
                        + ids_decoded(s.skip(8))));
                }
                i = i + 8;
            }
            proof {
                assert(ids_decoded(data@.subrange(i as int, 4 + len as int)) =~= Seq::<
                    u64,
                >::empty());
                assert(ids@ + Seq::<u64>::empty() =~= ids@);
            }
            Some(Response::SearchSuccess(ids))
        } else if tag == 2 {
            let text = copy_range(data, 5, 4 + len);
            match string_from_utf8(text) {
                Some(s) => Some(Response::RetrieveSuccess(s)),
                None => None,
            }
        } else if tag == 3 {
            Some(Response::Failure)
        } else {
            None
        }
    }
}

} // verus!
