//! Requests from a client, and their frame format.
//!
//! A request frame is the nonce as text, one tag byte naming the request, and
//! that request's fields; nothing may follow the last field.
use vstd::prelude::*;
use crate::wire::{
    lemma_text_list_taken, lemma_text_taken, lemma_u32_taken,
    lemma_text_list_round_trip, lemma_text_round_trip, lemma_u32_round_trip, read_text,
    read_text_list, read_u32, take_text, take_text_list, take_u32, text_bytes, text_fits,
    text_list_bytes, texts_fit, u32_bytes, write_text, write_text_list, write_u32,
};

verus! {

/// What a client asks for. Exactly one kind per frame.
#[derive(Clone, Debug)]
pub enum RequestBody {
    ListLocations,
    GetIndex { ids: Vec<String> },
    CreateLibrary { name: String, path: String },
    GetMetadata { files: Vec<String> },
    GetImage { file: String, edits: Option<String> },
    SetRating { file: String, rating: i32 },
}

/// A decoded request and the client's correlation token, which the server
/// only echoes.
#[derive(Clone, Debug)]
pub struct Request {
    pub nonce: String,
    pub body: RequestBody,
}

/// Why a frame was refused: its bytes follow no request layout.
#[derive(Clone, Copy, Debug, PartialEq, Eq, Structural)]
pub enum DecodeError {
    Malformed,
}

pub ghost enum BodyView {
    ListLocations,
    GetIndex(Seq<Seq<char>>),
    CreateLibrary(Seq<char>, Seq<char>),
    GetMetadata(Seq<Seq<char>>),
    GetImage(Seq<char>, Option<Seq<char>>),
    SetRating(Seq<char>, i32),
}

pub ghost struct RequestView {
    pub nonce: Seq<char>,
    pub body: BodyView,
}

pub open spec fn texts_view(xs: Seq<String>) -> Seq<Seq<char>> {
    xs.map_values(|s: String| s@)
}

impl View for RequestBody {
    type V = BodyView;

    open spec fn view(&self) -> BodyView {
        match self {
            RequestBody::ListLocations => BodyView::ListLocations,
            RequestBody::GetIndex { ids } => BodyView::GetIndex(texts_view(ids@)),
            RequestBody::CreateLibrary { name, path } => BodyView::CreateLibrary(name@, path@),
            RequestBody::GetMetadata { files } => BodyView::GetMetadata(texts_view(files@)),
            RequestBody::GetImage { file, edits } => BodyView::GetImage(
                file@,
                match edits {
                    Some(e) => Some(e@),
                    None => None,
                },
            ),
            RequestBody::SetRating { file, rating } => BodyView::SetRating(file@, *rating),
        }
    }
}

impl View for Request {
    type V = RequestView;

    open spec fn view(&self) -> RequestView {
        RequestView { nonce: self.nonce@, body: self.body@ }
    }
}

pub const TAG_LIST_LOCATIONS: u8 = 0;
pub const TAG_GET_INDEX: u8 = 1;
pub const TAG_CREATE_LIBRARY: u8 = 2;
pub const TAG_GET_METADATA: u8 = 3;
pub const TAG_GET_IMAGE: u8 = 4;
pub const TAG_SET_RATING: u8 = 5;

/// Every text and list of a request body fits the frame format.
pub open spec fn body_fits(b: BodyView) -> bool {
    match b {
        BodyView::ListLocations => true,
        BodyView::GetIndex(ids) => texts_fit(ids),
        BodyView::CreateLibrary(n, p) => text_fits(n) && text_fits(p),
        BodyView::GetMetadata(fs) => texts_fit(fs),
        BodyView::GetImage(f, e) => text_fits(f) && (e matches Some(x) ==> text_fits(x)),
        BodyView::SetRating(f, _) => text_fits(f),
    }
}

pub open spec fn request_fits(r: RequestView) -> bool {
    text_fits(r.nonce) && body_fits(r.body)
}

/// The bytes of a request body: its tag, then its fields.
pub open spec fn body_bytes(b: BodyView) -> Seq<u8> {
    match b {
        BodyView::ListLocations => seq![TAG_LIST_LOCATIONS],
        BodyView::GetIndex(ids) => seq![TAG_GET_INDEX] + text_list_bytes(ids),
        BodyView::CreateLibrary(n, p) => seq![TAG_CREATE_LIBRARY] + text_bytes(n) + text_bytes(p),
        BodyView::GetMetadata(fs) => seq![TAG_GET_METADATA] + text_list_bytes(fs),
        BodyView::GetImage(f, None) => seq![TAG_GET_IMAGE] + text_bytes(f) + seq![0u8],
        BodyView::GetImage(f, Some(e)) => seq![TAG_GET_IMAGE] + text_bytes(f) + seq![1u8]
            + text_bytes(e),
        BodyView::SetRating(f, r) => seq![TAG_SET_RATING] + text_bytes(f) + u32_bytes(r as u32),
    }
}

/// The frame of a request.
pub open spec fn request_bytes(r: RequestView) -> Seq<u8> {
    text_bytes(r.nonce) + body_bytes(r.body)
}

/// Reads the fields of the request that `tag` names off the front of `b`.
pub open spec fn take_body(tag: u8, b: Seq<u8>) -> Option<(BodyView, Seq<u8>)> {
    if tag == TAG_LIST_LOCATIONS {
        Some((BodyView::ListLocations, b))
    } else if tag == TAG_GET_INDEX {
        match take_text_list(b) {
            Some((ids, rest)) => Some((BodyView::GetIndex(ids), rest)),
            None => None,
        }
    } else if tag == TAG_CREATE_LIBRARY {
        match take_text(b) {
            Some((n, r1)) => match take_text(r1) {
                Some((p, r2)) => Some((BodyView::CreateLibrary(n, p), r2)),
                None => None,
            },
            None => None,
        }
    } else if tag == TAG_GET_METADATA {
        match take_text_list(b) {
            Some((fs, rest)) => Some((BodyView::GetMetadata(fs), rest)),
            None => None,
        }
    } else if tag == TAG_GET_IMAGE {
        match take_text(b) {
            Some((f, r1)) => if r1.len() >= 1 && r1[0] == 0 {
                Some((BodyView::GetImage(f, None), r1.skip(1)))
            } else if r1.len() >= 1 && r1[0] == 1 {
                match take_text(r1.skip(1)) {
                    Some((e, r2)) => Some((BodyView::GetImage(f, Some(e)), r2)),
                    None => None,
                }
            } else {
                None
            },
            None => None,
        }
    } else if tag == TAG_SET_RATING {
        match take_text(b) {
            Some((f, r1)) => match take_u32(r1) {
                Some((n, r2)) => Some((BodyView::SetRating(f, n as i32), r2)),
                None => None,
            },
            None => None,
        }
    } else {
        None
    }
}

/// The request that a frame holds, if it holds one: the nonce, a known tag,
/// that request's fields, and nothing after them.
pub open spec fn parse_request(b: Seq<u8>) -> Option<RequestView> {
    match take_text(b) {
        Some((nonce, r1)) => if r1.len() >= 1 {
            match take_body(r1[0], r1.skip(1)) {
                Some((body, r2)) => if r2.len() == 0 {
                    Some(RequestView { nonce, body })
                } else {
                    None
                },
                None => None,
            }
        } else {
            None
        },
        None => None,
    }
}

proof fn lemma_i32_round_trip(r: i32)
    ensures
        (r as u32) as i32 == r,
{
    assert((r as u32) as i32 == r) by (bit_vector);
}

#[verifier::rlimit(60)]
proof fn lemma_body_round_trip(b: BodyView, rest: Seq<u8>)
    requires
        body_fits(b),
    ensures
        body_bytes(b).len() >= 1,
        take_body(body_bytes(b)[0], body_bytes(b).skip(1) + rest) == Some((b, rest)),
{
    let e = body_bytes(b);
    match b {
        BodyView::ListLocations => {
            assert(e.skip(1) + rest =~= rest);
        },
        BodyView::GetIndex(ids) => {
            assert(e.skip(1) + rest =~= text_list_bytes(ids) + rest);
            lemma_text_list_round_trip(ids, rest);
        },
        BodyView::CreateLibrary(n, p) => {
            assert(e.skip(1) + rest =~= text_bytes(n) + (text_bytes(p) + rest));
            lemma_text_round_trip(n, text_bytes(p) + rest);
            lemma_text_round_trip(p, rest);
        },
        BodyView::GetMetadata(fs) => {
            assert(e.skip(1) + rest =~= text_list_bytes(fs) + rest);
            lemma_text_list_round_trip(fs, rest);
        },
        BodyView::GetImage(f, None) => {
            let r1 = seq![0u8] + rest;
            assert(e.skip(1) + rest =~= text_bytes(f) + r1);
            lemma_text_round_trip(f, r1);
            assert(r1.skip(1) =~= rest);
        },
        BodyView::GetImage(f, Some(x)) => {
            let r1 = seq![1u8] + (text_bytes(x) + rest);
            assert(e.skip(1) + rest =~= text_bytes(f) + r1);
            lemma_text_round_trip(f, r1);
            assert(r1.skip(1) =~= text_bytes(x) + rest);
            lemma_text_round_trip(x, rest);
        },
        BodyView::SetRating(f, r) => {
            assert(e.skip(1) + rest =~= text_bytes(f) + (u32_bytes(r as u32) + rest));
            lemma_text_round_trip(f, u32_bytes(r as u32) + rest);
            lemma_u32_round_trip(r as u32, rest);
            lemma_i32_round_trip(r);
        },
    }
}

/// Decoding the frame of a request gives back that request.
pub proof fn lemma_request_round_trip(r: RequestView)
    requires
        request_fits(r),
    ensures
        parse_request(request_bytes(r)) == Some(r),
{
    let body = body_bytes(r.body);
    lemma_body_round_trip(r.body, Seq::empty());
    lemma_text_round_trip(r.nonce, body);
    assert(body.skip(1) + Seq::<u8>::empty() =~= body.skip(1));
}

#[verifier::rlimit(60)]
proof fn lemma_body_taken(tag: u8, b: Seq<u8>)
    requires
        take_body(tag, b) is Some,
    ensures
        seq![tag] + b == body_bytes(take_body(tag, b)->Some_0.0) + take_body(tag, b)->Some_0.1,
        body_fits(take_body(tag, b)->Some_0.0),
{
    let (body, rest) = take_body(tag, b)->Some_0;
    if tag == TAG_LIST_LOCATIONS {
        assert(seq![tag] + b =~= body_bytes(body) + rest);
    } else if tag == TAG_GET_INDEX || tag == TAG_GET_METADATA {
        lemma_text_list_taken(b);
        assert(seq![tag] + b =~= body_bytes(body) + rest);
    } else if tag == TAG_CREATE_LIBRARY {
        lemma_text_taken(b);
        let r1 = take_text(b)->Some_0.1;
        lemma_text_taken(r1);
        assert(seq![tag] + b =~= body_bytes(body) + rest);
    } else if tag == TAG_GET_IMAGE {
        lemma_text_taken(b);
        let r1 = take_text(b)->Some_0.1;
        if r1[0] == 0 {
            assert(r1 =~= seq![0u8] + r1.skip(1));
        } else {
            assert(r1 =~= seq![1u8] + r1.skip(1));
            lemma_text_taken(r1.skip(1));
        }
        assert(seq![tag] + b =~= body_bytes(body) + rest);
    } else {
        lemma_text_taken(b);
        let r1 = take_text(b)->Some_0.1;
        lemma_u32_taken(r1);
        let n = take_u32(r1)->Some_0.0;
        assert(((n as i32) as u32) == n) by (bit_vector);
        assert(seq![tag] + b =~= body_bytes(body) + rest);
    }
}

/// A frame decodes to a request exactly when it is that request's frame: the
/// decoder accepts every frame of a request that fits the format, hands back
/// that request, and accepts nothing else.
pub proof fn lemma_frames_are_requests(b: Seq<u8>, r: RequestView)
    ensures
        parse_request(b) == Some(r) <==> (request_fits(r) && b == request_bytes(r)),
{
    if parse_request(b) == Some(r) {
        lemma_text_taken(b);
        let r1 = take_text(b)->Some_0.1;
        lemma_body_taken(r1[0], r1.skip(1));
        assert(r1 =~= seq![r1[0]] + r1.skip(1));
        let r2 = take_body(r1[0], r1.skip(1))->Some_0.1;
        assert(r2 =~= Seq::<u8>::empty());
        assert(b =~= request_bytes(r));
    }
    if request_fits(r) && b == request_bytes(r) {
        lemma_request_round_trip(r);
    }
}

fn read_body(tag: u8, b: &[u8], pos: usize) -> (r: Option<(RequestBody, usize)>)
    requires
        pos <= b@.len(),
    ensures
        r is None <==> take_body(tag, b@.skip(pos as int)) is None,
        r matches Some((body, p)) ==> pos <= p <= b@.len() && take_body(tag, b@.skip(pos as int))
            == Some((body@, b@.skip(p as int))),
{
    if tag == TAG_LIST_LOCATIONS {
        Some((RequestBody::ListLocations, pos))
    } else if tag == TAG_GET_INDEX {
        match read_text_list(b, pos) {
            Some((ids, p)) => Some((RequestBody::GetIndex { ids }, p)),
            None => None,
        }
    } else if tag == TAG_CREATE_LIBRARY {
        match read_text(b, pos) {
            Some((name, p1)) => match read_text(b, p1) {
                Some((path, p2)) => Some((RequestBody::CreateLibrary { name, path }, p2)),
                None => None,
            },
            None => None,
        }
    } else if tag == TAG_GET_METADATA {
        match read_text_list(b, pos) {
            Some((files, p)) => Some((RequestBody::GetMetadata { files }, p)),
            None => None,
        }
    } else if tag == TAG_GET_IMAGE {
        match read_text(b, pos) {
            Some((file, p1)) => {
                if p1 < b.len() {
                    assert(b@.skip(p1 as int).skip(1) =~= b@.skip(p1 + 1));
                }
                if p1 < b.len() && b[p1] == 0 {
                    Some((RequestBody::GetImage { file, edits: None }, p1 + 1))
                } else if p1 < b.len() && b[p1] == 1 {
                    match read_text(b, p1 + 1) {
                        Some((e, p2)) => Some((RequestBody::GetImage { file, edits: Some(e) }, p2)),
                        None => None,
                    }
                } else {
                    None
                }
            },
            None => None,
        }
    } else if tag == TAG_SET_RATING {
        match read_text(b, pos) {
            Some((file, p1)) => match read_u32(b, p1) {
                Some((n, p2)) => Some((RequestBody::SetRating { file, rating: #[verifier::truncate] (n as i32) }, p2)),
                None => None,
            },
            None => None,
        }
    } else {
        None
    }
}

/// Decodes one frame into a request. It fails exactly on the frames that hold
/// no request.
pub fn decode_request(b: &[u8]) -> (r: Result<Request, DecodeError>)
    ensures
        r matches Ok(req) ==> parse_request(b@) == Some(req@) && request_fits(req@)
            && request_bytes(req@) == b@,
        r is Err <==> parse_request(b@) is None,
{
    assert(b@.skip(0) =~= b@);
    let (nonce, p1) = match read_text(b, 0) {
        Some(x) => x,
        None => return Err(DecodeError::Malformed),
    };
    if p1 >= b.len() {
        return Err(DecodeError::Malformed);
    }
    assert(b@.skip(p1 as int).skip(1) =~= b@.skip(p1 + 1));
    match read_body(b[p1], b, p1 + 1) {
        Some((body, p2)) => {
            if p2 == b.len() {
                let req = Request { nonce, body };
                proof {
                    lemma_frames_are_requests(b@, req@);
                }
                Ok(req)
            } else {
                Err(DecodeError::Malformed)
            }
        },
        None => Err(DecodeError::Malformed),
    }
}

/// The request's frame. Texts and lists must fit the frame format.
pub fn encode_request(r: &Request) -> (out: Vec<u8>)
    requires
        request_fits(r@),
    ensures
        out@ == request_bytes(r@),
        parse_request(out@) == Some(r@),
{
    let mut out: Vec<u8> = Vec::new();
    write_text(&mut out, &r.nonce);
    match &r.body {
        RequestBody::ListLocations => {
            out.push(TAG_LIST_LOCATIONS);
        },
        RequestBody::GetIndex { ids } => {
            out.push(TAG_GET_INDEX);
            write_text_list(&mut out, ids);
        },
        RequestBody::CreateLibrary { name, path } => {
            out.push(TAG_CREATE_LIBRARY);
            write_text(&mut out, name);
            write_text(&mut out, path);
        },
        RequestBody::GetMetadata { files } => {
            out.push(TAG_GET_METADATA);
            write_text_list(&mut out, files);
        },
        RequestBody::GetImage { file, edits } => {
            out.push(TAG_GET_IMAGE);
            write_text(&mut out, file);
            match edits {
                None => {
                    out.push(0u8);
                },
                Some(e) => {
                    out.push(1u8);
                    write_text(&mut out, e);
                },
            }
        },
        RequestBody::SetRating { file, rating } => {
            out.push(TAG_SET_RATING);
            write_text(&mut out, file);
            write_u32(&mut out, *rating as u32);
        },
    }
    assert(out@ =~= request_bytes(r@));
    proof {
        lemma_request_round_trip(r@);
    }
    out
}

} // verus!
