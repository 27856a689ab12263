//! The decisions of one client connection: what to do with each inbound
//! frame, and how each handler's outcome becomes exactly one response.
//!
//! The connection itself (socket, tasks, the lock around the outbound sink)
//! belongs to the host; it feeds events in here and carries out the answers.
use vstd::prelude::*;
use crate::request::{decode_request, parse_request, DecodeError, Request, RequestView};
use crate::response::{
    encode_response, response_bytes, response_fits, IndexEntry, Location, MetadataEntry,
    Response, ResponseBody, SystemInfo, Tag,
};
use crate::wire::{read_text, take_text};

verus! {

/// The answer to a handler's outcome: its result under the request's nonce,
/// or an error under that same nonce.
pub open spec fn answered(nonce: String, outcome: Result<ResponseBody, String>) -> Response {
    match outcome {
        Ok(body) => Response { nonce: Some(nonce), body },
        Err(message) => Response { nonce: Some(nonce), body: ResponseBody::Error { message } },
    }
}

/// Turns the outcome of a request's handler into its one response.
pub fn answer(nonce: String, outcome: Result<ResponseBody, String>) -> (r: Response)
    ensures
        r == answered(nonce, outcome),
{
    match outcome {
        Ok(body) => Response { nonce: Some(nonce), body },
        Err(message) => Response { nonce: Some(nonce), body: ResponseBody::Error { message } },
    }
}

/// A response answers the request whose nonce it carries.
pub proof fn lemma_answer_echoes_nonce(nonce: String, outcome: Result<ResponseBody, String>)
    ensures
        answered(nonce, outcome).nonce == Some(nonce),
        outcome is Err ==> answered(nonce, outcome).body is Error,
{
}

/// However the handlers of a batch of requests race, the responses they send
/// carry each request's nonce exactly once, provided the nonces differ.
///
/// `order[k]` is the request whose handler finished `k`-th; every request
/// finishes once.
pub proof fn lemma_each_nonce_answered_once(
    nonces: Seq<String>,
    outcomes: Seq<Result<ResponseBody, String>>,
    order: Seq<int>,
)
    requires
        nonces.len() == outcomes.len(),
        order.len() == nonces.len(),
        forall|k: int| 0 <= k < order.len() ==> 0 <= #[trigger] order[k] < nonces.len(),
        forall|j: int| 0 <= j < nonces.len() ==> #[trigger] order.contains(j),
        forall|k1: int, k2: int|
            0 <= k1 < order.len() && 0 <= k2 < order.len() && k1 != k2 ==> #[trigger] order[k1]
                != #[trigger] order[k2],
        forall|i: int, j: int|
            0 <= i < nonces.len() && 0 <= j < nonces.len() && i != j ==> (#[trigger] nonces[i])@
                != (#[trigger] nonces[j])@,
    ensures
        ({
            let sent = order.map_values(|i: int| answered(nonces[i], outcomes[i]).nonce);
            &&& sent.len() == nonces.len()
            &&& forall|j: int| 0 <= j < nonces.len() ==> sent.contains(Some(#[trigger] nonces[j]))
            &&& forall|k1: int, k2: int|
                0 <= k1 < sent.len() && 0 <= k2 < sent.len() && k1 != k2 ==> (
                #[trigger] sent[k1])->Some_0@ != (#[trigger] sent[k2])->Some_0@
        }),
{
    let sent = order.map_values(|i: int| answered(nonces[i], outcomes[i]).nonce);
    assert forall|j: int| 0 <= j < nonces.len() implies sent.contains(Some(#[trigger] nonces[j])) by {
        assert(order.contains(j));
        let k = choose|k: int| 0 <= k < order.len() && order[k] == j;
        assert(sent[k] == Some(nonces[j]));
    }
    assert forall|k1: int, k2: int|
        0 <= k1 < sent.len() && 0 <= k2 < sent.len() && k1 != k2 implies (
        #[trigger] sent[k1])->Some_0@ != (#[trigger] sent[k2])->Some_0@ by {
        assert(order[k1] != order[k2]);
        assert(sent[k1] == Some(nonces[order[k1]]));
        assert(sent[k2] == Some(nonces[order[k2]]));
    }
}

/// A location's index entries, location after location.
pub open spec fn joined(parts: Seq<Vec<IndexEntry>>) -> Seq<IndexEntry>
    decreases parts.len(),
{
    if parts.len() == 0 {
        Seq::empty()
    } else {
        joined(parts.drop_last()) + parts.last()@
    }
}

/// The index list of several locations, concatenated in the order of the
/// requested ids.
pub fn index_list(parts: Vec<Vec<IndexEntry>>) -> (r: ResponseBody)
    ensures
        r matches ResponseBody::IndexList { entries } && entries@ == joined(parts@),
{
    let mut entries: Vec<IndexEntry> = Vec::new();
    let mut parts = parts;
    let ghost all = parts@;
    let n: usize = parts.len();
    let mut i: usize = 0;
    while i < n
        invariant
            i <= n == all.len(),
            parts@ == all.skip(i as int),
            entries@ == joined(all.take(i as int)),
        decreases n - i,
    {
        let mut part = parts.remove(0);
        assert(all.take(i + 1).drop_last() =~= all.take(i as int));
        entries.append(&mut part);
        i = i + 1;
        assert(parts@ =~= all.skip(i as int));
    }
    assert(all.take(all.len() as int) =~= all);
    ResponseBody::IndexList { entries }
}

/// The metadata that was found, in the order of the requested files.
pub open spec fn present(found: Seq<Option<MetadataEntry>>) -> Seq<MetadataEntry>
    decreases found.len(),
{
    if found.len() == 0 {
        Seq::empty()
    } else {
        match found.last() {
            Some(m) => present(found.drop_last()).push(m),
            None => present(found.drop_last()),
        }
    }
}

/// The metadata list of the requested files, skipping those that have none.
pub fn metadata_list(found: Vec<Option<MetadataEntry>>) -> (r: ResponseBody)
    ensures
        r matches ResponseBody::MetadataList { entries } && entries@ == present(found@),
{
    let mut entries: Vec<MetadataEntry> = Vec::new();
    let mut found = found;
    let ghost all = found@;
    let n: usize = found.len();
    let mut i: usize = 0;
    while i < n
        invariant
            i <= n == all.len(),
            found@ == all.skip(i as int),
            entries@ == present(all.take(i as int)),
        decreases n - i,
    {
        let item = found.remove(0);
        assert(all.take(i + 1).drop_last() =~= all.take(i as int));
        match item {
            Some(m) => entries.push(m),
            None => {},
        }
        i = i + 1;
        assert(found@ =~= all.skip(i as int));
    }
    assert(all.take(n as int) =~= all);
    ResponseBody::MetadataList { entries }
}

/// The location list, with every tag.
pub fn location_list(locations: Vec<Location>, tags: Vec<Tag>) -> (r: ResponseBody)
    ensures
        r matches ResponseBody::LocationList { locations: l, tags: t } && l@ == locations@ && t@
            == tags@,
{
    ResponseBody::LocationList { locations, tags }
}

/// The id of the location whose index a client gets back after rating a file.
pub open spec fn default_location_id() -> Seq<char> {
    seq!['d', 'e', 'f', 'a', 'u', 'l', 't']
}

/// The ids whose index answers a rating: the default location alone.
pub fn rating_refresh_ids() -> (r: Vec<String>)
    ensures
        r@.len() == 1,
        r@[0]@ == default_location_id(),
{
    let id = "default".to_owned();
    proof {
        reveal_strlit("default");
        assert(id@ =~= default_location_id());
    }
    let mut ids: Vec<String> = Vec::new();
    ids.push(id);
    ids
}

/// Why a frame without a request was refused; the text of its error response.
pub open spec fn reject_message(b: Seq<u8>) -> Seq<char> {
    match take_text(b) {
        Some((_, rest)) => if rest.len() == 0 || rest[0] > crate::request::TAG_SET_RATING {
            empty_request_message()
        } else {
            malformed_message()
        },
        None => malformed_message(),
    }
}

pub open spec fn empty_request_message() -> Seq<char> {
    "request was empty"@
}

pub open spec fn malformed_message() -> Seq<char> {
    "malformed frame"@
}

/// `r` is the error response to the request-less frame `b`: it echoes the
/// nonce whenever one can be read off the front of the frame.
pub open spec fn is_rejection(r: Response, b: Seq<u8>) -> bool {
    &&& r.body matches ResponseBody::Error { message } && message@ == reject_message(b)
    &&& r.nonce is Some <==> take_text(b) is Some
    &&& r.nonce matches Some(n) ==> take_text(b)->Some_0.0 == n@
}

/// `r` refuses the request with nonce `nonce` for want of room for its handler.
pub open spec fn is_busy(r: Response, nonce: Seq<char>) -> bool {
    &&& r.nonce matches Some(n) && n@ == nonce
    &&& r.body matches ResponseBody::Error { message } && message@ == busy_message()
}

/// The error response to a frame that holds no request.
pub fn reject_frame(b: &[u8]) -> (r: Response)
    ensures
        is_rejection(r, b@),
{
    proof {
        reveal_strlit("request was empty");
        reveal_strlit("malformed frame");
    }
    assert(b@.skip(0) =~= b@);
    match read_text(b, 0) {
        Some((nonce, p)) => {
            let message = if p >= b.len() || b[p] > crate::request::TAG_SET_RATING {
                "request was empty".to_owned()
            } else {
                "malformed frame".to_owned()
            };
            Response { nonce: Some(nonce), body: ResponseBody::Error { message } }
        },
        None => Response {
            nonce: None,
            body: ResponseBody::Error { message: "malformed frame".to_owned() },
        },
    }
}

/// The message of the error that answers a request once the handlers in flight
/// reached the connection's bound.
pub open spec fn busy_message() -> Seq<char> {
    "too many requests in flight"@
}

/// What the host does with an inbound frame.
pub enum FrameAction {
    /// Start a handler for this request.
    Handle(Request),
    /// Send this response right away; the connection stays open.
    Reply(Response),
}

/// One client connection: whether it greeted the client, whether it is still
/// open, and how many handlers are in flight against the bound it was made with.
pub struct Connection {
    greeted: bool,
    open: bool,
    in_flight: usize,
    limit: usize,
}

impl Connection {
    pub closed spec fn greeted_spec(&self) -> bool {
        self.greeted
    }

    pub closed spec fn open_spec(&self) -> bool {
        self.open
    }

    pub closed spec fn in_flight_spec(&self) -> nat {
        self.in_flight as nat
    }

    pub closed spec fn limit_spec(&self) -> nat {
        self.limit as nat
    }

    /// Handlers in flight never exceed the bound.
    pub closed spec fn wf(&self) -> bool {
        self.in_flight <= self.limit
    }

    /// A new connection, before its greeting, with at most `limit` handlers in flight.
    pub fn new(limit: usize) -> (c: Connection)
        ensures
            c.wf(),
            !c.greeted_spec(),
            c.open_spec(),
            c.in_flight_spec() == 0,
            c.limit_spec() == limit,
    {
        Connection { greeted: false, open: true, in_flight: 0, limit }
    }

    pub fn is_open(&self) -> (r: bool)
        ensures
            r == self.open_spec(),
    {
        self.open
    }

    pub fn in_flight(&self) -> (r: usize)
        ensures
            r == self.in_flight_spec(),
    {
        self.in_flight
    }

    /// The unsolicited first response: the host's system information, without a nonce.
    pub fn greet(&mut self, info: SystemInfo) -> (r: Response)
        requires
            old(self).wf(),
            !old(self).greeted_spec(),
        ensures
            final(self).wf(),
            final(self).greeted_spec(),
            final(self).open_spec() == old(self).open_spec(),
            final(self).in_flight_spec() == old(self).in_flight_spec(),
            final(self).limit_spec() == old(self).limit_spec(),
            r.nonce is None,
            r.body == (ResponseBody::SystemInfo { info }),
    {
        self.greeted = true;
        Response { nonce: None, body: ResponseBody::SystemInfo { info } }
    }

    /// Decides what to do with an inbound frame. A frame without a request is
    /// answered at once and leaves the connection as it was; a request is
    /// handed to a new handler while the bound allows, and refused with an
    /// error under its nonce otherwise.
    pub fn on_frame(&mut self, b: &[u8]) -> (r: FrameAction)
        requires
            old(self).wf(),
        ensures
            final(self).wf(),
            final(self).greeted_spec() == old(self).greeted_spec(),
            final(self).open_spec() == old(self).open_spec(),
            final(self).limit_spec() == old(self).limit_spec(),
            parse_request(b@) is None ==> (r matches FrameAction::Reply(resp) && is_rejection(resp, b@))
                && final(self).in_flight_spec() == old(self).in_flight_spec(),
            parse_request(b@) matches Some(req) ==> if old(self).in_flight_spec() < old(self).limit_spec() {
                r matches FrameAction::Handle(q) && q@ == req
                    && final(self).in_flight_spec() == old(self).in_flight_spec() + 1
            } else {
                (r matches FrameAction::Reply(resp) && is_busy(resp, req.nonce))
                    && final(self).in_flight_spec() == old(self).in_flight_spec()
            },
    {
        match decode_request(b) {
            Err(_) => FrameAction::Reply(reject_frame(b)),
            Ok(req) => {
                if self.in_flight < self.limit {
                    self.in_flight = self.in_flight + 1;
                    FrameAction::Handle(req)
                } else {
                    proof {
                        reveal_strlit("too many requests in flight");
                    }
                    let message = "too many requests in flight".to_owned();
                    FrameAction::Reply(
                        Response { nonce: Some(req.nonce), body: ResponseBody::Error { message } },
                    )
                }
            },
        }
    }

    /// A handler is done: its response becomes one frame for the outbound sink.
    pub fn on_done(&mut self, r: &Response) -> (out: Vec<u8>)
        requires
            old(self).wf(),
            old(self).in_flight_spec() > 0,
            response_fits(*r),
        ensures
            final(self).wf(),
            final(self).greeted_spec() == old(self).greeted_spec(),
            final(self).open_spec() == old(self).open_spec(),
            final(self).limit_spec() == old(self).limit_spec(),
            final(self).in_flight_spec() == old(self).in_flight_spec() - 1,
            out@ == response_bytes(*r),
    {
        self.in_flight = self.in_flight - 1;
        encode_response(r)
    }

    /// The client went away, or a write to it failed: the connection ends.
    pub fn close(&mut self)
        requires
            old(self).wf(),
        ensures
            final(self).wf(),
            !final(self).open_spec(),
            final(self).greeted_spec() == old(self).greeted_spec(),
            final(self).in_flight_spec() == old(self).in_flight_spec(),
            final(self).limit_spec() == old(self).limit_spec(),
    {
        self.open = false;
    }
}

} // verus!
