//! The part of a transport that does not touch the network: what is sent for a
//! request, and what an answer is once its bytes have arrived.
//!
//! The headers of a request are gathered in the header map of `http_req`,
//! which knows a header by its name whatever the case of its ASCII letters.

use crate::json::{decode, encode, error_words, json_accepts, lossy_text, utf8_lossy};
use crate::message::{Header, Method, Request, Response, Version};
use crate::types::{DecodeError, RequestError, RequestResult};
use vstd::prelude::*;

verus! {

/// The header by which every request names this library.
pub const USER_AGENT: &'static str = "User-Agent";

/// The value of [`USER_AGENT`].
pub const USER_AGENT_VALUE: &'static str = "Rusted Firebase";

/// The header map of `http_req`; what it holds is named by
/// [`header_entries`].
#[verifier::external_type_specification]
#[verifier::external_body]
pub struct ExHeaders(http_req::response::Headers);

/// Headers as mathematical pairs of name and value, in the order given.
pub type HeaderSeq = Seq<(Seq<char>, Seq<char>)>;

/// Headers as a map from the folded name to the value.
pub type Entries = Map<Seq<char>, Seq<char>>;

/// What a header map holds: the value of each header, under its name with
/// the ASCII capitals in lower case.
pub uninterp spec fn header_entries(headers: http_req::response::Headers) -> Entries;

/// `c`, in lower case where it is an ASCII capital.
pub open spec fn fold_case(c: char) -> char {
    if 'A' <= c && c <= 'Z' {
        ((c as u8) + 32) as char
    } else {
        c
    }
}

/// `name` with its ASCII capitals in lower case.
pub open spec fn folded(name: Seq<char>) -> Seq<char> {
    name.map_values(|c: char| fold_case(c))
}

/// Header names are the same where they differ in ASCII case only.
pub open spec fn same_name(a: Seq<char>, b: Seq<char>) -> bool {
    folded(a) == folded(b)
}

/// The value that `entries` hold for `name`, if they have a header of that
/// name.
pub open spec fn header_value(entries: Entries, name: Seq<char>) -> Option<Seq<char>> {
    if entries.contains_key(folded(name)) {
        Some(entries[folded(name)])
    } else {
        None
    }
}

/// `entries` with every header of `extra` set, in the order of `extra`: a
/// later one replaces an earlier one of the same name.
pub open spec fn with_headers(entries: Entries, extra: HeaderSeq) -> Entries
    decreases extra.len(),
{
    if extra.len() == 0 {
        entries
    } else {
        with_headers(entries, extra.drop_last()).insert(folded(extra.last().0), extra.last().1)
    }
}

/// The headers that go out with a request: the engine's defaults, then the
/// identifying header, then the headers of the request itself, each later one
/// replacing an earlier one of the same name.
pub open spec fn outgoing_headers(defaults: Entries, request: HeaderSeq) -> Entries {
    with_headers(defaults.insert(folded(USER_AGENT@), USER_AGENT_VALUE@), request)
}

/// Calls `http_req::response::Headers::insert`. Believed: the map holds what
/// it held, but for the header of this name, which now has this value; the
/// map compares names without regard to ASCII case.
#[verifier::external_body]
pub(crate) fn insert_header(headers: &mut http_req::response::Headers, name: &str, value: &str)
    ensures
        header_entries(*final(headers)) == header_entries(*old(headers)).insert(
            folded(name@),
            value@,
        ),
{
    headers.insert(name, value);
}

/// Among headers that are set one after the other, the last of a name is
/// the one that is found.
pub proof fn lemma_last_set_is_found(entries: Entries, extra: HeaderSeq, i: int)
    requires
        0 <= i < extra.len(),
        forall|j: int| i < j < extra.len() ==> !same_name(extra[j].0, extra[i].0),
    ensures
        header_value(with_headers(entries, extra), extra[i].0) == Some(extra[i].1),
    decreases extra.len(),
{
    if i < extra.len() - 1 {
        assert(extra.drop_last()[i] == extra[i]);
        assert forall|j: int| i < j < extra.drop_last().len() implies !same_name(
            extra.drop_last()[j].0,
            extra.drop_last()[i].0,
        ) by {
            assert(extra.drop_last()[j] == extra[j]);
        }
        lemma_last_set_is_found(entries, extra.drop_last(), i);
        assert(!same_name(extra.last().0, extra[i].0));
    }
}

/// Setting headers leaves a header that none of them names as it was.
pub proof fn lemma_unnamed_is_kept(entries: Entries, extra: HeaderSeq, name: Seq<char>)
    requires
        forall|j: int| 0 <= j < extra.len() ==> !same_name(extra[j].0, name),
    ensures
        header_value(with_headers(entries, extra), name) == header_value(entries, name),
    decreases extra.len(),
{
    if extra.len() > 0 {
        assert forall|j: int| 0 <= j < extra.drop_last().len() implies !same_name(
            extra.drop_last()[j].0,
            name,
        ) by {
            assert(extra.drop_last()[j] == extra[j]);
        }
        lemma_unnamed_is_kept(entries, extra.drop_last(), name);
        assert(!same_name(extra.last().0, name));
    }
}

/// A header of the request goes out with the value that the request gives
/// it, whatever the defaults say, unless a later header of the request has
/// the same name.
pub proof fn lemma_request_header_goes_out(defaults: Entries, request: HeaderSeq, i: int)
    requires
        0 <= i < request.len(),
        forall|j: int| i < j < request.len() ==> !same_name(request[j].0, request[i].0),
    ensures
        header_value(outgoing_headers(defaults, request), request[i].0) == Some(request[i].1),
{
    lemma_last_set_is_found(defaults.insert(folded(USER_AGENT@), USER_AGENT_VALUE@), request, i);
}

/// A header that the request does not name goes out as the defaults have
/// it; the identifying header goes out with the library's value.
pub proof fn lemma_default_header_goes_out(defaults: Entries, request: HeaderSeq, name: Seq<char>)
    requires
        forall|j: int| 0 <= j < request.len() ==> !same_name(request[j].0, name),
    ensures
        same_name(USER_AGENT@, name) ==> header_value(outgoing_headers(defaults, request), name)
            == Some(USER_AGENT_VALUE@),
        !same_name(USER_AGENT@, name) ==> header_value(outgoing_headers(defaults, request), name)
            == header_value(defaults, name),
{
    lemma_unnamed_is_kept(defaults.insert(folded(USER_AGENT@), USER_AGENT_VALUE@), request, name);
}

/// What goes on the wire for a request.
#[derive(Debug)]
pub struct Outgoing {
    pub method: Method,
    pub uri: String,
    pub version: Version,
    pub headers: http_req::response::Headers,
    /// The body as JSON text; `None` where the request has no body.
    pub payload: Option<Vec<u8>>,
}

/// What came back from the wire, before anything is decoded.
#[derive(Debug)]
pub struct Incoming {
    pub status: u16,
    /// The version as the status line spells it.
    pub version: String,
    pub headers: Vec<Header>,
    pub body: Vec<u8>,
}

/// The version that `text` names.
pub fn to_version(text: &str) -> (res: Version)
    requires
        Version::named(text@) is Some,
    ensures
        Version::named(text@) == Some(res),
{
    Version::from_name(text).unwrap()
}

/// A transport without state: every request is prepared and every answer is
/// read on its own.
#[derive(Debug)]
pub struct Client;

impl Default for Client {
    fn default() -> (res: Self)
        ensures
            res == Client,
    {
        Client
    }
}

impl Client {
    /// What has to be sent for `request`, given its payload: method, target
    /// and version as they are, the headers of [`outgoing_headers`], and the
    /// payload as it was given.
    pub fn assemble(
        &self,
        defaults: http_req::response::Headers,
        request: &Request,
        payload: Option<Vec<u8>>,
    ) -> (out: Outgoing)
        ensures
            out.method == request.method,
            out.uri@ == request.uri@,
            out.version == request.version,
            header_entries(out.headers) == outgoing_headers(
                header_entries(defaults),
                request.headers.deep_view(),
            ),
            out.payload == payload,
    {
        let ghost base = header_entries(defaults).insert(folded(USER_AGENT@), USER_AGENT_VALUE@);
        let ghost extra = request.headers.deep_view();
        let mut headers = defaults;
        insert_header(&mut headers, USER_AGENT, USER_AGENT_VALUE);
        let mut i: usize = 0;
        assert(extra.take(0) == HeaderSeq::empty());
        while i < request.headers.len()
            invariant
                i <= request.headers.len(),
                extra == request.headers.deep_view(),
                header_entries(headers) == with_headers(base, extra.take(i as int)),
            decreases request.headers.len() - i,
        {
            assert(extra.take(i + 1).drop_last() == extra.take(i as int));
            assert(extra.take(i + 1).last() == extra[i as int]);
            insert_header(
                &mut headers,
                request.headers[i].0.as_str(),
                request.headers[i].1.as_str(),
            );
            i = i + 1;
        }
        assert(extra.take(i as int) == extra);
        Outgoing {
            method: request.method,
            uri: request.uri.clone(),
            version: request.version,
            headers,
            payload,
        }
    }

    /// What has to be sent for `request`: as [`Client::assemble`] says, with
    /// the body encoded as JSON for the payload, and no payload where there
    /// is no body.
    pub fn prepare(&self, defaults: http_req::response::Headers, request: &Request) -> (out:
        Outgoing)
        ensures
            out.method == request.method,
            out.uri@ == request.uri@,
            out.version == request.version,
            header_entries(out.headers) == outgoing_headers(
                header_entries(defaults),
                request.headers.deep_view(),
            ),
            out.payload is Some <==> request.body is Some,
    {
        let payload = match &request.body {
            Some(value) => Some(encode(value).unwrap()),
            None => None,
        };
        self.assemble(defaults, request, payload)
    }

    /// The answer, once the payload has been decoded or has failed to be:
    /// the envelope around the decoded body, or the decoder's words together
    /// with the payload as text.
    pub fn respond<T, E>(
        &self,
        status: u16,
        version: Version,
        headers: Vec<Header>,
        raw: &[u8],
        decoded: Result<T, String>,
    ) -> (res: RequestResult<Response<T>, E>)
        ensures
            match decoded {
                Ok(body) => res == Ok::<Response<T>, RequestError<E>>(
                    (Response { status, version, headers, body }),
                ),
                Err(reason) => res matches Err(RequestError::Decode(error)) && error.reason
                    == reason && error.raw@ == utf8_lossy(raw@),
            },
    {
        match decoded {
            Ok(body) => Ok(Response { status, version, headers, body }),
            Err(reason) => Err(RequestError::Decode(DecodeError { reason, raw: lossy_text(raw) })),
        }
    }

    /// Reads an answer whose payload is any JSON value: the envelope of the
    /// answer around the decoded value exactly where the payload is JSON,
    /// and otherwise a decode error that holds the payload as text.
    pub fn receive<E>(&self, answer: Incoming) -> (res: RequestResult<
        Response<serde_json::Value>,
        E,
    >)
        requires
            Version::named(answer.version@) is Some,
        ensures
            res is Ok <==> json_accepts(answer.body@),
            res matches Ok(response) ==> {
                &&& response.status == answer.status
                &&& Some(response.version) == Version::named(answer.version@)
                &&& response.headers == answer.headers
            },
            res matches Err(error) ==> error matches RequestError::Decode(decode)
                && decode.raw@ == utf8_lossy(answer.body@),
    {
        let version = to_version(answer.version.as_str());
        let decoded = match decode(answer.body.as_slice()) {
            Ok(value) => Ok(value),
            Err(error) => Err(error_words(&error)),
        };
        self.respond(answer.status, version, answer.headers, answer.body.as_slice(), decoded)
    }

    /// Ends a request: a failure of the engine is handed on as it is, and an
    /// answer is read as [`Client::receive`] reads it.
    pub fn finish<E>(&self, outcome: Result<Incoming, E>) -> (res: RequestResult<
        Response<serde_json::Value>,
        E,
    >)
        requires
            outcome matches Ok(answer) ==> Version::named(answer.version@) is Some,
        ensures
            outcome matches Err(error) ==> res == Err::<
                Response<serde_json::Value>,
                RequestError<E>,
            >(RequestError::Transport(error)),
            outcome matches Ok(answer) ==> {
                &&& res is Ok <==> json_accepts(answer.body@)
                &&& res matches Ok(response) ==> {
                    &&& response.status == answer.status
                    &&& Some(response.version) == Version::named(answer.version@)
                    &&& response.headers == answer.headers
                }
                &&& res matches Err(error) ==> error matches RequestError::Decode(decode)
                    && decode.raw@ == utf8_lossy(answer.body@)
            },
    {
        match outcome {
            Ok(answer) => self.receive(answer),
            Err(error) => Err(RequestError::Transport(error)),
        }
    }
}

} // verus!
