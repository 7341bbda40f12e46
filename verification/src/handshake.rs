//! The WebSocket handshake: which requests are accepted.

use tokio_tungstenite::tungstenite;
use tungstenite::http::{Extensions, HeaderValue, Request, Response};
use vstd::prelude::*;
use vstd::string::StringSliceAdditionalSpecFns;

verus! {

/// An HTTP request of the `http` crate.
#[verifier::external_type_specification]
#[verifier::external_body]
#[verifier::reject_recursive_types(T)]
pub struct ExRequest<T>(tokio_tungstenite::tungstenite::http::Request<T>);

/// An HTTP response of the `http` crate.
#[verifier::external_type_specification]
#[verifier::external_body]
#[verifier::reject_recursive_types(T)]
pub struct ExResponse<T>(tokio_tungstenite::tungstenite::http::Response<T>);

/// The extensions of a request or response of the `http` crate.
#[verifier::external_type_specification]
#[verifier::external_body]
pub struct ExExtensions(tokio_tungstenite::tungstenite::http::Extensions);

/// The headers of a handshake request: for each name that is present, in lower case, its values.
pub uninterp spec fn request_headers(request: Request<()>) -> Map<Seq<char>, Seq<Seq<u8>>>;

/// The headers of a handshake response: for each name that is present, in lower case, its values.
pub uninterp spec fn response_headers(response: Response<()>) -> Map<Seq<char>, Seq<Seq<u8>>>;

/// The status code of a handshake response.
pub uninterp spec fn response_status(response: Response<()>) -> u16;

/// The version of HTTP that a handshake response is in: its major and its minor number.
pub uninterp spec fn response_version(response: Response<()>) -> (u8, u8);

/// The extensions of a handshake response.
pub uninterp spec fn response_extensions(response: Response<()>) -> Extensions;

/// The headers of a rejection: for each name that is present, in lower case, its values.
pub uninterp spec fn rejection_headers(rejection: Response<Option<String>>) -> Map<
    Seq<char>,
    Seq<Seq<u8>>,
>;

/// The status code of a rejection.
pub uninterp spec fn rejection_status(rejection: Response<Option<String>>) -> u16;

/// The body of a rejection.
pub uninterp spec fn rejection_body(rejection: Response<Option<String>>) -> Option<Seq<char>>;

/// The version of HTTP that a rejection is in: its major and its minor number.
pub uninterp spec fn rejection_version(rejection: Response<Option<String>>) -> (u8, u8);

/// How many extensions a rejection has.
pub uninterp spec fn rejection_extension_count(rejection: Response<Option<String>>) -> nat;

/// Whether a text is made of lower-case letters and hyphens alone and so can be a header name that
/// is already in its normal form.
pub open spec fn is_field_name(name: Seq<char>) -> bool {
    &&& 0 < name.len() <= 64
    &&& forall|i: int|
        0 <= i < name.len() ==> ('a' <= #[trigger] name[i] && name[i] <= 'z') || name[i] == '-'
}

/// Whether a text is made of printable ASCII characters alone and so can be a header value.
pub open spec fn is_field_value(value: Seq<char>) -> bool {
    forall|i: int| 0 <= i < value.len() ==> ' ' <= #[trigger] value[i] && value[i] <= '~'
}

/// Headers with a single name and a single value.
pub open spec fn single_header(name: Seq<char>, value: Seq<u8>) -> Map<Seq<char>, Seq<Seq<u8>>> {
    map![name => seq![value]]
}

/// Looks a header up: `HeaderMap::get` gives the first value of a header that is present, and
/// nothing for one that is absent. `HeaderValue::as_bytes` gives the bytes of the value.
#[verifier::external_body]
fn request_header<'a>(request: &'a Request<()>, name: &str) -> (value: Option<&'a [u8]>)
    requires
        is_field_name(name@),
    ensures
        value is Some <==> request_headers(*request).contains_key(name@),
        value is Some ==> request_headers(*request)[name@].len() > 0 && value->Some_0@
            == request_headers(*request)[name@][0],
{
    request.headers().get(name).map(HeaderValue::as_bytes)
}

/// How many different headers are few enough for another one to be added in any case: with fewer
/// than a fifth of its 32768 slots in use, the table of a `HeaderMap` never has to grow beyond them.
pub const HEADER_LIMIT: usize = 6554;

/// How many different headers are too many for another one to be added in any case: a `HeaderMap`
/// leaves a quarter of its 32768 slots free.
pub const HEADER_CAPACITY: usize = 24576;

/// Sets a header: `HeaderMap::try_insert` makes `value`, turned into a header value by
/// `HeaderValue::from_static`, the only value of the header, and leaves the other headers alone; or
/// else it reports that the table would have to grow beyond its largest size. It does not do so with
/// fewer than [`HEADER_LIMIT`] headers, and it does with [`HEADER_CAPACITY`]. In between it depends
/// on how the headers happen to lie in the table, which is left unsaid. The status, the version and
/// the extensions of the response are not touched.
#[verifier::external_body]
fn set_response_header(response: &mut Response<()>, name: &'static str, value: &'static str) -> (
    added: bool)
    requires
        is_field_name(name@),
        is_field_value(value@),
    ensures
        response_headers(*old(response)).dom().len() < HEADER_LIMIT ==> added,
        added ==> response_headers(*old(response)).dom().len() < HEADER_CAPACITY,
        added ==> response_headers(*final(response)) == response_headers(*old(response)).insert(
            name@,
            seq![value.spec_bytes()],
        ),
        response_status(*final(response)) == response_status(*old(response)),
        response_version(*final(response)) == response_version(*old(response)),
        response_extensions(*final(response)) == response_extensions(*old(response)),
{
    response.headers_mut().try_insert(name, HeaderValue::from_static(value)).is_ok()
}

/// Builds a response: `response::Builder` gives a response with the given status, with a single
/// header, whose value `HeaderValue::from_static` makes, and with the given body, in version 1.1 and
/// without extensions.
#[verifier::external_body]
fn build_rejection(
    status: u16,
    name: &'static str,
    value: &'static str,
    body: String,
) -> (rejection: Response<Option<String>>)
    requires
        100 <= status <= 999,
        is_field_name(name@),
        is_field_value(value@),
    ensures
        rejection_status(rejection) == status,
        rejection_headers(rejection) == single_header(name@, value.spec_bytes()),
        rejection_body(rejection) == Some(body@),
        rejection_version(rejection) == (1u8, 1u8),
        rejection_extension_count(rejection) == 0,
{
    tungstenite::http::response::Builder::new()
        .status(status)
        .header(name, HeaderValue::from_static(value))
        .body(Some(body))
        .unwrap()
}

/// Settings that are used by connections.
#[derive(Debug, Eq, Hash, PartialEq)]
pub struct Settings {
    /// The permitted origins.
    pub origin: Vec<String>,
    /// The time between pings, in seconds.
    pub ping_time: u64,
}

/// The subprotocol we understand.
pub const SUBPROTOCOL: &'static str = "ca.chead.remote-mouse.packets";

/// The name of the header with the subprotocol.
pub const SEC_WEBSOCKET_PROTOCOL: &'static str = "sec-websocket-protocol";

/// The name of the header with the origin.
pub const ORIGIN: &'static str = "origin";

/// The name of the header with the type of a body.
pub const CONTENT_TYPE: &'static str = "content-type";

/// The type of the body of a rejection.
pub const PLAIN_TEXT: &'static str = "text/plain; charset=UTF-8";

/// The status code for a request that lacks something.
pub const BAD_REQUEST: u16 = 400;

/// The status code for a request that is not permitted.
pub const FORBIDDEN: u16 = 403;

/// Why a request is rejected.
#[derive(Clone, Copy, Debug, Eq, Hash, PartialEq)]
pub struct Rejection {
    /// The status code.
    pub status: u16,
    /// The explanation.
    pub message: &'static str,
}

/// The contents of a [`Rejection`].
#[verifier::ext_equal]
pub struct RejectionContents {
    /// The status code.
    pub status: u16,
    /// The explanation.
    pub message: Seq<char>,
}

impl View for Rejection {
    type V = RejectionContents;

    open spec fn view(&self) -> RejectionContents {
        RejectionContents { status: self.status, message: self.message@ }
    }
}

/// The bytes of a text.
pub open spec fn text_bytes(text: Seq<char>) -> Seq<u8> {
    vstd::utf8::encode_utf8(text)
}

/// Whether `origin` is among the permitted origins.
pub open spec fn is_permitted(permitted: Seq<String>, origin: Seq<u8>) -> bool {
    exists|i: int| 0 <= i < permitted.len() && text_bytes((#[trigger] permitted[i])@) == origin
}

/// Whether a request with the given subprotocol and origin is accepted, and if not, why. If no
/// permitted origins are given, every origin is.
pub open spec fn request_verdict(
    permitted: Seq<String>,
    protocol: Option<Seq<u8>>,
    origin: Option<Seq<u8>>,
) -> Result<(), RejectionContents> {
    if protocol is None {
        Err(RejectionContents { status: BAD_REQUEST, message: "Subprotocol not specified"@ })
    } else if protocol->Some_0 != text_bytes(SUBPROTOCOL@) {
        Err(
            RejectionContents {
                status: BAD_REQUEST,
                message: "Requested subprotocol not supported"@,
            },
        )
    } else if permitted.len() == 0 {
        Ok(())
    } else if origin is None {
        Err(RejectionContents { status: BAD_REQUEST, message: "Origin not specified"@ })
    } else if !is_permitted(permitted, origin->Some_0) {
        Err(RejectionContents { status: FORBIDDEN, message: "Non-permitted origin"@ })
    } else {
        Ok(())
    }
}

/// The bytes of a header value that may be missing.
pub open spec fn value_contents(value: Option<&[u8]>) -> Option<Seq<u8>> {
    match value {
        Some(value) => Some(value@),
        None => None,
    }
}

/// The contents of a decision.
pub open spec fn decision_contents(decision: Result<(), Rejection>) -> Result<
    (),
    RejectionContents,
> {
    match decision {
        Ok(()) => Ok(()),
        Err(rejection) => Err(rejection@),
    }
}

/// Compares bytes.
fn same_bytes(a: &[u8], b: &[u8]) -> (same: bool)
    ensures
        same == (a@ == b@),
{
    if a.len() != b.len() {
        return false;
    }
    let mut i: usize = 0;
    while i < a.len()
        invariant
            i <= a@.len() == b@.len(),
            forall|j: int| 0 <= j < i ==> a@[j] == b@[j],
        decreases a@.len() - i,
    {
        if a[i] != b[i] {
            return false;
        }
        i += 1;
    }
    proof {
        assert(a@ =~= b@);
    }
    true
}

/// Looks for `origin` among the permitted origins.
fn permits(permitted: &Vec<String>, origin: &[u8]) -> (found: bool)
    ensures
        found == is_permitted(permitted@, origin@),
{
    let mut i: usize = 0;
    while i < permitted.len()
        invariant
            i <= permitted@.len(),
            forall|j: int|
                0 <= j < i ==> text_bytes((#[trigger] permitted@[j])@) != origin@,
        decreases permitted@.len() - i,
    {
        if same_bytes(permitted[i].as_str().as_bytes(), origin) {
            return true;
        }
        i += 1;
    }
    false
}

/// Decides whether a request with the given subprotocol and origin is accepted.
pub fn check_request(
    settings: &Settings,
    protocol: Option<&[u8]>,
    origin: Option<&[u8]>,
) -> (decision: Result<(), Rejection>)
    ensures
        decision_contents(decision) == request_verdict(
            settings.origin@,
            value_contents(protocol),
            value_contents(origin),
        ),
{
    let protocol: &[u8] = match protocol {
        Some(protocol) => protocol,
        None => {
            return Err(Rejection { status: BAD_REQUEST, message: "Subprotocol not specified" });
        },
    };
    if !same_bytes(protocol, SUBPROTOCOL.as_bytes()) {
        return Err(
            Rejection { status: BAD_REQUEST, message: "Requested subprotocol not supported" },
        );
    }
    if settings.origin.len() > 0 {
        let origin: &[u8] = match origin {
            Some(origin) => origin,
            None => {
                return Err(Rejection { status: BAD_REQUEST, message: "Origin not specified" });
            },
        };
        if !permits(&settings.origin, origin) {
            return Err(Rejection { status: FORBIDDEN, message: "Non-permitted origin" });
        }
    }
    Ok(())
}

/// What the texts that go into headers are made of.
proof fn lemma_field_texts()
    ensures
        is_field_name(SEC_WEBSOCKET_PROTOCOL@),
        is_field_name(ORIGIN@),
        is_field_name(CONTENT_TYPE@),
        is_field_value(SUBPROTOCOL@),
        is_field_value(PLAIN_TEXT@),
{
    reveal_strlit("sec-websocket-protocol");
    reveal_strlit("origin");
    reveal_strlit("content-type");
    reveal_strlit("ca.chead.remote-mouse.packets");
    reveal_strlit("text/plain; charset=UTF-8");
}

/// Constructs a rejection response with a plain-text body.
pub fn make_rejection(status: u16, message: &str) -> (rejection: Response<Option<String>>)
    requires
        100 <= status <= 999,
    ensures
        rejection_status(rejection) == status,
        rejection_headers(rejection) == single_header(CONTENT_TYPE@, text_bytes(PLAIN_TEXT@)),
        rejection_body(rejection) == Some(message@),
        rejection_version(rejection) == (1u8, 1u8),
        rejection_extension_count(rejection) == 0,
{
    proof {
        lemma_field_texts();
    }
    build_rejection(status, CONTENT_TYPE, PLAIN_TEXT, message.to_owned())
}

/// The first value of a header that may be absent.
pub open spec fn first_value(headers: Map<Seq<char>, Seq<Seq<u8>>>, name: Seq<char>) -> Option<
    Seq<u8>,
> {
    if headers.contains_key(name) {
        Some(headers[name][0])
    } else {
        None
    }
}

/// Whether `answer` is what `request` deserves: a request that is accepted is answered by `response`
/// with the subprotocol added to it, and any other by a plain-text explanation.
pub open spec fn answers(
    permitted: Seq<String>,
    request: Request<()>,
    response: Response<()>,
    answer: Result<Response<()>, Response<Option<String>>>,
) -> bool {
    let headers = request_headers(request);
    match request_verdict(
        permitted,
        first_value(headers, SEC_WEBSOCKET_PROTOCOL@),
        first_value(headers, ORIGIN@),
    ) {
        Ok(()) => {
            &&& answer is Ok
            &&& response_status(answer->Ok_0) == response_status(response)
            &&& response_version(answer->Ok_0) == response_version(response)
            &&& response_extensions(answer->Ok_0) == response_extensions(response)
            &&& response_headers(answer->Ok_0) == response_headers(response).insert(
                SEC_WEBSOCKET_PROTOCOL@,
                seq![text_bytes(SUBPROTOCOL@)],
            )
        },
        Err(rejection) => {
            &&& answer is Err
            &&& rejection_status(answer->Err_0) == rejection.status
            &&& rejection_headers(answer->Err_0) == single_header(
                CONTENT_TYPE@,
                text_bytes(PLAIN_TEXT@),
            )
            &&& rejection_body(answer->Err_0) == Some(rejection.message)
            &&& rejection_version(answer->Err_0) == (1u8, 1u8)
            &&& rejection_extension_count(answer->Err_0) == 0
        },
    }
}

/// A request handler callback.
#[derive(Clone, Copy, Debug)]
pub struct TungsteniteCallback<'a> {
    /// The settings.
    pub settings: &'a Settings,
}

/// Whether a request is accepted.
pub open spec fn is_accepted(permitted: Seq<String>, request: Request<()>) -> bool {
    let headers = request_headers(request);
    request_verdict(
        permitted,
        first_value(headers, SEC_WEBSOCKET_PROTOCOL@),
        first_value(headers, ORIGIN@),
    ) is Ok
}

impl<'a> TungsteniteCallback<'a> {
    /// Decides whether a request is accepted.
    fn check(&self, request: &Request<()>) -> (decision: Result<(), Rejection>)
        ensures
            decision_contents(decision) == request_verdict(
                self.settings.origin@,
                first_value(request_headers(*request), SEC_WEBSOCKET_PROTOCOL@),
                first_value(request_headers(*request), ORIGIN@),
            ),
    {
        proof {
            lemma_field_texts();
        }
        let protocol: Option<&[u8]> = request_header(request, SEC_WEBSOCKET_PROTOCOL);
        let origin: Option<&[u8]> = request_header(request, ORIGIN);
        check_request(self.settings, protocol, origin)
    }

    /// Answers a handshake request, given the response that would accept it.
    pub fn on_request(self, request: &Request<()>, response: Response<()>) -> (answer: Result<
        Response<()>,
        Response<Option<String>>,
    >)
        requires
            is_accepted(self.settings.origin@, *request) ==> response_headers(response).dom().len()
                < HEADER_LIMIT,
        ensures
            answers(self.settings.origin@, *request, response, answer),
    {
        self.try_on_request(request, response).unwrap()
    }

    /// Answers a handshake request, given the response that would accept it, unless the request is
    /// accepted and that response has so many headers already that another one cannot be added.
    ///
    /// Below [`HEADER_LIMIT`] headers there is always an answer, and from [`HEADER_CAPACITY`] on an
    /// accepted request has none. In between it depends on how the headers happen to lie in the
    /// table of the response.
    pub fn try_on_request(self, request: &Request<()>, response: Response<()>) -> (answer: Option<
        Result<Response<()>, Response<Option<String>>>,
    >)
        ensures
            !is_accepted(self.settings.origin@, *request) ==> answer is Some,
            response_headers(response).dom().len() < HEADER_LIMIT ==> answer is Some,
            is_accepted(self.settings.origin@, *request) && response_headers(response).dom().len()
                >= HEADER_CAPACITY ==> answer is None,
            answer is Some ==> answers(self.settings.origin@, *request, response, answer->Some_0),
    {
        match self.check(request) {
            Ok(()) => {
                proof {
                    lemma_field_texts();
                }
                let mut response = response;
                if set_response_header(&mut response, SEC_WEBSOCKET_PROTOCOL, SUBPROTOCOL) {
                    Some(Ok(response))
                } else {
                    None
                }
            },
            Err(rejection) => Some(Err(make_rejection(rejection.status, rejection.message))),
        }
    }
}

/// A request is accepted exactly if it asks for the subprotocol that we understand and comes from a
/// permitted origin, or if no origins are given, from any.
pub proof fn law_accepted_requests(
    permitted: Seq<String>,
    protocol: Option<Seq<u8>>,
    origin: Option<Seq<u8>>,
)
    ensures
        request_verdict(permitted, protocol, origin) is Ok <==> protocol == Some(
            text_bytes(SUBPROTOCOL@),
        ) && (permitted.len() == 0 || (origin is Some && is_permitted(
            permitted,
            origin->Some_0,
        ))),
{
}

/// Permitting one more origin never turns an accepted request away, unless it was accepted because
/// no origins were given.
pub proof fn law_more_origins_accept_more(
    permitted: Seq<String>,
    another: String,
    protocol: Option<Seq<u8>>,
    origin: Option<Seq<u8>>,
)
    requires
        permitted.len() > 0,
        request_verdict(permitted, protocol, origin) is Ok,
    ensures
        request_verdict(permitted.push(another), protocol, origin) is Ok,
{
    let i = choose|i: int|
        0 <= i < permitted.len() && text_bytes((#[trigger] permitted[i])@) == origin->Some_0;
    assert(permitted.push(another)[i] == permitted[i]);
}

/// Every origin that is given is permitted: a request for the subprotocol whose origin has the bytes of
/// one of them is accepted, whichever it is.
pub proof fn law_given_origins_are_accepted(permitted: Seq<String>, i: int, origin: Seq<u8>)
    requires
        0 <= i < permitted.len(),
        origin == vstd::utf8::encode_utf8(permitted[i]@),
    ensures
        request_verdict(
            permitted,
            Some(vstd::utf8::encode_utf8("ca.chead.remote-mouse.packets"@)),
            Some(origin),
        ) is Ok,
{
    assert(text_bytes(permitted[i]@) == origin);
}

/// Without origins, a request for the subprotocol is accepted whatever its origin is.
pub proof fn law_any_origin_is_accepted(permitted: Seq<String>, origin: Option<Seq<u8>>)
    requires
        permitted.len() == 0,
    ensures
        request_verdict(
            permitted,
            Some(vstd::utf8::encode_utf8("ca.chead.remote-mouse.packets"@)),
            origin,
        ) is Ok,
{
}

/// Nothing else is accepted: with origins given, a request whose origin has the bytes of none of them
/// is forbidden, and one without an origin is bad.
pub proof fn law_other_origins_are_rejected(permitted: Seq<String>, origin: Option<Seq<u8>>)
    requires
        permitted.len() > 0,
        origin matches Some(bytes) ==> forall|i: int|
            0 <= i < permitted.len() ==> vstd::utf8::encode_utf8((#[trigger] permitted[i])@)
                != bytes,
    ensures
        ({
            let verdict = request_verdict(
                permitted,
                Some(vstd::utf8::encode_utf8("ca.chead.remote-mouse.packets"@)),
                origin,
            );
            &&& verdict is Err
            &&& origin is Some ==> verdict->Err_0.status == 403 && verdict->Err_0.message
                == "Non-permitted origin"@
            &&& origin is None ==> verdict->Err_0.status == 400 && verdict->Err_0.message
                == "Origin not specified"@
        }),
{
}

/// A request for another subprotocol, or for none, is bad, whatever its origin is.
pub proof fn law_other_subprotocols_are_rejected(
    permitted: Seq<String>,
    protocol: Option<Seq<u8>>,
    origin: Option<Seq<u8>>,
)
    requires
        protocol matches Some(bytes) ==> bytes != vstd::utf8::encode_utf8(
            "ca.chead.remote-mouse.packets"@,
        ),
    ensures
        ({
            let verdict = request_verdict(permitted, protocol, origin);
            &&& verdict is Err
            &&& verdict->Err_0.status == 400
            &&& protocol is Some ==> verdict->Err_0.message
                == "Requested subprotocol not supported"@
            &&& protocol is None ==> verdict->Err_0.message == "Subprotocol not specified"@
        }),
{
}

/// What counts of a request is the first value of each of its two headers, or its lack.
pub proof fn law_first_values_count(permitted: Seq<String>, request: Request<()>)
    ensures
        ({
            let headers = request_headers(request);
            let protocol = if headers.contains_key("sec-websocket-protocol"@) {
                Some(headers["sec-websocket-protocol"@][0])
            } else {
                None
            };
            let origin = if headers.contains_key("origin"@) {
                Some(headers["origin"@][0])
            } else {
                None
            };
            is_accepted(permitted, request) <==> request_verdict(permitted, protocol, origin) is Ok
        }),
{
}

/// An accepted request is answered by the response that was prepared for it, which differs from it in
/// nothing but that the subprotocol is named, once.
pub proof fn law_accepting_answer(
    permitted: Seq<String>,
    request: Request<()>,
    response: Response<()>,
    answer: Result<Response<()>, Response<Option<String>>>,
)
    requires
        answers(permitted, request, response, answer),
    ensures
        answer is Ok <==> is_accepted(permitted, request),
        answer matches Ok(accepting) ==> {
            let before = response_headers(response);
            let after = response_headers(accepting);
            &&& response_status(accepting) == response_status(response)
            &&& response_version(accepting) == response_version(response)
            &&& response_extensions(accepting) == response_extensions(response)
            &&& after.contains_key("sec-websocket-protocol"@)
            &&& after["sec-websocket-protocol"@].len() == 1
            &&& after["sec-websocket-protocol"@][0] == vstd::utf8::encode_utf8(
                "ca.chead.remote-mouse.packets"@,
            )
            &&& forall|name: Seq<char>|
                name != "sec-websocket-protocol"@ ==> (#[trigger] after.contains_key(name)
                    <==> before.contains_key(name))
            &&& forall|name: Seq<char>|
                name != "sec-websocket-protocol"@ && before.contains_key(name)
                    ==> #[trigger] after[name] == before[name]
        },
{
}

/// The answer to a rejected request has the status and the explanation that are due to it, as plain
/// text.
pub proof fn law_rejecting_answer(
    permitted: Seq<String>,
    request: Request<()>,
    response: Response<()>,
    rejection: Response<Option<String>>,
)
    requires
        answers(permitted, request, response, Err(rejection)),
    ensures
        ({
            let headers = request_headers(request);
            let protocol = if headers.contains_key("sec-websocket-protocol"@) {
                Some(headers["sec-websocket-protocol"@][0])
            } else {
                None
            };
            let origin = if headers.contains_key("origin"@) {
                Some(headers["origin"@][0])
            } else {
                None
            };
            let verdict = request_verdict(permitted, protocol, origin);
            &&& verdict is Err
            &&& rejection_status(rejection) == verdict->Err_0.status
            &&& rejection_body(rejection) == Some(verdict->Err_0.message)
            &&& rejection_version(rejection) == (1u8, 1u8)
            &&& rejection_extension_count(rejection) == 0
            &&& forall|name: Seq<char>| #[trigger]
                rejection_headers(rejection).contains_key(name) <==> name == "content-type"@
            &&& rejection_headers(rejection)["content-type"@].len() == 1
            &&& rejection_headers(rejection)["content-type"@][0] == vstd::utf8::encode_utf8(
                "text/plain; charset=UTF-8"@,
            )
        }),
{
}

/// A decision stands for what it says, and the values that it is made on are the bytes given.
pub proof fn law_decisions_are_faithful(decision: Result<(), Rejection>, value: Option<&[u8]>)
    ensures
        decision is Ok <==> decision_contents(decision) is Ok,
        decision matches Err(rejection) ==> decision_contents(decision)->Err_0.status
            == rejection.status && decision_contents(decision)->Err_0.message
            == rejection.message@,
        value is None <==> value_contents(value) is None,
        value matches Some(bytes) ==> value_contents(value)->Some_0 == bytes@,
{
}

/// Headers with a single name and a single value are just that.
pub proof fn law_single_header(name: Seq<char>, value: Seq<u8>)
    ensures
        forall|other: Seq<char>| #[trigger]
            single_header(name, value).contains_key(other) <==> other == name,
        single_header(name, value)[name].len() == 1,
        single_header(name, value)[name][0] == value,
{
}

} // verus!
