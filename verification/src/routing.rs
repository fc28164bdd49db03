//! How the proxying server answers a request: the routing table built from
//! the configuration, the choice made from the `Host` header, the steps
//! taken towards the upstream server, and the replies it gives when it
//! cannot forward.
use crate::config::{Config, DomainConfig};
use crate::reply::{plain_reply, Reply, ReplyView, StatusErr, BAD_REQUEST, FOUND, NOT_FOUND};
use crate::strmap::StrMap;
use vstd::prelude::*;
use vstd::utf8::*;

verus! {

/// A byte that may stand in a header value read as text: a visible ASCII
/// character, a space or a tab.
pub open spec fn is_visible_ascii(b: u8) -> bool {
    (32 <= b && b < 127) || b == 9
}

/// A header value that reads as text: every byte is visible ASCII. This is
/// the test that `http::HeaderValue::to_str` makes before it hands out the
/// value as a `&str`.
pub open spec fn is_header_text(bytes: Seq<u8>) -> bool {
    forall|i: int| 0 <= i < bytes.len() ==> is_visible_ascii(#[trigger] bytes[i])
}

/// The text of a header value, one character per byte.
pub open spec fn header_text(bytes: Seq<u8>) -> Seq<char> {
    Seq::new(bytes.len(), |i: int| bytes[i] as char)
}

/// Whether a header value reads as text (see [`is_header_text`]).
pub fn header_value_is_text(value: &[u8]) -> (b: bool)
    ensures
        b == is_header_text(value@),
{
    let n = value.len();
    let mut i: usize = 0;
    while i < n
        invariant
            n == value@.len(),
            i <= n,
            forall|j: int| 0 <= j < i ==> is_visible_ascii(#[trigger] value@[j]),
        decreases n - i,
    {
        let b = value[i];
        if !((32 <= b && b < 127) || b == 9) {
            assert(!is_visible_ascii(value@[i as int]));
            return false;
        }
        i = i + 1;
    }
    true
}

/// The text of a header value is the only string whose UTF-8 encoding is
/// that value.
proof fn lemma_header_text_utf8(bytes: Seq<u8>)
    requires
        is_header_text(bytes),
    ensures
        encode_utf8(header_text(bytes)) == bytes,
        forall|k: Seq<char>| #[trigger] encode_utf8(k) == bytes ==> k == header_text(bytes),
{
    let t = header_text(bytes);
    assert forall|i: int| 0 <= i < t.len() implies '\0' <= #[trigger] t[i] <= '\u{7f}' by {
        assert(is_visible_ascii(bytes[i]));
    }
    assert(is_ascii_chars(t));
    is_ascii_chars_encode_utf8(t);
    assert forall|i: int| 0 <= i < bytes.len() implies #[trigger] encode_utf8(t)[i] == bytes[i] by {
        assert(is_visible_ascii(bytes[i]));
        assert(t[i] as u8 == encode_utf8(t)[i]);
    }
    assert(encode_utf8(t) =~= bytes);
    assert forall|k: Seq<char>| #[trigger] encode_utf8(k) == bytes implies k == t by {
        encode_utf8_decode_utf8(k);
        encode_utf8_decode_utf8(t);
    }
}

/// The routing table of a configuration: each host that has a proxy
/// section is bound to its upstream target; hosts without one are left out.
pub open spec fn proxy_routes_of(domains: Map<Seq<char>, DomainConfig>) -> Map<Seq<char>, String> {
    Map::new(
        |k: Seq<char>| domains.contains_key(k) && domains[k].proxy is Some,
        |k: Seq<char>| domains[k].proxy->0.target,
    )
}

/// The routing table restricted to the first `i` keys of the configuration.
spec fn routes_so_far(config: &Config, i: int) -> Map<Seq<char>, String> {
    Map::new(
        |k: Seq<char>|
            config.domains.key_seq().take(i).contains(k) && config.domains@[k].proxy is Some,
        |k: Seq<char>| config.domains@[k].proxy->0.target,
    )
}

/// Builds the routing table of a configuration (see [`proxy_routes_of`]).
pub fn proxy_routes(config: &Config) -> (routes: StrMap<String>)
    ensures
        routes@ == proxy_routes_of(config.domains@),
{
    let mut routes: StrMap<String> = StrMap::new();
    let n = config.domains.len();
    let mut i: usize = 0;
    assert(routes@ =~= routes_so_far(config, 0));
    while i < n
        invariant
            n == config.domains.key_seq().len(),
            i <= n,
            routes@ == routes_so_far(config, i as int),
        decreases n - i,
    {
        let key = config.domains.key_at(i);
        let domain = config.domains.value_at(i);
        let ghost ks = config.domains.key_seq();
        match &domain.proxy {
            Some(p) => {
                routes.insert(key.clone(), p.target.clone());
            },
            None => {},
        }
        let ghost t0 = ks.take(i as int);
        let ghost t1 = ks.take(i + 1);
        assert forall|k: Seq<char>| #[trigger] t1.contains(k) <==> t0.contains(k) || k == ks[i as int] by {
            if t1.contains(k) {
                let j = choose|j: int| 0 <= j < t1.len() && t1[j] == k;
                if j < i {
                    assert(t0[j] == k);
                }
            }
            if t0.contains(k) {
                let j = choose|j: int| 0 <= j < t0.len() && t0[j] == k;
                assert(t1[j] == k);
            }
            if k == ks[i as int] {
                assert(t1[i as int] == k);
            }
        }
        assert(routes@ =~= routes_so_far(config, i + 1));
        i = i + 1;
    }
    assert(config.domains.key_seq().take(n as int) =~= config.domains.key_seq());
    assert(routes@ =~= proxy_routes_of(config.domains@));
    routes
}

/// What the server does with a request, judged from its `Host` header.
#[derive(Debug)]
pub enum Route {
    /// No usable `Host` header: answer 400.
    BadRequest,
    /// The host has no upstream: answer 404.
    NotFound,
    /// Forward the request to this upstream address.
    Proxy(String),
}

pub enum RouteView {
    BadRequest,
    NotFound,
    Proxy(Seq<char>),
}

impl View for Route {
    type V = RouteView;

    open spec fn view(&self) -> RouteView {
        match self {
            Route::BadRequest => RouteView::BadRequest,
            Route::NotFound => RouteView::NotFound,
            Route::Proxy(t) => RouteView::Proxy(t@),
        }
    }
}

/// The route of a request whose `Host` header is `host` (`None` when the
/// request has none): a header that is not text is a bad request; a host
/// that the table binds is forwarded to its target; any other host is not found.
pub open spec fn route_for(routes: Map<Seq<char>, String>, host: Option<Seq<u8>>) -> RouteView {
    match host {
        None => RouteView::BadRequest,
        Some(h) => if !is_header_text(h) {
            RouteView::BadRequest
        } else if routes.contains_key(header_text(h)) {
            RouteView::Proxy(routes[header_text(h)]@)
        } else {
            RouteView::NotFound
        },
    }
}

pub open spec fn host_view(host: Option<&[u8]>) -> Option<Seq<u8>> {
    match host {
        Some(h) => Some(h@),
        None => None,
    }
}

/// Chooses the route of a request from the bytes of its `Host` header.
pub fn route(routes: &StrMap<String>, host: Option<&[u8]>) -> (r: Route)
    ensures
        r@ == route_for(routes@, host_view(host)),
{
    match host {
        None => Route::BadRequest,
        Some(h) => {
            if !header_value_is_text(h) {
                return Route::BadRequest;
            }
            proof {
                lemma_header_text_utf8(h@);
            }
            match routes.get_by_utf8(h) {
                Some(t) => Route::Proxy(t.clone()),
                None => {
                    assert(!routes@.contains_key(header_text(h@)));
                    Route::NotFound
                },
            }
        },
    }
}

/// The reply sent when the upstream server cannot be reached: 503 with the
/// text "Service Unavailable".
pub open spec fn unavailable_reply() -> ReplyView {
    ReplyView { status: 503, headers: Seq::empty(), body: "Service Unavailable"@ }
}

/// The reply of the redirecting server: 302 to `deuzo.me`, asking the client
/// to close the connection, with an empty body.
pub open spec fn redirect_reply() -> ReplyView {
    ReplyView {
        status: 302,
        headers: seq![("Location"@, "deuzo.me"@), ("Conection"@, "close"@)],
        body: Seq::empty(),
    }
}

/// Answers a request whose upstream server cannot be reached.
pub fn service_unavailable() -> (r: Reply)
    ensures
        r@ == unavailable_reply(),
{
    let r = Reply { status: 503, headers: Vec::new(), body: String::from_str("Service Unavailable") };
    assert(r@.headers =~= Seq::<(Seq<char>, Seq<char>)>::empty());
    r
}

/// Answers a request without a usable `Host` header: 400, empty body.
pub fn bad_request() -> (r: Reply)
    ensures
        r@ == plain_reply(BAD_REQUEST),
{
    StatusErr::res(BAD_REQUEST)
}

/// Answers a request for a host that has no upstream: 404, empty body.
pub fn not_found() -> (r: Reply)
    ensures
        r@ == plain_reply(NOT_FOUND),
{
    StatusErr::res(NOT_FOUND)
}

/// Answers every request of the redirecting server (see [`redirect_reply`]).
pub fn redirect() -> (r: Reply)
    ensures
        r@ == redirect_reply(),
{
    let mut headers: Vec<(String, String)> = Vec::new();
    headers.push((String::from_str("Location"), String::from_str("deuzo.me")));
    headers.push((String::from_str("Conection"), String::from_str("close")));
    let r = Reply { status: FOUND, headers, body: String::new() };
    assert(r@.headers =~= redirect_reply().headers);
    r
}

/// An event in the life of a request handled by the proxying server.
#[derive(Debug)]
pub enum ProxyEvent {
    /// A request arrived; the bytes of its `Host` header, if it has one.
    Request(Option<Vec<u8>>),
    /// The TCP connection to the upstream server succeeded or failed.
    Connected(bool),
    /// The HTTP/1 handshake with the upstream server succeeded or failed.
    HandshakeDone(bool),
}

pub enum ProxyEventView {
    Request(Option<Seq<u8>>),
    Connected(bool),
    HandshakeDone(bool),
}

impl View for ProxyEvent {
    type V = ProxyEventView;

    open spec fn view(&self) -> ProxyEventView {
        match self {
            ProxyEvent::Request(h) => ProxyEventView::Request(
                match h {
                    Some(v) => Some(v@),
                    None => None,
                },
            ),
            ProxyEvent::Connected(ok) => ProxyEventView::Connected(*ok),
            ProxyEvent::HandshakeDone(ok) => ProxyEventView::HandshakeDone(*ok),
        }
    }
}

/// What the server does next for a request.
#[derive(Debug)]
pub enum ProxyStep {
    /// Answer the client with this reply; the request is done.
    Respond(Reply),
    /// Open a TCP connection to this upstream address.
    Connect(String),
    /// Perform the HTTP/1 handshake over the open connection.
    Handshake,
    /// Send the request upstream and hand the upstream response to the client.
    Forward,
}

pub enum ProxyStepView {
    Respond(ReplyView),
    Connect(Seq<char>),
    Handshake,
    Forward,
}

impl View for ProxyStep {
    type V = ProxyStepView;

    open spec fn view(&self) -> ProxyStepView {
        match self {
            ProxyStep::Respond(r) => ProxyStepView::Respond(r@),
            ProxyStep::Connect(t) => ProxyStepView::Connect(t@),
            ProxyStep::Handshake => ProxyStepView::Handshake,
            ProxyStep::Forward => ProxyStepView::Forward,
        }
    }
}

/// The step that follows an event: a request is routed by its host (400,
/// 404, or a connection to the host's upstream); an established connection
/// leads to the handshake and a completed handshake to forwarding; a failed
/// connection or handshake is answered with 503 "Service Unavailable".
pub open spec fn proxy_next(routes: Map<Seq<char>, String>, event: ProxyEventView) -> ProxyStepView {
    match event {
        ProxyEventView::Request(host) => match route_for(routes, host) {
            RouteView::BadRequest => ProxyStepView::Respond(plain_reply(BAD_REQUEST)),
            RouteView::NotFound => ProxyStepView::Respond(plain_reply(NOT_FOUND)),
            RouteView::Proxy(target) => ProxyStepView::Connect(target),
        },
        ProxyEventView::Connected(ok) => if ok {
            ProxyStepView::Handshake
        } else {
            ProxyStepView::Respond(unavailable_reply())
        },
        ProxyEventView::HandshakeDone(ok) => if ok {
            ProxyStepView::Forward
        } else {
            ProxyStepView::Respond(unavailable_reply())
        },
    }
}

/// Decides the next step of a request from the event that just happened.
pub fn proxy_step(routes: &StrMap<String>, event: ProxyEvent) -> (s: ProxyStep)
    ensures
        s@ == proxy_next(routes@, event@),
{
    match event {
        ProxyEvent::Request(host) => {
            let r = match &host {
                Some(v) => route(routes, Some(v.as_slice())),
                None => route(routes, None),
            };
            match r {
                Route::BadRequest => ProxyStep::Respond(bad_request()),
                Route::NotFound => ProxyStep::Respond(not_found()),
                Route::Proxy(target) => ProxyStep::Connect(target),
            }
        },
        ProxyEvent::Connected(ok) => {
            if ok {
                ProxyStep::Handshake
            } else {
                ProxyStep::Respond(service_unavailable())
            }
        },
        ProxyEvent::HandshakeDone(ok) => {
            if ok {
                ProxyStep::Forward
            } else {
                ProxyStep::Respond(service_unavailable())
            }
        },
    }
}

/// The port the server listens on when none is given.
pub open spec fn default_port() -> Seq<char> {
    "3000"@
}

/// The port to listen on: the one given, else 3000.
pub fn port_or_default(port: Option<String>) -> (p: String)
    ensures
        p@ == match port {
            Some(q) => q@,
            None => default_port(),
        },
{
    match port {
        Some(q) => q,
        None => String::from_str("3000"),
    }
}

/// The interface the server binds: every interface when it serves TLS,
/// the loopback interface otherwise.
pub open spec fn listen_host(tls: bool) -> Seq<char> {
    if tls {
        "[::]"@
    } else {
        "127.0.0.1"@
    }
}

/// The address to listen on: the interface chosen by `tls`, a colon, the port.
pub fn listen_address(tls: bool, port: &str) -> (a: String)
    ensures
        a@ == listen_host(tls) + ":"@ + port@,
{
    let host = if tls {
        String::from_str("[::]")
    } else {
        String::from_str("127.0.0.1")
    };
    host.concat(":").concat(port)
}

} // verus!
