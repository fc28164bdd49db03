//! Properties of the library as a whole, stated over the spec functions that
//! the operations' contracts use.
use crate::config::{config_locations, DomainConfig, SearchStep, SearchStepView};
use crate::pem::{
    certificates_after, is_key, pem_certificates, pem_first_key, pem_next_of, pem_read_one,
    KeySearch, PemError, PemItem, PemItemView, PemNext,
};
use crate::reply::{
    plain_reply, Reply, ReplyView, BAD_REQUEST, FOUND, INTERNAL_SERVER_ERROR, NOT_FOUND,
    SERVICE_UNAVAILABLE,
};
use crate::routing::{
    default_port, header_text, host_view, is_header_text, is_visible_ascii, listen_host,
    proxy_next, proxy_routes_of, redirect_reply, route_for, unavailable_reply, ProxyEvent,
    ProxyEventView, ProxyStep, ProxyStepView, Route, RouteView,
};
use vstd::prelude::*;

verus! {

/// A map read back after a write gives the written value for the written
/// key, and what it held before for every other key.
pub proof fn law_read_after_write<V>(m: Map<Seq<char>, V>, k: Seq<char>, v: V, other: Seq<char>)
    requires
        other != k,
    ensures
        m.insert(k, v).contains_key(k),
        m.insert(k, v)[k] == v,
        m.insert(k, v).contains_key(other) == m.contains_key(other),
        m.contains_key(other) ==> m.insert(k, v)[other] == m[other],
{
}

/// A host that the configuration gives a proxy section is forwarded to
/// exactly that section's target.
pub proof fn law_configured_host_is_proxied(domains: Map<Seq<char>, DomainConfig>, host: Seq<u8>)
    requires
        is_header_text(host),
        domains.contains_key(header_text(host)),
        domains[header_text(host)].proxy is Some,
    ensures
        route_for(proxy_routes_of(domains), Some(host)) == RouteView::Proxy(
            domains[header_text(host)].proxy->0.target@,
        ),
{
}

/// A host that the configuration does not list, or lists without a proxy
/// section, is answered "not found".
pub proof fn law_unconfigured_host_is_not_found(domains: Map<Seq<char>, DomainConfig>, host: Seq<u8>)
    requires
        is_header_text(host),
        !domains.contains_key(header_text(host)) || domains[header_text(host)].proxy is None,
    ensures
        route_for(proxy_routes_of(domains), Some(host)) == RouteView::NotFound,
{
}

/// A request without a `Host` header, or whose `Host` header is not text, is
/// a bad request whatever the routing table.
pub proof fn law_unusable_host_is_bad_request(routes: Map<Seq<char>, String>, host: Option<Seq<u8>>)
    requires
        host matches Some(h) ==> !is_header_text(h),
    ensures
        route_for(routes, host) == RouteView::BadRequest,
{
}

/// The proxy only ever forwards to a target that its routing table holds.
pub proof fn law_proxy_targets_come_from_table(
    routes: Map<Seq<char>, String>,
    host: Option<Seq<u8>>,
    target: Seq<char>,
)
    requires
        route_for(routes, host) == RouteView::Proxy(target),
    ensures
        exists|k: Seq<char>| routes.contains_key(k) && #[trigger] routes[k]@ == target,
{
    let h = host->0;
    assert(routes.contains_key(header_text(h)) && routes[header_text(h)]@ == target);
}

/// Every reply that the proxy gives in place of forwarding is 400 or 404
/// with an empty body for a request it cannot route, or 503 "Service
/// Unavailable" when the upstream server cannot be reached.
pub proof fn law_refusals(routes: Map<Seq<char>, String>, event: ProxyEventView, reply: ReplyView)
    requires
        proxy_next(routes, event) == ProxyStepView::Respond(reply),
    ensures
        reply == plain_reply(BAD_REQUEST) || reply == plain_reply(NOT_FOUND) || reply
            == unavailable_reply(),
        event is Request ==> reply != unavailable_reply(),
        !(event is Request) ==> reply == unavailable_reply(),
{
}

/// A request is forwarded only once the handshake with the upstream server
/// has completed, and a connection is only opened to the target that the
/// request's host routes to.
pub proof fn law_forwarding_order(routes: Map<Seq<char>, String>, event: ProxyEventView)
    ensures
        proxy_next(routes, event) == ProxyStepView::Forward <==> event
            == ProxyEventView::HandshakeDone(true),
        proxy_next(routes, event) == ProxyStepView::Handshake <==> event
            == ProxyEventView::Connected(true),
        proxy_next(routes, event) matches ProxyStepView::Connect(t) ==> (event matches ProxyEventView::Request(
            host,
        ) && route_for(routes, host) == RouteView::Proxy(t)),
{
}

/// The whole life of a request whose host routes to `target`: a connection
/// is opened to `target`; then, if it opens, the handshake; then, if that
/// succeeds, forwarding. Any failure on the way is answered 503.
pub proof fn law_request_lifecycle(
    routes: Map<Seq<char>, String>,
    host: Seq<u8>,
    connected: bool,
    handshaken: bool,
)
    requires
        is_header_text(host),
        routes.contains_key(header_text(host)),
    ensures
        proxy_next(routes, ProxyEventView::Request(Some(host))) == ProxyStepView::Connect(
            routes[header_text(host)]@,
        ),
        proxy_next(routes, ProxyEventView::Connected(connected)) == if connected {
            ProxyStepView::Handshake
        } else {
            ProxyStepView::Respond(unavailable_reply())
        },
        proxy_next(routes, ProxyEventView::HandshakeDone(handshaken)) == if handshaken {
            ProxyStepView::Forward
        } else {
            ProxyStepView::Respond(unavailable_reply())
        },
{
}

/// What the key search finds is always a private key section.
pub proof fn law_found_key_is_a_key(input: Seq<u8>)
    ensures
        pem_first_key(input) matches KeySearch::Found(item) ==> is_key(item),
    decreases input.len(),
{
    match pem_read_one(input) {
        PemNext::Section(item, rest) => {
            if !is_key(item) && rest.len() < input.len() {
                law_found_key_is_a_key(rest);
            }
        },
        _ => {},
    }
}

/// A byte is header text exactly when it is a space, a visible ASCII
/// character (33 to 126) or a tab; a value is header text exactly when all
/// its bytes are.
pub proof fn law_header_text_bytes(b: u8, bytes: Seq<u8>)
    ensures
        is_visible_ascii(b) <==> (32 <= b && b < 127) || b == 9,
        is_header_text(bytes) <==> forall|i: int|
            0 <= i < bytes.len() ==> (32 <= #[trigger] bytes[i] && bytes[i] < 127) || bytes[i]
                == 9,
{
}

/// The text of a header value has one character per byte, each with the
/// byte's code.
pub proof fn law_header_text_chars(bytes: Seq<u8>)
    ensures
        header_text(bytes).len() == bytes.len(),
        forall|i: int| 0 <= i < bytes.len() ==> #[trigger] header_text(bytes)[i] == bytes[i] as char,
{
}

/// A `Host` value made of visible ASCII, spaces and tabs is routed by its
/// text: to the bound target when the table binds it, "not found" otherwise;
/// it is never a bad request.
pub proof fn law_text_hosts_are_routed(routes: Map<Seq<char>, String>, host: Seq<u8>)
    requires
        forall|i: int|
            0 <= i < host.len() ==> (32 <= #[trigger] host[i] && host[i] < 127) || host[i] == 9,
    ensures
        route_for(routes, Some(host)) != RouteView::BadRequest,
        routes.contains_key(header_text(host)) ==> route_for(routes, Some(host)) == RouteView::Proxy(
            routes[header_text(host)]@,
        ),
        !routes.contains_key(header_text(host)) ==> route_for(routes, Some(host))
            == RouteView::NotFound,
{
}

/// A `Host` value holding a byte that is neither visible ASCII, a space nor
/// a tab is a bad request, whatever the table; so is a request without one.
pub proof fn law_non_text_hosts_are_bad_requests(
    routes: Map<Seq<char>, String>,
    host: Seq<u8>,
    i: int,
)
    requires
        0 <= i < host.len(),
        !((32 <= host[i] && host[i] < 127) || host[i] == 9),
    ensures
        route_for(routes, Some(host)) == RouteView::BadRequest,
        route_for(routes, None) == RouteView::BadRequest,
{
    assert(!is_visible_ascii(host[i]));
}

/// The bytes of a present header are passed on unchanged.
pub proof fn law_host_view(h: &[u8])
    ensures
        host_view(Some(h)) == Some(h@),
        host_view(None) == None::<Seq<u8>>,
{
}

/// The answer to a request follows its route: a bad request is answered 400
/// and an unrouted host 404, both with no header and an empty body; a routed
/// host leads to a connection to its target.
pub proof fn law_request_answers(routes: Map<Seq<char>, String>, host: Option<Seq<u8>>)
    ensures
        route_for(routes, host) == RouteView::BadRequest ==> (proxy_next(
            routes,
            ProxyEventView::Request(host),
        ) matches ProxyStepView::Respond(r) && r.status == 400 && r.headers.len() == 0
            && r.body.len() == 0),
        route_for(routes, host) == RouteView::NotFound ==> (proxy_next(
            routes,
            ProxyEventView::Request(host),
        ) matches ProxyStepView::Respond(r) && r.status == 404 && r.headers.len() == 0
            && r.body.len() == 0),
        route_for(routes, host) matches RouteView::Proxy(t) ==> proxy_next(
            routes,
            ProxyEventView::Request(host),
        ) == ProxyStepView::Connect(t),
{
}

/// An upstream failure is answered 503 with the text "Service Unavailable"
/// and no header; an upstream success moves on to the handshake, then to
/// forwarding.
pub proof fn law_upstream_answers(routes: Map<Seq<char>, String>, ok: bool)
    ensures
        ok ==> proxy_next(routes, ProxyEventView::Connected(ok)) == ProxyStepView::Handshake,
        ok ==> proxy_next(routes, ProxyEventView::HandshakeDone(ok)) == ProxyStepView::Forward,
        !ok ==> (proxy_next(routes, ProxyEventView::Connected(ok)) matches ProxyStepView::Respond(r)
            && r.status == 503 && r.headers.len() == 0 && r.body == "Service Unavailable"@),
        !ok ==> (proxy_next(routes, ProxyEventView::HandshakeDone(ok)) matches ProxyStepView::Respond(
            r,
        ) && r.status == 503 && r.headers.len() == 0 && r.body == "Service Unavailable"@),
{
}

/// The canned replies: the status codes, the plain replies (no header, empty
/// body), the 503 text and the redirect's two header fields.
pub proof fn law_replies(status: u16)
    ensures
        FOUND == 302 && BAD_REQUEST == 400 && NOT_FOUND == 404 && INTERNAL_SERVER_ERROR == 500
            && SERVICE_UNAVAILABLE == 503,
        plain_reply(status).status == status,
        plain_reply(status).headers.len() == 0,
        plain_reply(status).body.len() == 0,
        unavailable_reply().status == 503,
        unavailable_reply().headers.len() == 0,
        unavailable_reply().body == "Service Unavailable"@,
        redirect_reply().status == 302,
        redirect_reply().headers.len() == 2,
        redirect_reply().headers[0] == ("Location"@, "deuzo.me"@),
        redirect_reply().headers[1] == ("Conection"@, "close"@),
        redirect_reply().body.len() == 0,
{
}

/// The routing table holds exactly the hosts that have a proxy section,
/// each bound to that section's target.
pub proof fn law_routing_table(domains: Map<Seq<char>, DomainConfig>, k: Seq<char>)
    ensures
        proxy_routes_of(domains).contains_key(k) <==> domains.contains_key(k)
            && domains[k].proxy is Some,
        proxy_routes_of(domains).contains_key(k) ==> proxy_routes_of(domains)[k]
            == domains[k].proxy->0.target,
{
}

/// The configuration is looked for in `../config.json`, then `./config.json`.
/// The server listens on port 3000 unless told otherwise, on every interface
/// when it serves TLS and on the loopback interface otherwise.
pub proof fn law_locations_and_addresses()
    ensures
        config_locations().len() == 2,
        config_locations()[0] == "../config.json"@,
        config_locations()[1] == "./config.json"@,
        default_port() == "3000"@,
        listen_host(true) == "[::]"@,
        listen_host(false) == "127.0.0.1"@,
{
}

/// The reader's outcome is taken as it comes: a section with what follows
/// it, the end of the input, or a malformed input.
pub proof fn law_reader_outcome(r: Result<Option<(PemItem, &[u8])>, PemError>)
    ensures
        r matches Ok(Some((item, rest))) ==> pem_next_of(r) == PemNext::Section(item@, rest@),
        r matches Ok(None) ==> pem_next_of(r) == PemNext::End,
        r is Err ==> pem_next_of(r) == PemNext::Invalid,
{
}

/// Every certificate section adds its DER bytes at the end of the
/// certificates found so far; every other section adds nothing.
pub proof fn law_certificate_step(found: Seq<Seq<u8>>, item: PemItemView)
    ensures
        item matches PemItemView::Certificate(der) ==> certificates_after(found, item) == found.push(
            der,
        ),
        !(item is Certificate) ==> certificates_after(found, item) == found,
{
}

/// The certificates of some PEM input: none at its end, and none when it is
/// malformed.
pub proof fn law_certificates_at_end(input: Seq<u8>)
    ensures
        pem_read_one(input) == PemNext::End ==> pem_certificates(input) == Some(
            Seq::<Seq<u8>>::empty(),
        ),
        pem_read_one(input) == PemNext::Invalid ==> pem_certificates(input) is None,
{
}

/// After a certificate section come that certificate and then the
/// certificates of the rest, whatever section follows; after any other
/// section, just the certificates of the rest. A malformed rest makes the
/// whole input malformed.
pub proof fn law_certificates_in_order(input: Seq<u8>, item: PemItemView, rest: Seq<u8>)
    requires
        pem_read_one(input) == PemNext::Section(item, rest),
        rest.len() < input.len(),
    ensures
        item matches PemItemView::Certificate(der) ==> (pem_certificates(rest) matches Some(t)
            ==> pem_certificates(input) == Some(seq![der] + t)),
        !(item is Certificate) ==> pem_certificates(input) == pem_certificates(rest),
        pem_certificates(rest) is None ==> pem_certificates(input) is None,
{
}

/// A section is a key exactly when it is a PKCS #1, PKCS #8 or SEC1 key.
pub proof fn law_key_kinds(item: PemItemView)
    ensures
        is_key(item) <==> (item is Pkcs1Key || item is Pkcs8Key || item is Sec1Key),
{
}

/// The key search: nothing at the end of the input, and failure on
/// malformed input.
pub proof fn law_first_key_at_end(input: Seq<u8>)
    ensures
        pem_read_one(input) == PemNext::End ==> pem_first_key(input) == KeySearch::Missing,
        pem_read_one(input) == PemNext::Invalid ==> pem_first_key(input) == KeySearch::Invalid,
{
}

/// The first section that is a key is found; any other section is passed
/// over, wherever it stands.
pub proof fn law_first_key_skips_other_sections(input: Seq<u8>, item: PemItemView, rest: Seq<u8>)
    requires
        pem_read_one(input) == PemNext::Section(item, rest),
    ensures
        (item is Pkcs1Key || item is Pkcs8Key || item is Sec1Key) ==> pem_first_key(input)
            == KeySearch::Found(item),
        !(item is Pkcs1Key || item is Pkcs8Key || item is Sec1Key) && rest.len() < input.len()
            ==> pem_first_key(input) == pem_first_key(rest),
{
}

/// A reply is seen as its status, its header fields in order (name and value
/// as text) and its body text.
pub proof fn law_reply_view(r: Reply)
    ensures
        r@.status == r.status,
        r@.body == r.body@,
        r@.headers.len() == r.headers@.len(),
        forall|i: int|
            0 <= i < r.headers@.len() ==> #[trigger] r@.headers[i] == (
            r.headers@[i].0@,
            r.headers@[i].1@,
            ),
{
}

/// Routes, events, steps and sections are seen variant for variant, with
/// their strings and bytes as text and byte sequences.
pub proof fn law_variant_views(
    route: Route,
    event: ProxyEvent,
    step: ProxyStep,
    item: PemItem,
    search: SearchStep,
)
    ensures
        route is BadRequest <==> route@ is BadRequest,
        route is NotFound <==> route@ is NotFound,
        route matches Route::Proxy(t) ==> route@ == RouteView::Proxy(t@),
        event matches ProxyEvent::Request(Some(h)) ==> event@ == ProxyEventView::Request(Some(h@)),
        event matches ProxyEvent::Request(None) ==> event@ == ProxyEventView::Request(None),
        event matches ProxyEvent::Connected(ok) ==> event@ == ProxyEventView::Connected(ok),
        event matches ProxyEvent::HandshakeDone(ok) ==> event@ == ProxyEventView::HandshakeDone(ok),
        step matches ProxyStep::Respond(r) ==> step@ == ProxyStepView::Respond(r@),
        step matches ProxyStep::Connect(t) ==> step@ == ProxyStepView::Connect(t@),
        step is Handshake <==> step@ is Handshake,
        step is Forward <==> step@ is Forward,
        item matches PemItem::Certificate(d) ==> item@ == PemItemView::Certificate(d@),
        item matches PemItem::Pkcs1Key(d) ==> item@ == PemItemView::Pkcs1Key(d@),
        item matches PemItem::Pkcs8Key(d) ==> item@ == PemItemView::Pkcs8Key(d@),
        item matches PemItem::Sec1Key(d) ==> item@ == PemItemView::Sec1Key(d@),
        item is Other <==> item@ is Other,
        search matches SearchStep::Try(p) ==> search@ == SearchStepView::Try(p@),
        search is UseOpened <==> search@ is UseOpened,
        search is NotFound <==> search@ is NotFound,
{
}

} // verus!
