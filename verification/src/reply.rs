//! Replies that the proxy produces itself, as opposed to the responses it
//! forwards from upstream: a status code, header fields and a text body.
use vstd::prelude::*;

verus! {

/// 302 Found.
pub const FOUND: u16 = 302;

/// 400 Bad Request.
pub const BAD_REQUEST: u16 = 400;

/// 404 Not Found.
pub const NOT_FOUND: u16 = 404;

/// 500 Internal Server Error.
pub const INTERNAL_SERVER_ERROR: u16 = 500;

/// 503 Service Unavailable.
pub const SERVICE_UNAVAILABLE: u16 = 503;

/// A reply built by the proxy. `status` is a valid HTTP status code
/// (100 to 999), `headers` are name/value pairs in order, `body` is the text sent.
#[derive(Debug)]
pub struct Reply {
    pub status: u16,
    pub headers: Vec<(String, String)>,
    pub body: String,
}

/// The content of a reply.
pub struct ReplyView {
    pub status: u16,
    pub headers: Seq<(Seq<char>, Seq<char>)>,
    pub body: Seq<char>,
}

impl View for Reply {
    type V = ReplyView;

    open spec fn view(&self) -> ReplyView {
        ReplyView {
            status: self.status,
            headers: self.headers@.map_values(|h: (String, String)| (h.0@, h.1@)),
            body: self.body@,
        }
    }
}

/// A reply with the given status, no header fields and an empty body.
pub open spec fn plain_reply(status: u16) -> ReplyView {
    ReplyView { status, headers: Seq::empty(), body: Seq::empty() }
}

/// Canned error replies of the request handlers. Each takes the error that
/// caused it, which only serves for reporting, and answers with an empty body.
pub struct StatusErr;

impl StatusErr {
    /// An internal error: 500 with an empty body.
    pub fn internal_err<T>(er: T) -> (r: Reply)
        ensures
            r@ == plain_reply(INTERNAL_SERVER_ERROR),
    {
        Self::res(INTERNAL_SERVER_ERROR)
    }

    /// An internal error raised by the HTTP layer: 500 with an empty body.
    pub fn hy_internal_err<T>(er: T) -> (r: Reply)
        ensures
            r@ == plain_reply(INTERNAL_SERVER_ERROR),
    {
        Self::res(INTERNAL_SERVER_ERROR)
    }

    /// The requested resource does not exist: 404 with an empty body.
    pub fn not_found<T>(er: T) -> (r: Reply)
        ensures
            r@ == plain_reply(NOT_FOUND),
    {
        Self::res(NOT_FOUND)
    }

    /// The request is malformed: 400 with an empty body.
    pub fn bad_request<T>(er: T) -> (r: Reply)
        ensures
            r@ == plain_reply(BAD_REQUEST),
    {
        Self::res(BAD_REQUEST)
    }

    /// The upstream server could not be reached or failed: 500 with an empty body.
    pub fn proxy_failed<T>(er: T) -> (r: Reply)
        ensures
            r@ == plain_reply(INTERNAL_SERVER_ERROR),
    {
        Self::res(INTERNAL_SERVER_ERROR)
    }

    /// A reply with the given status and an empty body.
    pub fn res(status: u16) -> (r: Reply)
        requires
            100 <= status <= 999,
        ensures
            r@ == plain_reply(status),
    {
        let r = Reply { status, headers: Vec::new(), body: String::new() };
        assert(r@.headers =~= Seq::<(Seq<char>, Seq<char>)>::empty());
        r
    }
}

} // verus!
