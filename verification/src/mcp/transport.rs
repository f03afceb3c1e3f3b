//! Transport decisions: which HTTP requests are admitted, what they are answered
//! with, how a stdio line becomes a message, and the open/closed state of a stdio
//! connection.  Reading and writing bytes is left to the caller.
use vstd::prelude::*;
use crate::mcp::error::Error;
use crate::text::{concat2, str_eq, trim, trimmed};

verus! {

/// Whether some entry of `allowed` equals `o`.
pub open spec fn listed(allowed: Seq<String>, o: Seq<char>) -> bool {
    exists|i: int| 0 <= i < allowed.len() && (#[trigger] allowed[i])@ == o
}

/// The origin rule: an empty list admits everything; otherwise the request must
/// carry an `Origin` header equal (exactly, case included) to an entry.
pub open spec fn origin_ok(allowed: Seq<String>, origin: Option<Seq<char>>) -> bool {
    allowed.len() == 0 || match origin {
        Some(o) => listed(allowed, o),
        None => false,
    }
}

/// The bearer rule: without a configured token everything passes; otherwise the
/// `Authorization` header must read `Bearer <token>`.
pub open spec fn auth_ok(expected: Option<String>, authorization: Option<Seq<char>>) -> bool {
    match expected {
        None => true,
        Some(t) => authorization == Some("Bearer "@ + t@),
    }
}

/// The view of an optional string slice.
pub open spec fn opt_str(o: Option<&str>) -> Option<Seq<char>> {
    match o {
        Some(s) => Some(s@),
        None => None,
    }
}

/// Checks the `Origin` header (absent, or not readable as text) against the
/// allow-list (DNS-rebinding protection).
pub fn check_origin(allowed: &Vec<String>, origin: Option<&str>) -> (r: bool)
    ensures
        r == origin_ok(allowed@, opt_str(origin)),
{
    if allowed.len() == 0 {
        return true;
    }
    match origin {
        None => false,
        Some(o) => {
            let mut i: usize = 0;
            while i < allowed.len()
                invariant
                    i <= allowed@.len(),
                    allowed@.len() > 0,
                    opt_str(origin) == Some(o@),
                    forall|k: int| 0 <= k < i ==> (#[trigger] allowed@[k])@ != o@,
                decreases allowed@.len() - i,
            {
                if str_eq(allowed[i].as_str(), o) {
                    assert(allowed@[i as int]@ == o@);
                    assert(listed(allowed@, o@));
                    return true;
                }
                i = i + 1;
            }
            false
        },
    }
}

/// Checks the `Authorization` header against the configured bearer token.
pub fn check_auth(expected: &Option<String>, authorization: Option<&str>) -> (r: bool)
    ensures
        r == auth_ok(*expected, opt_str(authorization)),
{
    match expected {
        None => true,
        Some(token) => match authorization {
            None => false,
            Some(h) => {
                let want = concat2("Bearer ", token.as_str());
                str_eq(h, want.as_str())
            },
        },
    }
}

/// Whether an HTTP request may reach the server.
#[derive(Debug, Clone, Copy, PartialEq, Eq, Structural)]
pub enum Admission {
    /// The origin is not allowed (403).
    Forbidden,
    /// The bearer token is missing or wrong (401).
    Unauthorized,
    Admitted,
}

/// The HTTP transport's request gate.
pub struct HttpServerTransport;

impl HttpServerTransport {
    /// The origin is checked first, then the bearer token.
    pub fn admission(
        allowed: &Vec<String>,
        expected: &Option<String>,
        origin: Option<&str>,
        authorization: Option<&str>,
    ) -> (r: Admission)
        ensures
            !origin_ok(allowed@, opt_str(origin)) ==> r == Admission::Forbidden,
            origin_ok(allowed@, opt_str(origin)) && !auth_ok(*expected, opt_str(authorization)) ==> r
                == Admission::Unauthorized,
            origin_ok(allowed@, opt_str(origin)) && auth_ok(*expected, opt_str(authorization)) ==> r
                == Admission::Admitted,
    {
        if !check_origin(allowed, origin) {
            Admission::Forbidden
        } else if !check_auth(expected, authorization) {
            Admission::Unauthorized
        } else {
            Admission::Admitted
        }
    }

    /// The status and body a refused request gets.
    pub fn refusal(a: Admission) -> (r: Option<(u16, &'static str)>)
        ensures
            a == Admission::Forbidden ==> r == Some((403u16, "origin not allowed")),
            a == Admission::Unauthorized ==> r == Some((401u16, "unauthorized")),
            a == Admission::Admitted ==> r is None,
    {
        match a {
            Admission::Forbidden => Some((403, "origin not allowed")),
            Admission::Unauthorized => Some((401, "unauthorized")),
            Admission::Admitted => None,
        }
    }

    /// The status of an admitted post: 400 when the body is no JSON-RPC message,
    /// 200 with the reply for a request, 202 for anything without a reply.
    pub fn post_status(parsed: bool, replied: bool) -> (s: u16)
        ensures
            !parsed ==> s == 400,
            parsed && replied ==> s == 200,
            parsed && !replied ==> s == 202,
    {
        if !parsed {
            400
        } else if replied {
            200
        } else {
            202
        }
    }
}

/// The message text of a line read from stdio: the line without surrounding
/// whitespace, or nothing for a blank (keep-alive) line.
pub fn message_text(line: &str) -> (r: Option<String>)
    ensures
        match r {
            Some(t) => t@ == trimmed(line@) && t@.len() > 0,
            None => trimmed(line@).len() == 0,
        },
{
    let t = trim(line);
    if t.unicode_len() == 0 {
        None
    } else {
        Some(t)
    }
}

/// The writing half of a stdio connection.
pub struct StdioWriter<W> {
    pub writer: W,
    pub closed: bool,
}

impl<W> StdioWriter<W> {
    /// Whether the half has been closed.
    pub open spec fn is_closed_spec(&self) -> bool {
        self.closed
    }

    /// An open writer.
    pub fn new(writer: W) -> (w: StdioWriter<W>)
        ensures
            !w.is_closed_spec(),
            w.writer == writer,
    {
        StdioWriter { writer, closed: false }
    }

    /// Whether the half has been closed.
    pub fn is_closed(&self) -> (b: bool)
        ensures
            b == self.is_closed_spec(),
    {
        self.closed
    }

    /// Sending is refused once closed.
    pub fn ready(&self) -> (r: Result<(), Error>)
        ensures
            self.is_closed_spec() ==> r == Err::<(), Error>(Error::TransportClosed),
            !self.is_closed_spec() ==> r is Ok,
    {
        if self.closed {
            Err(Error::TransportClosed)
        } else {
            Ok(())
        }
    }

    /// Marks the half closed; true when it was open, so the stream should now be
    /// shut down.  Closing twice does nothing.
    pub fn close(&mut self) -> (was_open: bool)
        ensures
            final(self).is_closed_spec(),
            was_open == !old(self).is_closed_spec(),
            final(self).writer == old(self).writer,
    {
        let was_open = !self.closed;
        self.closed = true;
        was_open
    }
}

/// The reading half of a stdio connection.
pub struct StdioReader<R> {
    pub reader: R,
}

/// A stdio connection: both halves, open until closed.
pub struct StdioTransport<R, W> {
    pub reader: R,
    pub writer: StdioWriter<W>,
}

impl<R, W> StdioTransport<R, W> {
    /// An open connection.
    pub fn new(reader: R, writer: W) -> (t: StdioTransport<R, W>)
        ensures
            !t.writer.is_closed_spec(),
            t.reader == reader,
            t.writer.writer == writer,
    {
        StdioTransport { reader, writer: StdioWriter::new(writer) }
    }

    /// Reading yields nothing more once closed.
    pub fn can_receive(&self) -> (b: bool)
        ensures
            b == !self.writer.is_closed_spec(),
    {
        !self.writer.is_closed()
    }

    /// Independent halves for separate tasks; the writer starts open.
    pub fn into_parts(self) -> (parts: (StdioReader<R>, StdioWriter<W>))
        ensures
            parts.0.reader == self.reader,
            parts.1.writer == self.writer.writer,
            !parts.1.is_closed_spec(),
    {
        let w = self.writer.writer;
        (StdioReader { reader: self.reader }, StdioWriter::new(w))
    }
}

} // verus!
