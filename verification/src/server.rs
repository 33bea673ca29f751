//! The per-connection rules of the web server: resolving a request
//! path to a file below the content root, and turning what the file
//! system yielded into the response to send. The transport and the
//! file read themselves stay outside; this module decides everything
//! about them.

use vstd::prelude::*;
use vstd::string::StrSliceExecFns;
use vstd::string::StringExecFns;
use vstd::utf8::{decode_utf8, encode_utf8, valid_utf8};

use crate::assoc::pair_views;
use crate::http::{spec_mime_type, HttpError, Request, Response};
use crate::listener::ConnectionEvent;
use crate::pool::Threadpool;
use crate::paths::{
    extension_of, push_component, set_extension, spec_extension, spec_push_component,
    spec_set_extension,
};
use crate::parser::spec_parse;
use crate::strutil::utf8_to_string;

verus! {

/// Options of a server: where content lives and how many workers run.
pub struct WebOptions {
    /// The content root against which request paths resolve.
    pub host_path: String,
    /// The worker pool size.
    pub threads: usize,
}

impl Default for WebOptions {
    /// Content under `./src`, four workers. A caller that knows the
    /// machine's parallelism can put it in `threads` instead.
    fn default() -> (r: WebOptions)
        ensures
            r.host_path@ == "./src"@,
            r.threads == 4,
    {
        WebOptions { host_path: String::from_str("./src"), threads: 4 }
    }
}

/// A request path resolved to a path below the content root, with the
/// decision whether the file is Markdown to render.
pub struct Resolved {
    /// The path relative to the content root.
    pub rel: String,
    /// Whether the file is rendered as Markdown.
    pub render: bool,
}

/// The request path with one leading separator removed.
pub open spec fn spec_strip_lead(p: Seq<char>) -> Seq<char> {
    if p.len() > 0 && p[0] == '/' {
        p.skip(1)
    } else {
        p
    }
}

/// How a request path resolves: an `.html` request is rewritten to the
/// Markdown source and rendered; a path without extension gets the
/// default document `index.md` and is rendered; anything else is
/// served verbatim.
pub open spec fn spec_resolve(p: Seq<char>) -> (Seq<char>, bool) {
    let s = spec_strip_lead(p);
    match spec_extension(s) {
        Some(e) => if e == "html"@ {
            (spec_set_extension(s, "md"@), true)
        } else {
            (s, false)
        },
        None => (spec_push_component(s, "index.md"@), true),
    }
}

/// Resolves a request path to the relative file path to read and the
/// render decision.
pub fn resolve_request_path(path: &str) -> (r: Resolved)
    ensures
        r.rel@ == spec_resolve(path@).0,
        r.render == spec_resolve(path@).1,
{
    let n = path.unicode_len();
    let stripped: String = if n > 0 && path.get_char(0) == '/' {
        let s = path.substring_char(1, n).to_owned();
        proof {
            assert(s@ =~= path@.skip(1));
        }
        s
    } else {
        path.to_owned()
    };
    match extension_of(stripped.as_str()) {
        Some(e) => {
            if crate::strutil::str_eq(e.as_str(), "html") {
                let rel = set_extension(stripped.as_str(), "md");
                Resolved { rel, render: true }
            } else {
                Resolved { rel: stripped, render: false }
            }
        },
        None => {
            let rel = push_component(stripped.as_str(), "index.md");
            Resolved { rel, render: true }
        },
    }
}

/// Parses the raw bytes of a connection's initial read and resolves
/// the requested path. A malformed request yields the error, and the
/// connection is abandoned without a response.
pub fn plan_request(data: &Vec<u8>) -> (r: Result<Resolved, HttpError>)
    ensures
        r is Ok <==> crate::http::spec_parse_request_bytes(data@) is Some,
        r matches Ok(res) ==> ({
            let req = crate::http::spec_parse_request_bytes(data@).unwrap();
            res.rel@ == spec_resolve(req.path).0 && res.render == spec_resolve(req.path).1
        }),
{
    let req = match Request::parse(data) {
        Ok(req) => req,
        Err(e) => {
            return Err(e);
        },
    };
    Ok(resolve_request_path(req.path.as_str()))
}

/// What the file system yielded for the resolved path, as a plain
/// value: the file's bytes, a missing file, or any other read failure.
pub enum FileOutcome {
    /// The file was read whole.
    Data(Vec<u8>),
    /// No file exists at the path.
    NotFound,
    /// The read failed for another reason.
    OtherError,
}

/// The Content-Type headers of a successful response: one header
/// derived from the resolved path's extension, or none when the path
/// has no extension.
pub open spec fn spec_ct_headers(rel: Seq<char>) -> Seq<(Seq<char>, Seq<char>)> {
    match spec_extension(rel) {
        Some(e) => seq![("Content-Type"@, spec_mime_type(e))],
        None => Seq::empty(),
    }
}

/// The plain-text error headers.
pub open spec fn spec_plain_headers() -> Seq<(Seq<char>, Seq<char>)> {
    seq![("Content-Type"@, "text/plain"@)]
}

/// The response for a resolved request and a file outcome, as status,
/// headers and body bytes:
/// - a readable file marked for rendering becomes the rendered
///   document with status 200, unless its bytes are not valid UTF-8,
///   which is a 500;
/// - a readable unmarked file is served verbatim with status 200;
/// - a missing file is a 404 with body `404 Not Found`;
/// - any other read failure is a 500 with body
///   `500 Internal Server Error`.
pub open spec fn spec_respond(rel: Seq<char>, render: bool, outcome: &FileOutcome) -> (
    u16,
    Seq<(Seq<char>, Seq<char>)>,
    Seq<u8>,
) {
    match outcome {
        FileOutcome::Data(d) => {
            if render {
                if valid_utf8(d@) {
                    (200, spec_ct_headers(rel), encode_utf8(spec_parse(decode_utf8(d@))))
                } else {
                    (500, spec_plain_headers(), encode_utf8("500 Internal Server Error"@))
                }
            } else {
                (200, spec_ct_headers(rel), d@)
            }
        },
        FileOutcome::NotFound => (404, spec_plain_headers(), encode_utf8("404 Not Found"@)),
        FileOutcome::OtherError => (
            500,
            spec_plain_headers(),
            encode_utf8("500 Internal Server Error"@),
        ),
    }
}

fn error_response(status: u16, body: &str) -> (res: Response)
    ensures
        res.status == status,
        pair_views(res.headers@) == spec_plain_headers(),
        res.body@ == encode_utf8(body@),
{
    let mut res = Response::new();
    res.set_status(status);
    res.write_header("Content-Type", "text/plain");
    let bytes = body.as_bytes_vec();
    res.append_body(bytes.as_slice());
    proof {
        assert(pair_views(res.headers@) =~= spec_plain_headers());
        assert(res.body@ =~= encode_utf8(body@));
    }
    res
}

/// Builds the response for a resolved request once the file system
/// has answered.
pub fn respond(resolved: &Resolved, outcome: &FileOutcome) -> (res: Response)
    ensures
        res.status == spec_respond(resolved.rel@, resolved.render, outcome).0,
        pair_views(res.headers@) == spec_respond(resolved.rel@, resolved.render, outcome).1,
        res.body@ == spec_respond(resolved.rel@, resolved.render, outcome).2,
{
    match outcome {
        FileOutcome::Data(d) => {
            let body: Vec<u8> = if resolved.render {
                match utf8_to_string(d) {
                    Some(text) => {
                        let doc = crate::parser::parse(text.as_str());
                        doc.as_str().as_bytes_vec()
                    },
                    None => {
                        return error_response(500, "500 Internal Server Error");
                    },
                }
            } else {
                d.clone()
            };
            let mut res = Response::new();
            res.set_status(200);
            match extension_of(resolved.rel.as_str()) {
                Some(e) => {
                    let ct = crate::http::mime_type(e.as_str());
                    res.write_header("Content-Type", ct);
                    proof {
                        assert(pair_views(res.headers@) =~= spec_ct_headers(resolved.rel@));
                    }
                },
                None => {
                    proof {
                        assert(pair_views(res.headers@) =~= spec_ct_headers(resolved.rel@));
                    }
                },
            }
            res.append_body(body.as_slice());
            res
        },
        FileOutcome::NotFound => error_response(404, "404 Not Found"),
        FileOutcome::OtherError => error_response(500, "500 Internal Server Error"),
    }
}

/// The connection identities handed over before the stream's terminal
/// event, in acceptance order.
pub open spec fn accepted_before_close(evs: Seq<ConnectionEvent>) -> Seq<u64>
    decreases evs.len(),
{
    if evs.len() == 0 {
        Seq::empty()
    } else {
        match evs[0] {
            ConnectionEvent::Accepted(id) => seq![id] + accepted_before_close(evs.drop_first()),
            ConnectionEvent::AcceptError(_) => accepted_before_close(evs.drop_first()),
            ConnectionEvent::Closed => Seq::empty(),
        }
    }
}

/// The dispatcher's control loop over the acceptor's event stream:
/// one job per accepted connection, submitted in acceptance order;
/// errors are passed over; nothing is submitted once the terminal
/// event is seen; and the pool is then torn down gracefully, so every
/// job already queued is still handed to a worker.
pub fn handle_connections(events: &Vec<ConnectionEvent>, pool: &mut Threadpool) -> (served: usize)
    requires
        old(pool).wf(),
        old(pool).is_accepting(),
    ensures
        final(pool).wf(),
        !final(pool).is_accepting(),
        final(pool).pending().len() == 0,
        final(pool).spec_size() == old(pool).spec_size(),
        final(pool).submitted() == old(pool).submitted() + accepted_before_close(events@),
        final(pool).executed() == old(pool).executed() + old(pool).pending()
            + accepted_before_close(events@),
        served == accepted_before_close(events@).len(),
{
    let ghost abc = accepted_before_close(events@);
    let n = events.len();
    let mut i: usize = 0;
    let mut count: usize = 0;
    let mut closed = false;
    let ghost mut took: Seq<u64> = Seq::empty();
    proof {
        assert(events@.skip(0) =~= events@);
        assert(pool.submitted() =~= old(pool).submitted() + took);
        assert(pool.pending() =~= old(pool).pending() + took);
    }
    while i < n && !closed
        invariant
            i <= n,
            n == events@.len(),
            count <= i,
            count == took.len(),
            pool.wf(),
            pool.is_accepting(),
            pool.spec_size() == old(pool).spec_size(),
            pool.executed() == old(pool).executed(),
            pool.submitted() == old(pool).submitted() + took,
            pool.pending() == old(pool).pending() + took,
            !closed ==> abc =~= took + accepted_before_close(events@.skip(i as int)),
            closed ==> abc =~= took,
        decreases n - i,
    {
        let ghost rest = events@.skip(i as int);
        proof {
            assert(rest[0] == events@[i as int]);
            assert(rest.drop_first() =~= events@.skip(i + 1 as int));
        }
        match events[i] {
            ConnectionEvent::Accepted(id) => {
                let ghost prev = took;
                let _ = pool.execute(id);
                count += 1;
                proof {
                    took = took.push(id);
                    assert(pool.submitted() =~= old(pool).submitted() + took);
                    assert(pool.pending() =~= old(pool).pending() + took);
                    assert(accepted_before_close(rest) =~= seq![id] + accepted_before_close(
                        rest.drop_first(),
                    ));
                    assert(abc =~= took + accepted_before_close(events@.skip(i + 1 as int)));
                }
            },
            ConnectionEvent::AcceptError(_) => {
            },
            ConnectionEvent::Closed => {
                closed = true;
                proof {
                    assert(accepted_before_close(rest) =~= Seq::<u64>::empty());
                    assert(abc =~= took);
                }
            },
        }
        i += 1;
    }
    proof {
        if !closed {
            assert(events@.skip(n as int) =~= Seq::<ConnectionEvent>::empty());
            assert(accepted_before_close(events@.skip(n as int)) =~= Seq::<u64>::empty());
            assert(abc =~= took);
        }
    }
    pool.shutdown();
    proof {
        assert(pool.executed() =~= old(pool).executed() + (old(pool).pending() + took));
        assert(pool.executed() =~= old(pool).executed() + old(pool).pending() + took);
    }
    count
}

} // verus!
