//! The HTTP/1.1 request/response codec: parsing a raw byte buffer
//! into a structured request, and accumulating a response that is
//! serialized once into the bytes to hand to the transport.

use vstd::prelude::*;
use vstd::string::StrSliceExecFns;
use vstd::string::StringExecFns;
use vstd::utf8::{decode_utf8, encode_utf8, valid_utf8};

use crate::assoc::{
    assoc_lookup, assoc_set, lemma_assoc_lookup_last, pair_views, spec_assoc_lookup,
    spec_assoc_set,
};
use crate::strutil::{
    dec_str, find_sub, first_index_of, first_sub, lines_vec, lower_of, spec_lines,
    spec_split, spec_trim, split_char, str_eq, str_views, to_lower, to_upper, trim_str, u16_dec,
    upper_of, utf8_to_string,
};

verus! {

/// A request that the codec could not parse; the connection is
/// abandoned without a response.
#[derive(Clone, Copy, Debug, PartialEq, Eq, Structural)]
pub enum HttpError {
    MalformedRequest,
}

/// The fixed content-type table: Markdown and HTML serve as HTML,
/// known text and image extensions map to their types, and every
/// other extension falls back to plain text.
pub open spec fn spec_mime_type(ext: Seq<char>) -> Seq<char> {
    if ext == "md"@ || ext == "html"@ {
        "text/html"@
    } else if ext == "css"@ {
        "text/css"@
    } else if ext == "js"@ {
        "text/javascript"@
    } else if ext == "mjs"@ {
        "application/javascript"@
    } else if ext == "png"@ {
        "image/png"@
    } else if ext == "jpg"@ || ext == "jpeg"@ {
        "image/jpeg"@
    } else if ext == "ico"@ {
        "image/x-icon"@
    } else {
        "text/plain"@
    }
}

/// Looks up the content type for a file extension.
pub fn mime_type(ext: &str) -> (r: &'static str)
    ensures
        r@ == spec_mime_type(ext@),
{
    if str_eq(ext, "md") {
        "text/html"
    } else if str_eq(ext, "html") {
        "text/html"
    } else if str_eq(ext, "css") {
        "text/css"
    } else if str_eq(ext, "js") {
        "text/javascript"
    } else if str_eq(ext, "mjs") {
        "application/javascript"
    } else if str_eq(ext, "png") {
        "image/png"
    } else if str_eq(ext, "jpg") {
        "image/jpeg"
    } else if str_eq(ext, "jpeg") {
        "image/jpeg"
    } else if str_eq(ext, "ico") {
        "image/x-icon"
    } else {
        "text/plain"
    }
}

/// The content-type table is total: whatever the extension, the result
/// is one of the table's strings, and an extension outside the table
/// always maps to plain text.
pub proof fn lemma_mime_type_total(ext: Seq<char>)
    ensures
        spec_mime_type(ext) == "text/html"@ || spec_mime_type(ext) == "text/css"@
            || spec_mime_type(ext) == "text/javascript"@ || spec_mime_type(ext)
            == "application/javascript"@ || spec_mime_type(ext) == "image/png"@
            || spec_mime_type(ext) == "image/jpeg"@ || spec_mime_type(ext) == "image/x-icon"@
            || spec_mime_type(ext) == "text/plain"@,
        (ext != "md"@ && ext != "html"@ && ext != "css"@ && ext != "js"@ && ext != "mjs"@ && ext
            != "png"@ && ext != "jpg"@ && ext != "jpeg"@ && ext != "ico"@) ==> spec_mime_type(ext)
            == "text/plain"@,
{
}

/// The separator between the header block and the body.
pub open spec fn crlfcrlf() -> Seq<char> {
    seq!['\r', '\n', '\r', '\n']
}

/// One header line, split at its first colon: the name is trimmed and
/// lower-cased, the value trimmed. A line without a colon is malformed.
pub open spec fn parse_header_line(l: Seq<char>) -> Option<(Seq<char>, Seq<char>)> {
    let i = first_index_of(l, ':');
    if i < 0 {
        None
    } else {
        Some((lower_of(spec_trim(l.take(i), false)), spec_trim(l.skip(i + 1), false)))
    }
}

/// All header lines parsed in order; `None` as soon as one is malformed.
pub open spec fn parse_header_lines(ls: Seq<Seq<char>>) -> Option<Seq<(Seq<char>, Seq<char>)>>
    decreases ls.len(),
{
    if ls.len() == 0 {
        Some(Seq::empty())
    } else {
        match parse_header_line(ls[0]) {
            None => None,
            Some(p) => match parse_header_lines(ls.drop_first()) {
                None => None,
                Some(rest) => Some(seq![p] + rest),
            },
        }
    }
}

/// The lines of a header block after the start line.
pub open spec fn rest_lines(data: Seq<char>) -> Seq<Seq<char>> {
    if spec_lines(data).len() == 0 {
        Seq::empty()
    } else {
        spec_lines(data).drop_first()
    }
}

/// The views of a header list.
pub open spec fn header_views(hs: Seq<(String, String)>) -> Seq<(Seq<char>, Seq<char>)> {
    pair_views(hs)
}

/// The value of the last header with the given name, if any: on
/// duplicate names the last occurrence wins.
pub open spec fn spec_header_lookup(hs: Seq<(Seq<char>, Seq<char>)>, name: Seq<char>) -> Option<
    Seq<char>,
> {
    spec_assoc_lookup(hs, name)
}

/// The mathematical content of a parsed request.
pub struct RequestModel {
    pub method: Seq<char>,
    pub path: Seq<char>,
    pub version: Seq<char>,
    pub headers: Seq<(Seq<char>, Seq<char>)>,
    pub body: Seq<char>,
}

/// What parsing a request text yields: the first line's first three
/// space-separated tokens (method upper-cased), the headers of the
/// block before the first blank line, and the rest as the body.
/// `None` on any malformation.
pub open spec fn spec_parse_request(t: Seq<char>) -> Option<RequestModel> {
    let ls = spec_lines(t);
    let i = first_sub(t, crlfcrlf());
    if ls.len() == 0 {
        None
    } else {
        let toks = spec_split(ls[0], ' ');
        if toks.len() < 3 {
            None
        } else if i < 0 {
            None
        } else {
            match parse_header_lines(rest_lines(t.take(i))) {
                None => None,
                Some(hs) => Some(
                    RequestModel {
                        method: upper_of(toks[0]),
                        path: toks[1],
                        version: toks[2],
                        headers: hs,
                        body: t.skip(i + 4),
                    },
                ),
            }
        }
    }
}

/// Request parsing on the raw bytes of the initial read: the buffer
/// must be valid UTF-8, then parse as text.
pub open spec fn spec_parse_request_bytes(b: Seq<u8>) -> Option<RequestModel> {
    if valid_utf8(b) {
        spec_parse_request(decode_utf8(b))
    } else {
        None
    }
}

/// A parsed HTTP request.
#[derive(Debug)]
pub struct Request {
    /// The upper-cased method token.
    pub method: String,
    /// The path exactly as received.
    pub path: String,
    /// The protocol version token.
    pub version: String,
    /// Lower-cased header names with their values, in line order.
    pub headers: Vec<(String, String)>,
    /// Whatever text followed the first blank line of the initial read.
    pub body: String,
}

impl View for Request {
    type V = RequestModel;

    open spec fn view(&self) -> RequestModel {
        RequestModel {
            method: self.method@,
            path: self.path@,
            version: self.version@,
            headers: header_views(self.headers@),
            body: self.body@,
        }
    }
}

impl Request {
    /// Parses the start line: the first line of the text must have at
    /// least three space-separated tokens; the method is upper-cased,
    /// path and version are taken verbatim.
    pub fn parse_start_line(data: &str) -> (r: Result<(String, String, String), HttpError>)
        ensures
            r is Ok <==> (spec_lines(data@).len() > 0 && spec_split(spec_lines(data@)[0], ' ').len()
                >= 3),
            r matches Ok(t) ==> ({
                let toks = spec_split(spec_lines(data@)[0], ' ');
                t.0@ == upper_of(toks[0]) && t.1@ == toks[1] && t.2@ == toks[2]
            }),
    {
        let lines = lines_vec(data);
        if lines.len() == 0 {
            return Err(HttpError::MalformedRequest);
        }
        let parts = split_char(lines[0].as_str(), ' ');
        if parts.len() < 3 {
            return Err(HttpError::MalformedRequest);
        }
        let method = to_upper(parts[0].as_str());
        let path = parts[1].clone();
        let version = parts[2].clone();
        Ok((method, path, version))
    }

    /// Parses every line after the first as a header line; each must
    /// hold a colon. Names are trimmed and lower-cased, values trimmed,
    /// and pairs are kept in line order.
    pub fn parse_headers(data: &str) -> (r: Result<Vec<(String, String)>, HttpError>)
        ensures
            r is Ok <==> parse_header_lines(rest_lines(data@)) is Some,
            r matches Ok(hs) ==> parse_header_lines(rest_lines(data@)) == Some(
                header_views(hs@),
            ),
    {
        let lines = lines_vec(data);
        let mut headers: Vec<(String, String)> = Vec::new();
        let n = lines.len();
        if n == 0 {
            proof {
                assert(header_views(headers@) =~= Seq::<(Seq<char>, Seq<char>)>::empty());
            }
            return Ok(headers);
        }
        let mut i: usize = 1;
        while i < n
            invariant
                1 <= i <= n,
                n == lines@.len(),
                str_views(lines@) == spec_lines(data@),
                parse_header_lines(str_views(lines@).subrange(1, i as int)) == Some(
                    header_views(headers@),
                ),
            decreases n - i,
        {
            let line = &lines[i];
            match Self::parse_one_header(line.as_str()) {
                None => {
                    proof {
                        assert(str_views(lines@).drop_first().take(i - 1 as int) =~= str_views(
                            lines@,
                        ).subrange(1, i as int));
                        assert(str_views(lines@).drop_first()[i - 1 as int] == lines@[
                            i as int]@);
                        lemma_header_lines_prefix_none(str_views(lines@).drop_first(), i - 1);
                    }
                    return Err(HttpError::MalformedRequest);
                },
                Some(p) => {
                    let ghost prev = headers@;
                    headers.push(p);
                    proof {
                        lemma_header_lines_snoc(str_views(lines@).subrange(1, i as int), lines@[
                            i as int]@);
                        assert(str_views(lines@).subrange(1, i as int).push(lines@[i as int]@)
                            =~= str_views(lines@).subrange(1, i + 1 as int));
                        assert(header_views(headers@) =~= header_views(prev).push((p.0@, p.1@)));
                    }
                },
            }
            i += 1;
        }
        proof {
            assert(str_views(lines@).subrange(1, n as int) =~= rest_lines(data@));
        }
        Ok(headers)
    }

    /// Parses one header line, or reports it malformed.
    fn parse_one_header(line: &str) -> (r: Option<(String, String)>)
        ensures
            r is Some <==> parse_header_line(line@) is Some,
            r matches Some(p) ==> parse_header_line(line@) == Some((p.0@, p.1@)),
    {
        let n = line.unicode_len();
        match crate::strutil::find_char(line, ':') {
            None => None,
            Some(i) => {
                let raw_name = line.substring_char(0, i);
                let raw_val = line.substring_char(i + 1, n);
                proof {
                    assert(raw_name@ =~= line@.take(i as int));
                    assert(raw_val@ =~= line@.skip(i + 1 as int));
                }
                let name0 = trim_str(raw_name, false);
                let name = to_lower(name0.as_str());
                let value = trim_str(raw_val, false);
                Some((name, value))
            },
        }
    }

    /// Parses a raw request buffer: the bytes must be valid UTF-8 and
    /// hold a well-formed start line, header block and blank line.
    pub fn parse(data: &Vec<u8>) -> (r: Result<Request, HttpError>)
        ensures
            r is Ok <==> spec_parse_request_bytes(data@) is Some,
            r matches Ok(req) ==> spec_parse_request_bytes(data@) == Some(req@),
            r matches Err(e) ==> e == HttpError::MalformedRequest,
    {
        let text = match utf8_to_string(data) {
            Some(t) => t,
            None => {
                return Err(HttpError::MalformedRequest);
            },
        };
        let start = match Self::parse_start_line(text.as_str()) {
            Ok(t) => t,
            Err(e) => {
                return Err(e);
            },
        };
        let sep = "\r\n\r\n";
        proof {
            reveal_strlit("\r\n\r\n");
            assert(sep@ =~= crlfcrlf());
        }
        let n = text.as_str().unicode_len();
        let i = match find_sub(text.as_str(), sep) {
            Some(i) => i,
            None => {
                return Err(HttpError::MalformedRequest);
            },
        };
        let head = text.as_str().substring_char(0, i);
        proof {
            assert(head@ =~= text@.take(i as int));
        }
        let headers = match Self::parse_headers(head) {
            Ok(hs) => hs,
            Err(e) => {
                return Err(e);
            },
        };
        let body = text.as_str().substring_char(i + 4, n).to_owned();
        proof {
            assert(body@ =~= text@.skip(i + 4 as int));
        }
        Ok(
            Request {
                method: start.0,
                path: start.1,
                version: start.2,
                headers,
                body,
            },
        )
    }

    /// Looks the given name up among the parsed headers; on duplicates
    /// the last occurrence wins.
    pub fn header_value(&self, name: &str) -> (r: Option<&String>)
        ensures
            match r {
                Some(v) => spec_header_lookup(header_views(self.headers@), name@) == Some(v@),
                None => spec_header_lookup(header_views(self.headers@), name@) is None,
            },
    {
        assoc_lookup(&self.headers, name)
    }
}

/// The reason phrase of the fixed table; statuses outside the table
/// carry an empty reason.
pub open spec fn spec_status_message(status: u16) -> Seq<char> {
    if status == 200 {
        "Ok"@
    } else if status == 404 {
        "Not Found"@
    } else if status == 500 {
        "Internal Server Error"@
    } else {
        ""@
    }
}

/// One serialized `Name: value\r\n` line per header, in order.
pub open spec fn spec_headers_block(hs: Seq<(Seq<char>, Seq<char>)>) -> Seq<char>
    decreases hs.len(),
{
    if hs.len() == 0 {
        Seq::empty()
    } else {
        hs[0].0 + ": "@ + hs[0].1 + "\r\n"@ + spec_headers_block(hs.drop_first())
    }
}

/// The whole textual head of a response: status line, header lines,
/// and the blank line before the body.
pub open spec fn spec_head(status: u16, hs: Seq<(Seq<char>, Seq<char>)>) -> Seq<char> {
    "HTTP/1.1 "@ + dec_str(status as nat) + " "@ + spec_status_message(status) + "\r\n"@
        + spec_headers_block(hs) + "\r\n"@
}

/// Setting a header: the first pair with the same name is replaced in
/// place; a fresh name is appended at the end.
pub open spec fn spec_header_set(
    hs: Seq<(Seq<char>, Seq<char>)>,
    name: Seq<char>,
    value: Seq<char>,
) -> Seq<(Seq<char>, Seq<char>)> {
    spec_assoc_set(hs, name, value)
}

/// A response under construction: a status, the headers set so far,
/// and the accumulated body bytes. Serialization happens once, in
/// `send`, which consumes the response.
#[derive(Debug)]
pub struct Response {
    /// The status code; 200 until set otherwise.
    pub status: u16,
    /// Header names with their values, in the order first set.
    pub headers: Vec<(String, String)>,
    /// The accumulated body bytes.
    pub body: Vec<u8>,
}

impl Response {
    /// A fresh response: status 200, no headers, empty body.
    pub fn new() -> (r: Response)
        ensures
            r.status == 200,
            r.headers@ == Seq::<(String, String)>::empty(),
            r.body@ == Seq::<u8>::empty(),
    {
        let r = Response { status: 200, headers: Vec::new(), body: Vec::new() };
        proof {
            assert(r.headers@ =~= Seq::<(String, String)>::empty());
            assert(r.body@ =~= Seq::<u8>::empty());
        }
        r
    }

    /// Replaces the status code.
    pub fn set_status(&mut self, status: u16)
        ensures
            final(self).status == status,
            final(self).headers == old(self).headers,
            final(self).body == old(self).body,
    {
        self.status = status;
    }

    /// Sets a header: a header already set under the same name is
    /// overwritten in place, a new name is appended.
    pub fn write_header(&mut self, header: &str, value: &str)
        ensures
            final(self).status == old(self).status,
            final(self).body == old(self).body,
            header_views(final(self).headers@) == spec_header_set(
                header_views(old(self).headers@),
                header@,
                value@,
            ),
    {
        assoc_set(&mut self.headers, header, value);
    }

    /// Appends bytes at the end of the body.
    pub fn append_body(&mut self, data: &[u8])
        ensures
            final(self).status == old(self).status,
            final(self).headers == old(self).headers,
            final(self).body@ == old(self).body@ + data@,
    {
        self.body.extend_from_slice(data);
    }

    /// The reason phrase for a status code.
    pub fn status_message(status: u16) -> (r: String)
        ensures
            r@ == spec_status_message(status),
    {
        if status == 200 {
            String::from_str("Ok")
        } else if status == 404 {
            String::from_str("Not Found")
        } else if status == 500 {
            String::from_str("Internal Server Error")
        } else {
            String::from_str("")
        }
    }

    fn headers_block_from(hs: &Vec<(String, String)>, i: usize) -> (r: String)
        requires
            i <= hs@.len(),
        ensures
            r@ == spec_headers_block(header_views(hs@).skip(i as int)),
        decreases hs@.len() - i,
    {
        let n = hs.len();
        if i == n {
            proof {
                assert(header_views(hs@).skip(i as int) =~= Seq::<(Seq<char>, Seq<char>)>::empty());
            }
            String::new()
        } else {
            let mut r = hs[i].0.clone();
            r.append(": ");
            r.append(hs[i].1.as_str());
            r.append("\r\n");
            let rest = Self::headers_block_from(hs, i + 1);
            r.append(rest.as_str());
            proof {
                let views = header_views(hs@);
                assert(views.skip(i as int).drop_first() =~= views.skip(i + 1 as int));
                assert(views.skip(i as int)[0] == (hs@[i as int].0@, hs@[i as int].1@));
            }
            r
        }
    }

    /// Serializes the response once: the textual head as UTF-8 bytes,
    /// then the body bytes, ready to be written to the transport.
    /// Taking the response by value makes a second send impossible.
    pub fn send(self) -> (out: Vec<u8>)
        ensures
            out@ == encode_utf8(spec_head(self.status, header_views(self.headers@))) + self.body@,
    {
        let mut head = String::from_str("HTTP/1.1 ");
        let code = u16_dec(self.status);
        head.append(code.as_str());
        head.append(" ");
        let msg = Self::status_message(self.status);
        head.append(msg.as_str());
        head.append("\r\n");
        let block = Self::headers_block_from(&self.headers, 0);
        head.append(block.as_str());
        head.append("\r\n");
        proof {
            assert(header_views(self.headers@).skip(0) =~= header_views(self.headers@));
            assert(head@ =~= spec_head(self.status, header_views(self.headers@)));
        }
        let mut out = head.as_str().as_bytes_vec();
        let mut body = self.body;
        out.append(&mut body);
        out
    }
}

/// The value a lookup returns is the one of the last matching header:
/// with duplicate names, the last occurrence wins.
pub proof fn lemma_header_lookup_last(
    hs: Seq<(Seq<char>, Seq<char>)>,
    name: Seq<char>,
    j: int,
)
    requires
        0 <= j < hs.len(),
        hs[j].0 == name,
        forall|k: int| j < k < hs.len() ==> hs[k].0 != name,
    ensures
        spec_header_lookup(hs, name) == Some(hs[j].1),
{
    lemma_assoc_lookup_last(hs, name, j);
}

/// A valid start line `METHOD PATH VERSION` splits back into exactly
/// its three tokens: parsing round-trips them with no further change.
pub proof fn lemma_start_line_round_trip(m: Seq<char>, p: Seq<char>, v: Seq<char>)
    requires
        !m.contains(' '),
        !p.contains(' '),
        !v.contains(' '),
    ensures
        spec_split(m + " "@ + p + " "@ + v, ' ').len() == 3,
        spec_split(m + " "@ + p + " "@ + v, ' ')[0] == m,
        spec_split(m + " "@ + p + " "@ + v, ' ')[1] == p,
        spec_split(m + " "@ + p + " "@ + v, ' ')[2] == v,
{
    reveal_strlit(" ");
    let line = m + " "@ + p + " "@ + v;
    assert(" "@ =~= seq![' ']);
    assert(line =~= m + seq![' '] + (p + seq![' '] + v));
    crate::strutil::lemma_split_append(m, ' ', p + seq![' '] + v);
    crate::strutil::lemma_split_append(p, ' ', v);
    crate::strutil::lemma_split_no_sep(v, ' ');
}

/// The first line of a text that begins `line + "\r\n"` is `line`.
pub proof fn lemma_first_line(line: Seq<char>, rest: Seq<char>)
    requires
        !line.contains('\n'),
        line.len() == 0 || line.last() != '\r',
    ensures
        spec_lines(line + "\r\n"@ + rest).len() >= 1,
        spec_lines(line + "\r\n"@ + rest)[0] == line,
{
    reveal_strlit("\r\n");
    assert("\r\n"@ =~= seq!['\r', '\n']);
    let t = line + "\r\n"@ + rest;
    let lcr = line.push('\r');
    assert(t =~= lcr + seq!['\n'] + rest);
    assert(!lcr.contains('\n')) by {
        if lcr.contains('\n') {
            let i = choose|i: int| 0 <= i < lcr.len() && lcr[i] == '\n';
            if i < line.len() {
                assert(line[i] == '\n');
            } else {
                assert(lcr[i] == '\r');
            }
        }
    }
    crate::strutil::lemma_split_append(lcr, '\n', rest);
    crate::strutil::lemma_split_len(rest, '\n');
    let parts = spec_split(t, '\n');
    assert(parts[0] == lcr);
    assert(parts.len() >= 2);
    assert(parts.drop_last()[0] == lcr);
    assert(crate::strutil::strip_cr(lcr) =~= line);
    let main = parts.drop_last().map_values(|l: Seq<char>| crate::strutil::strip_cr(l));
    assert(main[0] == line);
    assert(spec_lines(t)[0] == main[0]);
}

/// The whole of the round trip: a request text whose first line is the
/// valid start line `m + " " + p + " " + v` hands exactly `m`, `p` and
/// `v` back as the three tokens that `parse_start_line` returns.
pub proof fn lemma_parse_recovers_start_line(
    m: Seq<char>,
    p: Seq<char>,
    v: Seq<char>,
    rest: Seq<char>,
)
    requires
        !m.contains(' ') && !m.contains('\r') && !m.contains('\n'),
        !p.contains(' ') && !p.contains('\r') && !p.contains('\n'),
        !v.contains(' ') && !v.contains('\r') && !v.contains('\n'),
    ensures
        ({
            let t = m + " "@ + p + " "@ + v + "\r\n"@ + rest;
            let ls = spec_lines(t);
            ls.len() > 0 && spec_split(ls[0], ' ').len() >= 3 && spec_split(ls[0], ' ')[0] == m
                && spec_split(ls[0], ' ')[1] == p && spec_split(ls[0], ' ')[2] == v
        }),
{
    reveal_strlit(" ");
    let line = m + " "@ + p + " "@ + v;
    let t = m + " "@ + p + " "@ + v + "\r\n"@ + rest;
    assert(t =~= line + "\r\n"@ + rest);
    assert(" "@ =~= seq![' ']);
    assert(!line.contains('\n')) by {
        if line.contains('\n') {
            let i = choose|i: int| 0 <= i < line.len() && line[i] == '\n';
            if i < m.len() {
                assert(m[i] == '\n');
            } else if i == m.len() {
                assert(line[i] == ' ');
            } else if i < m.len() + 1 + p.len() {
                assert(p[i - m.len() - 1] == '\n');
            } else if i == m.len() + 1 + p.len() {
                assert(line[i] == ' ');
            } else {
                assert(v[i - m.len() - p.len() - 2] == '\n');
            }
        }
    }
    assert(line.len() == 0 || line.last() != '\r') by {
        if line.len() > 0 && line.last() == '\r' {
            if v.len() > 0 {
                assert(v.last() == '\r');
            } else {
                assert(line.last() == ' ');
            }
        }
    }
    lemma_first_line(line, rest);
    lemma_start_line_round_trip(m, p, v);
}

/// Parsing header lines stops with `None` as soon as one line in the
/// prefix is malformed.
proof fn lemma_header_lines_prefix_none(ls: Seq<Seq<char>>, k: int)
    requires
        0 <= k < ls.len(),
        parse_header_line(ls[k]) is None,
        parse_header_lines(ls.take(k)) is Some,
    ensures
        parse_header_lines(ls) is None,
    decreases k,
{
    if k == 0 {
        assert(parse_header_line(ls[0]) is None);
        assert(parse_header_lines(ls) is None);
    } else {
        assert(ls.take(k)[0] == ls[0]);
        assert(parse_header_line(ls[0]) is Some);
        assert(ls.drop_first()[k - 1] == ls[k]);
        assert(ls.take(k).drop_first() =~= ls.drop_first().take(k - 1));
        assert(parse_header_lines(ls.take(k).drop_first()) is Some);
        lemma_header_lines_prefix_none(ls.drop_first(), k - 1);
        assert(parse_header_lines(ls.drop_first()) is None);
    }
}

/// Parsing header lines extends by one parsed pair at the end.
proof fn lemma_header_lines_snoc(ls: Seq<Seq<char>>, l: Seq<char>)
    requires
        parse_header_lines(ls) is Some,
        parse_header_line(l) is Some,
    ensures
        parse_header_lines(ls.push(l)) == Some(
            parse_header_lines(ls).unwrap().push(parse_header_line(l).unwrap()),
        ),
    decreases ls.len(),
{
    reveal_with_fuel(parse_header_lines, 3);
    if ls.len() == 0 {
        assert(ls.push(l)[0] == l);
        assert(ls.push(l).drop_first() =~= Seq::<Seq<char>>::empty());
        assert(seq![parse_header_line(l).unwrap()] + Seq::<(Seq<char>, Seq<char>)>::empty()
            =~= parse_header_lines(ls).unwrap().push(parse_header_line(l).unwrap()));
    } else {
        assert(ls.push(l)[0] == ls[0]);
        assert(ls.push(l).drop_first() =~= ls.drop_first().push(l));
        lemma_header_lines_snoc(ls.drop_first(), l);
        assert(seq![parse_header_line(ls[0]).unwrap()] + parse_header_lines(
            ls.drop_first(),
        ).unwrap().push(parse_header_line(l).unwrap()) =~= parse_header_lines(
            ls,
        ).unwrap().push(parse_header_line(l).unwrap()));
    }
}

} // verus!
