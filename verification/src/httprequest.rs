//! The request side of the wire protocol: methods, versions, and the
//! line-by-line parser that turns a raw text blob into a structured
//! request.
//!
//! The parser scans every line of the blob in order and never fails:
//! a line containing `HTTP` is a request line, otherwise a line with a
//! colon is a header line, an empty line is skipped, and any other
//! line overwrites the body. Two quirks of this scheme are part of the
//! observable contract and are preserved deliberately: a header value
//! is cut at the second colon (so `Host: localhost:3000` keeps only
//! ` localhost`), and of several body lines only the last survives.
//! A request line with fewer than three whitespace tokens is ignored,
//! so the fields keep their previous values — the declared defaults
//! when no well-formed request line precedes it.
use crate::dict::Dict;
use crate::strops::{
    contains_seq, contains_sub, lines_of, lines_vec, split_char, split_on, tokens_of, tokens_vec,
    views_of,
};
use vstd::prelude::*;

verus! {

#[derive(Debug, PartialEq, Eq, Structural, Clone, Copy)]
pub enum Method {
    Get,
    Post,
    Uninitialized,
}

#[derive(Debug, PartialEq, Eq, Structural, Clone, Copy)]
pub enum Version {
    V1_1,
    V2_0,
    Uninitialized,
}

#[derive(Debug, PartialEq)]
pub enum Resource {
    Path(String),
}

/// The method a token names: only `GET` and `POST` are recognized,
/// every other token maps to `Uninitialized`.
pub open spec fn method_of(s: Seq<char>) -> Method {
    if s == "GET"@ {
        Method::Get
    } else if s == "POST"@ {
        Method::Post
    } else {
        Method::Uninitialized
    }
}

/// The version a token names: only `HTTP/1.1` and `HTTP/2.0` are
/// recognized, every other token maps to `Uninitialized`.
pub open spec fn version_of(s: Seq<char>) -> Version {
    if s == "HTTP/1.1"@ {
        Version::V1_1
    } else if s == "HTTP/2.0"@ {
        Version::V2_0
    } else {
        Version::Uninitialized
    }
}

/// The path a resource wraps.
pub open spec fn path_of(r: Resource) -> Seq<char> {
    match r {
        Resource::Path(p) => p@,
    }
}

impl<'a> From<&'a str> for Method {
    fn from(s: &'a str) -> (r: Method) {
        if crate::strops::str_eq(s, "GET") {
            Method::Get
        } else if crate::strops::str_eq(s, "POST") {
            Method::Post
        } else {
            Method::Uninitialized
        }
    }
}

impl<'a> vstd::std_specs::convert::FromSpecImpl<&'a str> for Method {
    open spec fn obeys_from_spec() -> bool {
        true
    }

    open spec fn from_spec(s: &'a str) -> Method {
        method_of(s@)
    }
}

impl<'a> From<&'a str> for Version {
    fn from(s: &'a str) -> (r: Version) {
        if crate::strops::str_eq(s, "HTTP/1.1") {
            Version::V1_1
        } else if crate::strops::str_eq(s, "HTTP/2.0") {
            Version::V2_0
        } else {
            Version::Uninitialized
        }
    }
}

impl<'a> vstd::std_specs::convert::FromSpecImpl<&'a str> for Version {
    open spec fn obeys_from_spec() -> bool {
        true
    }

    open spec fn from_spec(s: &'a str) -> Version {
        version_of(s@)
    }
}

/// The key of a header line: everything before the first colon.
pub open spec fn header_key_of(l: Seq<char>) -> Seq<char> {
    split_on(l, ':')[0]
}

/// The value of a header line: the text between the first and the
/// second colon (empty when the line holds no colon). The rest of the
/// line after a second colon is dropped, leading whitespace stays.
pub open spec fn header_val_of(l: Seq<char>) -> Seq<char> {
    if split_on(l, ':').len() >= 2 {
        split_on(l, ':')[1]
    } else {
        Seq::empty()
    }
}

/// The parser's state: what has been gathered from the lines read so
/// far.
pub ghost struct ReqModel {
    pub method: Method,
    pub version: Version,
    pub resource: Seq<char>,
    pub headers: Map<Seq<char>, Seq<char>>,
    pub body: Seq<char>,
}

/// The declared defaults: no method, version 1.1, empty path, no
/// headers, no body.
pub open spec fn req_default() -> ReqModel {
    ReqModel {
        method: Method::Uninitialized,
        version: Version::V1_1,
        resource: Seq::empty(),
        headers: Map::empty(),
        body: Seq::empty(),
    }
}

/// One line of the scan. A line containing `HTTP` with at least three
/// whitespace tokens replaces method, resource and version; with
/// fewer tokens it is ignored. Otherwise a line with a colon binds a
/// header, an empty line does nothing, and any other line replaces
/// the body.
pub open spec fn req_step(st: ReqModel, l: Seq<char>) -> ReqModel {
    if contains_seq(l, "HTTP"@) {
        if tokens_of(l).len() >= 3 {
            ReqModel {
                method: method_of(tokens_of(l)[0]),
                resource: tokens_of(l)[1],
                version: version_of(tokens_of(l)[2]),
                ..st
            }
        } else {
            st
        }
    } else if contains_seq(l, ":"@) {
        ReqModel { headers: st.headers.insert(header_key_of(l), header_val_of(l)), ..st }
    } else if l.len() == 0 {
        st
    } else {
        ReqModel { body: l, ..st }
    }
}

/// The scan over a sequence of lines, from the first to the last.
pub open spec fn req_model_of(ls: Seq<Seq<char>>) -> ReqModel
    decreases ls.len(),
{
    if ls.len() == 0 {
        req_default()
    } else {
        req_step(req_model_of(ls.drop_last()), ls.last())
    }
}

/// What parsing a raw request blob yields.
pub open spec fn parse_req(s: Seq<char>) -> ReqModel {
    req_model_of(lines_of(s))
}

#[derive(Debug)]
pub struct HttpRequest {
    pub method: Method,
    pub version: Version,
    pub resource: Resource,
    pub headers: Dict,
    pub msg_body: String,
}

/// Splits a request line on whitespace and reads its first three
/// tokens as method, resource path and version. `None` exactly when
/// the line has fewer than three tokens.
pub fn parse_request_line(s: &str) -> (r: Option<(Method, Resource, Version)>)
    ensures
        r is Some <==> tokens_of(s@).len() >= 3,
        r matches Some((m, res, v)) ==> m == method_of(tokens_of(s@)[0]) && path_of(res)
            == tokens_of(s@)[1] && v == version_of(tokens_of(s@)[2]),
{
    let toks = tokens_vec(s);
    assert(views_of(toks@) == tokens_of(s@));
    if toks.len() >= 3 {
        let m = Method::from(toks[0].as_str());
        let res = Resource::Path(toks[1].clone());
        let v = Version::from(toks[2].as_str());
        assert(toks@[0]@ == tokens_of(s@)[0]);
        assert(toks@[1]@ == tokens_of(s@)[1]);
        assert(toks@[2]@ == tokens_of(s@)[2]);
        Some((m, res, v))
    } else {
        None
    }
}

/// Splits a header line on colons and keeps the first two segments:
/// the key before the first colon and the value up to the second.
pub fn parse_header_line(s: &str) -> (kv: (String, String))
    ensures
        kv.0@ == header_key_of(s@),
        kv.1@ == header_val_of(s@),
{
    let segs = split_char(s, ':');
    assert(views_of(segs@) == split_on(s@, ':'));
    let key = segs[0].clone();
    let value = if segs.len() >= 2 {
        segs[1].clone()
    } else {
        String::new()
    };
    assert(key@ == split_on(s@, ':')[0]);
    (key, value)
}

impl HttpRequest {
    /// Parses a raw request blob, line by line. Never fails: a blob
    /// without a well-formed request line yields the declared
    /// defaults.
    pub fn from(req: String) -> (r: HttpRequest)
        ensures
            r.method == parse_req(req@).method,
            r.version == parse_req(req@).version,
            path_of(r.resource) == parse_req(req@).resource,
            r.headers.wf(),
            r.headers.as_map() == parse_req(req@).headers,
            r.msg_body@ == parse_req(req@).body,
    {
        let lines = lines_vec(req.as_str());
        let ghost lv = views_of(lines@);
        assert(lv == lines_of(req@));
        let mut parsed_method = Method::Uninitialized;
        let mut parsed_version = Version::V1_1;
        let mut parsed_resource = String::new();
        let mut parsed_headers = Dict::new();
        let mut parsed_msg_body = String::new();
        proof {
            assert(lv.take(0) =~= Seq::<Seq<char>>::empty());
        }
        let n = lines.len();
        let mut i: usize = 0;
        while i < n
            invariant
                n == lines.len(),
                i <= n,
                lv == views_of(lines@),
                parsed_method == req_model_of(lv.take(i as int)).method,
                parsed_version == req_model_of(lv.take(i as int)).version,
                parsed_resource@ == req_model_of(lv.take(i as int)).resource,
                parsed_headers.wf(),
                parsed_headers.as_map() == req_model_of(lv.take(i as int)).headers,
                parsed_msg_body@ == req_model_of(lv.take(i as int)).body,
            decreases n - i,
        {
            let line = &lines[i];
            assert(line@ == lv[i as int]);
            if contains_sub(line.as_str(), "HTTP") {
                match parse_request_line(line.as_str()) {
                    Some((m, res, v)) => {
                        parsed_method = m;
                        parsed_version = v;
                        let Resource::Path(p) = res;
                        parsed_resource = p;
                    },
                    None => {},
                }
            } else if contains_sub(line.as_str(), ":") {
                let kv = parse_header_line(line.as_str());
                parsed_headers.insert(kv.0, kv.1);
            } else if line.unicode_len() == 0 {
            } else {
                parsed_msg_body = line.clone();
            }
            proof {
                assert(lv.take(i + 1).drop_last() =~= lv.take(i as int));
                assert(lv.take(i + 1).last() == lv[i as int]);
            }
            i += 1;
        }
        proof {
            assert(lv.take(n as int) =~= lv);
        }
        HttpRequest {
            method: parsed_method,
            version: parsed_version,
            resource: Resource::Path(parsed_resource),
            headers: parsed_headers,
            msg_body: parsed_msg_body,
        }
    }
}

} // verus!
