//! The response side of the wire protocol: a structured response and
//! its serialization to the exact bytes put on the wire.
//!
//! The status line always states `HTTP/1.1`. Only the codes `200` and
//! `404` carry their own reason phrase; any other code falls back to
//! the `404` phrase — a documented looseness of the protocol layer.
//! `Content-Length` is always the byte length of the body, `0` when
//! there is none, and `Content-Type` defaults to `text/html` unless a
//! supplied header displaces it.
use crate::dict::Dict;
use crate::numfmt::{dec_of, u64_dec};
use crate::strops::str_eq;
use vstd::prelude::*;
use vstd::utf8::encode_utf8;

verus! {

/// The reason phrase for a status code: `OK` for `200`, the `404`
/// phrase for `404` and for every unknown code.
pub open spec fn reason_of(code: Seq<char>) -> Seq<char> {
    if code == "200"@ {
        "OK"@
    } else {
        "Not Found"@
    }
}

/// One rendered header line per entry, in order: `Key: Value` and a
/// line break.
pub open spec fn render_headers(es: Seq<(Seq<char>, Seq<char>)>) -> Seq<char>
    decreases es.len(),
{
    if es.len() == 0 {
        Seq::empty()
    } else {
        render_headers(es.drop_last()) + es.last().0 + ": "@ + es.last().1 + "\r\n"@
    }
}

/// The byte length of the body, zero when there is none.
pub open spec fn body_bytes_len(b: Option<String>) -> nat {
    match b {
        Some(s) => (encode_utf8(s@).len() as usize) as nat,
        None => 0,
    }
}

/// The characters of the body, empty when there is none.
pub open spec fn body_chars(b: Option<String>) -> Seq<char> {
    match b {
        Some(s) => s@,
        None => Seq::empty(),
    }
}

#[derive(Debug)]
pub struct HttpResponse {
    pub version: String,
    pub status_code: String,
    pub status_text: String,
    pub headers: Dict,
    pub body: Option<String>,
}

/// The exact wire text of a response: status line, `Content-Length`,
/// the header entries in order, a blank line, then the body.
pub open spec fn render(r: HttpResponse) -> Seq<char> {
    r.version@ + " "@ + r.status_code@ + " "@ + r.status_text@ + "\r\n"@ + "Content-Length: "@
        + dec_of(body_bytes_len(r.body)) + "\r\n"@ + render_headers(r.headers.entries()) + "\r\n"@
        + body_chars(r.body)
}

impl HttpResponse {
    /// Builds a response from a status code, optional headers and an
    /// optional body. The reason phrase is looked up from the code,
    /// unknown codes falling back to the `404` phrase; a
    /// `Content-Type` of `text/html` is appended unless the supplied
    /// headers already carry one.
    pub fn new(status_code: &str, headers: Option<Dict>, body: Option<String>) -> (r: HttpResponse)
        requires
            headers matches Some(h) ==> h.wf(),
        ensures
            r.version@ == "HTTP/1.1"@,
            r.status_code@ == status_code@,
            r.status_text@ == reason_of(status_code@),
            r.body == body,
            r.headers.wf(),
            match headers {
                None => r.headers.entries() == seq![("Content-Type"@, "text/html"@)],
                Some(h) => if h.as_map().contains_key("Content-Type"@) {
                    r.headers == h
                } else {
                    r.headers.entries() == h.entries().push(("Content-Type"@, "text/html"@))
                },
            },
    {
        let status_text = if str_eq(status_code, "200") {
            String::from_str("OK")
        } else {
            String::from_str("Not Found")
        };
        let hdrs = match headers {
            Some(h) => {
                let has_ct = h.get("Content-Type").is_some();
                if has_ct {
                    h
                } else {
                    let mut h2 = h;
                    h2.insert(String::from_str("Content-Type"), String::from_str("text/html"));
                    h2
                }
            },
            None => {
                let mut d = Dict::new();
                d.insert(String::from_str("Content-Type"), String::from_str("text/html"));
                proof {
                    assert(d.entries() =~= seq![("Content-Type"@, "text/html"@)]);
                }
                d
            },
        };
        HttpResponse {
            version: String::from_str("HTTP/1.1"),
            status_code: String::from_str(status_code),
            status_text,
            headers: hdrs,
            body,
        }
    }

    /// The exact wire text of the response.
    pub fn serialize(&self) -> (out: String)
        ensures
            out@ == render(*self),
    {
        let mut out = String::new();
        out.append(self.version.as_str());
        out.append(" ");
        out.append(self.status_code.as_str());
        out.append(" ");
        out.append(self.status_text.as_str());
        out.append("\r\n");
        out.append("Content-Length: ");
        let blen: usize = match &self.body {
            Some(b) => b.as_str().len(),
            None => 0,
        };
        let num = u64_dec(blen as u64);
        out.append(num.as_str());
        out.append("\r\n");
        let ghost head = out@;
        let m = self.headers.len();
        let mut i: usize = 0;
        proof {
            assert(self.headers.entries().take(0) =~= Seq::<(Seq<char>, Seq<char>)>::empty());
        }
        while i < m
            invariant
                m == self.headers.entries().len(),
                i <= m,
                out@ == head + render_headers(self.headers.entries().take(i as int)),
            decreases m - i,
        {
            out.append(self.headers.key_at(i).as_str());
            out.append(": ");
            out.append(self.headers.val_at(i).as_str());
            out.append("\r\n");
            proof {
                assert(self.headers.entries().take(i + 1).drop_last() =~= self.headers.entries()
                    .take(i as int));
                assert(out@ =~= head + render_headers(self.headers.entries().take(i + 1)));
            }
            i += 1;
        }
        out.append("\r\n");
        match &self.body {
            Some(b) => out.append(b.as_str()),
            None => {},
        }
        proof {
            assert(self.headers.entries().take(m as int) =~= self.headers.entries());
            assert(out@ =~= render(*self));
        }
        out
    }
}

/// Fallback law: every status code other than `200` — `404` itself
/// and any unknown code — carries the `404` reason phrase.
pub proof fn lemma_unknown_status_falls_back(code: Seq<char>)
    requires
        code != "200"@,
    ensures
        reason_of(code) == "Not Found"@,
{
}

} // verus!
