//! The three handlers a request can be dispatched to. Each one turns
//! a parsed request into a response, reading named content from an
//! injected store — a dictionary standing for the configured public
//! directory — so the handlers stay pure and their behaviour is
//! stated over the store's mapping. A name missing from the store is
//! a business-level 404, not a fault.
use crate::dict::Dict;
use crate::httprequest::{path_of, HttpRequest, Resource};
use crate::httpresponse::HttpResponse;
use crate::json::{json_of_orders, orders_to_json, OrderStatus};
use crate::strops::{split_char, split_on, str_ends_with, str_eq, views_of};
use vstd::prelude::*;

verus! {

pub struct StaticPageHandler;

pub struct PageNotFoundHandler;

pub struct WebServiceHandler;

/// The content bound to `name`, if the store holds it.
pub open spec fn lookup(sm: Map<Seq<char>, Seq<char>>, name: Seq<char>) -> Option<Seq<char>> {
    if sm.contains_key(name) {
        Some(sm[name])
    } else {
        None
    }
}

/// The characters of an optional string.
pub open spec fn opt_view(b: Option<String>) -> Option<Seq<char>> {
    match b {
        Some(s) => Some(s@),
        None => None,
    }
}

/// `s` ends with `suffix`.
pub open spec fn ends_with(s: Seq<char>, suffix: Seq<char>) -> bool {
    suffix.len() <= s.len() && s.subrange(s.len() - suffix.len(), s.len() as int) == suffix
}

/// The content type served for a file name, by extension.
pub open spec fn ext_content_type(name: Seq<char>) -> Seq<char> {
    if ends_with(name, ".css"@) {
        "text/css"@
    } else if ends_with(name, ".js"@) {
        "application/javascript"@
    } else {
        "text/html"@
    }
}

/// A 200 response carrying `body` and the single header
/// `Content-Type: ct`.
pub open spec fn resp_ok_with(r: HttpResponse, body: Option<Seq<char>>, ct: Seq<char>) -> bool {
    &&& r.version@ == "HTTP/1.1"@
    &&& r.status_code@ == "200"@
    &&& r.status_text@ == "OK"@
    &&& opt_view(r.body) == body
    &&& r.headers.wf()
    &&& r.headers.entries() == seq![("Content-Type"@, ct)]
}

/// A 404 response: the stored `404.html` as body when present, the
/// default content type.
pub open spec fn resp_not_found(r: HttpResponse, sm: Map<Seq<char>, Seq<char>>) -> bool {
    &&& r.version@ == "HTTP/1.1"@
    &&& r.status_code@ == "404"@
    &&& r.status_text@ == "Not Found"@
    &&& opt_view(r.body) == lookup(sm, "404.html"@)
    &&& r.headers.wf()
    &&& r.headers.entries() == seq![("Content-Type"@, "text/html"@)]
}

/// What the static-page handler answers, by the first path segment:
/// the empty segment serves `index.html`, `health` serves
/// `health.html`, any other segment serves the file of that name
/// when the store holds it and a 404 otherwise.
pub open spec fn static_resp(
    segs: Seq<Seq<char>>,
    sm: Map<Seq<char>, Seq<char>>,
    r: HttpResponse,
) -> bool
    recommends
        segs.len() >= 2,
{
    let seg = segs[1];
    if seg == Seq::<char>::empty() {
        resp_ok_with(r, lookup(sm, "index.html"@), "text/html"@)
    } else if seg == "health"@ {
        resp_ok_with(r, lookup(sm, "health.html"@), "text/html"@)
    } else if sm.contains_key(seg) {
        resp_ok_with(r, Some(sm[seg]), ext_content_type(seg))
    } else {
        resp_not_found(r, sm)
    }
}

/// What the web-service handler answers: the order records as a JSON
/// array on `shipping`/`orders` at segments two and three, a 404 on
/// anything else.
pub open spec fn web_resp(
    segs: Seq<Seq<char>>,
    sm: Map<Seq<char>, Seq<char>>,
    orders: Seq<OrderStatus>,
    r: HttpResponse,
) -> bool
    recommends
        segs.len() >= 3,
{
    if segs.len() >= 4 && segs[2] == "shipping"@ && segs[3] == "orders"@ {
        resp_ok_with(r, Some(json_of_orders(orders)), "application/json"@)
    } else {
        resp_not_found(r, sm)
    }
}

/// Looks `name` up in the store, handing back owned content.
pub fn load_from(store: &Dict, name: &str) -> (r: Option<String>)
    requires
        store.wf(),
    ensures
        opt_view(r) == lookup(store.as_map(), name@),
{
    match store.get(name) {
        Some(v) => Some(v.clone()),
        None => None,
    }
}

/// A 404 response with the stored `404.html` page as body, when the
/// store holds one.
fn not_found_response(store: &Dict) -> (r: HttpResponse)
    requires
        store.wf(),
    ensures
        resp_not_found(r, store.as_map()),
{
    let body = load_from(store, "404.html");
    let r = HttpResponse::new("404", None, body);
    proof {
        reveal_strlit("404");
        reveal_strlit("200");
        assert("404"@[0] == '4' && "200"@[0] == '2');
        assert("404"@ != "200"@);
    }
    r
}

impl PageNotFoundHandler {
    /// Answers 404 whatever the request says.
    pub fn handle(_req: &HttpRequest, store: &Dict) -> (r: HttpResponse)
        requires
            store.wf(),
        ensures
            resp_not_found(r, store.as_map()),
    {
        not_found_response(store)
    }
}

impl StaticPageHandler {
    /// Serves the file the first path segment names, as `static_resp`
    /// states.
    pub fn handle(req: &HttpRequest, store: &Dict) -> (r: HttpResponse)
        requires
            store.wf(),
            split_on(path_of(req.resource), '/').len() >= 2,
        ensures
            static_resp(split_on(path_of(req.resource), '/'), store.as_map(), r),
    {
        let Resource::Path(s) = &req.resource;
        let route = split_char(s.as_str(), '/');
        assert(views_of(route@) == split_on(path_of(req.resource), '/'));
        let seg = &route[1];
        assert(seg@ == split_on(path_of(req.resource), '/')[1]);
        if seg.unicode_len() == 0 {
            assert(seg@ =~= Seq::<char>::empty());
            HttpResponse::new("200", None, load_from(store, "index.html"))
        } else if str_eq(seg.as_str(), "health") {
            HttpResponse::new("200", None, load_from(store, "health.html"))
        } else {
            match load_from(store, seg.as_str()) {
                Some(contents) => {
                    let ct: &str = if str_ends_with(seg.as_str(), ".css") {
                        "text/css"
                    } else if str_ends_with(seg.as_str(), ".js") {
                        "application/javascript"
                    } else {
                        "text/html"
                    };
                    let mut map_hdrs = Dict::new();
                    map_hdrs.insert(String::from_str("Content-Type"), String::from_str(ct));
                    proof {
                        assert(map_hdrs.entries() =~= seq![("Content-Type"@, ct@)]);
                        crate::dict::lemma_map_of_get(map_hdrs.entries(), 0);
                    }
                    HttpResponse::new("200", Some(map_hdrs), Some(contents))
                },
                None => not_found_response(store),
            }
        }
    }
}

impl WebServiceHandler {
    /// Serves the order records on the shipping-orders route, as
    /// `web_resp` states. The records come in decoded, loading them
    /// being the caller's capability.
    pub fn handle(req: &HttpRequest, store: &Dict, orders: &Vec<OrderStatus>) -> (r: HttpResponse)
        requires
            store.wf(),
            split_on(path_of(req.resource), '/').len() >= 3,
        ensures
            web_resp(split_on(path_of(req.resource), '/'), store.as_map(), orders@, r),
    {
        let Resource::Path(s) = &req.resource;
        let route = split_char(s.as_str(), '/');
        assert(views_of(route@) == split_on(path_of(req.resource), '/'));
        if route.len() > 3 && str_eq(route[2].as_str(), "shipping") && str_eq(
            route[3].as_str(),
            "orders",
        ) {
            let body = orders_to_json(orders);
            let mut hdrs = Dict::new();
            hdrs.insert(String::from_str("Content-Type"), String::from_str("application/json"));
            proof {
                assert(hdrs.entries() =~= seq![("Content-Type"@, "application/json"@)]);
                crate::dict::lemma_map_of_get(hdrs.entries(), 0);
            }
            HttpResponse::new("200", Some(hdrs), Some(body))
        } else {
            not_found_response(store)
        }
    }
}

} // verus!
