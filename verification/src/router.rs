//! Dispatch: a GET whose first path segment is `api` goes to the
//! web-service handler, any other GET to the static-page handler,
//! and every other method to the not-found handler. Routing is a
//! pure selection; writing the chosen response to the transport is
//! the caller's affair.
use crate::dict::Dict;
use crate::handler::{
    lookup, opt_view, resp_not_found, static_resp, web_resp, PageNotFoundHandler,
    StaticPageHandler, WebServiceHandler,
};
use crate::httprequest::{path_of, HttpRequest, Method, Resource};
use crate::httpresponse::HttpResponse;
use crate::json::{json_of_orders, OrderStatus};
use crate::strops::{split_char, split_on, str_eq, views_of};
use vstd::prelude::*;

verus! {

pub struct Router;

impl Router {
    /// Selects the handler for `req` by method and path and hands
    /// back its response. A GET needs a path with a first segment;
    /// a GET under `api` needs a second one — shorter paths are
    /// outside the routing table.
    pub fn route(req: HttpRequest, store: &Dict, orders: &Vec<OrderStatus>) -> (r: HttpResponse)
        requires
            store.wf(),
            req.method == Method::Get ==> split_on(path_of(req.resource), '/').len() >= 2,
            req.method == Method::Get && split_on(path_of(req.resource), '/')[1] == "api"@
                ==> split_on(path_of(req.resource), '/').len() >= 3,
        ensures
            req.method == Method::Get && split_on(path_of(req.resource), '/')[1] == "api"@
                ==> web_resp(split_on(path_of(req.resource), '/'), store.as_map(), orders@, r),
            req.method == Method::Get && split_on(path_of(req.resource), '/')[1] != "api"@
                ==> static_resp(split_on(path_of(req.resource), '/'), store.as_map(), r),
            req.method != Method::Get ==> resp_not_found(r, store.as_map()),
    {
        match req.method {
            Method::Get => {
                let Resource::Path(s) = &req.resource;
                let route = split_char(s.as_str(), '/');
                assert(views_of(route@) == split_on(path_of(req.resource), '/'));
                assert(route@[1]@ == split_on(path_of(req.resource), '/')[1]);
                if str_eq(route[1].as_str(), "api") {
                    WebServiceHandler::handle(&req, store, orders)
                } else {
                    StaticPageHandler::handle(&req, store)
                }
            },
            _ => PageNotFoundHandler::handle(&req, store),
        }
    }
}

/// Routing-table law: a GET whose first path segment is empty is
/// served the stored `index.html` with status 200, whatever else the
/// store holds.
pub proof fn lemma_root_serves_index(
    segs: Seq<Seq<char>>,
    sm: Map<Seq<char>, Seq<char>>,
    r: HttpResponse,
)
    requires
        segs.len() >= 2,
        segs[1] == Seq::<char>::empty(),
        sm.contains_key("index.html"@),
        static_resp(segs, sm, r),
    ensures
        r.status_code@ == "200"@,
        opt_view(r.body) == Some(sm["index.html"@]),
{
}

/// Routing-table law: a GET with `shipping` and `orders` at path
/// segments two and three is served the order records as a JSON
/// array with status 200.
pub proof fn lemma_shipping_orders_serves_json(
    segs: Seq<Seq<char>>,
    sm: Map<Seq<char>, Seq<char>>,
    orders: Seq<OrderStatus>,
    r: HttpResponse,
)
    requires
        segs.len() >= 4,
        segs[2] == "shipping"@,
        segs[3] == "orders"@,
        web_resp(segs, sm, orders, r),
    ensures
        r.status_code@ == "200"@,
        opt_view(r.body) == Some(json_of_orders(orders)),
        r.headers.entries() == seq![("Content-Type"@, "application/json"@)],
{
}

/// Routing-table law: any method other than GET is answered 404,
/// whatever the path, with the stored `404.html` as body when the
/// store holds one.
pub proof fn lemma_other_method_not_found(sm: Map<Seq<char>, Seq<char>>, r: HttpResponse)
    requires
        resp_not_found(r, sm),
    ensures
        r.status_code@ == "404"@,
        r.status_text@ == "Not Found"@,
        opt_view(r.body) == lookup(sm, "404.html"@),
{
}

/// A GET for a file name the store does not hold is answered 404,
/// with the stored `404.html` as body when the store holds one.
pub proof fn lemma_missing_file_not_found(
    segs: Seq<Seq<char>>,
    sm: Map<Seq<char>, Seq<char>>,
    r: HttpResponse,
)
    requires
        segs.len() >= 2,
        segs[1] != Seq::<char>::empty(),
        segs[1] != "health"@,
        !sm.contains_key(segs[1]),
        static_resp(segs, sm, r),
    ensures
        r.status_code@ == "404"@,
        opt_view(r.body) == lookup(sm, "404.html"@),
{
}

} // verus!
