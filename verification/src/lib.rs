//! A minimal HTTP/1.1 request processor: a raw text blob is parsed
//! into a structured request, routed to a handler by method and
//! path, and the handler's response is serialized back into the
//! exact bytes put on the wire.
pub mod dict;
pub mod handler;
pub mod httprequest;
pub mod httpresponse;
pub mod json;
pub mod numfmt;
pub mod router;
pub mod server;
pub mod strops;
