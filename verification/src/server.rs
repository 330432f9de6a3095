//! The server's configuration: the socket address it is to listen
//! on. Accepting connections and moving bytes is transport work that
//! lives outside this crate; the server value only carries the
//! address to it.
use vstd::prelude::*;

verus! {

pub struct Server<'a> {
    socket_addr: &'a str,
}

impl<'a> Server<'a> {
    /// The address the server was configured with.
    pub closed spec fn addr(self) -> Seq<char> {
        self.socket_addr@
    }

    /// Configures a server for the given socket address.
    pub fn new(socket_addr: &'a str) -> (r: Server<'a>)
        ensures
            r.addr() == socket_addr@,
    {
        Server { socket_addr }
    }

    /// The configured socket address.
    pub fn addr_str(&self) -> (r: &'a str)
        ensures
            r@ == self.addr(),
    {
        self.socket_addr
    }
}

} // verus!
