//! The SOCKS5 method negotiation: the client offers its authentication
//! methods and the server selects one.

use vstd::prelude::*;

verus! {

/// The client's version identifier / method selection message.
pub struct Request {
    pub ver: u8,
    pub nmethods: u8,
    pub methods: Vec<u8>,
}

impl Request {
    /// A negotiation request offering `methods`.
    pub fn new(methods: &[u8]) -> (r: Request)
        requires
            methods@.len() <= 255,
        ensures
            r.ver == 5,
            r.nmethods == methods@.len(),
            r.methods@ == methods@,
    {
        Request { ver: 5, nmethods: methods.len() as u8, methods: vstd::slice::slice_to_vec(methods) }
    }

    /// The wire bytes: version, method count, methods.
    pub fn as_bytes(&self) -> (r: Vec<u8>)
        ensures
            r@ == seq![self.ver, self.nmethods] + self.methods@,
    {
        let mut bytes: Vec<u8> = Vec::new();
        bytes.push(self.ver);
        bytes.push(self.nmethods);
        crate::util::push_bytes(&mut bytes, self.methods.as_slice());
        proof {
            assert(bytes@ =~= seq![self.ver, self.nmethods] + self.methods@);
        }
        bytes
    }
}

/// The server's method selection message.
pub struct Reply {
    pub ver: u8,
    pub method: u8,
}

impl Reply {
    /// Reads a method selection message: version, then the selected method.
    pub fn new(data: &[u8]) -> (r: Reply)
        requires
            data@.len() >= 2,
        ensures
            r.ver == data@[0],
            r.method == data@[1],
    {
        Reply { ver: data[0], method: data[1] }
    }

    /// The wire bytes: version, selected method.
    pub fn as_bytes(&self) -> (r: Vec<u8>)
        ensures
            r@ == seq![self.ver, self.method],
    {
        let mut bytes: Vec<u8> = Vec::new();
        bytes.push(self.ver);
        bytes.push(self.method);
        proof {
            assert(bytes@ =~= seq![self.ver, self.method]);
        }
        bytes
    }
}

} // verus!
