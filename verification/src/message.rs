//! The structured form of the messages the proxy handles: requests read from
//! a client and responses written back, together with the well-formedness
//! conditions under which serialization is invertible.

use vstd::prelude::*;

use crate::bytes::{COLON, CR, LF, SP};

verus! {

/// The closed set of request methods the proxy understands. Anything else is
/// rejected per-connection, never by aborting the process.
#[derive(Clone, Copy, Debug, PartialEq, Eq, Structural)]
pub enum Method {
    Get,
    Post,
    Connect,
}

/// One header line, name and value kept verbatim so forwarding preserves
/// order and casing.
#[derive(Clone, Debug)]
pub struct Header {
    pub name: Vec<u8>,
    pub value: Vec<u8>,
}

impl View for Header {
    type V = (Seq<u8>, Seq<u8>);

    open spec fn view(&self) -> (Seq<u8>, Seq<u8>) {
        (self.name@, self.value@)
    }
}

/// Mathematical model of a request.
pub ghost struct ReqModel {
    pub method: Method,
    pub target: Seq<u8>,
    pub headers: Seq<(Seq<u8>, Seq<u8>)>,
    pub body: Seq<u8>,
}

/// A request as read off the wire: method, target, headers in order, body.
#[derive(Clone, Debug)]
pub struct ParsedRequest {
    pub method: Method,
    pub target: Vec<u8>,
    pub headers: Vec<Header>,
    pub body: Vec<u8>,
}

impl View for ParsedRequest {
    type V = ReqModel;

    open spec fn view(&self) -> ReqModel {
        ReqModel {
            method: self.method,
            target: self.target@,
            headers: self.headers@.map_values(|h: Header| h@),
            body: self.body@,
        }
    }
}

/// Mathematical model of a response.
pub ghost struct RespModel {
    pub code: u32,
    pub headers: Seq<(Seq<u8>, Seq<u8>)>,
    pub body: Seq<u8>,
}

/// A response under construction: status code, headers, body. Serialization
/// adds the status line and a Content-Length computed from the body.
#[derive(Clone, Debug)]
pub struct Response {
    pub status_code: u32,
    pub headers: Vec<Header>,
    pub body: Vec<u8>,
}

impl View for Response {
    type V = RespModel;

    open spec fn view(&self) -> RespModel {
        RespModel {
            code: self.status_code,
            headers: self.headers@.map_values(|h: Header| h@),
            body: self.body@,
        }
    }
}

impl Response {
    /// A fresh response; the status defaults to 404 until set.
    pub fn new() -> (r: Response)
        ensures
            r@.code == 404,
            r@.headers == Seq::<(Seq<u8>, Seq<u8>)>::empty(),
            r@.body == Seq::<u8>::empty(),
    {
        let r = Response { status_code: 404, headers: Vec::new(), body: Vec::new() };
        proof {
            assert(r@.headers =~= Seq::<(Seq<u8>, Seq<u8>)>::empty());
        }
        r
    }

    pub fn set_status_code(&mut self, code: u32)
        ensures
            final(self)@ == (RespModel { code, ..old(self)@ }),
    {
        self.status_code = code;
    }

    /// Replaces the header list wholesale.
    pub fn write_headers(&mut self, headers: Vec<Header>)
        ensures
            final(self)@ == (RespModel {
                headers: headers@.map_values(|h: Header| h@),
                ..old(self)@
            }),
    {
        self.headers = headers;
    }

    /// Appends to the body.
    pub fn write_body(&mut self, body: &[u8])
        ensures
            final(self)@ == (RespModel { body: old(self)@.body + body@, ..old(self)@ }),
    {
        crate::bytes::push_bytes(&mut self.body, body);
    }
}

/// A target or similar one-word field: nonempty, and free of the bytes that
/// delimit the request line.
pub open spec fn wf_token(t: Seq<u8>) -> bool {
    t.len() > 0 && forall|i: int| 0 <= i < t.len() ==> t[i] != CR && t[i] != LF && t[i] != SP
}

/// A header name: nonempty, no line break, and no colon (the parser splits at
/// the first colon).
pub open spec fn wf_header_name(n: Seq<u8>) -> bool {
    n.len() > 0 && forall|i: int| 0 <= i < n.len() ==> n[i] != CR && n[i] != LF && n[i] != COLON
}

/// A header value: free of line breaks; colons and spaces are fine.
pub open spec fn wf_header_value(v: Seq<u8>) -> bool {
    forall|i: int| 0 <= i < v.len() ==> v[i] != CR && v[i] != LF
}

pub open spec fn wf_headers(hs: Seq<(Seq<u8>, Seq<u8>)>) -> bool {
    forall|i: int|
        0 <= i < hs.len() ==> wf_header_name(#[trigger] hs[i].0) && wf_header_value(hs[i].1)
}

/// The requests whose serialization the parser maps back to themselves.
pub open spec fn wf_request(r: ReqModel) -> bool {
    wf_token(r.target) && wf_headers(r.headers)
}

} // verus!
