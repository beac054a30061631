//! Wire form of requests and responses. The spec functions here are the
//! reference serialization; the exec functions produce exactly those bytes,
//! and the parser is proved to invert them.

use vstd::prelude::*;

use vstd::string::StringSliceAdditionalSpecFns;

use crate::bytes::{dec_bytes, dec_of, push_bytes, write_crlf, COLON, CR, LF, SP};
use crate::message::{Header, Method, ParsedRequest, ReqModel, RespModel, Response};
use crate::status::{reason_phrase, spec_reason};

verus! {

pub open spec fn method_bytes(m: Method) -> Seq<u8> {
    match m {
        Method::Get => "GET".spec_bytes(),
        Method::Post => "POST".spec_bytes(),
        Method::Connect => "CONNECT".spec_bytes(),
    }
}

pub open spec fn http11_bytes() -> Seq<u8> {
    "HTTP/1.1".spec_bytes()
}

pub open spec fn content_length_bytes() -> Seq<u8> {
    "Content-Length: ".spec_bytes()
}

/// `name: value` followed by a line break.
pub open spec fn ser_header(h: (Seq<u8>, Seq<u8>)) -> Seq<u8> {
    h.0 + seq![COLON, SP] + h.1 + seq![CR, LF]
}

pub open spec fn ser_headers(hs: Seq<(Seq<u8>, Seq<u8>)>) -> Seq<u8>
    decreases hs.len(),
{
    if hs.len() == 0 {
        Seq::<u8>::empty()
    } else {
        ser_header(hs[0]) + ser_headers(hs.skip(1))
    }
}

/// `METHOD target HTTP/1.1` followed by a line break.
pub open spec fn ser_request_line(m: Method, target: Seq<u8>) -> Seq<u8> {
    method_bytes(m) + seq![SP] + target + seq![SP] + http11_bytes() + seq![CR, LF]
}

/// The whole header block, blank line included.
pub open spec fn ser_head(r: ReqModel) -> Seq<u8> {
    ser_request_line(r.method, r.target) + ser_headers(r.headers) + seq![CR, LF]
}

pub open spec fn ser_request(r: ReqModel) -> Seq<u8> {
    ser_head(r) + r.body
}

/// `HTTP/1.1 code reason` followed by a line break; meaningful only for a
/// code inside the status table.
pub open spec fn ser_status_line(code: u32) -> Seq<u8> {
    http11_bytes() + seq![SP] + dec_bytes(code as nat) + seq![SP] + spec_reason(code).unwrap()
        + seq![CR, LF]
}

/// The exact response framing: status line, Content-Length computed from the
/// body, the supplied headers, a blank line, the body, and a trailing blank
/// line.
pub open spec fn ser_response(m: RespModel) -> Seq<u8> {
    ser_status_line(m.code) + content_length_bytes() + dec_bytes(m.body.len()) + seq![CR, LF]
        + ser_headers(m.headers) + seq![CR, LF] + m.body + seq![CR, LF] + seq![CR, LF]
}

pub proof fn lemma_ser_headers_snoc(hs: Seq<(Seq<u8>, Seq<u8>)>, h: (Seq<u8>, Seq<u8>))
    ensures
        ser_headers(hs.push(h)) == ser_headers(hs) + ser_header(h),
    decreases hs.len(),
{
    if hs.len() == 0 {
        let e = Seq::<(Seq<u8>, Seq<u8>)>::empty();
        assert(hs.push(h)[0] == h);
        assert(hs.push(h).skip(1) =~= e);
        assert(ser_headers(e) == Seq::<u8>::empty());
        assert(ser_headers(hs.push(h)) == ser_header(h) + Seq::<u8>::empty());
        assert(hs =~= e);
        assert(ser_headers(hs.push(h)) =~= ser_headers(hs) + ser_header(h));
    } else {
        assert(hs.push(h).skip(1) =~= hs.skip(1).push(h));
        lemma_ser_headers_snoc(hs.skip(1), h);
        assert(hs.push(h)[0] == hs[0]);
        assert(ser_headers(hs.push(h)) =~= ser_headers(hs) + ser_header(h));
    }
}

/// Writes each header as `name: value` with a line break, in order.
pub fn write_header_lines(out: &mut Vec<u8>, headers: &Vec<Header>)
    ensures
        final(out)@ == old(out)@ + ser_headers(headers@.map_values(|h: Header| h@)),
{
    let ghost hs = headers@.map_values(|h: Header| h@);
    let mut i: usize = 0;
    while i < headers.len()
        invariant
            i <= headers@.len(),
            hs == headers@.map_values(|h: Header| h@),
            out@ == old(out)@ + ser_headers(hs.take(i as int)),
        decreases headers@.len() - i,
    {
        push_bytes(out, headers[i].name.as_slice());
        out.push(COLON);
        out.push(SP);
        push_bytes(out, headers[i].value.as_slice());
        write_crlf(out);
        proof {
            lemma_ser_headers_snoc(hs.take(i as int), hs[i as int]);
            assert(hs.take(i + 1) =~= hs.take(i as int).push(hs[i as int]));
            assert(out@ =~= old(out)@ + ser_headers(hs.take(i + 1)));
        }
        i += 1;
    }
    proof {
        assert(hs.take(hs.len() as int) =~= hs);
    }
}

/// Serializes a request for re-issuing upstream: request line, headers in
/// the order they arrived, blank line, body.
pub fn serialize_request(r: &ParsedRequest) -> (out: Vec<u8>)
    ensures
        out@ == ser_request(r@),
{
    let mut out: Vec<u8> = Vec::new();
    match r.method {
        Method::Get => push_bytes(&mut out, "GET".as_bytes()),
        Method::Post => push_bytes(&mut out, "POST".as_bytes()),
        Method::Connect => push_bytes(&mut out, "CONNECT".as_bytes()),
    }
    out.push(SP);
    push_bytes(&mut out, r.target.as_slice());
    out.push(SP);
    push_bytes(&mut out, "HTTP/1.1".as_bytes());
    write_crlf(&mut out);
    write_header_lines(&mut out, &r.headers);
    write_crlf(&mut out);
    push_bytes(&mut out, r.body.as_slice());
    proof {
        assert(out@ =~= ser_request(r@));
    }
    out
}

/// Serialization failed because the status code is outside the fixed table.
#[derive(Clone, Copy, Debug, PartialEq, Eq, Structural)]
pub enum SerializeError {
    UnknownStatusCode,
}

impl Response {
    /// The wire bytes of this response, or an error for a status code outside
    /// the table: an unknown code never gets a default reason phrase.
    pub fn serialize(&self) -> (r: Result<Vec<u8>, SerializeError>)
        ensures
            spec_reason(self@.code) is Some ==> (r matches Ok(v) && v@ == ser_response(self@)),
            spec_reason(self@.code) is None ==> (r matches Err(e) && e
                == SerializeError::UnknownStatusCode),
    {
        let reason = match reason_phrase(self.status_code) {
            None => {
                return Err(SerializeError::UnknownStatusCode);
            },
            Some(s) => s,
        };
        let mut out: Vec<u8> = Vec::new();
        push_bytes(&mut out, "HTTP/1.1".as_bytes());
        out.push(SP);
        let code_digits = dec_of(self.status_code as u64);
        push_bytes(&mut out, code_digits.as_slice());
        out.push(SP);
        push_bytes(&mut out, reason.as_bytes());
        write_crlf(&mut out);
        push_bytes(&mut out, "Content-Length: ".as_bytes());
        let len_digits = dec_of(self.body.len() as u64);
        push_bytes(&mut out, len_digits.as_slice());
        write_crlf(&mut out);
        write_header_lines(&mut out, &self.headers);
        write_crlf(&mut out);
        push_bytes(&mut out, self.body.as_slice());
        write_crlf(&mut out);
        write_crlf(&mut out);
        proof {
            assert(out@ =~= ser_response(self@));
        }
        Ok(out)
    }
}

} // verus!
