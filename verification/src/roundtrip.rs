//! Serialization is invertible: parsing the serialized form of any
//! well-formed request gives back exactly that request, with header order
//! preserved and the body untouched.

use vstd::prelude::*;

use vstd::string::StringSliceAdditionalSpecFns;
use vstd::utf8::{is_ascii_chars, is_ascii_chars_encode_utf8};

use crate::bytes::{lemma_find_byte_at, COLON, CR, LF, SP};
use crate::message::{
    wf_header_name, wf_header_value, wf_headers, wf_request, Method, ReqModel,
};
use crate::parse::{
    method_of, parse_header_line, parse_headers, spec_parse_request, split_request_line,
    take_line, HeadersSplit, LineSplit, ReqSplit,
};
use crate::resp::{content_length_name, find_content_length, spec_parse_response, RespSplit};
use crate::ser::{
    content_length_bytes, http11_bytes, method_bytes, ser_head, ser_header, ser_headers,
    ser_request, ser_request_line, ser_response, ser_status_line,
};
use crate::status::spec_reason;
use crate::bytes::{
    dec_bytes, dec_val, lemma_dec_bytes_digits, lemma_dec_bytes_len, lemma_dec_round_trip, pow10,
};
use crate::message::RespModel;

verus! {

proof fn lemma_method_bytes_facts(m: Method)
    ensures
        method_bytes(m).len() > 0,
        forall|i: int|
            0 <= i < method_bytes(m).len() ==> #[trigger] method_bytes(m)[i] != CR && method_bytes(
                m,
            )[i] != LF && method_bytes(m)[i] != SP,
        method_of(method_bytes(m)) == Some(m),
{
    reveal_strlit("GET");
    reveal_strlit("POST");
    reveal_strlit("CONNECT");
    assert(is_ascii_chars("GET"@));
    assert(is_ascii_chars("POST"@));
    assert(is_ascii_chars("CONNECT"@));
    is_ascii_chars_encode_utf8("GET"@);
    is_ascii_chars_encode_utf8("POST"@);
    is_ascii_chars_encode_utf8("CONNECT"@);
    assert forall|i: int| 0 <= i < method_bytes(m).len() implies #[trigger] method_bytes(m)[i]
        != CR && method_bytes(m)[i] != LF && method_bytes(m)[i] != SP by {
        match m {
            Method::Get => {
                assert(method_bytes(m)[i] == "GET"@[i] as u8);
            },
            Method::Post => {
                assert(method_bytes(m)[i] == "POST"@[i] as u8);
            },
            Method::Connect => {
                assert(method_bytes(m)[i] == "CONNECT"@[i] as u8);
            },
        }
    }
}

proof fn lemma_http11_facts()
    ensures
        http11_bytes().len() == 8,
        forall|i: int|
            0 <= i < http11_bytes().len() ==> #[trigger] http11_bytes()[i] != CR && http11_bytes()[
                i
            ] != SP,
{
    reveal_strlit("HTTP/1.1");
    assert(is_ascii_chars("HTTP/1.1"@));
    is_ascii_chars_encode_utf8("HTTP/1.1"@);
    assert forall|i: int| 0 <= i < http11_bytes().len() implies #[trigger] http11_bytes()[i] != CR
        && http11_bytes()[i] != SP by {
        assert(http11_bytes()[i] == "HTTP/1.1"@[i] as u8);
    }
}

/// A carriage-return-free line followed by its terminator splits back off.
proof fn lemma_take_line_concat(l: Seq<u8>, rest: Seq<u8>)
    requires
        forall|i: int| 0 <= i < l.len() ==> l[i] != CR,
    ensures
        take_line(l + seq![CR, LF] + rest) == LineSplit::Line(l, rest),
{
    let s = l + seq![CR, LF] + rest;
    assert(s[l.len() as int] == CR);
    assert forall|j: int| 0 <= j < l.len() implies s[j] != CR by {
        assert(s[j] == l[j]);
    }
    lemma_find_byte_at(s, CR, l.len() as int);
    assert(s[l.len() as int + 1] == LF);
    assert(s.take(l.len() as int) =~= l);
    assert(s.skip(l.len() as int + 2) =~= rest);
}

/// Serialized well-formed headers parse back to themselves, in order, and
/// what follows the blank line is the body.
proof fn lemma_parse_headers_round(hs: Seq<(Seq<u8>, Seq<u8>)>, body: Seq<u8>)
    requires
        wf_headers(hs),
    ensures
        parse_headers(ser_headers(hs) + seq![CR, LF] + body) == HeadersSplit::Found(hs, body),
    decreases hs.len(),
{
    let s = ser_headers(hs) + seq![CR, LF] + body;
    if hs.len() == 0 {
        let e = Seq::<u8>::empty();
        assert(s =~= e + seq![CR, LF] + body);
        lemma_take_line_concat(e, body);
        assert(take_line(s) == LineSplit::Line(e, body));
        assert(hs =~= Seq::<(Seq<u8>, Seq<u8>)>::empty());
    } else {
        let h = hs[0];
        assert(wf_header_name(h.0) && wf_header_value(h.1));
        let l0 = h.0 + seq![COLON, SP] + h.1;
        let tail = ser_headers(hs.skip(1)) + seq![CR, LF] + body;
        assert(ser_header(h) =~= l0 + seq![CR, LF]);
        assert(s =~= l0 + seq![CR, LF] + tail);
        assert forall|i: int| 0 <= i < l0.len() implies l0[i] != CR by {
            if i < h.0.len() {
                assert(l0[i] == h.0[i]);
            } else if i == h.0.len() {
                assert(l0[i] == COLON);
            } else if i == h.0.len() + 1 {
                assert(l0[i] == SP);
            } else {
                assert(l0[i] == h.1[i - h.0.len() - 2]);
            }
        }
        lemma_take_line_concat(l0, tail);
        assert(take_line(s) == LineSplit::Line(l0, tail));
        assert(l0[h.0.len() as int] == COLON);
        assert forall|j: int| 0 <= j < h.0.len() implies l0[j] != COLON by {
            assert(l0[j] == h.0[j]);
        }
        lemma_find_byte_at(l0, COLON, h.0.len() as int);
        assert(l0[h.0.len() as int + 1] == SP);
        assert(l0.take(h.0.len() as int) =~= h.0);
        assert(l0.skip(h.0.len() as int + 2) =~= h.1);
        assert(parse_header_line(l0) == Some((h.0, h.1)));
        assert forall|i: int| 0 <= i < hs.skip(1).len() implies wf_header_name(
            #[trigger] hs.skip(1)[i].0,
        ) && wf_header_value(hs.skip(1)[i].1) by {
            assert(hs.skip(1)[i] == hs[i + 1]);
        }
        lemma_parse_headers_round(hs.skip(1), body);
        assert(seq![h] + hs.skip(1) =~= hs);
        assert(parse_headers(s) == HeadersSplit::Found(hs, body));
    }
}

/// Round trip: for every well-formed request, parsing the serialized bytes
/// yields exactly the same method, target, headers (order preserved), and
/// body, and consumes exactly the header block.
pub proof fn lemma_request_round_trip(r: ReqModel)
    requires
        wf_request(r),
    ensures
        spec_parse_request(ser_request(r)) == ReqSplit::Done(r, ser_head(r).len() as int),
{
    let mb = method_bytes(r.method);
    let rl = mb + seq![SP] + r.target + seq![SP] + http11_bytes();
    let tail = ser_headers(r.headers) + seq![CR, LF] + r.body;
    let s = ser_request(r);
    lemma_method_bytes_facts(r.method);
    lemma_http11_facts();
    assert(ser_request_line(r.method, r.target) =~= rl + seq![CR, LF]);
    assert(s =~= rl + seq![CR, LF] + tail);
    assert forall|i: int| 0 <= i < rl.len() implies rl[i] != CR by {
        if i < mb.len() {
            assert(rl[i] == mb[i]);
        } else if i == mb.len() {
            assert(rl[i] == SP);
        } else if i < mb.len() + 1 + r.target.len() {
            assert(rl[i] == r.target[i - mb.len() - 1]);
        } else if i == mb.len() + 1 + r.target.len() {
            assert(rl[i] == SP);
        } else {
            assert(rl[i] == http11_bytes()[i - mb.len() - r.target.len() - 2]);
        }
    }
    lemma_take_line_concat(rl, tail);
    assert(take_line(s) == LineSplit::Line(rl, tail));
    assert(rl[mb.len() as int] == SP);
    assert forall|j: int| 0 <= j < mb.len() implies rl[j] != SP by {
        assert(rl[j] == mb[j]);
    }
    lemma_find_byte_at(rl, SP, mb.len() as int);
    let r1 = rl.skip(mb.len() as int + 1);
    assert(r1 =~= r.target + seq![SP] + http11_bytes());
    assert(r1[r.target.len() as int] == SP);
    assert forall|j: int| 0 <= j < r.target.len() implies r1[j] != SP by {
        assert(r1[j] == r.target[j]);
    }
    lemma_find_byte_at(r1, SP, r.target.len() as int);
    assert(rl.take(mb.len() as int) =~= mb);
    assert(r1.take(r.target.len() as int) =~= r.target);
    assert(r1.skip(r.target.len() as int + 1) =~= http11_bytes());
    assert(split_request_line(rl) == Some((mb, r.target, http11_bytes())));
    lemma_parse_headers_round(r.headers, r.body);
    assert(spec_parse_request(s) == ReqSplit::Done(r, ser_head(r).len() as int));
}


/// Every phrase of the fixed table is free of carriage returns, so a status
/// line never ends early.
#[verifier::rlimit(60)]
proof fn lemma_reason_wf(code: u32)
    requires
        spec_reason(code) is Some,
    ensures
        forall|i: int|
            0 <= i < spec_reason(code).unwrap().len() ==> #[trigger] spec_reason(
                code,
            ).unwrap()[i] != CR,
        code <= 505,
{
    let ph = spec_reason(code).unwrap();
    if code == 100 {
        reveal_strlit("Continue");
        assert(is_ascii_chars("Continue"@));
        is_ascii_chars_encode_utf8("Continue"@);
        assert forall|i: int| 0 <= i < ph.len() implies ph[i] != CR by {
            assert(ph[i] == "Continue"@[i] as u8);
        }
    } else if code == 101 {
        reveal_strlit("Switching Protocols");
        assert(is_ascii_chars("Switching Protocols"@));
        is_ascii_chars_encode_utf8("Switching Protocols"@);
        assert forall|i: int| 0 <= i < ph.len() implies ph[i] != CR by {
            assert(ph[i] == "Switching Protocols"@[i] as u8);
        }
    } else if code == 200 {
        reveal_strlit("OK");
        assert(is_ascii_chars("OK"@));
        is_ascii_chars_encode_utf8("OK"@);
        assert forall|i: int| 0 <= i < ph.len() implies ph[i] != CR by {
            assert(ph[i] == "OK"@[i] as u8);
        }
    } else if code == 201 {
        reveal_strlit("Created");
        assert(is_ascii_chars("Created"@));
        is_ascii_chars_encode_utf8("Created"@);
        assert forall|i: int| 0 <= i < ph.len() implies ph[i] != CR by {
            assert(ph[i] == "Created"@[i] as u8);
        }
    } else if code == 202 {
        reveal_strlit("Accepted");
        assert(is_ascii_chars("Accepted"@));
        is_ascii_chars_encode_utf8("Accepted"@);
        assert forall|i: int| 0 <= i < ph.len() implies ph[i] != CR by {
            assert(ph[i] == "Accepted"@[i] as u8);
        }
    } else if code == 203 {
        reveal_strlit("Non-Authoritative ");
        assert(is_ascii_chars("Non-Authoritative "@));
        is_ascii_chars_encode_utf8("Non-Authoritative "@);
        assert forall|i: int| 0 <= i < ph.len() implies ph[i] != CR by {
            assert(ph[i] == "Non-Authoritative "@[i] as u8);
        }
    } else if code == 204 {
        reveal_strlit("No Content");
        assert(is_ascii_chars("No Content"@));
        is_ascii_chars_encode_utf8("No Content"@);
        assert forall|i: int| 0 <= i < ph.len() implies ph[i] != CR by {
            assert(ph[i] == "No Content"@[i] as u8);
        }
    } else if code == 205 {
        reveal_strlit("Reset Content");
        assert(is_ascii_chars("Reset Content"@));
        is_ascii_chars_encode_utf8("Reset Content"@);
        assert forall|i: int| 0 <= i < ph.len() implies ph[i] != CR by {
            assert(ph[i] == "Reset Content"@[i] as u8);
        }
    } else if code == 206 {
        reveal_strlit("Partial Content");
        assert(is_ascii_chars("Partial Content"@));
        is_ascii_chars_encode_utf8("Partial Content"@);
        assert forall|i: int| 0 <= i < ph.len() implies ph[i] != CR by {
            assert(ph[i] == "Partial Content"@[i] as u8);
        }
    } else if code == 300 {
        reveal_strlit("Multiple Choices");
        assert(is_ascii_chars("Multiple Choices"@));
        is_ascii_chars_encode_utf8("Multiple Choices"@);
        assert forall|i: int| 0 <= i < ph.len() implies ph[i] != CR by {
            assert(ph[i] == "Multiple Choices"@[i] as u8);
        }
    } else if code == 301 {
        reveal_strlit("Moved Permanently");
        assert(is_ascii_chars("Moved Permanently"@));
        is_ascii_chars_encode_utf8("Moved Permanently"@);
        assert forall|i: int| 0 <= i < ph.len() implies ph[i] != CR by {
            assert(ph[i] == "Moved Permanently"@[i] as u8);
        }
    } else if code == 302 {
        reveal_strlit("Found");
        assert(is_ascii_chars("Found"@));
        is_ascii_chars_encode_utf8("Found"@);
        assert forall|i: int| 0 <= i < ph.len() implies ph[i] != CR by {
            assert(ph[i] == "Found"@[i] as u8);
        }
    } else if code == 303 {
        reveal_strlit("See Other");
        assert(is_ascii_chars("See Other"@));
        is_ascii_chars_encode_utf8("See Other"@);
        assert forall|i: int| 0 <= i < ph.len() implies ph[i] != CR by {
            assert(ph[i] == "See Other"@[i] as u8);
        }
    } else if code == 304 {
        reveal_strlit("Not Modified");
        assert(is_ascii_chars("Not Modified"@));
        is_ascii_chars_encode_utf8("Not Modified"@);
        assert forall|i: int| 0 <= i < ph.len() implies ph[i] != CR by {
            assert(ph[i] == "Not Modified"@[i] as u8);
        }
    } else if code == 305 {
        reveal_strlit("Use Proxy");
        assert(is_ascii_chars("Use Proxy"@));
        is_ascii_chars_encode_utf8("Use Proxy"@);
        assert forall|i: int| 0 <= i < ph.len() implies ph[i] != CR by {
            assert(ph[i] == "Use Proxy"@[i] as u8);
        }
    } else if code == 307 {
        reveal_strlit("Temporary Redirect");
        assert(is_ascii_chars("Temporary Redirect"@));
        is_ascii_chars_encode_utf8("Temporary Redirect"@);
        assert forall|i: int| 0 <= i < ph.len() implies ph[i] != CR by {
            assert(ph[i] == "Temporary Redirect"@[i] as u8);
        }
    } else if code == 400 {
        reveal_strlit("Bad Request");
        assert(is_ascii_chars("Bad Request"@));
        is_ascii_chars_encode_utf8("Bad Request"@);
        assert forall|i: int| 0 <= i < ph.len() implies ph[i] != CR by {
            assert(ph[i] == "Bad Request"@[i] as u8);
        }
    } else if code == 401 {
        reveal_strlit("Unauthorized");
        assert(is_ascii_chars("Unauthorized"@));
        is_ascii_chars_encode_utf8("Unauthorized"@);
        assert forall|i: int| 0 <= i < ph.len() implies ph[i] != CR by {
            assert(ph[i] == "Unauthorized"@[i] as u8);
        }
    } else if code == 402 {
        reveal_strlit("Payment Required");
        assert(is_ascii_chars("Payment Required"@));
        is_ascii_chars_encode_utf8("Payment Required"@);
        assert forall|i: int| 0 <= i < ph.len() implies ph[i] != CR by {
            assert(ph[i] == "Payment Required"@[i] as u8);
        }
    } else if code == 403 {
        reveal_strlit("Forbidden");
        assert(is_ascii_chars("Forbidden"@));
        is_ascii_chars_encode_utf8("Forbidden"@);
        assert forall|i: int| 0 <= i < ph.len() implies ph[i] != CR by {
            assert(ph[i] == "Forbidden"@[i] as u8);
        }
    } else if code == 404 {
        reveal_strlit("Not Found");
        assert(is_ascii_chars("Not Found"@));
        is_ascii_chars_encode_utf8("Not Found"@);
        assert forall|i: int| 0 <= i < ph.len() implies ph[i] != CR by {
            assert(ph[i] == "Not Found"@[i] as u8);
        }
    } else if code == 405 {
        reveal_strlit("Method Not Allowed");
        assert(is_ascii_chars("Method Not Allowed"@));
        is_ascii_chars_encode_utf8("Method Not Allowed"@);
        assert forall|i: int| 0 <= i < ph.len() implies ph[i] != CR by {
            assert(ph[i] == "Method Not Allowed"@[i] as u8);
        }
    } else if code == 406 {
        reveal_strlit("Not Acceptable");
        assert(is_ascii_chars("Not Acceptable"@));
        is_ascii_chars_encode_utf8("Not Acceptable"@);
        assert forall|i: int| 0 <= i < ph.len() implies ph[i] != CR by {
            assert(ph[i] == "Not Acceptable"@[i] as u8);
        }
    } else if code == 407 {
        reveal_strlit("Proxy Authentication ");
        assert(is_ascii_chars("Proxy Authentication "@));
        is_ascii_chars_encode_utf8("Proxy Authentication "@);
        assert forall|i: int| 0 <= i < ph.len() implies ph[i] != CR by {
            assert(ph[i] == "Proxy Authentication "@[i] as u8);
        }
    } else if code == 408 {
        reveal_strlit("Request Timeout");
        assert(is_ascii_chars("Request Timeout"@));
        is_ascii_chars_encode_utf8("Request Timeout"@);
        assert forall|i: int| 0 <= i < ph.len() implies ph[i] != CR by {
            assert(ph[i] == "Request Timeout"@[i] as u8);
        }
    } else if code == 409 {
        reveal_strlit("Conflict");
        assert(is_ascii_chars("Conflict"@));
        is_ascii_chars_encode_utf8("Conflict"@);
        assert forall|i: int| 0 <= i < ph.len() implies ph[i] != CR by {
            assert(ph[i] == "Conflict"@[i] as u8);
        }
    } else if code == 410 {
        reveal_strlit("Gone");
        assert(is_ascii_chars("Gone"@));
        is_ascii_chars_encode_utf8("Gone"@);
        assert forall|i: int| 0 <= i < ph.len() implies ph[i] != CR by {
            assert(ph[i] == "Gone"@[i] as u8);
        }
    } else if code == 411 {
        reveal_strlit("Length Required");
        assert(is_ascii_chars("Length Required"@));
        is_ascii_chars_encode_utf8("Length Required"@);
        assert forall|i: int| 0 <= i < ph.len() implies ph[i] != CR by {
            assert(ph[i] == "Length Required"@[i] as u8);
        }
    } else if code == 412 {
        reveal_strlit("Precondition Failed");
        assert(is_ascii_chars("Precondition Failed"@));
        is_ascii_chars_encode_utf8("Precondition Failed"@);
        assert forall|i: int| 0 <= i < ph.len() implies ph[i] != CR by {
            assert(ph[i] == "Precondition Failed"@[i] as u8);
        }
    } else if code == 413 {
        reveal_strlit("Payload Too Large");
        assert(is_ascii_chars("Payload Too Large"@));
        is_ascii_chars_encode_utf8("Payload Too Large"@);
        assert forall|i: int| 0 <= i < ph.len() implies ph[i] != CR by {
            assert(ph[i] == "Payload Too Large"@[i] as u8);
        }
    } else if code == 414 {
        reveal_strlit("URI Too Long");
        assert(is_ascii_chars("URI Too Long"@));
        is_ascii_chars_encode_utf8("URI Too Long"@);
        assert forall|i: int| 0 <= i < ph.len() implies ph[i] != CR by {
            assert(ph[i] == "URI Too Long"@[i] as u8);
        }
    } else if code == 415 {
        reveal_strlit("Unsupported Media Type");
        assert(is_ascii_chars("Unsupported Media Type"@));
        is_ascii_chars_encode_utf8("Unsupported Media Type"@);
        assert forall|i: int| 0 <= i < ph.len() implies ph[i] != CR by {
            assert(ph[i] == "Unsupported Media Type"@[i] as u8);
        }
    } else if code == 416 {
        reveal_strlit("Range Not Satisfiable");
        assert(is_ascii_chars("Range Not Satisfiable"@));
        is_ascii_chars_encode_utf8("Range Not Satisfiable"@);
        assert forall|i: int| 0 <= i < ph.len() implies ph[i] != CR by {
            assert(ph[i] == "Range Not Satisfiable"@[i] as u8);
        }
    } else if code == 417 {
        reveal_strlit("Expectation Failed");
        assert(is_ascii_chars("Expectation Failed"@));
        is_ascii_chars_encode_utf8("Expectation Failed"@);
        assert forall|i: int| 0 <= i < ph.len() implies ph[i] != CR by {
            assert(ph[i] == "Expectation Failed"@[i] as u8);
        }
    } else if code == 426 {
        reveal_strlit("Upgrade Required");
        assert(is_ascii_chars("Upgrade Required"@));
        is_ascii_chars_encode_utf8("Upgrade Required"@);
        assert forall|i: int| 0 <= i < ph.len() implies ph[i] != CR by {
            assert(ph[i] == "Upgrade Required"@[i] as u8);
        }
    } else if code == 500 {
        reveal_strlit("Internal Server Error");
        assert(is_ascii_chars("Internal Server Error"@));
        is_ascii_chars_encode_utf8("Internal Server Error"@);
        assert forall|i: int| 0 <= i < ph.len() implies ph[i] != CR by {
            assert(ph[i] == "Internal Server Error"@[i] as u8);
        }
    } else if code == 501 {
        reveal_strlit("Not Implemented");
        assert(is_ascii_chars("Not Implemented"@));
        is_ascii_chars_encode_utf8("Not Implemented"@);
        assert forall|i: int| 0 <= i < ph.len() implies ph[i] != CR by {
            assert(ph[i] == "Not Implemented"@[i] as u8);
        }
    } else if code == 502 {
        reveal_strlit("Bad Gateway");
        assert(is_ascii_chars("Bad Gateway"@));
        is_ascii_chars_encode_utf8("Bad Gateway"@);
        assert forall|i: int| 0 <= i < ph.len() implies ph[i] != CR by {
            assert(ph[i] == "Bad Gateway"@[i] as u8);
        }
    } else if code == 503 {
        reveal_strlit("Service Unavailable");
        assert(is_ascii_chars("Service Unavailable"@));
        is_ascii_chars_encode_utf8("Service Unavailable"@);
        assert forall|i: int| 0 <= i < ph.len() implies ph[i] != CR by {
            assert(ph[i] == "Service Unavailable"@[i] as u8);
        }
    } else if code == 504 {
        reveal_strlit("Gateway Timeout");
        assert(is_ascii_chars("Gateway Timeout"@));
        is_ascii_chars_encode_utf8("Gateway Timeout"@);
        assert forall|i: int| 0 <= i < ph.len() implies ph[i] != CR by {
            assert(ph[i] == "Gateway Timeout"@[i] as u8);
        }
    } else if code == 505 {
        reveal_strlit("HTTP Version Not Supported");
        assert(is_ascii_chars("HTTP Version Not Supported"@));
        is_ascii_chars_encode_utf8("HTTP Version Not Supported"@);
        assert forall|i: int| 0 <= i < ph.len() implies ph[i] != CR by {
            assert(ph[i] == "HTTP Version Not Supported"@[i] as u8);
        }
    }
}

proof fn lemma_content_length_literal()
    ensures
        content_length_bytes() == content_length_name() + seq![COLON, SP],
        wf_header_name(content_length_name()),
{
    reveal_strlit("Content-Length: ");
    reveal_strlit("Content-Length");
    assert(is_ascii_chars("Content-Length: "@));
    assert(is_ascii_chars("Content-Length"@));
    is_ascii_chars_encode_utf8("Content-Length: "@);
    is_ascii_chars_encode_utf8("Content-Length"@);
    assert forall|i: int| 0 <= i < 16 implies content_length_bytes()[i] == (content_length_name()
        + seq![COLON, SP])[i] by {
        assert(content_length_bytes()[i] == "Content-Length: "@[i] as u8);
        if i < 14 {
            assert((content_length_name() + seq![COLON, SP])[i] == "Content-Length"@[i] as u8);
        }
    }
    assert(content_length_bytes() =~= content_length_name() + seq![COLON, SP]);
    assert forall|i: int| 0 <= i < content_length_name().len() implies content_length_name()[i]
        != CR && content_length_name()[i] != LF && content_length_name()[i] != COLON by {
        assert(content_length_name()[i] == "Content-Length"@[i] as u8);
    }
}

/// Round trip for responses: parsing the serialized form of a response whose
/// code is in the table gives back its code and body exactly, and its
/// headers with the computed Content-Length prepended.
#[verifier::rlimit(60)]
pub proof fn lemma_response_round_trip(m: RespModel)
    requires
        wf_headers(m.headers),
        spec_reason(m.code) is Some,
        m.body.len() <= usize::MAX,
    ensures
        spec_parse_response(ser_response(m)) == RespSplit::Done(
            RespModel {
                code: m.code,
                headers: seq![(content_length_name(), dec_bytes(m.body.len()))] + m.headers,
                body: m.body,
            },
        ),
{
    let reason = spec_reason(m.code).unwrap();
    let cdig = dec_bytes(m.code as nat);
    let ndig = dec_bytes(m.body.len());
    let sl = http11_bytes() + seq![SP] + cdig + seq![SP] + reason;
    let clh = (content_length_name(), ndig);
    let hs2 = seq![clh] + m.headers;
    let tail = m.body + seq![CR, LF] + seq![CR, LF];
    let s = ser_response(m);
    lemma_http11_facts();
    lemma_reason_wf(m.code);
    lemma_dec_bytes_digits(m.code as nat);
    lemma_dec_bytes_digits(m.body.len());
    lemma_dec_round_trip(m.code as nat);
    lemma_dec_round_trip(m.body.len());
    lemma_content_length_literal();
    reveal_with_fuel(pow10, 22);
    assert(pow10(3) == 1000);
    assert(pow10(20) == 100_000_000_000_000_000_000);
    lemma_dec_bytes_len(m.code as nat, 3);
    lemma_dec_bytes_len(m.body.len(), 20);

    // the serialized bytes, regrouped as line + terminator + rest
    assert(ser_status_line(m.code) =~= sl + seq![CR, LF]);
    assert(hs2[0] == clh);
    assert(hs2.skip(1) =~= m.headers);
    assert(ser_headers(hs2) == ser_header(clh) + ser_headers(m.headers));
    assert(ser_header(clh) =~= content_length_bytes() + ndig + seq![CR, LF]);
    let hdr_rest = ser_headers(hs2) + seq![CR, LF] + tail;
    assert(s =~= sl + seq![CR, LF] + hdr_rest);

    // the status line splits back into its three tokens
    assert forall|i: int| 0 <= i < sl.len() implies sl[i] != CR by {
        if i < 8 {
            assert(sl[i] == http11_bytes()[i]);
        } else if i == 8 {
            assert(sl[i] == SP);
        } else if i < 9 + cdig.len() {
            assert(sl[i] == cdig[i - 9]);
            assert(48 <= cdig[i - 9] <= 57);
        } else if i == 9 + cdig.len() {
            assert(sl[i] == SP);
        } else {
            assert(sl[i] == reason[i - 10 - cdig.len()]);
        }
    }
    lemma_take_line_concat(sl, hdr_rest);
    assert(take_line(s) == LineSplit::Line(sl, hdr_rest));
    assert(sl[8] == SP);
    assert forall|j: int| 0 <= j < 8 implies sl[j] != SP by {
        assert(sl[j] == http11_bytes()[j]);
    }
    lemma_find_byte_at(sl, SP, 8);
    let r1 = sl.skip(9);
    assert(r1 =~= cdig + seq![SP] + reason);
    assert(r1[cdig.len() as int] == SP);
    assert forall|j: int| 0 <= j < cdig.len() implies r1[j] != SP by {
        assert(r1[j] == cdig[j]);
        assert(48 <= cdig[j] <= 57);
    }
    lemma_find_byte_at(r1, SP, cdig.len() as int);
    assert(sl.take(8) =~= http11_bytes());
    assert(r1.take(cdig.len() as int) =~= cdig);
    assert(r1.skip(cdig.len() as int + 1) =~= reason);
    assert(split_request_line(sl) == Some((http11_bytes(), cdig, reason)));

    // the header block splits back, Content-Length first
    assert(wf_header_name(clh.0) && wf_header_value(clh.1)) by {
        assert forall|i: int| 0 <= i < ndig.len() implies ndig[i] != CR && ndig[i] != LF by {
            assert(48 <= ndig[i] <= 57);
        }
    }
    assert forall|i: int|
        0 <= i < hs2.len() implies wf_header_name(#[trigger] hs2[i].0) && wf_header_value(
        hs2[i].1,
    ) by {
        if i > 0 {
            assert(hs2[i] == m.headers[i - 1]);
        }
    }
    lemma_parse_headers_round(hs2, tail);
    assert(parse_headers(hdr_rest) == HeadersSplit::Found(hs2, tail));
    assert(find_content_length(hs2) == Some(ndig));

    // the Content-Length value delimits exactly the body
    assert(dec_val(ndig) == m.body.len());
    assert(tail.take(m.body.len() as int) =~= m.body);
    assert(dec_val(cdig) == m.code);
    assert(spec_parse_response(s) == RespSplit::Done(
        RespModel { code: m.code, headers: hs2, body: m.body },
    ));
}

} // verus!

