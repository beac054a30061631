//! The response parser, the inverse of response serialization: status line,
//! headers, then as many body bytes as the first Content-Length header
//! announces. The reason phrase is not kept: re-serialization derives it
//! from the code through the fixed table.

use vstd::prelude::*;

use vstd::slice::{slice_subrange, slice_to_vec};
use vstd::string::StringSliceAdditionalSpecFns;

use crate::bytes::{
    all_digits, dec_val, eq_bytes, find_byte, find_byte_from, lemma_dec_val_bound,
    lemma_find_byte, lemma_pow10_le, parse_decimal, pow10, SP,
};
use crate::message::{Header, RespModel, Response};
use crate::parse::{
    parse_headers, split_request_line, take_line, HdrBlock, HeadersSplit, LineSplit, LineTaken,
    take_line_at, parse_header_block,
};
use crate::ser::http11_bytes;

verus! {

/// The name of the header that delimits the body.
pub open spec fn content_length_name() -> Seq<u8> {
    "Content-Length".spec_bytes()
}

/// The value of the first Content-Length header, if any.
pub open spec fn find_content_length(hs: Seq<(Seq<u8>, Seq<u8>)>) -> Option<Seq<u8>>
    decreases hs.len(),
{
    if hs.len() == 0 {
        None
    } else if hs[0].0 == content_length_name() {
        Some(hs[0].1)
    } else {
        find_content_length(hs.skip(1))
    }
}

proof fn lemma_find_content_length_at(hs: Seq<(Seq<u8>, Seq<u8>)>, i: int)
    requires
        0 <= i < hs.len(),
        hs[i].0 == content_length_name(),
        forall|j: int| 0 <= j < i ==> (#[trigger] hs[j]).0 != content_length_name(),
    ensures
        find_content_length(hs) == Some(hs[i].1),
    decreases i,
{
    if i > 0 {
        assert(hs[0].0 != content_length_name());
        assert forall|j: int| 0 <= j < i - 1 implies (#[trigger] hs.skip(1)[j]).0
            != content_length_name() by {
            assert(hs.skip(1)[j] == hs[j + 1]);
        }
        assert(hs.skip(1)[i - 1] == hs[i]);
        lemma_find_content_length_at(hs.skip(1), i - 1);
    }
}

proof fn lemma_find_content_length_none(hs: Seq<(Seq<u8>, Seq<u8>)>)
    requires
        forall|j: int| 0 <= j < hs.len() ==> (#[trigger] hs[j]).0 != content_length_name(),
    ensures
        find_content_length(hs) is None,
    decreases hs.len(),
{
    if hs.len() > 0 {
        assert forall|j: int| 0 <= j < hs.skip(1).len() implies (#[trigger] hs.skip(1)[j]).0
            != content_length_name() by {
            assert(hs.skip(1)[j] == hs[j + 1]);
        }
        lemma_find_content_length_none(hs.skip(1));
    }
}

/// What parsing a response yields.
pub ghost enum RespSplit {
    Done(RespModel),
    Partial,
    Bad,
}

/// The response grammar: `HTTP/1.1 code reason` with a decimal code of at
/// most nine digits, then headers up to the blank line, then exactly the
/// number of body bytes that the first Content-Length header announces.
/// Fewer bytes than announced is not yet a response; a missing or unreadable
/// Content-Length is a malformed one.
pub open spec fn spec_parse_response(s: Seq<u8>) -> RespSplit {
    match take_line(s) {
        LineSplit::NoTerminator => RespSplit::Partial,
        LineSplit::BadTerminator => RespSplit::Bad,
        LineSplit::Line(l, rest) => match split_request_line(l) {
            None => RespSplit::Bad,
            Some((v, digits, _reason)) => if v != http11_bytes() || !(0 < digits.len() <= 9)
                || !all_digits(digits) {
                RespSplit::Bad
            } else {
                match parse_headers(rest) {
                    HeadersSplit::Partial => RespSplit::Partial,
                    HeadersSplit::Bad => RespSplit::Bad,
                    HeadersSplit::Found(hs, tail) => match find_content_length(hs) {
                        None => RespSplit::Bad,
                        Some(nd) => if !(0 < nd.len() <= 20) || !all_digits(nd) || dec_val(nd)
                            > usize::MAX {
                            RespSplit::Bad
                        } else if dec_val(nd) > tail.len() {
                            RespSplit::Partial
                        } else {
                            RespSplit::Done(
                                RespModel {
                                    code: dec_val(digits) as u32,
                                    headers: hs,
                                    body: tail.take(dec_val(nd) as int),
                                },
                            )
                        },
                    },
                }
            },
        },
    }
}

/// Outcome of parsing a response off the wire.
#[derive(Debug)]
pub enum RespOutcome {
    Complete { response: Response },
    Incomplete,
    Malformed,
}

/// Parses one response: status line, headers, and a Content-Length-delimited
/// body.
#[verifier::loop_isolation(false)]
pub fn parse_response(input: &[u8]) -> (r: RespOutcome)
    ensures
        match r {
            RespOutcome::Complete { response } => spec_parse_response(input@) == RespSplit::Done(
                response@,
            ),
            RespOutcome::Incomplete => spec_parse_response(input@) == RespSplit::Partial,
            RespOutcome::Malformed => spec_parse_response(input@) == RespSplit::Bad,
        },
{
    proof {
        assert(input@.skip(0) =~= input@);
    }
    let (line_end, next) = match take_line_at(input, 0) {
        LineTaken::NoTerm => {
            return RespOutcome::Incomplete;
        },
        LineTaken::BadTerm => {
            return RespOutcome::Malformed;
        },
        LineTaken::Took { line_end, next } => (line_end, next),
    };
    let line = slice_subrange(input, 0, line_end);
    let ghost l = line@;
    let n = line.len();
    proof {
        assert(l.skip(0) =~= l);
    }
    let i = match find_byte_from(line, 0, SP) {
        None => {
            return RespOutcome::Malformed;
        },
        Some(i) => i,
    };
    proof {
        lemma_find_byte(l, SP);
    }
    let ghost r1 = l.skip(i + 1);
    let j = match find_byte_from(line, i + 1, SP) {
        None => {
            return RespOutcome::Malformed;
        },
        Some(j) => j,
    };
    proof {
        lemma_find_byte(r1, SP);
    }
    let v = slice_subrange(line, 0, i);
    let digits = slice_subrange(line, i + 1, j);
    proof {
        assert(l.take(find_byte(l, SP)) =~= v@);
        assert(r1.take(find_byte(r1, SP)) =~= digits@);
        assert(r1.skip(find_byte(r1, SP) + 1) =~= l.skip(j as int + 1));
    }
    if !eq_bytes(v, "HTTP/1.1".as_bytes()) {
        return RespOutcome::Malformed;
    }
    let code_val = match crate::bytes::parse_decimal(digits) {
        None => {
            return RespOutcome::Malformed;
        },
        Some(c) => c,
    };
    if digits.len() > 9 {
        return RespOutcome::Malformed;
    }
    proof {
        lemma_dec_val_bound(digits@);
        lemma_pow10_le(digits@.len(), 9);
        reveal_with_fuel(pow10, 11);
        assert(pow10(9) == 1_000_000_000);
    }
    let code = code_val as u32;
    match parse_header_block(input, next) {
        HdrBlock::Partial => RespOutcome::Incomplete,
        HdrBlock::Bad => RespOutcome::Malformed,
        HdrBlock::Found { headers, body_start } => {
            let ghost hs = headers@.map_values(|h: Header| h@);
            let mut k: usize = 0;
            while k < headers.len()
                invariant
                    k <= headers@.len(),
                    forall|j: int| 0 <= j < k ==> (#[trigger] hs[j]).0 != content_length_name(),
                decreases headers@.len() - k,
            {
                if eq_bytes(headers[k].name.as_slice(), "Content-Length".as_bytes()) {
                    proof {
                        lemma_find_content_length_at(hs, k as int);
                    }
                    let len_val = match parse_decimal(headers[k].value.as_slice()) {
                        None => {
                            return RespOutcome::Malformed;
                        },
                        Some(v) => v,
                    };
                    if len_val > usize::MAX as u128 {
                        return RespOutcome::Malformed;
                    }
                    let avail = input.len() - body_start;
                    if len_val > avail as u128 {
                        return RespOutcome::Incomplete;
                    }
                    let len = len_val as usize;
                    let body = slice_to_vec(slice_subrange(input, body_start, body_start + len));
                    proof {
                        assert(input@.subrange(body_start as int, body_start as int + len as int)
                            =~= input@.skip(body_start as int).take(len as int));
                    }
                    return RespOutcome::Complete {
                        response: Response { status_code: code, headers, body },
                    };
                }
                k += 1;
            }
            proof {
                lemma_find_content_length_none(hs);
            }
            RespOutcome::Malformed
        },
    }
}

} // verus!
