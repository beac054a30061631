//! The request parser: raw header-block bytes in, a structured request out.
//! The spec functions give the grammar; the exec parser is proved to decide
//! exactly that grammar. An unsupported method is a per-connection error,
//! never a reason to abort the process.

use vstd::prelude::*;

use vstd::slice::{slice_subrange, slice_to_vec};

use crate::bytes::{find_byte, find_byte_from, lemma_find_byte, eq_bytes, COLON, CR, LF, SP};
use crate::message::{Header, Method, ParsedRequest, ReqModel};
use crate::ser::http11_bytes;

verus! {

broadcast use vstd::slice::axiom_spec_len;

/// Splitting off the first CRLF-terminated line: the line without its
/// terminator and the rest, or no terminator yet, or a stray carriage return
/// not followed by a line feed.
pub ghost enum LineSplit {
    Line(Seq<u8>, Seq<u8>),
    NoTerminator,
    BadTerminator,
}

pub open spec fn take_line(s: Seq<u8>) -> LineSplit {
    let i = find_byte(s, CR);
    if i < 0 {
        LineSplit::NoTerminator
    } else if i + 1 >= s.len() {
        LineSplit::NoTerminator
    } else if s[i + 1] != LF {
        LineSplit::BadTerminator
    } else {
        LineSplit::Line(s.take(i), s.skip(i + 2))
    }
}

/// `name: value`, split at the first colon, which must be preceded by a
/// nonempty name and followed by a single space.
pub open spec fn parse_header_line(l: Seq<u8>) -> Option<(Seq<u8>, Seq<u8>)> {
    let c = find_byte(l, COLON);
    if c <= 0 {
        None
    } else if c + 1 >= l.len() || l[c + 1] != SP {
        None
    } else {
        Some((l.take(c), l.skip(c + 2)))
    }
}

/// Header lines up to and including the blank line; the rest is the body.
pub ghost enum HeadersSplit {
    Found(Seq<(Seq<u8>, Seq<u8>)>, Seq<u8>),
    Partial,
    Bad,
}

pub open spec fn parse_headers(s: Seq<u8>) -> HeadersSplit
    decreases s.len(),
{
    match take_line(s) {
        LineSplit::NoTerminator => HeadersSplit::Partial,
        LineSplit::BadTerminator => HeadersSplit::Bad,
        LineSplit::Line(l, rest) => if l.len() == 0 {
            HeadersSplit::Found(Seq::empty(), rest)
        } else {
            match parse_header_line(l) {
                None => HeadersSplit::Bad,
                Some(h) => match parse_headers(rest) {
                    HeadersSplit::Found(hs, body) => HeadersSplit::Found(seq![h] + hs, body),
                    r => r,
                },
            }
        },
    }
}

/// `METHOD target version`, split at the first two spaces.
pub open spec fn split_request_line(l: Seq<u8>) -> Option<(Seq<u8>, Seq<u8>, Seq<u8>)> {
    let i = find_byte(l, SP);
    if i < 0 {
        None
    } else {
        let r1 = l.skip(i + 1);
        let j = find_byte(r1, SP);
        if j < 0 {
            None
        } else {
            Some((l.take(i), r1.take(j), r1.skip(j + 1)))
        }
    }
}

pub open spec fn method_of(m: Seq<u8>) -> Option<Method> {
    if m == crate::ser::method_bytes(Method::Get) {
        Some(Method::Get)
    } else if m == crate::ser::method_bytes(Method::Post) {
        Some(Method::Post)
    } else if m == crate::ser::method_bytes(Method::Connect) {
        Some(Method::Connect)
    } else {
        None
    }
}

/// What parsing a byte string yields: a request and the length of its header
/// block, or not enough input, or a rejection.
pub ghost enum ReqSplit {
    Done(ReqModel, int),
    Partial,
    Unsupported,
    Bad,
}

pub open spec fn spec_parse_request(s: Seq<u8>) -> ReqSplit {
    match take_line(s) {
        LineSplit::NoTerminator => ReqSplit::Partial,
        LineSplit::BadTerminator => ReqSplit::Bad,
        LineSplit::Line(l, rest) => match split_request_line(l) {
            None => ReqSplit::Bad,
            Some((m, t, v)) => if v != http11_bytes() || t.len() == 0 {
                ReqSplit::Bad
            } else {
                match method_of(m) {
                    None => ReqSplit::Unsupported,
                    Some(meth) => match parse_headers(rest) {
                        HeadersSplit::Found(hs, body) => ReqSplit::Done(
                            ReqModel { method: meth, target: t, headers: hs, body },
                            s.len() - body.len(),
                        ),
                        HeadersSplit::Partial => ReqSplit::Partial,
                        HeadersSplit::Bad => ReqSplit::Bad,
                    },
                }
            },
        },
    }
}

/// Why a request was rejected: the method is outside the supported set, or
/// the bytes do not form a header block.
#[derive(Clone, Copy, Debug, PartialEq, Eq, Structural)]
pub enum ParseError {
    UnsupportedMethod,
    Malformed,
}

/// Outcome of parsing: a request plus how many bytes its header block took,
/// or a prefix without a full blank line, or a rejection.
#[derive(Debug)]
pub enum ParseOutcome {
    Complete { request: ParsedRequest, consumed: usize },
    Incomplete,
    Rejected(ParseError),
}

pub open spec fn outcome_models(r: ParseOutcome, s: ReqSplit) -> bool {
    match r {
        ParseOutcome::Complete { request, consumed } => s == ReqSplit::Done(
            request@,
            consumed as int,
        ),
        ParseOutcome::Incomplete => s == ReqSplit::Partial,
        ParseOutcome::Rejected(ParseError::UnsupportedMethod) => s == ReqSplit::Unsupported,
        ParseOutcome::Rejected(ParseError::Malformed) => s == ReqSplit::Bad,
    }
}

pub(crate) enum LineTaken {
    Took { line_end: usize, next: usize },
    NoTerm,
    BadTerm,
}

pub(crate) fn take_line_at(input: &[u8], pos: usize) -> (r: LineTaken)
    requires
        pos <= input@.len(),
    ensures
        match r {
            LineTaken::Took { line_end, next } => pos <= line_end && line_end + 2 == next && next
                <= input@.len() && take_line(input@.skip(pos as int)) == LineSplit::Line(
                input@.subrange(pos as int, line_end as int),
                input@.skip(next as int),
            ),
            LineTaken::NoTerm => take_line(input@.skip(pos as int)) == LineSplit::NoTerminator,
            LineTaken::BadTerm => take_line(input@.skip(pos as int)) == LineSplit::BadTerminator,
        },
{
    let ghost s = input@.skip(pos as int);
    let n = input.len();
    match find_byte_from(input, pos, CR) {
        None => LineTaken::NoTerm,
        Some(i) => {
            proof {
                lemma_find_byte(s, CR);
            }
            if i + 1 >= n {
                LineTaken::NoTerm
            } else if input[i + 1] != LF {
                LineTaken::BadTerm
            } else {
                proof {
                    let fi = find_byte(s, CR);
                    assert(s[fi + 1] == input@[i + 1]);
                    assert(s.take(fi) =~= input@.subrange(pos as int, i as int));
                    assert(s.skip(fi + 2) =~= input@.skip(i + 2));
                }
                LineTaken::Took { line_end: i, next: i + 2 }
            }
        },
    }
}

spec fn hdr_combine(acc: Seq<(Seq<u8>, Seq<u8>)>, r: HeadersSplit) -> HeadersSplit {
    match r {
        HeadersSplit::Found(hs, body) => HeadersSplit::Found(acc + hs, body),
        other => other,
    }
}

pub(crate) enum HdrBlock {
    Found { headers: Vec<Header>, body_start: usize },
    Partial,
    Bad,
}

pub(crate) fn parse_header_block(input: &[u8], pos: usize) -> (r: HdrBlock)
    requires
        pos <= input@.len(),
    ensures
        match r {
            HdrBlock::Found { headers, body_start } => pos <= body_start <= input@.len()
                && parse_headers(input@.skip(pos as int)) == HeadersSplit::Found(
                headers@.map_values(|h: Header| h@),
                input@.skip(body_start as int),
            ),
            HdrBlock::Partial => parse_headers(input@.skip(pos as int)) == HeadersSplit::Partial,
            HdrBlock::Bad => parse_headers(input@.skip(pos as int)) == HeadersSplit::Bad,
        },
{
    let mut acc: Vec<Header> = Vec::new();
    let mut cur: usize = pos;
    proof {
        assert(acc@.map_values(|h: Header| h@) =~= Seq::<(Seq<u8>, Seq<u8>)>::empty());
    }
    loop
        invariant
            pos <= cur <= input@.len(),
            parse_headers(input@.skip(pos as int)) == hdr_combine(
                acc@.map_values(|h: Header| h@),
                parse_headers(input@.skip(cur as int)),
            ),
        decreases input@.len() - cur,
    {
        let ghost s_cur = input@.skip(cur as int);
        match take_line_at(input, cur) {
            LineTaken::NoTerm => {
                return HdrBlock::Partial;
            },
            LineTaken::BadTerm => {
                return HdrBlock::Bad;
            },
            LineTaken::Took { line_end, next } => {
                let ghost l = input@.subrange(cur as int, line_end as int);
                if line_end == cur {
                    proof {
                        assert(l.len() == 0);
                        assert(acc@.map_values(|h: Header| h@) + Seq::<(Seq<u8>, Seq<u8>)>::empty()
                            =~= acc@.map_values(|h: Header| h@));
                    }
                    return HdrBlock::Found { headers: acc, body_start: next };
                }
                let line = slice_subrange(input, cur, line_end);
                let ghost accm = acc@.map_values(|h: Header| h@);
                match find_byte_from(line, 0, COLON) {
                    None => {
                        proof {
                            assert(line@.skip(0) =~= l);
                        }
                        return HdrBlock::Bad;
                    },
                    Some(c) => {
                        proof {
                            assert(line@.skip(0) =~= l);
                            lemma_find_byte(l, COLON);
                        }
                        if c == 0 {
                            return HdrBlock::Bad;
                        }
                        if c + 1 >= line.len() {
                            return HdrBlock::Bad;
                        }
                        if line[c + 1] != SP {
                            proof {
                                assert(l[find_byte(l, COLON) + 1] == line@[c + 1]);
                            }
                            return HdrBlock::Bad;
                        }
                        proof {
                            assert(l[find_byte(l, COLON) + 1] == line@[c + 1]);
                        }
                        let name = slice_subrange(line, 0, c);
                        let value = slice_subrange(line, c + 2, line.len());
                        proof {
                            assert(l.take(find_byte(l, COLON)) =~= name@);
                            assert(l.skip(find_byte(l, COLON) + 2) =~= value@);
                        }
                        let h = Header { name: slice_to_vec(name), value: slice_to_vec(value) };
                        let ghost hm = h@;
                        acc.push(h);
                        proof {
                            assert(parse_header_line(l) == Some(hm));
                            assert(acc@.map_values(|hh: Header| hh@) =~= accm.push(hm));
                            let x = parse_headers(input@.skip(next as int));
                            assert(parse_headers(s_cur) == hdr_combine(seq![hm], x));
                            assert(accm + (seq![hm] + x->Found_0) =~= accm.push(hm)
                                + x->Found_0) by {
                                if x is Found {
                                }
                            }
                            assert(hdr_combine(accm, hdr_combine(seq![hm], x)) == hdr_combine(
                                accm.push(hm),
                                x,
                            ));
                        }
                        cur = next;
                    },
                }
            },
        }
    }
}

/// How the request line was read: a supported method with its target, an
/// unsupported but well-formed line, or no request line at all.
enum ReqLine {
    Good { method: Method, target: Vec<u8> },
    Unsupported,
    Bad,
}

fn read_request_line(line: &[u8]) -> (r: ReqLine)
    ensures
        match r {
            ReqLine::Good { method, target } => (split_request_line(line@) matches Some((m, t, v))
                && method_of(m) == Some(method) && t == target@ && v == http11_bytes()
                && t.len() > 0),
            ReqLine::Unsupported => (split_request_line(line@) matches Some((m, t, v))
                && method_of(m) is None && v == http11_bytes() && t.len() > 0),
            ReqLine::Bad => (split_request_line(line@) is None || (split_request_line(line@)
                matches Some((m, t, v)) && (v != http11_bytes() || t.len() == 0))),
        },
{
    let ghost l = line@;
    let n = line.len();
    proof {
        assert(l.skip(0) =~= l);
    }
    let i = match find_byte_from(line, 0, SP) {
        None => {
            return ReqLine::Bad;
        },
        Some(i) => i,
    };
    proof {
        lemma_find_byte(l, SP);
    }
    let ghost r1 = l.skip(i + 1);
    let j = match find_byte_from(line, i + 1, SP) {
        None => {
            return ReqLine::Bad;
        },
        Some(j) => j,
    };
    proof {
        lemma_find_byte(r1, SP);
    }
    let m = slice_subrange(line, 0, i);
    let t = slice_subrange(line, i + 1, j);
    let v = slice_subrange(line, j + 1, n);
    proof {
        assert(l.take(find_byte(l, SP)) =~= m@);
        assert(r1.take(find_byte(r1, SP)) =~= t@);
        assert(r1.skip(find_byte(r1, SP) + 1) =~= v@);
    }
    if !eq_bytes(v, "HTTP/1.1".as_bytes()) {
        return ReqLine::Bad;
    }
    if t.len() == 0 {
        return ReqLine::Bad;
    }
    let method = if eq_bytes(m, "GET".as_bytes()) {
        Method::Get
    } else if eq_bytes(m, "POST".as_bytes()) {
        Method::Post
    } else if eq_bytes(m, "CONNECT".as_bytes()) {
        Method::Connect
    } else {
        return ReqLine::Unsupported;
    };
    ReqLine::Good { method, target: slice_to_vec(t) }
}

/// Parses one request out of `input`: request line, headers up to the blank
/// line, and everything after it as the body. Returns how many bytes the
/// header block took.
pub fn parse(input: &[u8]) -> (r: ParseOutcome)
    ensures
        outcome_models(r, spec_parse_request(input@)),
{
    proof {
        assert(input@.skip(0) =~= input@);
    }
    match take_line_at(input, 0) {
        LineTaken::NoTerm => ParseOutcome::Incomplete,
        LineTaken::BadTerm => ParseOutcome::Rejected(ParseError::Malformed),
        LineTaken::Took { line_end, next } => {
            let line = slice_subrange(input, 0, line_end);
            let (method, target) = match read_request_line(line) {
                ReqLine::Bad => {
                    return ParseOutcome::Rejected(ParseError::Malformed);
                },
                ReqLine::Unsupported => {
                    return ParseOutcome::Rejected(ParseError::UnsupportedMethod);
                },
                ReqLine::Good { method, target } => (method, target),
            };
            match parse_header_block(input, next) {
                HdrBlock::Partial => ParseOutcome::Incomplete,
                HdrBlock::Bad => ParseOutcome::Rejected(ParseError::Malformed),
                HdrBlock::Found { headers, body_start } => {
                    let body = slice_to_vec(slice_subrange(input, body_start, input.len()));
                    proof {
                        assert(input@.subrange(body_start as int, input@.len() as int)
                            =~= input@.skip(body_start as int));
                    }
                    let request = ParsedRequest { method, target, headers, body };
                    ParseOutcome::Complete { request, consumed: body_start }
                },
            }
        },
    }
}

} // verus!
