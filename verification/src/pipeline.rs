//! The per-connection decision logic: reading the header block line by line,
//! deciding what one parsed request means for the connection, splitting a
//! CONNECT target into host and port, the tunnel negotiation state machine,
//! and the replies for errors and forwarding outcomes. All sockets stay with
//! the caller: it feeds bytes in and performs the returned actions.

use vstd::prelude::*;

use vstd::slice::{slice_subrange, slice_to_vec};
use vstd::string::StringSliceAdditionalSpecFns;

use crate::bytes::{all_digits, dec_val, find_byte, find_byte_from, lemma_dec_val_bound, lemma_find_byte, lemma_pow10_le, pow10, push_bytes, COLON, CR, LF};
use crate::message::{Method, ParsedRequest, RespModel, Response};
use crate::parse::{parse, spec_parse_request, ParseError, ParseOutcome, ReqSplit};
use crate::ser::ser_response;
use crate::status::spec_reason;

verus! {

/// Accumulates the lines read off a connection until the empty line that
/// ends the header block. The caller reads one `\n`-terminated line at a
/// time and feeds it in.
pub struct HeadReader {
    pub buf: Vec<u8>,
    pub done: bool,
}

impl HeadReader {
    pub fn new() -> (r: HeadReader)
        ensures
            r.buf@ == Seq::<u8>::empty(),
            !r.done,
    {
        HeadReader { buf: Vec::new(), done: false }
    }

    /// Feeds the next line, terminator included. The block is complete
    /// exactly when the line is the bare terminator; the line always joins
    /// the accumulated block, terminator and all.
    pub fn push_line(&mut self, line: &[u8]) -> (done: bool)
        requires
            !old(self).done,
        ensures
            final(self).buf@ == old(self).buf@ + line@,
            done == final(self).done,
            final(self).done == (line@ == seq![CR, LF]),
    {
        push_bytes(&mut self.buf, line);
        let d = line.len() == 2 && line[0] == CR && line[1] == LF;
        proof {
            if line@.len() == 2 && line@[0] == CR && line@[1] == LF {
                assert(line@ =~= seq![CR, LF]);
            }
        }
        self.done = d;
        d
    }

    /// Hands the accumulated block over.
    pub fn into_head(self) -> (r: Vec<u8>)
        ensures
            r@ == self.buf@,
    {
        self.buf
    }
}

/// The literal tunnel acknowledgment, written before any TLS byte.
pub open spec fn tunnel_ack() -> Seq<u8> {
    "HTTP/1.1 200 Connection Established\r\n\r\n".spec_bytes()
}

pub fn tunnel_ack_bytes() -> (v: Vec<u8>)
    ensures
        v@ == tunnel_ack(),
{
    slice_to_vec("HTTP/1.1 200 Connection Established\r\n\r\n".as_bytes())
}

/// The states of one CONNECT negotiation, terminal states last.
#[derive(Clone, Copy, Debug, PartialEq, Eq, Structural)]
pub enum TunnelState {
    AwaitTunnelRequest,
    AcknowledgeTunnel,
    TlsHandshakeWithClient,
    ConnectUpstream,
    Relay,
    Closed,
    Failed,
}

/// What the caller reports back after performing an action.
#[derive(Clone, Copy, Debug, PartialEq, Eq, Structural)]
pub enum TunnelEvent {
    ConnectRequested,
    AckWritten,
    ClientHandshakeDone,
    UpstreamConnected,
    RelayEnded,
    StepFailed,
}

/// What the caller must do next.
#[derive(Clone, Copy, Debug, PartialEq, Eq, Structural)]
pub enum TunnelAction {
    WriteAck,
    MintAndHandshake,
    DialUpstream,
    RelayBytes,
    CloseBoth,
}

/// The transition table: acknowledge, handshake with the client under a
/// minted identity, connect upstream, relay, close. Any failure, and any
/// event out of order, ends the tunnel: before the relay it ends in
/// `Failed` with both legs closed, so no failure leaves the client leg
/// open; a finished or failed relay ends in `Closed`.
pub open spec fn spec_tunnel_step(s: TunnelState, e: TunnelEvent) -> (TunnelState, TunnelAction) {
    match (s, e) {
        (TunnelState::AwaitTunnelRequest, TunnelEvent::ConnectRequested) => (
            TunnelState::AcknowledgeTunnel,
            TunnelAction::WriteAck,
        ),
        (TunnelState::AcknowledgeTunnel, TunnelEvent::AckWritten) => (
            TunnelState::TlsHandshakeWithClient,
            TunnelAction::MintAndHandshake,
        ),
        (TunnelState::TlsHandshakeWithClient, TunnelEvent::ClientHandshakeDone) => (
            TunnelState::ConnectUpstream,
            TunnelAction::DialUpstream,
        ),
        (TunnelState::ConnectUpstream, TunnelEvent::UpstreamConnected) => (
            TunnelState::Relay,
            TunnelAction::RelayBytes,
        ),
        (TunnelState::Relay, TunnelEvent::RelayEnded) => (
            TunnelState::Closed,
            TunnelAction::CloseBoth,
        ),
        (TunnelState::Relay, TunnelEvent::StepFailed) => (
            TunnelState::Closed,
            TunnelAction::CloseBoth,
        ),
        _ => (TunnelState::Failed, TunnelAction::CloseBoth),
    }
}

pub fn tunnel_step(s: TunnelState, e: TunnelEvent) -> (r: (TunnelState, TunnelAction))
    ensures
        r == spec_tunnel_step(s, e),
{
    match (s, e) {
        (TunnelState::AwaitTunnelRequest, TunnelEvent::ConnectRequested) => (
            TunnelState::AcknowledgeTunnel,
            TunnelAction::WriteAck,
        ),
        (TunnelState::AcknowledgeTunnel, TunnelEvent::AckWritten) => (
            TunnelState::TlsHandshakeWithClient,
            TunnelAction::MintAndHandshake,
        ),
        (TunnelState::TlsHandshakeWithClient, TunnelEvent::ClientHandshakeDone) => (
            TunnelState::ConnectUpstream,
            TunnelAction::DialUpstream,
        ),
        (TunnelState::ConnectUpstream, TunnelEvent::UpstreamConnected) => (
            TunnelState::Relay,
            TunnelAction::RelayBytes,
        ),
        (TunnelState::Relay, TunnelEvent::RelayEnded) => (
            TunnelState::Closed,
            TunnelAction::CloseBoth,
        ),
        (TunnelState::Relay, TunnelEvent::StepFailed) => (
            TunnelState::Closed,
            TunnelAction::CloseBoth,
        ),
        _ => (TunnelState::Failed, TunnelAction::CloseBoth),
    }
}

/// The client-facing handshake starts only from the acknowledged state, on
/// the event that the acknowledgment was written: no TLS byte can precede
/// the literal acknowledgment.
pub proof fn lemma_handshake_needs_ack(s: TunnelState, e: TunnelEvent)
    ensures
        spec_tunnel_step(s, e).1 == TunnelAction::MintAndHandshake ==> s
            == TunnelState::AcknowledgeTunnel && e == TunnelEvent::AckWritten,
{
}

/// The upstream leg is dialed only once the client-facing handshake has
/// completed.
pub proof fn lemma_upstream_needs_client_handshake(s: TunnelState, e: TunnelEvent)
    ensures
        spec_tunnel_step(s, e).1 == TunnelAction::DialUpstream ==> s
            == TunnelState::TlsHandshakeWithClient && e == TunnelEvent::ClientHandshakeDone,
{
}

/// A CONNECT target `host:port`: the host before the first colon, which
/// must be nonempty, and a decimal port of at most five digits that fits
/// sixteen bits.
pub open spec fn spec_host_port(t: Seq<u8>) -> Option<(Seq<u8>, u16)> {
    let c = find_byte(t, COLON);
    if c < 1 {
        None
    } else {
        let digits = t.skip(c + 1);
        if digits.len() == 0 || digits.len() > 5 || !all_digits(digits) {
            None
        } else if dec_val(digits) > 65535 {
            None
        } else {
            Some((t.take(c), dec_val(digits) as u16))
        }
    }
}

#[verifier::loop_isolation(false)]
pub fn split_host_port(target: &[u8]) -> (r: Option<(Vec<u8>, u16)>)
    ensures
        match r {
            Some((host, port)) => spec_host_port(target@) == Some((host@, port)),
            None => spec_host_port(target@) is None,
        },
{
    let n = target.len();
    proof {
        assert(target@.skip(0) =~= target@);
    }
    let c = match find_byte_from(target, 0, COLON) {
        None => {
            return None;
        },
        Some(c) => c,
    };
    proof {
        lemma_find_byte(target@, COLON);
    }
    if c == 0 {
        return None;
    }
    let digits = slice_subrange(target, c + 1, n);
    proof {
        assert(digits@ =~= target@.skip(c as int + 1));
    }
    if digits.len() == 0 || digits.len() > 5 {
        return None;
    }
    let mut acc: u32 = 0;
    let mut i: usize = 0;
    proof {
        assert(digits@.take(0) =~= Seq::<u8>::empty());
    }
    while i < digits.len()
        invariant
            i <= digits@.len(),
            digits@.len() <= 5,
            all_digits(digits@.take(i as int)),
            acc == dec_val(digits@.take(i as int)),
            acc < pow10(i as nat),
        decreases digits@.len() - i,
    {
        let d = digits[i];
        if d < 48 || d > 57 {
            proof {
                assert(!(48 <= digits@[i as int] <= 57));
            }
            return None;
        }
        proof {
            reveal_with_fuel(pow10, 7);
            lemma_pow10_le(i as nat, 4);
            assert(pow10(4) == 10000);
            let pre = digits@.take(i as int);
            let cur = digits@.take(i as int + 1);
            assert(cur.len() == i as int + 1);
            assert(cur.take(cur.len() - 1) =~= pre);
            assert(cur[i as int] == digits@[i as int]);
            assert(cur.last() == digits@[i as int]);
            assert forall|j: int| 0 <= j < cur.len() implies 48 <= #[trigger] cur[j] <= 57 by {
                if j < i as int {
                    assert(cur[j] == pre[j]);
                } else {
                    assert(cur[j] == digits@[i as int]);
                }
            }
            lemma_dec_val_bound(cur);
            lemma_pow10_le(i as nat + 1, 5);
            assert(pow10(5) == 100000);
        }
        acc = acc * 10 + (d - 48) as u32;
        i += 1;
    }
    proof {
        assert(digits@.take(digits@.len() as int) =~= digits@);
    }
    if acc > 65535 {
        return None;
    }
    let host = slice_to_vec(slice_subrange(target, 0, c));
    proof {
        assert(host@ =~= target@.take(c as int));
    }
    Some((host, acc as u16))
}

/// The empty-bodied reply carrying just a status.
pub open spec fn error_model(code: u32) -> RespModel {
    RespModel { code, headers: Seq::empty(), body: Seq::empty() }
}

/// The serialized empty reply for a status code inside the table.
pub fn error_reply(code: u32) -> (v: Vec<u8>)
    requires
        spec_reason(code) is Some,
    ensures
        v@ == ser_response(error_model(code)),
{
    let mut resp = Response::new();
    resp.set_status_code(code);
    proof {
        assert(resp@ == error_model(code));
    }
    match resp.serialize() {
        Ok(v) => v,
        Err(_) => {
            proof {
                assert(false);
            }
            Vec::new()
        },
    }
}

/// What one parsed header block means for the connection.
pub enum ConnectionPlan {
    /// Write these bytes back and close: an error reply.
    Reply(Vec<u8>),
    /// Re-issue the request upstream and relay the answer back.
    Forward(ParsedRequest),
    /// Negotiate a tunnel to this host and port.
    Tunnel { host: Vec<u8>, port: u16 },
    /// The peer never sent a full header block: abort the connection.
    Close,
}

/// Decides the connection's fate from the raw header-block bytes: a tunnel
/// for CONNECT with a well-formed `host:port` target, forwarding for GET and
/// POST, a 405 reply for an unsupported method, a 400 reply for malformed
/// bytes or a bad CONNECT target, and a silent close when no full block
/// arrived. One malformed request costs its connection, never the process.
pub fn plan_request(input: &[u8]) -> (r: ConnectionPlan)
    ensures
        match r {
            ConnectionPlan::Close => spec_parse_request(input@) is Partial,
            ConnectionPlan::Reply(v) => {
                ||| (spec_parse_request(input@) is Bad && v@ == ser_response(error_model(400)))
                ||| (spec_parse_request(input@) is Unsupported && v@ == ser_response(
                    error_model(405),
                ))
                ||| (spec_parse_request(input@) matches ReqSplit::Done(m, _) && m.method
                    == Method::Connect && spec_host_port(m.target) is None && v@ == ser_response(
                    error_model(400),
                ))
            },
            ConnectionPlan::Forward(req) => (spec_parse_request(input@) matches ReqSplit::Done(
                m,
                _,
            ) && req@ == m && (m.method == Method::Get || m.method == Method::Post)),
            ConnectionPlan::Tunnel { host, port } => (spec_parse_request(input@)
                matches ReqSplit::Done(m, _) && m.method == Method::Connect && spec_host_port(
                m.target,
            ) == Some((host@, port))),
        },
{
    match parse(input) {
        ParseOutcome::Incomplete => ConnectionPlan::Close,
        ParseOutcome::Rejected(ParseError::Malformed) => ConnectionPlan::Reply(error_reply(400)),
        ParseOutcome::Rejected(ParseError::UnsupportedMethod) => ConnectionPlan::Reply(
            error_reply(405),
        ),
        ParseOutcome::Complete { request, consumed: _ } => match request.method {
            Method::Connect => match split_host_port(request.target.as_slice()) {
                Some((host, port)) => ConnectionPlan::Tunnel { host, port },
                None => ConnectionPlan::Reply(error_reply(400)),
            },
            _ => ConnectionPlan::Forward(request),
        },
    }
}

/// A failure of the outbound capability, mapped to a 502 reply.
#[derive(Clone, Copy, Debug, PartialEq, Eq, Structural)]
pub enum ForwardError {
    Refused,
    Timeout,
    Unresponsive,
}

/// The bytes written back for a forwarding outcome: the upstream response
/// itself when its status code is in the table, and the empty 502 reply
/// when the capability failed or the upstream code is unknown.
pub fn forwarded_reply(upstream: Result<Response, ForwardError>) -> (v: Vec<u8>)
    ensures
        match upstream {
            Ok(resp) => if spec_reason(resp@.code) is Some {
                v@ == ser_response(resp@)
            } else {
                v@ == ser_response(error_model(502))
            },
            Err(_) => v@ == ser_response(error_model(502)),
        },
{
    proof {
        assert(spec_reason(502u32) is Some);
    }
    match upstream {
        Ok(resp) => match resp.serialize() {
            Ok(v) => v,
            Err(_) => error_reply(502),
        },
        Err(_) => error_reply(502),
    }
}

} // verus!
