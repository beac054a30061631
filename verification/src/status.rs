//! The fixed, closed table of status codes and reason phrases. A code outside
//! the table has no phrase, and serialization fails on it rather than
//! defaulting.

use vstd::prelude::*;

use vstd::string::StringSliceAdditionalSpecFns;

verus! {

/// The reason phrase of `code`, or `None` for a code outside the table.
pub open spec fn spec_reason(code: u32) -> Option<Seq<u8>> {
    match code {
        100u32 => Some("Continue".spec_bytes()),
        101u32 => Some("Switching Protocols".spec_bytes()),
        200u32 => Some("OK".spec_bytes()),
        201u32 => Some("Created".spec_bytes()),
        202u32 => Some("Accepted".spec_bytes()),
        203u32 => Some("Non-Authoritative ".spec_bytes()),
        204u32 => Some("No Content".spec_bytes()),
        205u32 => Some("Reset Content".spec_bytes()),
        206u32 => Some("Partial Content".spec_bytes()),
        300u32 => Some("Multiple Choices".spec_bytes()),
        301u32 => Some("Moved Permanently".spec_bytes()),
        302u32 => Some("Found".spec_bytes()),
        303u32 => Some("See Other".spec_bytes()),
        304u32 => Some("Not Modified".spec_bytes()),
        305u32 => Some("Use Proxy".spec_bytes()),
        307u32 => Some("Temporary Redirect".spec_bytes()),
        400u32 => Some("Bad Request".spec_bytes()),
        401u32 => Some("Unauthorized".spec_bytes()),
        402u32 => Some("Payment Required".spec_bytes()),
        403u32 => Some("Forbidden".spec_bytes()),
        404u32 => Some("Not Found".spec_bytes()),
        405u32 => Some("Method Not Allowed".spec_bytes()),
        406u32 => Some("Not Acceptable".spec_bytes()),
        407u32 => Some("Proxy Authentication ".spec_bytes()),
        408u32 => Some("Request Timeout".spec_bytes()),
        409u32 => Some("Conflict".spec_bytes()),
        410u32 => Some("Gone".spec_bytes()),
        411u32 => Some("Length Required".spec_bytes()),
        412u32 => Some("Precondition Failed".spec_bytes()),
        413u32 => Some("Payload Too Large".spec_bytes()),
        414u32 => Some("URI Too Long".spec_bytes()),
        415u32 => Some("Unsupported Media Type".spec_bytes()),
        416u32 => Some("Range Not Satisfiable".spec_bytes()),
        417u32 => Some("Expectation Failed".spec_bytes()),
        426u32 => Some("Upgrade Required".spec_bytes()),
        500u32 => Some("Internal Server Error".spec_bytes()),
        501u32 => Some("Not Implemented".spec_bytes()),
        502u32 => Some("Bad Gateway".spec_bytes()),
        503u32 => Some("Service Unavailable".spec_bytes()),
        504u32 => Some("Gateway Timeout".spec_bytes()),
        505u32 => Some("HTTP Version Not Supported".spec_bytes()),
        _ => None,
    }
}

/// The reason phrase of `code`, or `None` for a code outside the table.
pub fn reason_phrase(code: u32) -> (r: Option<&'static str>)
    ensures
        match r {
            Some(s) => spec_reason(code) == Some(s.spec_bytes()),
            None => spec_reason(code) is None,
        },
{
    match code {
        100u32 => Some("Continue"),
        101u32 => Some("Switching Protocols"),
        200u32 => Some("OK"),
        201u32 => Some("Created"),
        202u32 => Some("Accepted"),
        203u32 => Some("Non-Authoritative "),
        204u32 => Some("No Content"),
        205u32 => Some("Reset Content"),
        206u32 => Some("Partial Content"),
        300u32 => Some("Multiple Choices"),
        301u32 => Some("Moved Permanently"),
        302u32 => Some("Found"),
        303u32 => Some("See Other"),
        304u32 => Some("Not Modified"),
        305u32 => Some("Use Proxy"),
        307u32 => Some("Temporary Redirect"),
        400u32 => Some("Bad Request"),
        401u32 => Some("Unauthorized"),
        402u32 => Some("Payment Required"),
        403u32 => Some("Forbidden"),
        404u32 => Some("Not Found"),
        405u32 => Some("Method Not Allowed"),
        406u32 => Some("Not Acceptable"),
        407u32 => Some("Proxy Authentication "),
        408u32 => Some("Request Timeout"),
        409u32 => Some("Conflict"),
        410u32 => Some("Gone"),
        411u32 => Some("Length Required"),
        412u32 => Some("Precondition Failed"),
        413u32 => Some("Payload Too Large"),
        414u32 => Some("URI Too Long"),
        415u32 => Some("Unsupported Media Type"),
        416u32 => Some("Range Not Satisfiable"),
        417u32 => Some("Expectation Failed"),
        426u32 => Some("Upgrade Required"),
        500u32 => Some("Internal Server Error"),
        501u32 => Some("Not Implemented"),
        502u32 => Some("Bad Gateway"),
        503u32 => Some("Service Unavailable"),
        504u32 => Some("Gateway Timeout"),
        505u32 => Some("HTTP Version Not Supported"),
        _ => None,
    }
}

} // verus!
