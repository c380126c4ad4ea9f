//! The upstream platform's error taxonomy as plain values, and the categorized
//! human-readable message each case is reported with.

use vstd::prelude::*;

verus! {

/// An upstream rejection, with whatever detail the platform attached, already
/// read into plain strings.
pub enum UpstreamError {
    /// The platform refused the request; carries its message.
    BadRequest(String),
    /// The request failed at the HTTP layer; carries the response body.
    Failure(String),
    /// Conflicting request fields; carries the clash description.
    FieldClash(String),
    /// The transport failed; carries the description.
    HttpError(String),
    /// Reading the response failed; carries the description.
    Io(String),
    /// The response body did not decode; carries the decode fault and the body.
    JsonDecode(String, String),
    /// No usable token for the authenticated identity; carries the description.
    MissingToken(String),
    /// An upload exceeded the size limit: bytes uploaded, bytes allowed.
    UploadSizeLimitExceeded(u64, u64),
    /// The request needs an API key and none was configured.
    MissingApiKey,
    /// The request was cancelled.
    Cancelled,
}

/// The decimal digits of a non-negative number, most significant first.
pub open spec fn dec_str(n: int) -> Seq<char>
    decreases n,
{
    if n < 0 {
        Seq::empty()
    } else if n < 10 {
        seq![digit_char(n)]
    } else {
        dec_str(n / 10).push(digit_char(n % 10))
    }
}

/// The character of one decimal digit.
pub open spec fn digit_char(d: int) -> char {
    if d == 0 {
        '0'
    } else if d == 1 {
        '1'
    } else if d == 2 {
        '2'
    } else if d == 3 {
        '3'
    } else if d == 4 {
        '4'
    } else if d == 5 {
        '5'
    } else if d == 6 {
        '6'
    } else if d == 7 {
        '7'
    } else if d == 8 {
        '8'
    } else {
        '9'
    }
}

/// Appends the decimal rendering of `n` to `out`.
fn push_dec(n: u64, out: &mut String)
    ensures
        final(out)@ == old(out)@ + dec_str(n as int),
    decreases n,
{
    if n >= 10 {
        push_dec(n / 10, out);
    }
    let d = n % 10;
    proof {
        reveal_strlit("0");
        reveal_strlit("1");
        reveal_strlit("2");
        reveal_strlit("3");
        reveal_strlit("4");
        reveal_strlit("5");
        reveal_strlit("6");
        reveal_strlit("7");
        reveal_strlit("8");
        reveal_strlit("9");
    }
    match d {
        0 => out.append("0"),
        1 => out.append("1"),
        2 => out.append("2"),
        3 => out.append("3"),
        4 => out.append("4"),
        5 => out.append("5"),
        6 => out.append("6"),
        7 => out.append("7"),
        8 => out.append("8"),
        _ => out.append("9"),
    }
    proof {
        assert(out@ =~= old(out)@ + dec_str(n as int));
    }
}

/// The decimal rendering of a number.
pub fn u64_to_dec(n: u64) -> (r: String)
    ensures
        r@ == dec_str(n as int),
{
    let mut out = String::new();
    push_dec(n, &mut out);
    proof {
        assert(out@ =~= dec_str(n as int));
    }
    out
}

/// The categorized message of each upstream error case.
pub open spec fn describe_spec(e: UpstreamError) -> Seq<char> {
    match e {
        UpstreamError::BadRequest(m) => "BadRequest: "@ + m@,
        UpstreamError::Failure(b) => "Failure: "@ + b@,
        UpstreamError::FieldClash(m) => "FieldClash: "@ + m@,
        UpstreamError::HttpError(m) => "HttpError: "@ + m@,
        UpstreamError::Io(m) => "IOError: "@ + m@,
        UpstreamError::JsonDecode(err, body) => "JsonDecodeError: "@ + err@ + ", body: "@ + body@,
        UpstreamError::MissingToken(m) => "MissingToken: "@ + m@,
        UpstreamError::UploadSizeLimitExceeded(uploaded, max) => (
        "UploadSizeLimitExceeded: uploaded_size: "@ + dec_str(uploaded as int) + ", max_size: "@
            + dec_str(max as int)),
        UpstreamError::MissingApiKey => "MissingAPIKey"@,
        UpstreamError::Cancelled => "Cancelled"@,
    }
}

/// Renders the categorized, human-readable message for an upstream error,
/// exactly as `describe_spec` states.
pub fn describe_upstream_error(e: &UpstreamError) -> (r: String)
    ensures
        r@ == describe_spec(*e),
{
    let mut out = String::new();
    match e {
        UpstreamError::BadRequest(m) => {
            out.append("BadRequest: ");
            out.append(m.as_str());
        },
        UpstreamError::Failure(b) => {
            out.append("Failure: ");
            out.append(b.as_str());
        },
        UpstreamError::FieldClash(m) => {
            out.append("FieldClash: ");
            out.append(m.as_str());
        },
        UpstreamError::HttpError(m) => {
            out.append("HttpError: ");
            out.append(m.as_str());
        },
        UpstreamError::Io(m) => {
            out.append("IOError: ");
            out.append(m.as_str());
        },
        UpstreamError::JsonDecode(err, body) => {
            out.append("JsonDecodeError: ");
            out.append(err.as_str());
            out.append(", body: ");
            out.append(body.as_str());
        },
        UpstreamError::MissingToken(m) => {
            out.append("MissingToken: ");
            out.append(m.as_str());
        },
        UpstreamError::UploadSizeLimitExceeded(uploaded, max) => {
            out.append("UploadSizeLimitExceeded: uploaded_size: ");
            push_dec(*uploaded, &mut out);
            out.append(", max_size: ");
            push_dec(*max, &mut out);
        },
        UpstreamError::MissingApiKey => {
            out.append("MissingAPIKey");
        },
        UpstreamError::Cancelled => {
            out.append("Cancelled");
        },
    }
    proof {
        assert(out@ =~= describe_spec(*e));
    }
    out
}

} // verus!
