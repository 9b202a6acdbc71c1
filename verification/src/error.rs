//! The error taxonomy of the crate.
//!
//! Every failure is terminal for the call that produced it: the library never
//! retries. Transport problems are carried as plain text, a non-success HTTP
//! status as its numeric code, so that contracts can speak of them directly.

use vstd::prelude::*;
use vstd::string::StringExecFns;

verus! {

/// The errors surfaced by this crate.
#[derive(Debug)]
pub enum Error {
    /// A file or stream operation failed; the payload is its message.
    IO(String),
    /// An internal invariant was broken; the payload is its message.
    InternalError(String),
    /// The transport failed before any status code was received
    /// (connection, timeout, TLS); the payload is its message.
    HTTPError(String),
    /// The server answered with a non-success status other than 400;
    /// the payload is the status code alone, the body is discarded.
    HTTPErrorWithStatusCode(u16),
    /// A response body could not be decoded; the payload is the parse message.
    Deserialization(String),
    /// The server answered 400; the payload is the response body verbatim.
    BadRequest(String),
    /// A tool choice named a function absent from the request's tool list;
    /// the payload is the missing function's name.
    ToolNotFound(String),
}

/// The result type used throughout this crate.
pub type Result<T> = core::result::Result<T, Error>;

impl Error {
    /// A plain-text rendering of the error, usable where the embedding
    /// program wants a displayable message.
    pub fn message(&self) -> (r: String)
        ensures
            self matches Error::IO(m) ==> r@ == "IO Error: "@ + m@,
            self matches Error::InternalError(m) ==> r@ == "Internal error: "@ + m@,
            self matches Error::HTTPError(m) ==> r@ == "HTTP Error: "@ + m@,
            self matches Error::HTTPErrorWithStatusCode(c) ==> r@ == "Invalid Status Code: "@
                + spec_decimal(c as nat),
            self matches Error::Deserialization(m) ==> r@ == "Deserialization Error: "@ + m@,
            self matches Error::BadRequest(b) ==> r@ == "Bad Request: "@ + b@,
            self matches Error::ToolNotFound(n) ==> r@ == "Tool not found: "@ + n@,
    {
        match self {
            Error::IO(m) => join_label("IO Error: ", m),
            Error::InternalError(m) => join_label("Internal error: ", m),
            Error::HTTPError(m) => join_label("HTTP Error: ", m),
            Error::HTTPErrorWithStatusCode(c) => {
                let s = u16_to_string(*c);
                let mut out = String::new();
                out.append("Invalid Status Code: ");
                out.append(s.as_str());
                out
            },
            Error::Deserialization(m) => join_label("Deserialization Error: ", m),
            Error::BadRequest(m) => join_label("Bad Request: ", m),
            Error::ToolNotFound(m) => join_label("Tool not found: ", m),
        }
    }
}

/// Concatenates a label and a payload string.
fn join_label(label: &str, payload: &String) -> (r: String)
    ensures
        r@ == label@ + payload@,
{
    let mut out = label.to_owned();
    out.append(payload.as_str());
    out
}

/// The decimal digits of `n`, most significant first.
pub open spec fn spec_decimal(n: nat) -> Seq<char>
    decreases n,
{
    if n < 10 {
        seq![digit_char(n)]
    } else {
        spec_decimal(n / 10).push(digit_char(n % 10))
    }
}

/// The character for a single decimal digit.
pub open spec fn digit_char(d: nat) -> char {
    if d == 0 {
        '0'
    } else if d == 1 {
        '1'
    } else if d == 2 {
        '2'
    } else if d == 3 {
        '3'
    } else if d == 4 {
        '4'
    } else if d == 5 {
        '5'
    } else if d == 6 {
        '6'
    } else if d == 7 {
        '7'
    } else if d == 8 {
        '8'
    } else {
        '9'
    }
}

/// Renders a `u16` in decimal.
pub fn u16_to_string(n: u16) -> (r: String)
    ensures
        r@ == spec_decimal(n as nat),
{
    let mut out = String::new();
    push_decimal_u16(n, &mut out);
    out
}

/// Appends the decimal digits of `n` to `out`.
fn push_decimal_u16(n: u16, out: &mut String)
    ensures
        final(out)@ == old(out)@ + spec_decimal(n as nat),
    decreases n,
{
    if n >= 10 {
        push_decimal_u16(n / 10, out);
    }
    let d: u8 = (n % 10) as u8;
    push_digit(d, out);
    proof {
        if n < 10 {
            assert(spec_decimal(n as nat) =~= seq![digit_char(n as nat)]);
        } else {
            assert(spec_decimal(n as nat) =~= spec_decimal(n as nat / 10).push(
                digit_char(n as nat % 10),
            ));
        }
    }
}

/// Appends the character for one decimal digit to `out`.
fn push_digit(d: u8, out: &mut String)
    requires
        d < 10,
    ensures
        final(out)@ == old(out)@.push(digit_char(d as nat)),
{
    let s: &str = match d {
        0 => "0",
        1 => "1",
        2 => "2",
        3 => "3",
        4 => "4",
        5 => "5",
        6 => "6",
        7 => "7",
        8 => "8",
        _ => "9",
    };
    proof {
        reveal_strlit("0");
        reveal_strlit("1");
        reveal_strlit("2");
        reveal_strlit("3");
        reveal_strlit("4");
        reveal_strlit("5");
        reveal_strlit("6");
        reveal_strlit("7");
        reveal_strlit("8");
        reveal_strlit("9");
        assert(s@ =~= seq![digit_char(d as nat)]);
    }
    out.append(s);
    proof {
        assert(final(out)@ =~= old(out)@.push(digit_char(d as nat)));
    }
}

} // verus!
