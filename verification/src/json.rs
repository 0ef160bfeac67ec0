//! JSON-RPC 2.0 envelopes: requests, responses, and error responses.
//!
//! The envelopes are part of the protocol's wire format, so serialization is
//! implemented here, byte for byte, against spec functions that pin the exact
//! output: field order `jsonrpc,id,{result|error|method}`, decimal numbers,
//! and standard JSON string escapes. Reading arbitrary JSON back is left to
//! `serde_json` behind one trusted wrapper.

use vstd::prelude::*;

verus! {

// ---------------------------------------------------------------------------
// Decimal rendering
// ---------------------------------------------------------------------------

/// The decimal digits of `n`, most significant first.
pub open spec fn spec_dec(n: nat) -> Seq<u8>
    decreases n,
{
    if n < 10 {
        seq![(48 + n) as u8]
    } else {
        spec_dec(n / 10).push((48 + n % 10) as u8)
    }
}

/// The decimal rendering of a signed code: a minus sign, then the digits of
/// its magnitude.
pub open spec fn spec_dec_signed(n: int) -> Seq<u8> {
    if n < 0 {
        seq![45u8] + spec_dec((-n) as nat)
    } else {
        spec_dec(n as nat)
    }
}

/// Append the decimal digits of `n` to `out`.
fn push_dec(out: &mut Vec<u8>, n: u64)
    ensures
        final(out)@ == old(out)@ + spec_dec(n as nat),
    decreases n,
{
    if n < 10 {
        out.push(48 + n as u8);
        proof {
            assert(out@ =~= old(out)@ + spec_dec(n as nat));
        }
    } else {
        push_dec(out, n / 10);
        out.push(48 + (n % 10) as u8);
        proof {
            assert(out@ =~= old(out)@ + spec_dec(n as nat));
        }
    }
}

/// Append the decimal rendering of the signed code `n` to `out`.
fn push_dec_signed(out: &mut Vec<u8>, n: i16)
    ensures
        final(out)@ == old(out)@ + spec_dec_signed(n as int),
{
    let wide: i32 = n as i32;
    if wide < 0 {
        out.push(45);
        push_dec(out, (-wide) as u64);
        proof {
            assert(out@ =~= old(out)@ + spec_dec_signed(n as int));
        }
    } else {
        push_dec(out, wide as u64);
    }
}

// ---------------------------------------------------------------------------
// JSON string escaping
// ---------------------------------------------------------------------------

/// The ASCII digit for one hex nibble, lower case.
pub open spec fn spec_hex_digit(n: u8) -> u8 {
    if n < 10 {
        (48 + n) as u8
    } else {
        (87 + n) as u8
    }
}

/// How one byte appears inside a JSON string: quote, backslash and the named
/// control characters get a two-byte escape, other control characters get a
/// `\u00XX` escape, and everything else stands as it is.
pub open spec fn spec_escape_byte(b: u8) -> Seq<u8> {
    if b == 34 {
        seq![92u8, 34u8]
    } else if b == 92 {
        seq![92u8, 92u8]
    } else if b == 8 {
        seq![92u8, 98u8]
    } else if b == 9 {
        seq![92u8, 116u8]
    } else if b == 10 {
        seq![92u8, 110u8]
    } else if b == 12 {
        seq![92u8, 102u8]
    } else if b == 13 {
        seq![92u8, 114u8]
    } else if b < 32 {
        seq![92u8, 117u8, 48u8, 48u8, spec_hex_digit(b / 16), spec_hex_digit(b % 16)]
    } else {
        seq![b]
    }
}

/// A byte string as it appears inside a JSON string literal.
pub open spec fn spec_escape(s: Seq<u8>) -> Seq<u8>
    decreases s.len(),
{
    if s.len() == 0 {
        Seq::empty()
    } else {
        spec_escape(s.drop_last()) + spec_escape_byte(s.last())
    }
}

fn hex_digit(n: u8) -> (r: u8)
    requires
        n < 16,
    ensures
        r == spec_hex_digit(n),
{
    if n < 10 {
        48 + n
    } else {
        87 + n
    }
}

fn push_escaped_byte(out: &mut Vec<u8>, b: u8)
    ensures
        final(out)@ == old(out)@ + spec_escape_byte(b),
{
    if b == 34 {
        out.push(92);
        out.push(34);
    } else if b == 92 {
        out.push(92);
        out.push(92);
    } else if b == 8 {
        out.push(92);
        out.push(98);
    } else if b == 9 {
        out.push(92);
        out.push(116);
    } else if b == 10 {
        out.push(92);
        out.push(110);
    } else if b == 12 {
        out.push(92);
        out.push(102);
    } else if b == 13 {
        out.push(92);
        out.push(114);
    } else if b < 32 {
        out.push(92);
        out.push(117);
        out.push(48);
        out.push(48);
        out.push(hex_digit(b / 16));
        out.push(hex_digit(b % 16));
    } else {
        out.push(b);
    }
    proof {
        assert(out@ =~= old(out)@ + spec_escape_byte(b));
    }
}

/// Append the escaped form of `s` to `out`.
fn push_escaped(out: &mut Vec<u8>, s: &Vec<u8>)
    ensures
        final(out)@ == old(out)@ + spec_escape(s@),
{
    let len = s.len();
    let mut i: usize = 0;
    while i < len
        invariant
            len == s@.len(),
            i <= len,
            out@ == old(out)@ + spec_escape(s@.take(i as int)),
        decreases len - i,
    {
        push_escaped_byte(out, s[i]);
        proof {
            assert(s@.take(i + 1 as int).drop_last() =~= s@.take(i as int));
            assert(s@.take(i + 1 as int).last() == s@[i as int]);
            assert(out@ =~= old(out)@ + spec_escape(s@.take(i + 1 as int)));
        }
        i += 1;
    }
    proof {
        assert(s@.take(len as int) =~= s@);
    }
}

// ---------------------------------------------------------------------------
// Wire constants
// ---------------------------------------------------------------------------

/// Bytes of `{"jsonrpc":"2.0","id":`: the shared opening of every envelope.
pub open spec fn spec_json_prefix() -> Seq<u8> {
    seq![123u8, 34u8, 106u8, 115u8, 111u8, 110u8, 114u8, 112u8, 99u8, 34u8, 58u8, 34u8, 50u8, 46u8, 48u8, 34u8, 44u8, 34u8, 105u8, 100u8, 34u8, 58u8]
}

fn json_prefix() -> (r: Vec<u8>)
    ensures
        r@ =~= spec_json_prefix(),
{
    vec![123u8, 34u8, 106u8, 115u8, 111u8, 110u8, 114u8, 112u8, 99u8, 34u8, 58u8, 34u8, 50u8, 46u8, 48u8, 34u8, 44u8, 34u8, 105u8, 100u8, 34u8, 58u8]
}

/// Bytes of `,"method":"`: the key of the method field.
pub open spec fn spec_method_key() -> Seq<u8> {
    seq![44u8, 34u8, 109u8, 101u8, 116u8, 104u8, 111u8, 100u8, 34u8, 58u8, 34u8]
}

fn method_key() -> (r: Vec<u8>)
    ensures
        r@ =~= spec_method_key(),
{
    vec![44u8, 34u8, 109u8, 101u8, 116u8, 104u8, 111u8, 100u8, 34u8, 58u8, 34u8]
}

/// Bytes of `,"result":`: the key of the result field.
pub open spec fn spec_result_key() -> Seq<u8> {
    seq![44u8, 34u8, 114u8, 101u8, 115u8, 117u8, 108u8, 116u8, 34u8, 58u8]
}

fn result_key() -> (r: Vec<u8>)
    ensures
        r@ =~= spec_result_key(),
{
    vec![44u8, 34u8, 114u8, 101u8, 115u8, 117u8, 108u8, 116u8, 34u8, 58u8]
}

/// Bytes of `,"error":{"code":`: the key of the error object and its code field.
pub open spec fn spec_error_key() -> Seq<u8> {
    seq![44u8, 34u8, 101u8, 114u8, 114u8, 111u8, 114u8, 34u8, 58u8, 123u8, 34u8, 99u8, 111u8, 100u8, 101u8, 34u8, 58u8]
}

fn error_key() -> (r: Vec<u8>)
    ensures
        r@ =~= spec_error_key(),
{
    vec![44u8, 34u8, 101u8, 114u8, 114u8, 111u8, 114u8, 34u8, 58u8, 123u8, 34u8, 99u8, 111u8, 100u8, 101u8, 34u8, 58u8]
}

/// Bytes of `,"message":"`: the key of the message field.
pub open spec fn spec_message_key() -> Seq<u8> {
    seq![44u8, 34u8, 109u8, 101u8, 115u8, 115u8, 97u8, 103u8, 101u8, 34u8, 58u8, 34u8]
}

fn message_key() -> (r: Vec<u8>)
    ensures
        r@ =~= spec_message_key(),
{
    vec![44u8, 34u8, 109u8, 101u8, 115u8, 115u8, 97u8, 103u8, 101u8, 34u8, 58u8, 34u8]
}

/// Bytes of `null`: the JSON null literal.
pub open spec fn spec_null_value() -> Seq<u8> {
    seq![110u8, 117u8, 108u8, 108u8]
}

fn null_value() -> (r: Vec<u8>)
    ensures
        r@ =~= spec_null_value(),
{
    vec![110u8, 117u8, 108u8, 108u8]
}

/// Bytes of `sign_in`: the method name that opens a session.
pub open spec fn spec_sign_in_method() -> Seq<u8> {
    seq![115u8, 105u8, 103u8, 110u8, 95u8, 105u8, 110u8]
}

pub fn sign_in_method() -> (r: Vec<u8>)
    ensures
        r@ =~= spec_sign_in_method(),
{
    vec![115u8, 105u8, 103u8, 110u8, 95u8, 105u8, 110u8]
}

// ---------------------------------------------------------------------------
// The three envelopes
// ---------------------------------------------------------------------------

/// The serialized request `{"jsonrpc":"2.0","id":<id>,"method":"<method>"}`.
pub open spec fn spec_request_json(id: u16, method: Seq<u8>) -> Seq<u8> {
    spec_json_prefix() + spec_dec(id as nat) + spec_method_key() + spec_escape(method)
        + seq![34u8, 125u8]
}

/// The serialized response `{"jsonrpc":"2.0","id":<id>,"result":<result>}`,
/// where the result is JSON null or a number.
pub open spec fn spec_response_json(id: u16, result: Option<u64>) -> Seq<u8> {
    spec_json_prefix() + spec_dec(id as nat) + spec_result_key() + (match result {
        Option::None => spec_null_value(),
        Option::Some(v) => spec_dec(v as nat),
    }) + seq![125u8]
}

/// The serialized error response
/// `{"jsonrpc":"2.0","id":<id>,"error":{"code":<code>,"message":"<message>"}}`.
pub open spec fn spec_error_json(id: u16, code: i16, message: Seq<u8>) -> Seq<u8> {
    spec_json_prefix() + spec_dec(id as nat) + spec_error_key() + spec_dec_signed(code as int)
        + spec_message_key() + spec_escape(message) + seq![34u8, 125u8, 125u8]
}

/// A JSON-RPC request envelope.
pub struct Request {
    pub id: u16,
    pub method: Vec<u8>,
}

impl Request {
    pub fn build(id: u16, method: Vec<u8>) -> (r: Request)
        ensures
            r.id == id,
            r.method@ == method@,
    {
        Request { id, method }
    }

    /// Serialize the request with the stable field order `jsonrpc,id,method`.
    pub fn to_bytes(&self) -> (r: Vec<u8>)
        ensures
            r@ == spec_request_json(self.id, self.method@),
    {
        let mut out = json_prefix();
        push_dec(&mut out, self.id as u64);
        let mut key = method_key();
        out.append(&mut key);
        push_escaped(&mut out, &self.method);
        out.push(34);
        out.push(125);
        proof {
            assert(out@ =~= spec_request_json(self.id, self.method@));
        }
        out
    }
}

/// A JSON-RPC response envelope; the result is JSON null or a number.
pub struct Response {
    pub id: u16,
    pub result: Option<u64>,
}

impl Response {
    pub fn build(id: u16, result: Option<u64>) -> (r: Response)
        ensures
            r.id == id,
            r.result == result,
    {
        Response { id, result }
    }

    /// Serialize the response with the stable field order `jsonrpc,id,result`.
    pub fn to_bytes(&self) -> (r: Vec<u8>)
        ensures
            r@ == spec_response_json(self.id, self.result),
    {
        let mut out = json_prefix();
        push_dec(&mut out, self.id as u64);
        let mut key = result_key();
        out.append(&mut key);
        match self.result {
            Option::None => {
                let mut null = null_value();
                out.append(&mut null);
            },
            Option::Some(v) => {
                push_dec(&mut out, v);
            },
        }
        out.push(125);
        proof {
            assert(out@ =~= spec_response_json(self.id, self.result));
        }
        out
    }
}

/// The error object carried by an error response.
pub struct ErrorContent {
    pub code: i16,
    pub message: Vec<u8>,
}

/// A JSON-RPC error response envelope.
pub struct ErrorResponse {
    pub id: u16,
    pub error: ErrorContent,
}

impl ErrorResponse {
    pub fn build(id: u16, code: i16, message: Vec<u8>) -> (r: ErrorResponse)
        ensures
            r.id == id,
            r.error.code == code,
            r.error.message@ == message@,
    {
        ErrorResponse { id, error: ErrorContent { code, message } }
    }

    /// Serialize the error response with the stable field order
    /// `jsonrpc,id,error{code,message}`.
    pub fn to_bytes(&self) -> (r: Vec<u8>)
        ensures
            r@ == spec_error_json(self.id, self.error.code, self.error.message@),
    {
        let mut out = json_prefix();
        push_dec(&mut out, self.id as u64);
        let mut key = error_key();
        out.append(&mut key);
        push_dec_signed(&mut out, self.error.code);
        let mut key = message_key();
        out.append(&mut key);
        push_escaped(&mut out, &self.error.message);
        out.push(34);
        out.push(125);
        out.push(125);
        proof {
            assert(out@ =~= spec_error_json(self.id, self.error.code, self.error.message@));
        }
        out
    }
}

// ---------------------------------------------------------------------------
// Reading a request back
// ---------------------------------------------------------------------------

/// The id and method of the JSON-RPC request that the bytes hold, if they
/// parse as one: a JSON object whose `jsonrpc` field is a string, whose `id`
/// field is a number that fits `u16`, and whose `method` field is a string.
/// The result is a function of the bytes alone.
pub uninterp spec fn spec_parsed_request(s: Seq<u8>) -> Option<(u16, Seq<u8>)>;

/// Relies on `serde_json::from_slice::<serde_json::Value>` and the `Value`
/// accessors `as_object`, `get`, `is_string`, `as_u64` and `as_str`: whether
/// the bytes parse as a JSON-RPC request envelope, and if so its id and
/// method. `serde_json` parses from the bytes alone, so the outcome is a
/// function of them.
#[verifier::external_body]
fn parse_request_bytes(slice: &[u8]) -> (r: Option<(u16, Vec<u8>)>)
    ensures
        match r {
            Option::Some(p) => spec_parsed_request(slice@) == Some((p.0, p.1@)),
            Option::None => spec_parsed_request(slice@) is None,
        },
{
    let value: serde_json::Value = match serde_json::from_slice(slice) {
        Ok(v) => v,
        Err(_) => return None,
    };
    let object = value.as_object()?;
    if !object.get("jsonrpc")?.is_string() {
        return None;
    }
    let id = u16::try_from(object.get("id")?.as_u64()?).ok()?;
    let method = object.get("method")?.as_str()?.as_bytes().to_vec();
    Some((id, method))
}

/// Whether the bytes parse as a request whose method is `sign_in`.
pub open spec fn spec_is_sign_in(s: Seq<u8>) -> bool {
    match spec_parsed_request(s) {
        Option::Some(p) => p.1 == spec_sign_in_method(),
        Option::None => false,
    }
}

/// True only if the payload parses as a Request with method `sign_in`.
pub fn is_sign_in(slice: &[u8]) -> (r: bool)
    ensures
        r == spec_is_sign_in(slice@),
{
    match parse_request_bytes(slice) {
        Option::None => false,
        Option::Some(p) => {
            let expected = sign_in_method();
            let r = p.1 == expected;
            proof {
                if r {
                    assert(p.1@ =~= spec_sign_in_method());
                }
            }
            r
        },
    }
}

/// Read a request's id and method out of payload bytes, if they parse as one.
pub fn parse_request(slice: &[u8]) -> (r: Option<Request>)
    ensures
        match r {
            Option::Some(req) => spec_parsed_request(slice@) == Some((req.id, req.method@)),
            Option::None => spec_parsed_request(slice@) is None,
        },
{
    match parse_request_bytes(slice) {
        Option::None => None,
        Option::Some(p) => Some(Request { id: p.0, method: p.1 }),
    }
}

} // verus!
