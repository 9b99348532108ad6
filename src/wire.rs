//! Wire types exchanged between nodes, the error taxonomy, and their binary
//! encoding.
use crate::text::{dec_text, decimal};
use vstd::prelude::*;

verus! {

/// No live peer offers the requested service.
pub const ERROR_CODE_SERVICE_NOT_FOUND: i32 = 10001;
/// Encoding or decoding failed, or a query came without a usable payload.
pub const ERROR_CODE_INTERNAL_ERROR: i32 = 10002;
/// The reply stream closed before any reply arrived.
pub const ERROR_CODE_RPC_TIMEOUT: i32 = 10003;
/// Reserved for stricter decoding sites.
pub const ERROR_CODE_DESERIALIZE: i32 = 10004;
/// The handler does not provide the requested operation.
pub const ERROR_CODE_RPC_NOT_IMPLEMENTED: i32 = 10005;

/// Whether `code` is one of the enumerated error codes.
pub open spec fn is_standard_code(code: i32) -> bool {
    ERROR_CODE_SERVICE_NOT_FOUND <= code <= ERROR_CODE_RPC_NOT_IMPLEMENTED
}

/// The message that goes with an enumerated error code.
pub open spec fn standard_message(code: i32) -> Seq<char> {
    if code == ERROR_CODE_SERVICE_NOT_FOUND {
        "service not found"@
    } else if code == ERROR_CODE_INTERNAL_ERROR {
        "internal error"@
    } else if code == ERROR_CODE_RPC_TIMEOUT {
        "rpc timeout"@
    } else if code == ERROR_CODE_DESERIALIZE {
        "internal error"@
    } else {
        "rpc not implemented"@
    }
}

/// The view of the standard error with `code`.
pub open spec fn standard_error(code: i32) -> (i32, Seq<char>) {
    (code, standard_message(code))
}

/// The view of an error: code and message.
pub type ErrorView = (i32, Seq<char>);

/// The view of a request: zid, version, query, payload.
pub type RequestView = (Seq<char>, Seq<char>, Seq<char>, Seq<u8>);

/// The view of a response: zid, status, payload.
pub type ResponseView = (Seq<char>, u16, Option<Seq<u8>>);

/// An error as callers and peers see it.
pub struct Error {
    pub code: i32,
    pub message: String,
}

impl View for Error {
    type V = (i32, Seq<char>);

    open spec fn view(&self) -> (i32, Seq<char>) {
        (self.code, self.message@)
    }
}

impl Error {
    /// The standard error with an enumerated `code`.
    pub fn from_code(code: i32) -> (r: Error)
        requires
            is_standard_code(code),
        ensures
            r@ == standard_error(code),
    {
        let message = if code == ERROR_CODE_SERVICE_NOT_FOUND {
            String::from_str("service not found")
        } else if code == ERROR_CODE_INTERNAL_ERROR {
            String::from_str("internal error")
        } else if code == ERROR_CODE_RPC_TIMEOUT {
            String::from_str("rpc timeout")
        } else if code == ERROR_CODE_DESERIALIZE {
            String::from_str("internal error")
        } else {
            String::from_str("rpc not implemented")
        };
        Error { code, message }
    }

    /// The text `Error(<code>): <message>`.
    pub fn describe(&self) -> (r: String)
        ensures
            r@ == error_text(self@),
    {
        let mut s = String::from_str("Error(");
        if self.code < 0 {
            s.append("-");
        }
        let magnitude: u64 = if self.code < 0 {
            (-(self.code as i64)) as u64
        } else {
            self.code as u64
        };
        let digits = decimal(magnitude);
        s.append(digits.as_str());
        s.append("): ");
        s.append(self.message.as_str());
        proof {
            if self.code >= 0 {
                assert(s@ =~= "Error("@ + dec_text(magnitude as nat) + "): "@ + self.message@);
            }
        }
        s
    }
}

/// `v` in decimal, with a leading `-` when negative.
pub open spec fn int_text(v: i32) -> Seq<char> {
    if v < 0 {
        "-"@ + dec_text((-v) as nat)
    } else {
        dec_text(v as nat)
    }
}

/// How an error reads as text.
pub open spec fn error_text(e: (i32, Seq<char>)) -> Seq<char> {
    "Error("@ + int_text(e.0) + "): "@ + e.1
}

/// A request sent to a service.
pub struct ClusterRequest {
    pub zid: String,
    pub version: String,
    pub query: String,
    pub payload: Vec<u8>,
}

impl View for ClusterRequest {
    type V = (Seq<char>, Seq<char>, Seq<char>, Seq<u8>);

    open spec fn view(&self) -> (Seq<char>, Seq<char>, Seq<char>, Seq<u8>) {
        (self.zid@, self.version@, self.query@, self.payload@)
    }
}

/// A service's response.
pub struct ClusterResponse {
    pub zid: String,
    pub status: u16,
    pub payload: Option<Vec<u8>>,
}

/// The view of an optional byte vector.
pub open spec fn bytes_view(b: Option<Vec<u8>>) -> Option<Seq<u8>> {
    match b {
        Some(v) => Some(v@),
        None => None,
    }
}

impl View for ClusterResponse {
    type V = (Seq<char>, u16, Option<Seq<u8>>);

    open spec fn view(&self) -> (Seq<char>, u16, Option<Seq<u8>>) {
        (self.zid@, self.status, bytes_view(self.payload))
    }
}

/// The encoding of an error.
pub uninterp spec fn error_encoding(e: (i32, Seq<char>)) -> Seq<u8>;

/// The error that `bytes` decode to, if any.
pub uninterp spec fn error_decoding(bytes: Seq<u8>) -> Option<(i32, Seq<char>)>;

/// The encoding of a request.
pub uninterp spec fn request_encoding(r: (Seq<char>, Seq<char>, Seq<char>, Seq<u8>)) -> Seq<u8>;

/// The request that `bytes` decode to, if any.
pub uninterp spec fn request_decoding(bytes: Seq<u8>) -> Option<(Seq<char>, Seq<char>, Seq<char>, Seq<u8>)>;

/// The encoding of a response.
pub uninterp spec fn response_encoding(r: (Seq<char>, u16, Option<Seq<u8>>)) -> Seq<u8>;

/// The response that `bytes` decode to, if any.
pub uninterp spec fn response_decoding(bytes: Seq<u8>) -> Option<(Seq<char>, u16, Option<Seq<u8>>)>;

/// Relies on `bitcode::encode` of `(code, message)`; `bitcode::decode` reads
/// the same value back.
#[verifier::external_body]
pub(crate) fn encode_error(e: &Error) -> (r: Vec<u8>)
    ensures
        r@ == error_encoding(e@),
        error_decoding(r@) == Some(e@),
{
    bitcode::encode(&(e.code, e.message.clone()))
}

/// Relies on `bitcode::decode` of `(code, message)`.
#[verifier::external_body]
pub(crate) fn decode_error(bytes: &[u8]) -> (r: Option<Error>)
    ensures
        match r {
            Some(e) => error_decoding(bytes@) == Some(e@),
            None => error_decoding(bytes@) is None,
        },
{
    match bitcode::decode::<(i32, String)>(bytes) {
        Ok((code, message)) => Some(Error { code, message }),
        Err(_) => None,
    }
}

/// Relies on `bitcode::encode` of `(zid, version, query, payload)`;
/// `bitcode::decode` reads the same value back.
#[verifier::external_body]
pub(crate) fn encode_request(r: &ClusterRequest) -> (b: Vec<u8>)
    ensures
        b@ == request_encoding(r@),
        request_decoding(b@) == Some(r@),
{
    bitcode::encode(&(r.zid.clone(), r.version.clone(), r.query.clone(), r.payload.clone()))
}

/// Relies on `bitcode::decode` of `(zid, version, query, payload)`.
#[verifier::external_body]
pub(crate) fn decode_request(bytes: &[u8]) -> (r: Option<ClusterRequest>)
    ensures
        match r {
            Some(q) => request_decoding(bytes@) == Some(q@),
            None => request_decoding(bytes@) is None,
        },
{
    match bitcode::decode::<(String, String, String, Vec<u8>)>(bytes) {
        Ok((zid, version, query, payload)) => Some(ClusterRequest { zid, version, query, payload }),
        Err(_) => None,
    }
}

/// Relies on `bitcode::encode` of `(zid, status, payload)`; `bitcode::decode`
/// reads the same value back.
#[verifier::external_body]
pub(crate) fn encode_response(r: &ClusterResponse) -> (b: Vec<u8>)
    ensures
        b@ == response_encoding(r@),
        response_decoding(b@) == Some(r@),
{
    bitcode::encode(&(r.zid.clone(), r.status, r.payload.clone()))
}

/// Relies on `bitcode::decode` of `(zid, status, payload)`.
#[verifier::external_body]
pub(crate) fn decode_response(bytes: &[u8]) -> (r: Option<ClusterResponse>)
    ensures
        match r {
            Some(s) => response_decoding(bytes@) == Some(s@),
            None => response_decoding(bytes@) is None,
        },
{
    match bitcode::decode::<(String, u16, Option<Vec<u8>>)>(bytes) {
        Ok((zid, status, payload)) => Some(ClusterResponse { zid, status, payload }),
        Err(_) => None,
    }
}

} // verus!
