//! The typed RPC contract: a service trait becomes a pair of sum types (one
//! variant per method) and a server adapter that dispatches on them.
use crate::keyexpr::{hex_text, peer_text};
use crate::registry::PeerId;
use crate::text::{chars_of, string_of};
use crate::wire::{
    decode_request, encode_error, encode_request, encode_response, error_encoding, request_decoding,
    request_encoding, response_encoding, ClusterRequest, ClusterResponse, Error, ErrorView, RequestView,
    ResponseView,
};
use vstd::prelude::*;

verus! {

/// What the node needs of a request handler. Calls and answers are
/// described by their views: how a call is encoded and decoded, what the
/// handler answers to it, and how the answer is sent back.
pub trait RpcTrait: Sized {
    type Params: View;
    type Result: View;

    /// The service name under which the handler is advertised.
    spec fn name_spec(&self) -> Seq<char>;

    /// The encoding of a call.
    spec fn params_encoding(params: <Self::Params as View>::V) -> Seq<u8>;

    /// The call that `bytes` decode to, if any.
    spec fn params_decoding(bytes: Seq<u8>) -> Option<<Self::Params as View>::V>;

    /// The handler's answer to a call.
    spec fn answer(&self, params: <Self::Params as View>::V) -> <Self::Result as View>::V;

    /// How an answer is sent back: whether as an error reply, and its bytes.
    spec fn result_reply(result: <Self::Result as View>::V) -> (bool, Seq<u8>);

    fn name(&self) -> (r: String)
        ensures
            r@ == self.name_spec(),
    ;

    fn encode_params(params: &Self::Params) -> (r: Vec<u8>)
        ensures
            r@ == Self::params_encoding(params@),
            Self::params_decoding(r@) == Some(params@),
    ;

    fn decode_params(bytes: &[u8]) -> (r: Option<Self::Params>)
        ensures
            match r {
                Some(p) => Self::params_decoding(bytes@) == Some(p@),
                None => Self::params_decoding(bytes@) is None,
            },
    ;

    fn rpc_call(&self, params: Self::Params) -> (r: Self::Result)
        ensures
            r@ == self.answer(params@),
    ;

    fn encode_result(result: &Self::Result) -> (r: (bool, Vec<u8>))
        ensures
            (r.0, r.1@) == Self::result_reply(result@),
    ;
}

/// What the standard lower-casing makes of `s`.
pub uninterp spec fn lower_of(s: Seq<char>) -> Seq<char>;

/// Relies on `str::to_lowercase`: the result depends on the characters alone.
#[verifier::external_body]
fn lowercase(s: &str) -> (r: String)
    ensures
        r@ == lower_of(s@),
        s@.len() == 0 ==> r@.len() == 0,
{
    s.to_lowercase()
}

/// The conventional suffix of a service trait's name, once lower-cased.
pub open spec fn trait_suffix() -> Seq<char> {
    seq!['t', 'r', 'a', 'i', 't']
}

/// `s` without a trailing `trait`, if it has one.
pub open spec fn strip_suffix(s: Seq<char>) -> Seq<char> {
    if s.len() >= 5 && s.subrange(s.len() - 5, s.len() as int) == trait_suffix() {
        s.subrange(0, s.len() - 5)
    } else {
        s
    }
}

/// Drops a trailing `trait` from an already lower-cased trait name.
pub fn strip_trait_suffix(lowered: &str) -> (r: String)
    ensures
        r@ == strip_suffix(lowered@),
{
    let chars = chars_of(lowered);
    let n = chars.len();
    let suffix = vec!['t', 'r', 'a', 'i', 't'];
    assert(suffix@ == trait_suffix());
    if n < 5 {
        return string_of(&chars);
    }
    let mut k: usize = 0;
    while k < 5
        invariant
            n == chars@.len(),
            chars@ == lowered@,
            n >= 5,
            k <= 5,
            suffix@ == trait_suffix(),
            forall|j: int| 0 <= j < k ==> chars@[n - 5 + j] == suffix@[j],
        decreases 5 - k,
    {
        if chars[n - 5 + k] != suffix[k] {
            assert(chars@.subrange(n - 5, n as int)[k as int] == chars@[n - 5 + k]);
            assert(chars@.subrange(n - 5, n as int)[k as int] != trait_suffix()[k as int]);
            assert(chars@.subrange(n - 5, n as int) != trait_suffix());
            return string_of(&chars);
        }
        k = k + 1;
    }
    assert(chars@.subrange(n - 5, n as int) =~= trait_suffix());
    let mut out: Vec<char> = Vec::new();
    let mut i: usize = 0;
    while i < n - 5
        invariant
            n == chars@.len(),
            chars@ == lowered@,
            n >= 5,
            i <= n - 5,
            out@ == chars@.subrange(0, i as int),
        decreases n - 5 - i,
    {
        out.push(chars[i]);
        i = i + 1;
    }
    string_of(&out)
}

/// The service name derived from a trait's name: lower-cased, without the
/// trailing `trait`.
pub fn service_name(trait_name: &str) -> (r: String)
    ensures
        r@ == strip_suffix(lower_of(trait_name@)),
{
    let lowered = lowercase(trait_name);
    strip_trait_suffix(lowered.as_str())
}

/// What the encoding of a call or an answer with one text argument is:
/// variant tag, then the text.
pub uninterp spec fn variant_encoding(tag: u32, text: Seq<char>) -> Seq<u8>;

/// The variant tag and text that `bytes` decode to, if any.
pub uninterp spec fn variant_decoding(bytes: Seq<u8>) -> Option<(u32, Seq<char>)>;

/// Relies on `bitcode::encode` of `(tag, text)`; `bitcode::decode` reads the
/// same value back.
#[verifier::external_body]
fn encode_variant(tag: u32, text: &String) -> (r: Vec<u8>)
    ensures
        r@ == variant_encoding(tag, text@),
        variant_decoding(r@) == Some((tag, text@)),
{
    bitcode::encode(&(tag, text.clone()))
}

/// Relies on `bitcode::decode` of `(tag, text)`.
#[verifier::external_body]
fn decode_variant(bytes: &[u8]) -> (r: Option<(u32, String)>)
    ensures
        match r {
            Some((tag, text)) => variant_decoding(bytes@) == Some((tag, text@)),
            None => variant_decoding(bytes@) is None,
        },
{
    match bitcode::decode::<(u32, String)>(bytes) {
        Ok(v) => Some(v),
        Err(_) => None,
    }
}

/// The call (variant tag, argument) that `bytes` decode to, for a service
/// whose only method takes one text and has tag 0.
pub open spec fn text_call_decoding(bytes: Seq<u8>) -> Option<(u32, Seq<char>)> {
    match variant_decoding(bytes) {
        Some((tag, text)) => if tag == 0 {
            Some((tag, text))
        } else {
            None
        },
        None => None,
    }
}

/// A service answering `ping`.
pub trait PingTrait {
    /// What `ping` answers to `zid`.
    spec fn ping_spec(&self, zid: Seq<char>) -> Seq<char>;

    fn ping(&self, zid: String) -> (r: String)
        ensures
            r@ == self.ping_spec(zid@),
    ;
}

/// The calls of `PingTrait`, one variant per method.
pub enum PingTraitParams {
    Ping(String),
}

impl View for PingTraitParams {
    /// Variant tag (declaration order) and argument.
    type V = (u32, Seq<char>);

    open spec fn view(&self) -> (u32, Seq<char>) {
        match self {
            PingTraitParams::Ping(zid) => (0, zid@),
        }
    }
}

/// The answers of `PingTrait`, one variant per method.
pub enum PingTraitResult {
    Ping(String),
}

impl View for PingTraitResult {
    /// Variant tag (declaration order) and value.
    type V = (u32, Seq<char>);

    open spec fn view(&self) -> (u32, Seq<char>) {
        match self {
            PingTraitResult::Ping(r) => (0, r@),
        }
    }
}

/// Server adapter: dispatches `PingTraitParams` to a `PingTrait` implementation.
pub struct PingTraitRpcServer<T: PingTrait>(pub T);

impl<T: PingTrait> RpcTrait for PingTraitRpcServer<T> {
    type Params = PingTraitParams;
    type Result = PingTraitResult;

    open spec fn name_spec(&self) -> Seq<char> {
        strip_suffix(lower_of("PingTrait"@))
    }

    open spec fn params_encoding(params: (u32, Seq<char>)) -> Seq<u8> {
        variant_encoding(params.0, params.1)
    }

    open spec fn params_decoding(bytes: Seq<u8>) -> Option<(u32, Seq<char>)> {
        text_call_decoding(bytes)
    }

    open spec fn answer(&self, params: (u32, Seq<char>)) -> (u32, Seq<char>) {
        (0, self.0.ping_spec(params.1))
    }

    open spec fn result_reply(result: (u32, Seq<char>)) -> (bool, Seq<u8>) {
        (false, variant_encoding(result.0, result.1))
    }

    fn name(&self) -> (r: String) {
        service_name("PingTrait")
    }

    fn encode_params(params: &PingTraitParams) -> (r: Vec<u8>) {
        match params {
            PingTraitParams::Ping(zid) => encode_variant(0, zid),
        }
    }

    fn decode_params(bytes: &[u8]) -> (r: Option<PingTraitParams>) {
        match decode_variant(bytes) {
            Some((tag, text)) => {
                if tag == 0 {
                    Some(PingTraitParams::Ping(text))
                } else {
                    None
                }
            },
            None => None,
        }
    }

    fn rpc_call(&self, params: PingTraitParams) -> (r: PingTraitResult) {
        match params {
            PingTraitParams::Ping(zid) => PingTraitResult::Ping(self.0.ping(zid)),
        }
    }

    fn encode_result(result: &PingTraitResult) -> (r: (bool, Vec<u8>)) {
        match result {
            PingTraitResult::Ping(text) => (false, encode_variant(0, text)),
        }
    }
}

/// The gateway's own service: `ping` answers with the gateway's peer id.
pub trait GatewayTrait {
    /// What `ping` answers to `zid`.
    spec fn ping_spec(&self, zid: Seq<char>) -> Seq<char>;

    fn ping(&self, zid: String) -> (r: String)
        ensures
            r@ == self.ping_spec(zid@),
    ;
}

/// The calls of `GatewayTrait`, one variant per method.
pub enum GatewayTraitParams {
    Ping(String),
}

impl View for GatewayTraitParams {
    /// Variant tag (declaration order) and argument.
    type V = (u32, Seq<char>);

    open spec fn view(&self) -> (u32, Seq<char>) {
        match self {
            GatewayTraitParams::Ping(zid) => (0, zid@),
        }
    }
}

/// The answers of `GatewayTrait`, one variant per method.
pub enum GatewayTraitResult {
    Ping(String),
}

impl View for GatewayTraitResult {
    /// Variant tag (declaration order) and value.
    type V = (u32, Seq<char>);

    open spec fn view(&self) -> (u32, Seq<char>) {
        match self {
            GatewayTraitResult::Ping(r) => (0, r@),
        }
    }
}

/// Server adapter: dispatches `GatewayTraitParams` to a `GatewayTrait`
/// implementation.
pub struct GatewayTraitRpcServer<T: GatewayTrait>(pub T);

impl<T: GatewayTrait> RpcTrait for GatewayTraitRpcServer<T> {
    type Params = GatewayTraitParams;
    type Result = GatewayTraitResult;

    open spec fn name_spec(&self) -> Seq<char> {
        strip_suffix(lower_of("GatewayTrait"@))
    }

    open spec fn params_encoding(params: (u32, Seq<char>)) -> Seq<u8> {
        variant_encoding(params.0, params.1)
    }

    open spec fn params_decoding(bytes: Seq<u8>) -> Option<(u32, Seq<char>)> {
        text_call_decoding(bytes)
    }

    open spec fn answer(&self, params: (u32, Seq<char>)) -> (u32, Seq<char>) {
        (0, self.0.ping_spec(params.1))
    }

    open spec fn result_reply(result: (u32, Seq<char>)) -> (bool, Seq<u8>) {
        (false, variant_encoding(result.0, result.1))
    }

    fn name(&self) -> (r: String) {
        service_name("GatewayTrait")
    }

    fn encode_params(params: &GatewayTraitParams) -> (r: Vec<u8>) {
        match params {
            GatewayTraitParams::Ping(zid) => encode_variant(0, zid),
        }
    }

    fn decode_params(bytes: &[u8]) -> (r: Option<GatewayTraitParams>) {
        match decode_variant(bytes) {
            Some((tag, text)) => {
                if tag == 0 {
                    Some(GatewayTraitParams::Ping(text))
                } else {
                    None
                }
            },
            None => None,
        }
    }

    fn rpc_call(&self, params: GatewayTraitParams) -> (r: GatewayTraitResult) {
        match params {
            GatewayTraitParams::Ping(zid) => GatewayTraitResult::Ping(self.0.ping(zid)),
        }
    }

    fn encode_result(result: &GatewayTraitResult) -> (r: (bool, Vec<u8>)) {
        match result {
            GatewayTraitResult::Ping(text) => (false, encode_variant(0, text)),
        }
    }
}

/// The gateway's handler; it knows the peer id of its own session.
pub struct GatewaytHandler {
    pub zid: PeerId,
}

impl GatewayTrait for GatewaytHandler {
    open spec fn ping_spec(&self, zid: Seq<char>) -> Seq<char> {
        hex_text(self.zid as nat)
    }

    fn ping(&self, zid: String) -> (r: String) {
        peer_text(self.zid)
    }
}

/// An answer of a `ServiceHandlerTrait`: a response, or an error.
pub enum ServiceAnswer {
    Response(ClusterResponse),
    Failure(Error),
}

impl View for ServiceAnswer {
    type V = Result<ResponseView, ErrorView>;

    open spec fn view(&self) -> Result<ResponseView, ErrorView> {
        match self {
            ServiceAnswer::Response(r) => Ok(r@),
            ServiceAnswer::Failure(e) => Err(e@),
        }
    }
}

/// The view of a handler's result.
pub open spec fn outcome_view(r: Result<ClusterResponse, Error>) -> Result<ResponseView, ErrorView> {
    match r {
        Ok(resp) => Ok(resp@),
        Err(e) => Err(e@),
    }
}

/// A service that answers cluster requests. `zid` is the text of the
/// serving node's peer id.
pub trait ServiceHandlerTrait {
    /// What `handle_rpc` answers.
    spec fn handle_rpc_spec(&self, zid: Seq<char>, req: RequestView) -> Result<ResponseView, ErrorView>;

    fn handle_rpc(&self, zid: &str, req: &ClusterRequest) -> (r: Result<ClusterResponse, Error>)
        ensures
            outcome_view(r) == self.handle_rpc_spec(zid@, req@),
    ;

    /// Whether `handle_push` succeeds, and its error otherwise.
    spec fn handle_push_spec(&self, zid: Seq<char>, req: RequestView) -> Option<ErrorView>;

    fn handle_push(&self, zid: &str, req: &ClusterRequest) -> (r: Result<(), Error>)
        ensures
            match r {
                Ok(()) => self.handle_push_spec(zid@, req@) is None,
                Err(e) => self.handle_push_spec(zid@, req@) == Some(e@),
            },
    ;
}

/// Server adapter for a `ServiceHandlerTrait`, advertised under `name` on the
/// node whose peer id reads `zid`: calls are encoded requests; a response is
/// sent as a normal reply, an error as an error reply.
pub struct ServiceRpcServer<T: ServiceHandlerTrait> {
    pub name: String,
    pub zid: String,
    pub handler: T,
}

impl<T: ServiceHandlerTrait> RpcTrait for ServiceRpcServer<T> {
    type Params = ClusterRequest;
    type Result = ServiceAnswer;

    open spec fn name_spec(&self) -> Seq<char> {
        self.name@
    }

    open spec fn params_encoding(params: RequestView) -> Seq<u8> {
        request_encoding(params)
    }

    open spec fn params_decoding(bytes: Seq<u8>) -> Option<RequestView> {
        request_decoding(bytes)
    }

    open spec fn answer(&self, params: RequestView) -> Result<ResponseView, ErrorView> {
        self.handler.handle_rpc_spec(self.zid@, params)
    }

    open spec fn result_reply(result: Result<ResponseView, ErrorView>) -> (bool, Seq<u8>) {
        match result {
            Ok(resp) => (false, response_encoding(resp)),
            Err(e) => (true, error_encoding(e)),
        }
    }

    fn name(&self) -> (r: String) {
        self.name.clone()
    }

    fn encode_params(params: &ClusterRequest) -> (r: Vec<u8>) {
        encode_request(params)
    }

    fn decode_params(bytes: &[u8]) -> (r: Option<ClusterRequest>) {
        decode_request(bytes)
    }

    fn rpc_call(&self, params: ClusterRequest) -> (r: ServiceAnswer) {
        match self.handler.handle_rpc(self.zid.as_str(), &params) {
            Ok(resp) => ServiceAnswer::Response(resp),
            Err(e) => ServiceAnswer::Failure(e),
        }
    }

    fn encode_result(result: &ServiceAnswer) -> (r: (bool, Vec<u8>)) {
        match result {
            ServiceAnswer::Response(resp) => (false, encode_response(resp)),
            ServiceAnswer::Failure(e) => (true, encode_error(e)),
        }
    }
}

} // verus!
