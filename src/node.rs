//! The decisions of a cluster node: how liveliness samples change the
//! registry, how an inbound query is answered, where an outbound call goes and
//! what its reply means. The transport, the tasks and the timers stay with the
//! caller, which performs what these functions decide.
use crate::keyexpr::{extract_server_and_name, extract_spec, key_expr, key_text};
use crate::laws::lemma_delete_unknown_is_noop;
use crate::registry::{inserted, members, removed, select_result, selected, PeerId, RoundRobinDashMap};
use crate::service::RpcTrait;
use crate::wire::{
    bytes_view, decode_error, decode_response, encode_error, encode_request, error_decoding, error_encoding,
    request_encoding, response_decoding, standard_error, ClusterRequest, ClusterResponse, Error,
    ERROR_CODE_INTERNAL_ERROR, ERROR_CODE_RPC_TIMEOUT, ERROR_CODE_SERVICE_NOT_FOUND,
};
use vstd::prelude::*;

verus! {

/// Process exit code of a normal stop.
pub const EXIT_OK: i32 = 0;
/// Process exit code when the node cannot declare its endpoints.
pub const EXIT_START_NODE_ERROR: i32 = 10;
/// Reply timeout of an outbound call when none is configured, in milliseconds.
pub const DEFAULT_RPC_TIMEOUT_MS: u64 = 10000;
/// Key that selects every liveliness token.
pub const LIVELINESS_KEY: &'static str = "@live/**";

/// Kind of a liveliness sample.
#[derive(PartialEq, Eq, Structural)]
pub enum SampleKind {
    Put,
    Delete,
}

/// What to send back on an inbound query.
pub enum QueryReply {
    /// A normal reply with these bytes.
    Reply(Vec<u8>),
    /// An error reply with these bytes (an encoded `Error`).
    ReplyErr(Vec<u8>),
}

/// The first thing an outbound call's reply stream yields.
pub enum RpcReply {
    /// The query could not be issued.
    Failed,
    /// A normal reply with this payload.
    Sample(Vec<u8>),
    /// An error reply with this payload.
    ErrorSample(Vec<u8>),
    /// The stream closed without a reply.
    Closed,
}

/// An outbound query to issue.
pub struct OutboundCall {
    pub key: String,
    pub payload: Vec<u8>,
    pub timeout_ms: u64,
}

/// An outbound one-way publication to make.
pub struct OutboundPut {
    pub key: String,
    pub payload: Vec<u8>,
}

/// Whether an inbound query payload cannot be dispatched: missing, empty, or
/// not a call of the handler.
pub open spec fn query_unusable<H: RpcTrait>(payload: Option<Seq<u8>>) -> bool {
    match payload {
        None => true,
        Some(b) => b.len() == 0 || H::params_decoding(b) is None,
    }
}

/// `r` sends back `reply`: as an error reply when `reply.0`, else as a normal
/// reply, with the bytes `reply.1`.
pub open spec fn sends(r: QueryReply, reply: (bool, Seq<u8>)) -> bool {
    match r {
        QueryReply::Reply(b) => !reply.0 && b@ == reply.1,
        QueryReply::ReplyErr(b) => reply.0 && b@ == reply.1,
    }
}

/// The reply timeout configured as `configured`, or the default.
pub fn rpc_timeout_or_default(configured: Option<u64>) -> (r: u64)
    ensures
        r == match configured {
            Some(t) => t,
            None => DEFAULT_RPC_TIMEOUT_MS,
        },
{
    match configured {
        Some(t) => t,
        None => DEFAULT_RPC_TIMEOUT_MS,
    }
}

/// State shared by a node's handle and its event loop.
pub struct NodeInner<H: RpcTrait> {
    pub handler: H,
    pub zid: PeerId,
    pub services: RoundRobinDashMap,
    pub rpc_timeout: u64,
}

impl<H: RpcTrait> NodeInner<H> {
    pub open spec fn wf(&self) -> bool {
        self.services.wf()
    }

    /// A node with an empty registry.
    pub fn new(handler: H, zid: PeerId, rpc_timeout: u64) -> (r: NodeInner<H>)
        ensures
            r.wf(),
            r.handler == handler,
            r.zid == zid,
            r.rpc_timeout == rpc_timeout,
            r.services@ == Map::<Seq<char>, (Seq<PeerId>, usize)>::empty(),
    {
        NodeInner { handler, zid, services: RoundRobinDashMap::new(), rpc_timeout }
    }

    /// Key of this node's RPC endpoint, `@rpc/<service>/<zid>`.
    pub fn queryable_key(&self) -> (r: String)
        ensures
            r@ == key_text("@rpc"@, self.handler.name_spec(), self.zid),
    {
        let name = self.handler.name();
        key_expr("@rpc", name.as_str(), self.zid)
    }

    /// Key of this node's liveliness token, `@live/<service>/<zid>`.
    pub fn token_key(&self) -> (r: String)
        ensures
            r@ == key_text("@live"@, self.handler.name_spec(), self.zid),
    {
        let name = self.handler.name();
        key_expr("@live", name.as_str(), self.zid)
    }

    /// Key of this node's push channel, `@chl/<service>/<zid>`.
    pub fn channel_key(&self) -> (r: String)
        ensures
            r@ == key_text("@chl"@, self.handler.name_spec(), self.zid),
    {
        let name = self.handler.name();
        key_expr("@chl", name.as_str(), self.zid)
    }

    /// Applies a liveliness sample: a put adds the peer named by `key` to its
    /// service, a delete takes it out. A key that does not name a service and
    /// a peer changes nothing, and so does a delete of an unknown peer.
    pub fn sync_service(&mut self, key: &str, kind: SampleKind)
        requires
            old(self).wf(),
        ensures
            final(self).wf(),
            final(self).handler == old(self).handler,
            final(self).zid == old(self).zid,
            final(self).rpc_timeout == old(self).rpc_timeout,
            match extract_spec(key@) {
                Some((service, peer)) => if kind == SampleKind::Put {
                    inserted(old(self).services@, final(self).services@, service, peer)
                } else {
                    removed(old(self).services@, final(self).services@, service, peer)
                },
                None => final(self).services@ == old(self).services@,
            },
            match extract_spec(key@) {
                Some((service, peer)) => kind == SampleKind::Delete && !members(old(self).services@, service).contains(peer)
                    ==> final(self).services@ == old(self).services@,
                None => true,
            },
    {
        match extract_server_and_name(key) {
            Some((service, peer)) => {
                match kind {
                    SampleKind::Put => {
                        self.services.insert(service, peer);
                    },
                    SampleKind::Delete => {
                        let ghost before = self.services@;
                        self.services.remove(service, peer);
                        proof {
                            if !members(before, service@).contains(peer) {
                                lemma_delete_unknown_is_noop(before, self.services@, service@, peer);
                            }
                        }
                    },
                }
            },
            None => {},
        }
    }

    /// Answers an inbound query: an error reply carrying the encoded
    /// internal error when the payload is missing, empty or not a call of the
    /// handler; otherwise the handler's answer to the decoded call, sent as
    /// the handler says (a normal reply, or an error reply for an error).
    pub fn handle_query(&self, payload: Option<Vec<u8>>) -> (r: QueryReply)
        ensures
            query_unusable::<H>(bytes_view(payload)) ==> sends(
                r,
                (true, error_encoding(standard_error(ERROR_CODE_INTERNAL_ERROR))),
            ),
            !query_unusable::<H>(bytes_view(payload)) ==> sends(
                r,
                H::result_reply(self.handler.answer(H::params_decoding(payload->0@)->0)),
            ),
    {
        match payload {
            Some(bytes) => {
                if bytes.len() == 0 {
                    return QueryReply::ReplyErr(encode_error(&Error::from_code(ERROR_CODE_INTERNAL_ERROR)));
                }
                match H::decode_params(bytes.as_slice()) {
                    Some(params) => {
                        let result = self.handler.rpc_call(params);
                        let (is_error, out) = H::encode_result(&result);
                        if is_error {
                            QueryReply::ReplyErr(out)
                        } else {
                            QueryReply::Reply(out)
                        }
                    },
                    None => QueryReply::ReplyErr(
                        encode_error(&Error::from_code(ERROR_CODE_INTERNAL_ERROR)),
                    ),
                }
            },
            None => QueryReply::ReplyErr(encode_error(&Error::from_code(ERROR_CODE_INTERNAL_ERROR))),
        }
    }

    /// Picks the peer for a call to `service` and prepares the query: key
    /// `@rpc/<service>/<peer>`, the encoded request, the node's timeout. With
    /// no peer available, the service-not-found error, and nothing to send.
    pub fn plan_rpc(&mut self, service: &str, request: &ClusterRequest) -> (r: Result<OutboundCall, Error>)
        requires
            old(self).wf(),
        ensures
            final(self).wf(),
            final(self).handler == old(self).handler,
            final(self).zid == old(self).zid,
            final(self).rpc_timeout == old(self).rpc_timeout,
            selected(old(self).services@, final(self).services@, service@),
            match select_result(old(self).services@, service@) {
                Some(peer) => r matches Ok(call) && call.key@ == key_text("@rpc"@, service@, peer)
                    && call.payload@ == request_encoding(request@) && call.timeout_ms
                    == old(self).rpc_timeout,
                None => r matches Err(e) && e@ == standard_error(ERROR_CODE_SERVICE_NOT_FOUND),
            },
    {
        match self.services.get_round_robin(service) {
            Some(peer) => {
                let key = key_expr("@rpc", service, peer);
                let payload = encode_request(request);
                Ok(OutboundCall { key, payload, timeout_ms: self.rpc_timeout })
            },
            None => Err(Error::from_code(ERROR_CODE_SERVICE_NOT_FOUND)),
        }
    }

    /// Picks the peer for a one-way message to `service`: key
    /// `@chl/<service>/<peer>` and the encoded request, or the
    /// service-not-found error.
    pub fn plan_push(&mut self, service: &str, request: &ClusterRequest) -> (r: Result<OutboundPut, Error>)
        requires
            old(self).wf(),
        ensures
            final(self).wf(),
            final(self).handler == old(self).handler,
            final(self).zid == old(self).zid,
            final(self).rpc_timeout == old(self).rpc_timeout,
            selected(old(self).services@, final(self).services@, service@),
            match select_result(old(self).services@, service@) {
                Some(peer) => r matches Ok(put) && put.key@ == key_text("@chl"@, service@, peer)
                    && put.payload@ == request_encoding(request@),
                None => r matches Err(e) && e@ == standard_error(ERROR_CODE_SERVICE_NOT_FOUND),
            },
    {
        match self.services.get_round_robin(service) {
            Some(peer) => {
                let key = key_expr("@chl", service, peer);
                let payload = encode_request(request);
                Ok(OutboundPut { key, payload })
            },
            None => Err(Error::from_code(ERROR_CODE_SERVICE_NOT_FOUND)),
        }
    }
}

/// What an outbound call returns, given the first thing its reply stream
/// yielded: the decoded response, the decoded remote error, the internal
/// error when the query failed or a payload does not decode, or the timeout
/// error when the stream closed empty.
pub fn rpc_outcome(reply: RpcReply) -> (r: Result<ClusterResponse, Error>)
    ensures
        match reply {
            RpcReply::Failed => r matches Err(e) && e@ == standard_error(ERROR_CODE_INTERNAL_ERROR),
            RpcReply::Sample(b) => match response_decoding(b@) {
                Some(v) => r matches Ok(resp) && resp@ == v,
                None => r matches Err(e) && e@ == standard_error(ERROR_CODE_INTERNAL_ERROR),
            },
            RpcReply::ErrorSample(b) => match error_decoding(b@) {
                Some(v) => r matches Err(e) && e@ == v,
                None => r matches Err(e) && e@ == standard_error(ERROR_CODE_INTERNAL_ERROR),
            },
            RpcReply::Closed => r matches Err(e) && e@ == standard_error(ERROR_CODE_RPC_TIMEOUT),
        },
{
    match reply {
        RpcReply::Failed => Err(Error::from_code(ERROR_CODE_INTERNAL_ERROR)),
        RpcReply::Sample(b) => match decode_response(b.as_slice()) {
            Some(resp) => Ok(resp),
            None => Err(Error::from_code(ERROR_CODE_INTERNAL_ERROR)),
        },
        RpcReply::ErrorSample(b) => match decode_error(b.as_slice()) {
            Some(e) => Err(e),
            None => Err(Error::from_code(ERROR_CODE_INTERNAL_ERROR)),
        },
        RpcReply::Closed => Err(Error::from_code(ERROR_CODE_RPC_TIMEOUT)),
    }
}

/// What a push returns once the publication was attempted: a failed
/// publication is reported as service-not-found.
pub fn push_outcome(published: bool) -> (r: Result<(), Error>)
    ensures
        published <==> r is Ok,
        r matches Err(e) ==> e@ == standard_error(ERROR_CODE_SERVICE_NOT_FOUND),
{
    if published {
        Ok(())
    } else {
        Err(Error::from_code(ERROR_CODE_SERVICE_NOT_FOUND))
    }
}

/// Lifecycle of a node.
#[derive(PartialEq, Eq, Structural, Clone, Copy, Debug)]
pub enum NodeState {
    Constructed,
    Declaring,
    Seeding,
    Serving,
    ShuttingDown,
    Terminated,
}

/// What happens to a node.
#[derive(PartialEq, Eq, Structural, Clone, Copy, Debug)]
pub enum NodeEvent {
    /// The background loop started.
    LoopStarted,
    /// A startup declaration failed.
    DeclarationFailed,
    /// The endpoint, the token and the liveliness subscriber are declared.
    Declared,
    /// The initial liveliness replies are drained.
    SeedDrained,
    /// The shutdown token fired.
    ShutdownRequested,
    /// The liveliness token is undeclared.
    TokenUndeclared,
}

/// The lifecycle transitions; an event that does not apply leaves the state.
pub open spec fn transition(s: NodeState, e: NodeEvent) -> NodeState {
    match (s, e) {
        (NodeState::Constructed, NodeEvent::LoopStarted) => NodeState::Declaring,
        (NodeState::Declaring, NodeEvent::DeclarationFailed) => NodeState::Terminated,
        (NodeState::Declaring, NodeEvent::Declared) => NodeState::Seeding,
        (NodeState::Seeding, NodeEvent::SeedDrained) => NodeState::Serving,
        (NodeState::Serving, NodeEvent::ShutdownRequested) => NodeState::ShuttingDown,
        (NodeState::ShuttingDown, NodeEvent::TokenUndeclared) => NodeState::Terminated,
        _ => s,
    }
}

/// The state after `event`.
pub fn next_state(state: NodeState, event: NodeEvent) -> (r: NodeState)
    ensures
        r == transition(state, event),
{
    match (state, event) {
        (NodeState::Constructed, NodeEvent::LoopStarted) => NodeState::Declaring,
        (NodeState::Declaring, NodeEvent::DeclarationFailed) => NodeState::Terminated,
        (NodeState::Declaring, NodeEvent::Declared) => NodeState::Seeding,
        (NodeState::Seeding, NodeEvent::SeedDrained) => NodeState::Serving,
        (NodeState::Serving, NodeEvent::ShutdownRequested) => NodeState::ShuttingDown,
        (NodeState::ShuttingDown, NodeEvent::TokenUndeclared) => NodeState::Terminated,
        _ => state,
    }
}

/// The process exit code once a node is terminated after `event`: a failed
/// declaration is fatal with `EXIT_START_NODE_ERROR`, anything else is a
/// normal stop.
pub fn exit_code(event: NodeEvent) -> (r: i32)
    ensures
        r == if event == NodeEvent::DeclarationFailed {
            EXIT_START_NODE_ERROR
        } else {
            EXIT_OK
        },
{
    if event == NodeEvent::DeclarationFailed {
        EXIT_START_NODE_ERROR
    } else {
        EXIT_OK
    }
}

} // verus!
