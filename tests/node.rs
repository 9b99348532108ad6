use cluster::keyexpr::{key_expr, peer_text};
use cluster::node::{
    exit_code, next_state, push_outcome, rpc_outcome, rpc_timeout_or_default, NodeEvent, NodeInner,
    NodeState, QueryReply, RpcReply, SampleKind, EXIT_START_NODE_ERROR, LIVELINESS_KEY,
};
use cluster::service::{
    service_name, strip_trait_suffix, GatewayTraitRpcServer, GatewaytHandler, PingTrait,
    PingTraitParams, PingTraitResult, PingTraitRpcServer, RpcTrait,
};
use cluster::wire::{ClusterRequest, ClusterResponse, Error};

struct PingHandler;

impl PingTrait for PingHandler {
    fn ping_spec(&self, _zid: vstd::seq::Seq<char>) -> vstd::seq::Seq<char> {
        vstd::seq::Seq::empty().push('P').push('o').push('n').push('g')
    }

    fn ping(&self, _zid: String) -> String {
        "Pong".to_string()
    }
}

fn node(zid: u128) -> NodeInner<PingTraitRpcServer<PingHandler>> {
    NodeInner::new(PingTraitRpcServer(PingHandler), zid, 10000)
}

fn request() -> ClusterRequest {
    ClusterRequest {
        zid: "caller".to_string(),
        version: "".to_string(),
        query: "test".to_string(),
        payload: b"Ping".to_vec(),
    }
}

fn error_of(reply: QueryReply) -> Error {
    match reply {
        QueryReply::ReplyErr(b) => match rpc_outcome(RpcReply::ErrorSample(b)) {
            Err(e) => e,
            Ok(_) => panic!("an error reply decoded as a response"),
        },
        QueryReply::Reply(_) => panic!("expected an error reply"),
    }
}

#[test]
fn service_names_drop_the_trait_suffix() {
    assert_eq!(service_name("PingTrait"), "ping");
    assert_eq!(service_name("GatewayTrait"), "gateway");
    assert_eq!(service_name("Echo"), "echo");
    assert_eq!(strip_trait_suffix("traitor"), "traitor");
    assert_eq!(strip_trait_suffix("trait"), "");
    assert_eq!(PingTraitRpcServer(PingHandler).name(), "ping");
}

#[test]
fn node_keys() {
    let n = node(0x1bc0);
    assert_eq!(n.queryable_key(), "@rpc/ping/1bc0");
    assert_eq!(n.token_key(), "@live/ping/1bc0");
    assert_eq!(n.channel_key(), "@chl/ping/1bc0");
    assert_eq!(LIVELINESS_KEY, "@live/**");
}

#[test]
fn single_node_has_no_peer_to_call() {
    let mut n = node(0xa1);
    let r = n.plan_rpc("ping", &request());
    assert_eq!(r.err().unwrap().code, 10001);
    let r = n.plan_push("ping", &request());
    assert_eq!(r.err().unwrap().code, 10001);
}

#[test]
fn liveliness_drives_the_registry() {
    let mut n = node(0xa1);
    n.sync_service(&key_expr("@live", "ping", 0xb2), SampleKind::Put);
    let call = n.plan_rpc("ping", &request()).ok().unwrap();
    assert_eq!(call.key, "@rpc/ping/b2");
    assert_eq!(call.timeout_ms, 10000);
    n.sync_service("@live/ping/b2", SampleKind::Delete);
    assert_eq!(n.plan_rpc("ping", &request()).err().unwrap().code, 10001);
}

#[test]
fn unknown_delete_and_bad_keys_change_nothing() {
    let mut n = node(0xa1);
    n.sync_service("@live/ping/c3", SampleKind::Put);
    n.sync_service("@live/ping/d4", SampleKind::Delete);
    n.sync_service("@live/other/c3", SampleKind::Delete);
    n.sync_service("garbage", SampleKind::Put);
    n.sync_service("@live/ping/NOTHEX", SampleKind::Put);
    for _ in 0..3 {
        assert_eq!(n.plan_rpc("ping", &request()).ok().unwrap().key, "@rpc/ping/c3");
    }
    assert!(!n.services.contains_key("other"));
    assert_eq!(n.services.len(), 1);
}

#[test]
fn three_peers_round_robin_over_three_hundred_calls() {
    let mut n = node(0xf0);
    for p in [0x11u128, 0x22, 0x33] {
        n.sync_service(&key_expr("@live", "ping", p), SampleKind::Put);
    }
    let mut counts = std::collections::HashMap::new();
    for _ in 0..300 {
        let call = n.plan_rpc("ping", &request()).ok().unwrap();
        *counts.entry(call.key).or_insert(0) += 1;
    }
    assert_eq!(counts.len(), 3);
    assert!(counts.values().all(|c| (99..=101).contains(c)));
}

#[test]
fn departed_peer_is_never_called_again() {
    let mut n = node(0xf0);
    for p in [0x11u128, 0x22, 0x33] {
        n.sync_service(&key_expr("@live", "ping", p), SampleKind::Put);
    }
    n.sync_service("@live/ping/22", SampleKind::Delete);
    for _ in 0..30 {
        assert_ne!(n.plan_rpc("ping", &request()).ok().unwrap().key, "@rpc/ping/22");
    }
}

#[test]
fn query_without_payload_is_an_internal_error() {
    let n = node(1);
    assert_eq!(error_of(n.handle_query(None)).code, 10002);
    assert_eq!(error_of(n.handle_query(Some(Vec::new()))).code, 10002);
}

#[test]
fn malformed_payload_is_an_internal_error() {
    let n = node(1);
    let e = error_of(n.handle_query(Some(vec![0xde, 0xad, 0xbe, 0xef, 0x01, 0x02, 0x03])));
    assert_eq!(e.code, 10002);
    assert_eq!(e.message, "internal error");
    let wrong_tag = bitcode::encode(&(5u32, "zid".to_string()));
    assert_eq!(error_of(n.handle_query(Some(wrong_tag))).code, 10002);
}

#[test]
fn query_is_dispatched_to_the_handler() {
    let n = node(1);
    let params = bitcode::encode(&(0u32, "caller".to_string()));
    match n.handle_query(Some(params)) {
        QueryReply::Reply(b) => {
            let (tag, text): (u32, String) = bitcode::decode(&b).unwrap();
            assert_eq!(tag, 0);
            assert_eq!(text, "Pong");
        }
        QueryReply::ReplyErr(_) => panic!("expected a reply"),
    }
}

#[test]
fn params_and_results_round_trip() {
    let p = PingTraitRpcServer::<PingHandler>::decode_params(&bitcode::encode(&(0u32, "z".to_string())));
    assert!(matches!(p, Some(PingTraitParams::Ping(ref z)) if z == "z"));
    let server = PingTraitRpcServer(PingHandler);
    let r = server.rpc_call(PingTraitParams::Ping("z".to_string()));
    assert!(matches!(r, PingTraitResult::Ping(ref s) if s == "Pong"));
    let (is_error, bytes) = PingTraitRpcServer::<PingHandler>::encode_result(&r);
    assert!(!is_error);
    let back: (u32, String) = bitcode::decode(&bytes).unwrap();
    let call = PingTraitRpcServer::<PingHandler>::encode_params(&PingTraitParams::Ping("z".to_string()));
    assert_eq!(bitcode::decode::<(u32, String)>(&call).unwrap(), (0, "z".to_string()));
    let again = PingTraitRpcServer::<PingHandler>::decode_params(&call);
    assert!(matches!(again, Some(PingTraitParams::Ping(ref z)) if z == "z"));
    assert_eq!(back, (0, "Pong".to_string()));
}

#[test]
fn gateway_answers_with_its_peer_id() {
    let server = GatewayTraitRpcServer(GatewaytHandler { zid: 0xabc });
    assert_eq!(server.name(), "gateway");
    let n = NodeInner::new(server, 0xabc, 5);
    let params = bitcode::encode(&(0u32, "x".to_string()));
    match n.handle_query(Some(params)) {
        QueryReply::Reply(b) => {
            let (_, text): (u32, String) = bitcode::decode(&b).unwrap();
            assert_eq!(text, peer_text(0xabc));
        }
        QueryReply::ReplyErr(_) => panic!("expected a reply"),
    }
}

#[test]
fn request_encoding_round_trips() {
    let mut n = node(1);
    n.sync_service("@live/ping/2", SampleKind::Put);
    let call = n.plan_rpc("ping", &request()).ok().unwrap();
    let back: (String, String, String, Vec<u8>) = bitcode::decode(&call.payload).unwrap();
    assert_eq!(back, ("caller".to_string(), "".to_string(), "test".to_string(), b"Ping".to_vec()));
    let put = n.plan_push("ping", &request()).ok().unwrap();
    assert_eq!(put.key, "@chl/ping/2");
    assert_eq!(put.payload, call.payload);
}

#[test]
fn rpc_reply_outcomes() {
    let resp = bitcode::encode(&("peer".to_string(), 200u16, Some(b"Pong".to_vec())));
    let r: ClusterResponse = rpc_outcome(RpcReply::Sample(resp)).ok().unwrap();
    assert_eq!(r.zid, "peer");
    assert_eq!(r.status, 200);
    assert_eq!(r.payload.unwrap(), b"Pong".to_vec());

    let err = bitcode::encode(&(10005i32, "rpc not implemented".to_string()));
    let e = rpc_outcome(RpcReply::ErrorSample(err)).err().unwrap();
    assert_eq!((e.code, e.message.as_str()), (10005, "rpc not implemented"));

    assert_eq!(rpc_outcome(RpcReply::Closed).err().unwrap().code, 10003);
    assert_eq!(rpc_outcome(RpcReply::Failed).err().unwrap().code, 10002);
    assert_eq!(rpc_outcome(RpcReply::Sample(vec![1, 2, 3])).err().unwrap().code, 10002);
    assert_eq!(rpc_outcome(RpcReply::ErrorSample(vec![9])).err().unwrap().code, 10002);
}

#[test]
fn push_failure_is_reported_as_service_not_found() {
    assert!(push_outcome(true).is_ok());
    let e = push_outcome(false).err().unwrap();
    assert_eq!((e.code, e.message.as_str()), (10001, "service not found"));
}

#[test]
fn standard_errors() {
    let cases = [
        (10001, "service not found"),
        (10002, "internal error"),
        (10003, "rpc timeout"),
        (10004, "internal error"),
        (10005, "rpc not implemented"),
    ];
    for (code, msg) in cases {
        let e = Error::from_code(code);
        assert_eq!(e.code, code);
        assert_eq!(e.message, msg);
    }
    assert_eq!(Error::from_code(10003).describe(), "Error(10003): rpc timeout");
}

#[test]
fn lifecycle() {
    let mut s = NodeState::Constructed;
    for e in [NodeEvent::LoopStarted, NodeEvent::Declared, NodeEvent::SeedDrained] {
        s = next_state(s, e);
    }
    assert_eq!(s, NodeState::Serving);
    assert_eq!(next_state(s, NodeEvent::Declared), NodeState::Serving);
    s = next_state(s, NodeEvent::ShutdownRequested);
    assert_eq!(s, NodeState::ShuttingDown);
    assert_eq!(next_state(s, NodeEvent::TokenUndeclared), NodeState::Terminated);
    assert_eq!(
        next_state(NodeState::Declaring, NodeEvent::DeclarationFailed),
        NodeState::Terminated
    );
    assert_eq!(exit_code(NodeEvent::DeclarationFailed), EXIT_START_NODE_ERROR);
    assert_eq!(exit_code(NodeEvent::TokenUndeclared), 0);
    assert_eq!(rpc_timeout_or_default(None), 10000);
    assert_eq!(rpc_timeout_or_default(Some(100)), 100);
}

struct Pong;

impl cluster::service::ServiceHandlerTrait for Pong {
    fn handle_rpc_spec(
        &self,
        _zid: vstd::seq::Seq<char>,
        _req: cluster::wire::RequestView,
    ) -> Result<cluster::wire::ResponseView, cluster::wire::ErrorView> {
        unreachable!("a specification is never run")
    }

    fn handle_rpc(&self, zid: &str, req: &ClusterRequest) -> Result<ClusterResponse, Error> {
        if req.query == "fail" {
            return Err(Error::from_code(10005));
        }
        let payload = if req.payload == b"Ping".to_vec() { b"Pong".to_vec() } else { req.payload.clone() };
        Ok(ClusterResponse { zid: zid.to_string(), status: 200, payload: Some(payload) })
    }

    fn handle_push_spec(
        &self,
        _zid: vstd::seq::Seq<char>,
        _req: cluster::wire::RequestView,
    ) -> Option<cluster::wire::ErrorView> {
        unreachable!("a specification is never run")
    }

    fn handle_push(&self, _zid: &str, _req: &ClusterRequest) -> Result<(), Error> {
        Ok(())
    }
}

fn pong_node(zid: u128) -> NodeInner<cluster::service::ServiceRpcServer<Pong>> {
    let server = cluster::service::ServiceRpcServer {
        name: "ping".to_string(),
        zid: peer_text(zid),
        handler: Pong,
    };
    NodeInner::new(server, zid, 10000)
}

#[test]
fn two_nodes_ping_pong() {
    let mut a = pong_node(0xaaa1);
    let b = pong_node(0xbbb2);
    let c = pong_node(0xccc3);
    for n in [&b, &c] {
        a.sync_service(&n.token_key(), SampleKind::Put);
    }
    for _ in 0..4 {
        let call = a.plan_rpc("ping", &request()).ok().unwrap();
        let server = if call.key == b.queryable_key() { &b } else { &c };
        assert!(call.key == b.queryable_key() || call.key == c.queryable_key());
        let reply = match server.handle_query(Some(call.payload)) {
            QueryReply::Reply(bytes) => RpcReply::Sample(bytes),
            QueryReply::ReplyErr(bytes) => RpcReply::ErrorSample(bytes),
        };
        let resp = rpc_outcome(reply).ok().unwrap();
        assert_eq!(resp.payload, Some(b"Pong".to_vec()));
        assert!(resp.zid == peer_text(0xbbb2) || resp.zid == peer_text(0xccc3));
        assert_eq!(resp.zid, peer_text(server.zid));
    }
}

#[test]
fn a_request_is_not_a_ping_call() {
    let mut a = pong_node(1);
    a.sync_service("@live/ping/2", SampleKind::Put);
    let call = a.plan_rpc("ping", &request()).ok().unwrap();
    let p = node(2);
    assert_eq!(error_of(p.handle_query(Some(call.payload))).code, 10002);
}

#[test]
fn handler_errors_are_sent_as_error_replies() {
    let mut a = pong_node(1);
    let b = pong_node(2);
    a.sync_service(&b.token_key(), SampleKind::Put);
    let mut req = request();
    req.query = "fail".to_string();
    let call = a.plan_rpc("ping", &req).ok().unwrap();
    let e = error_of(b.handle_query(Some(call.payload)));
    assert_eq!((e.code, e.message.as_str()), (10005, "rpc not implemented"));
}
