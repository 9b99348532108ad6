use cluster::keyexpr::{extract_server_and_name, key_expr, key_parts_of, peer_text};
use zenoh::config::ZenohId;

#[test]
fn test_extract_server_and_name() {
    let path = "@live/test_service/0123456789ABCDEF";
    let result = extract_server_and_name(path);
    assert!(result.is_none());

    let zid = ZenohId::default();
    let path = format!("@live/test_service/{zid}");
    let result = extract_server_and_name(&path);
    assert!(result.is_some());

    let (service, _zid) = result.unwrap();
    assert_eq!(service, "test_service");
}

#[test]
fn extract_reads_hex_peer_ids() {
    assert_eq!(
        extract_server_and_name("@live/ping/1bc0"),
        Some(("ping".to_string(), 0x1bc0))
    );
    assert_eq!(
        extract_server_and_name("a/b/c/svc/ff00"),
        Some(("svc".to_string(), 0xff00))
    );
}

#[test]
fn extract_rejects_malformed_keys() {
    assert_eq!(extract_server_and_name("ping/1bc0"), None);
    assert_eq!(extract_server_and_name("@live//1bc0"), None);
    assert_eq!(extract_server_and_name("@live/ping/"), None);
    assert_eq!(extract_server_and_name("@live/ping/0"), None);
    assert_eq!(extract_server_and_name("@live/ping/0bcd"), None);
    assert_eq!(extract_server_and_name("@live/ping/ABCD"), None);
    assert_eq!(extract_server_and_name("@live/ping/xyz"), None);
    assert_eq!(extract_server_and_name(""), None);
}

#[test]
fn key_parts_take_the_last_two_components() {
    assert_eq!(
        key_parts_of("@rpc/svc/abc"),
        Some(("svc".to_string(), "abc".to_string()))
    );
    assert_eq!(key_parts_of("svc/abc"), None);
    assert_eq!(key_parts_of("//abc"), None);
    assert_eq!(key_parts_of("x//"), None);
}

#[test]
fn keys_are_built_with_lower_hex_peer_ids() {
    assert_eq!(peer_text(0x1bc0), "1bc0");
    assert_eq!(peer_text(255), "ff");
    assert_eq!(peer_text(0), "0");
    assert_eq!(key_expr("@rpc", "ping", 0xabc), "@rpc/ping/abc");
    let zid = ZenohId::default();
    let id = u128::from_le_bytes(zid.to_le_bytes());
    assert_eq!(peer_text(id), zid.to_string());
    let key = key_expr("@live", "ping", id);
    assert_eq!(extract_server_and_name(&key), Some(("ping".to_string(), id)));
}

#[test]
fn peer_id_text_rules() {
    assert_eq!(extract_server_and_name("@live/s/+1f"), Some(("s".to_string(), 0x1f)));
    assert_eq!(extract_server_and_name("@live/s/+"), None);
    assert_eq!(extract_server_and_name("@live/s/-1f"), None);
    assert_eq!(extract_server_and_name("@live/s/1fG"), None);
    assert_eq!(extract_server_and_name("@live/s/g1"), None);
    assert_eq!(extract_server_and_name("@live/s/ffffffffffffffffffffffffffffffff"), Some(("s".to_string(), u128::MAX)));
    assert_eq!(extract_server_and_name("@live/s/1ffffffffffffffffffffffffffffffff"), None);
    assert_eq!(extract_server_and_name("@live/s/x/"), None);
    for zid in ["+1f", "+", "-1f", "1fG", "g1", "0", "0a", "ffffffffffffffffffffffffffffffff", "1ffffffffffffffffffffffffffffffff", ""] {
        let ours = extract_server_and_name(&format!("@live/s/{zid}")).map(|(_, id)| id);
        let theirs = zid.parse::<ZenohId>().ok().map(|z| u128::from_le_bytes(z.to_le_bytes()));
        assert_eq!(ours, theirs, "{zid}");
    }
}
