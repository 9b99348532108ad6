use cluster::session::{session_settings, NodeMode, SessionEnv};
use cluster::text::{parse_int_in, split_text};

fn env() -> SessionEnv {
    SessionEnv {
        mode: None,
        connect: None,
        listen: None,
        no_multicast_scouting: None,
        no_gossip_scouting: None,
        unicast_max_links: None,
        enable_shm: None,
    }
}

#[test]
fn integers_read_like_str_parse() {
    for s in ["0", "7", "-7", "+7", "127", "-128", "128", "", "-", "+", "1a", " 1", "99999999999999999999"] {
        assert_eq!(parse_int_in(s, -128, 127), s.parse::<i8>().ok().map(|v| v as i64), "{s}");
        assert_eq!(parse_int_in(s, i32::MIN as i64, i32::MAX as i64), s.parse::<i32>().ok().map(|v| v as i64));
    }
}

#[test]
fn text_splits_on_separator() {
    assert_eq!(split_text("a,b,,c", ','), vec!["a", "b", "", "c"]);
    assert_eq!(split_text("", ','), vec![""]);
    assert_eq!(split_text("tcp/1.2.3.4:7447", ','), vec!["tcp/1.2.3.4:7447"]);
}

#[test]
fn unset_values_leave_defaults() {
    let s = session_settings(&env());
    assert!(s.mode.is_none() && s.connect.is_none() && s.listen.is_none());
    assert!(s.multicast_scouting.is_none() && s.gossip_scouting.is_none());
    assert!(s.unicast_max_links.is_none() && s.shared_memory.is_none());
}

#[test]
fn configured_values() {
    let mut e = env();
    e.mode = Some("client".to_string());
    e.connect = Some("tcp/a:1,tcp/b:2".to_string());
    e.no_multicast_scouting = Some("1".to_string());
    e.no_gossip_scouting = Some("zero".to_string());
    e.unicast_max_links = Some("many".to_string());
    e.enable_shm = Some("1".to_string());
    let s = session_settings(&e);
    assert_eq!(s.mode, Some(NodeMode::Client));
    assert_eq!(s.connect, Some(vec!["tcp/a:1".to_string(), "tcp/b:2".to_string()]));
    assert_eq!(s.multicast_scouting, Some(false));
    assert_eq!(s.gossip_scouting, Some(true));
    assert_eq!(s.unicast_max_links, Some(255));
    assert_eq!(s.shared_memory, Some(1));
    e.mode = Some("satellite".to_string());
    e.unicast_max_links = Some("4".to_string());
    let s = session_settings(&e);
    assert_eq!(s.mode, Some(NodeMode::Peer));
    assert_eq!(s.unicast_max_links, Some(4));
}
