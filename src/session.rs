//! Settings of the transport session, read from configuration values.
use crate::text::{int_value, parse_int_in, split_by, split_text, string_views};
use std::str::FromStr;
use vstd::prelude::*;
use zenoh::config::WhatAmI;

verus! {

/// Role of a node in the transport.
#[derive(PartialEq, Eq, Structural, Clone, Copy, Debug)]
pub enum NodeMode {
    Router,
    Peer,
    Client,
}

/// The role that a mode name stands for.
pub open spec fn mode_named(text: Seq<char>) -> Option<NodeMode> {
    if text == "router"@ {
        Some(NodeMode::Router)
    } else if text == "peer"@ {
        Some(NodeMode::Peer)
    } else if text == "client"@ {
        Some(NodeMode::Client)
    } else {
        None
    }
}

/// Relies on `WhatAmI::from_str`: `router`, `peer` and `client` name the
/// three roles; nothing else does.
#[verifier::external_body]
fn parse_mode(text: &str) -> (r: Option<NodeMode>)
    ensures
        r == mode_named(text@),
{
    match WhatAmI::from_str(text) {
        Ok(WhatAmI::Router) => Some(NodeMode::Router),
        Ok(WhatAmI::Peer) => Some(NodeMode::Peer),
        Ok(WhatAmI::Client) => Some(NodeMode::Client),
        Err(_) => None,
    }
}

/// The configuration values a session is built from, as read.
pub struct SessionEnv {
    pub mode: Option<String>,
    pub connect: Option<String>,
    pub listen: Option<String>,
    pub no_multicast_scouting: Option<String>,
    pub no_gossip_scouting: Option<String>,
    pub unicast_max_links: Option<String>,
    pub enable_shm: Option<String>,
}

/// The session settings to apply; `None` leaves the transport's default.
pub struct SessionSettings {
    pub mode: Option<NodeMode>,
    pub connect: Option<Vec<String>>,
    pub listen: Option<Vec<String>>,
    pub multicast_scouting: Option<bool>,
    pub gossip_scouting: Option<bool>,
    pub unicast_max_links: Option<i32>,
    pub shared_memory: Option<i8>,
}

/// The views of an optional list of strings.
pub open spec fn list_view(v: Option<Vec<String>>) -> Option<Seq<Seq<char>>> {
    match v {
        Some(l) => Some(string_views(l@)),
        None => None,
    }
}

/// The integer `text` writes if it lies in `[lo, hi]`, else `default`.
pub open spec fn int_or(text: Seq<char>, lo: int, hi: int, default: int) -> int {
    match int_value(text) {
        Some(v) => if lo <= v <= hi {
            v
        } else {
            default
        },
        None => default,
    }
}

fn int_or_default(text: &String, lo: i64, hi: i64, default: i64) -> (r: i64)
    requires
        -i64::MAX <= lo,
    ensures
        r == int_or(text@, lo as int, hi as int, default as int),
{
    match parse_int_in(text.as_str(), lo, hi) {
        Some(v) => v,
        None => default,
    }
}

fn endpoints(list: &Option<String>) -> (r: Option<Vec<String>>)
    ensures
        list_view(r) == match list {
            Some(l) => Some(split_by(l@, ',')),
            None => None,
        },
{
    match list {
        Some(l) => Some(split_text(l.as_str(), ',')),
        None => None,
    }
}

/// The settings the configuration values ask for: the mode (an unknown one
/// reads as `peer`), comma-separated endpoint lists, scouting switched off by
/// a non-zero `i8` (anything else reads as 0), the link limit as an `i32`
/// (255 when unreadable), shared memory as an `i8` (0 when unreadable).
pub fn session_settings(env: &SessionEnv) -> (r: SessionSettings)
    ensures
        r.mode == match env.mode {
            Some(m) => Some(
                match mode_named(m@) {
                    Some(x) => x,
                    None => NodeMode::Peer,
                },
            ),
            None => None,
        },
        list_view(r.connect) == match env.connect {
            Some(l) => Some(split_by(l@, ',')),
            None => None,
        },
        list_view(r.listen) == match env.listen {
            Some(l) => Some(split_by(l@, ',')),
            None => None,
        },
        r.multicast_scouting == match env.no_multicast_scouting {
            Some(t) => Some(int_or(t@, -128, 127, 0) == 0),
            None => None,
        },
        r.gossip_scouting == match env.no_gossip_scouting {
            Some(t) => Some(int_or(t@, -128, 127, 0) == 0),
            None => None,
        },
        r.unicast_max_links == match env.unicast_max_links {
            Some(t) => Some(int_or(t@, i32::MIN as int, i32::MAX as int, 255) as i32),
            None => None,
        },
        r.shared_memory == match env.enable_shm {
            Some(t) => Some(int_or(t@, -128, 127, 0) as i8),
            None => None,
        },
{
    let mode = match &env.mode {
        Some(m) => Some(
            match parse_mode(m.as_str()) {
                Some(x) => x,
                None => NodeMode::Peer,
            },
        ),
        None => None,
    };
    let multicast_scouting = match &env.no_multicast_scouting {
        Some(t) => Some(int_or_default(t, -128, 127, 0) == 0),
        None => None,
    };
    let gossip_scouting = match &env.no_gossip_scouting {
        Some(t) => Some(int_or_default(t, -128, 127, 0) == 0),
        None => None,
    };
    let unicast_max_links = match &env.unicast_max_links {
        Some(t) => Some(int_or_default(t, i32::MIN as i64, i32::MAX as i64, 255) as i32),
        None => None,
    };
    let shared_memory = match &env.enable_shm {
        Some(t) => Some(int_or_default(t, -128, 127, 0) as i8),
        None => None,
    };
    SessionSettings {
        mode,
        connect: endpoints(&env.connect),
        listen: endpoints(&env.listen),
        multicast_scouting,
        gossip_scouting,
        unicast_max_links,
        shared_memory,
    }
}

} // verus!
