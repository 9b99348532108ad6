//! Configuration values: names of the variables they come from and the
//! defaults applied when a variable is missing.
use crate::text::{chars_of, string_of};
use vstd::prelude::*;

verus! {

pub const ZENOH_MODE: &'static str = "ZENOH_MODE";
pub const ZENOH_CONNECT: &'static str = "ZENOH_CONNECT";
pub const ZENOH_LISTEN: &'static str = "ZENOH_LISTEN";
pub const ZENOH_NO_MULTICAST_SCOUTING: &'static str = "ZENOH_NO_MULTICAST_SCOUTING";
pub const ZENOH_NO_GOSSIP_SCOUTING: &'static str = "ZENOH_NO_MULTICAST_SCOUTING";
pub const ZENOH_UNICAST_MAX_LINKS: &'static str = "ZENOH_UNICAST_MAX_LINKS";
pub const ZENOH_ENABLE_SHM: &'static str = "ZENOH_ENABLE_SHM";
pub const ZENOH_RPC_TIMEOUT: &'static str = "ZENOH_RPC_TIMEOUT";
pub const SERVER_BIND: &'static str = "SERVER_BIND";
pub const SERVER_ALLOW_ORIGINS: &'static str = "SERVER_ALLOW_ORIGINS";
pub const ACCESS_TOKEN_DURATION: &'static str = "ACCESS_TOKEN_DURATION";
pub const SERVER_ID: &'static str = "ACCESS_TOKEN_DURATION";
pub const SERVICE_TZ: &'static str = "SERVICE_TZ";

/// Default token lifetime, in seconds.
pub const DEFAULT_JWT_DURATION: i64 = 3600;

fn text_or(configured: Option<String>, default: &str) -> (r: String)
    ensures
        r@ == match configured {
            Some(s) => s@,
            None => default@,
        },
{
    match configured {
        Some(s) => s,
        None => String::from_str(default),
    }
}

/// The address the gateway listens on: the configured one or `0.0.0.0:8080`.
pub fn get_server_bind(configured: Option<String>) -> (r: String)
    ensures
        r@ == match configured {
            Some(s) => s@,
            None => "0.0.0.0:8080"@,
        },
{
    text_or(configured, "0.0.0.0:8080")
}

/// `s` with every `;` and `,` turned into a space.
pub open spec fn spaced(s: Seq<char>) -> Seq<char> {
    s.map_values(|c: char| if c == ';' || c == ',' { ' ' } else { c })
}

/// The allowed origins, space-separated: the configured list (`;` and `,`
/// read as spaces) or `*`.
pub fn get_allow_origins(configured: Option<String>) -> (r: String)
    ensures
        r@ == spaced(
            match configured {
                Some(s) => s@,
                None => "*"@,
            },
        ),
{
    let raw = text_or(configured, "*");
    let chars = chars_of(raw.as_str());
    let mut out: Vec<char> = Vec::new();
    let mut i: usize = 0;
    while i < chars.len()
        invariant
            chars@ == raw@,
            i <= chars@.len(),
            out@ == spaced(chars@.subrange(0, i as int)),
        decreases chars@.len() - i,
    {
        let c = chars[i];
        out.push(
            if c == ';' || c == ',' {
                ' '
            } else {
                c
            },
        );
        assert(out@ =~= spaced(chars@.subrange(0, i + 1)));
        i = i + 1;
    }
    assert(chars@.subrange(0, chars@.len() as int) == chars@);
    string_of(&out)
}

/// The token lifetime in seconds: the configured one or an hour.
pub fn get_jwt_duration(configured: Option<i64>) -> (r: i64)
    ensures
        r == match configured {
            Some(d) => d,
            None => DEFAULT_JWT_DURATION,
        },
{
    match configured {
        Some(d) => d,
        None => DEFAULT_JWT_DURATION,
    }
}

/// The service's time zone name: the configured one or `Asia/Tokyo`.
pub fn get_tz(configured: Option<String>) -> (r: String)
    ensures
        r@ == match configured {
            Some(s) => s@,
            None => "Asia/Tokyo"@,
        },
{
    text_or(configured, "Asia/Tokyo")
}

} // verus!
