//! Security headers that the gateway adds to every response.
use crate::text::{contains_char, dec_text, decimal, join, join_strs, views};
use vstd::prelude::*;

verus! {

/// HSTS max-age from which the `preload` directive is added (one year).
pub const HSTS_PRELOAD_MIN_SECS: u64 = 31536000;

/// Value of the `X-Frame-Options` header.
#[derive(PartialEq, Eq, Structural, Clone, Copy, Debug)]
pub enum FrameOptions {
    Deny,
    SameOrigin,
}

/// Which security headers to send, and their values.
pub struct SecurityHeadersConfig {
    pub enable_csp: bool,
    pub enable_hsts: bool,
    pub enable_xss_protection: bool,
    pub frame_options: FrameOptions,
    pub csp_directives: String,
    /// HSTS max-age in seconds.
    pub hsts_max_age: u64,
    pub enable_permissions_policy: bool,
    pub permissions_policy: String,
}

pub open spec fn default_csp_spec() -> Seq<char> {
    join(
        seq![
            "default-src 'self'"@,
            "script-src 'self' 'unsafe-inline'"@,
            "style-src 'self' 'unsafe-inline'"@,
            "img-src 'self' data: https:"@,
            "font-src 'self'"@,
            "connect-src 'self'"@,
            "object-src 'none'"@,
            "base-uri 'self'"@,
            "form-action 'self'"@,
            "frame-ancestors 'none'"@,
        ],
        "; "@,
    )
}

/// The content security policy for development.
pub fn default_csp_directives() -> (r: String)
    ensures
        r@ == default_csp_spec(),
{
    let parts = vec![
        "default-src 'self'",
        "script-src 'self' 'unsafe-inline'",
        "style-src 'self' 'unsafe-inline'",
        "img-src 'self' data: https:",
        "font-src 'self'",
        "connect-src 'self'",
        "object-src 'none'",
        "base-uri 'self'",
        "form-action 'self'",
        "frame-ancestors 'none'",
    ];
    assert(views(parts@) =~= seq![
        "default-src 'self'"@,
        "script-src 'self' 'unsafe-inline'"@,
        "style-src 'self' 'unsafe-inline'"@,
        "img-src 'self' data: https:"@,
        "font-src 'self'"@,
        "connect-src 'self'"@,
        "object-src 'none'"@,
        "base-uri 'self'"@,
        "form-action 'self'"@,
        "frame-ancestors 'none'"@,
    ]);
    join_strs(&parts, "; ")
}

/// The `connect-src` directive for the allowed origins: anything when they
/// hold `*`, else the page's own origin and the listed ones.
pub open spec fn connect_src_spec(origins: Seq<char>) -> Seq<char> {
    if origins.contains('*') {
        "connect-src * data: blob:"@
    } else {
        "connect-src 'self' "@ + origins
    }
}

pub open spec fn production_csp_spec(origins: Seq<char>) -> Seq<char> {
    join(
        seq![
            "default-src 'self'"@,
            "script-src 'self'"@,
            "style-src 'self'"@,
            "img-src 'self' data: https:"@,
            "font-src 'self'"@,
            connect_src_spec(origins),
            "object-src 'none'"@,
            "child-src 'none'"@,
            "frame-src 'none'"@,
            "frame-ancestors 'none'"@,
            "base-uri 'self'"@,
            "form-action 'self'"@,
            "upgrade-insecure-requests"@,
        ],
        "; "@,
    )
}

/// The content security policy for production, given the allowed origins
/// (space-separated, or `*`).
pub fn production_csp_directives(origins: &str) -> (r: String)
    ensures
        r@ == production_csp_spec(origins@),
{
    let connect_src = if contains_char(origins, '*') {
        String::from_str("connect-src * data: blob:")
    } else {
        let mut s = String::from_str("connect-src 'self' ");
        s.append(origins);
        s
    };
    let parts = vec![
        "default-src 'self'",
        "script-src 'self'",
        "style-src 'self'",
        "img-src 'self' data: https:",
        "font-src 'self'",
        connect_src.as_str(),
        "object-src 'none'",
        "child-src 'none'",
        "frame-src 'none'",
        "frame-ancestors 'none'",
        "base-uri 'self'",
        "form-action 'self'",
        "upgrade-insecure-requests",
    ];
    assert(views(parts@) =~= seq![
        "default-src 'self'"@,
        "script-src 'self'"@,
        "style-src 'self'"@,
        "img-src 'self' data: https:"@,
        "font-src 'self'"@,
        connect_src_spec(origins@),
        "object-src 'none'"@,
        "child-src 'none'"@,
        "frame-src 'none'"@,
        "frame-ancestors 'none'"@,
        "base-uri 'self'"@,
        "form-action 'self'"@,
        "upgrade-insecure-requests"@,
    ]);
    join_strs(&parts, "; ")
}

pub open spec fn default_permissions_spec() -> Seq<char> {
    join(
        seq!["geolocation=()"@, "microphone=()"@, "camera=()"@, "payment=()"@, "usb=()"@, "serial=()"@],
        ", "@,
    )
}

/// The permissions policy for development.
pub fn default_permissions_policy() -> (r: String)
    ensures
        r@ == default_permissions_spec(),
{
    let parts = vec!["geolocation=()", "microphone=()", "camera=()", "payment=()", "usb=()", "serial=()"];
    assert(views(parts@) =~= seq![
        "geolocation=()"@,
        "microphone=()"@,
        "camera=()"@,
        "payment=()"@,
        "usb=()"@,
        "serial=()"@,
    ]);
    join_strs(&parts, ", ")
}

pub open spec fn production_permissions_spec() -> Seq<char> {
    join(
        seq![
            "geolocation=()"@,
            "microphone=()"@,
            "camera=()"@,
            "payment=()"@,
            "usb=()"@,
            "serial=()"@,
            "magnetometer=()"@,
            "gyroscope=()"@,
            "accelerometer=()"@,
        ],
        ", "@,
    )
}

/// The permissions policy for production.
pub fn production_permissions_policy() -> (r: String)
    ensures
        r@ == production_permissions_spec(),
{
    let parts = vec![
        "geolocation=()",
        "microphone=()",
        "camera=()",
        "payment=()",
        "usb=()",
        "serial=()",
        "magnetometer=()",
        "gyroscope=()",
        "accelerometer=()",
    ];
    assert(views(parts@) =~= seq![
        "geolocation=()"@,
        "microphone=()"@,
        "camera=()"@,
        "payment=()"@,
        "usb=()"@,
        "serial=()"@,
        "magnetometer=()"@,
        "gyroscope=()"@,
        "accelerometer=()"@,
    ]);
    join_strs(&parts, ", ")
}

impl Default for SecurityHeadersConfig {
    /// The development configuration: every header on, frames from the same
    /// origin, HSTS for one year.
    fn default() -> (r: SecurityHeadersConfig)
        ensures
            r.enable_csp && r.enable_hsts && r.enable_xss_protection && r.enable_permissions_policy,
            r.frame_options == FrameOptions::SameOrigin,
            r.csp_directives@ == default_csp_spec(),
            r.hsts_max_age == 31536000,
            r.permissions_policy@ == default_permissions_spec(),
    {
        SecurityHeadersConfig {
            enable_csp: true,
            enable_hsts: true,
            enable_xss_protection: true,
            frame_options: FrameOptions::SameOrigin,
            csp_directives: default_csp_directives(),
            hsts_max_age: 31536000,
            enable_permissions_policy: true,
            permissions_policy: default_permissions_policy(),
        }
    }
}

/// The production configuration for the allowed origins: every header on,
/// no framing, HSTS for two years.
pub fn production_security_config(origins: &str) -> (r: SecurityHeadersConfig)
    ensures
        r.enable_csp && r.enable_hsts && r.enable_xss_protection && r.enable_permissions_policy,
        r.frame_options == FrameOptions::Deny,
        r.csp_directives@ == production_csp_spec(origins@),
        r.hsts_max_age == 63072000,
        r.permissions_policy@ == production_permissions_spec(),
{
    SecurityHeadersConfig {
        enable_csp: true,
        enable_hsts: true,
        enable_xss_protection: true,
        frame_options: FrameOptions::Deny,
        csp_directives: production_csp_directives(origins),
        hsts_max_age: 63072000,
        enable_permissions_policy: true,
        permissions_policy: production_permissions_policy(),
    }
}

/// The `Strict-Transport-Security` value for a max-age in seconds.
pub open spec fn hsts_spec(max_age: u64) -> Seq<char> {
    "max-age="@ + dec_text(max_age as nat) + "; includeSubDomains"@ + if max_age >= HSTS_PRELOAD_MIN_SECS {
        "; preload"@
    } else {
        Seq::empty()
    }
}

/// Builds the `Strict-Transport-Security` value.
pub fn hsts_value(max_age: u64) -> (r: String)
    ensures
        r@ == hsts_spec(max_age),
{
    let mut s = String::from_str("max-age=");
    let n = decimal(max_age);
    s.append(n.as_str());
    s.append("; includeSubDomains");
    if max_age >= HSTS_PRELOAD_MIN_SECS {
        s.append("; preload");
    }
    proof {
        if max_age < HSTS_PRELOAD_MIN_SECS {
            assert(hsts_spec(max_age) =~= "max-age="@ + dec_text(max_age as nat) + "; includeSubDomains"@);
        }
    }
    s
}

/// The header list, name and value, that `config` asks for, in order.
pub open spec fn headers_spec(config: SecurityHeadersConfig) -> Seq<(Seq<char>, Seq<char>)> {
    let csp: Seq<(Seq<char>, Seq<char>)> = if config.enable_csp {
        seq![("content-security-policy"@, config.csp_directives@)]
    } else {
        Seq::empty()
    };
    let hsts: Seq<(Seq<char>, Seq<char>)> = if config.enable_hsts {
        seq![("strict-transport-security"@, hsts_spec(config.hsts_max_age))]
    } else {
        Seq::empty()
    };
    let frame = if config.frame_options == FrameOptions::Deny {
        "DENY"@
    } else {
        "SAMEORIGIN"@
    };
    let xss: Seq<(Seq<char>, Seq<char>)> = if config.enable_xss_protection {
        seq![("x-xss-protection"@, "1; mode=block"@)]
    } else {
        Seq::empty()
    };
    let perms: Seq<(Seq<char>, Seq<char>)> = if config.enable_permissions_policy {
        seq![("permissions-policy"@, config.permissions_policy@)]
    } else {
        Seq::empty()
    };
    csp + hsts + seq![("x-content-type-options"@, "nosniff"@), ("x-frame-options"@, frame)] + xss + seq![
        ("referrer-policy"@, "strict-origin-when-cross-origin"@),
    ] + perms
}

/// The views of a header list.
pub open spec fn header_views(h: Seq<(String, String)>) -> Seq<(Seq<char>, Seq<char>)> {
    h.map_values(|p: (String, String)| (p.0@, p.1@))
}

fn push_header(out: &mut Vec<(String, String)>, name: &str, value: String)
    ensures
        header_views(final(out)@) == header_views(old(out)@).push((name@, value@)),
{
    out.push((String::from_str(name), value));
    assert(header_views(out@) =~= header_views(old(out)@).push((name@, value@)));
}

/// The security headers to set on a response, in order.
pub fn security_headers(config: &SecurityHeadersConfig) -> (r: Vec<(String, String)>)
    ensures
        header_views(r@) == headers_spec(*config),
{
    let mut out: Vec<(String, String)> = Vec::new();
    if config.enable_csp {
        push_header(&mut out, "content-security-policy", config.csp_directives.clone());
    }
    if config.enable_hsts {
        push_header(&mut out, "strict-transport-security", hsts_value(config.hsts_max_age));
    }
    push_header(&mut out, "x-content-type-options", String::from_str("nosniff"));
    let frame = match config.frame_options {
        FrameOptions::Deny => "DENY",
        FrameOptions::SameOrigin => "SAMEORIGIN",
    };
    push_header(&mut out, "x-frame-options", String::from_str(frame));
    if config.enable_xss_protection {
        push_header(&mut out, "x-xss-protection", String::from_str("1; mode=block"));
    }
    push_header(&mut out, "referrer-policy", String::from_str("strict-origin-when-cross-origin"));
    if config.enable_permissions_policy {
        push_header(&mut out, "permissions-policy", config.permissions_policy.clone());
    }
    assert(header_views(out@) =~= headers_spec(*config));
    out
}

} // verus!
