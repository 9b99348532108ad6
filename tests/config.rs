use cluster::config::{
    default_csp_directives, default_permissions_policy, hsts_value, production_csp_directives,
    production_permissions_policy, production_security_config, security_headers, FrameOptions,
    SecurityHeadersConfig,
};
use cluster::text::{decimal, join_strs};
use cluster::vars::{get_allow_origins, get_jwt_duration, get_server_bind, get_tz};

#[test]
fn development_policies() {
    assert_eq!(
        default_csp_directives(),
        "default-src 'self'; script-src 'self' 'unsafe-inline'; style-src 'self' 'unsafe-inline'; img-src 'self' data: https:; font-src 'self'; connect-src 'self'; object-src 'none'; base-uri 'self'; form-action 'self'; frame-ancestors 'none'"
    );
    assert_eq!(
        default_permissions_policy(),
        "geolocation=(), microphone=(), camera=(), payment=(), usb=(), serial=()"
    );
    let c = SecurityHeadersConfig::default();
    assert_eq!(c.frame_options, FrameOptions::SameOrigin);
    assert_eq!(c.hsts_max_age, 31536000);
}

#[test]
fn production_policies() {
    let any = production_csp_directives("*");
    assert!(any.contains("; connect-src * data: blob:; "));
    assert!(any.ends_with("upgrade-insecure-requests"));
    let listed = production_csp_directives("https://a.example https://b.example");
    assert!(listed.contains("; connect-src 'self' https://a.example https://b.example; "));
    assert_eq!(
        production_permissions_policy(),
        "geolocation=(), microphone=(), camera=(), payment=(), usb=(), serial=(), magnetometer=(), gyroscope=(), accelerometer=()"
    );
    let c = production_security_config("*");
    assert_eq!(c.frame_options, FrameOptions::Deny);
    assert_eq!(c.hsts_max_age, 63072000);
}

#[test]
fn hsts_values() {
    assert_eq!(hsts_value(31536000), "max-age=31536000; includeSubDomains; preload");
    assert_eq!(hsts_value(600), "max-age=600; includeSubDomains");
    assert_eq!(hsts_value(0), "max-age=0; includeSubDomains");
}

#[test]
fn header_list() {
    let h = security_headers(&production_security_config("*"));
    let names: Vec<&str> = h.iter().map(|(n, _)| n.as_str()).collect();
    assert_eq!(
        names,
        vec![
            "content-security-policy",
            "strict-transport-security",
            "x-content-type-options",
            "x-frame-options",
            "x-xss-protection",
            "referrer-policy",
            "permissions-policy"
        ]
    );
    assert_eq!(h[1].1, "max-age=63072000; includeSubDomains; preload");
    assert_eq!(h[3].1, "DENY");
    let mut c = SecurityHeadersConfig::default();
    c.enable_csp = false;
    c.enable_xss_protection = false;
    let h = security_headers(&c);
    assert_eq!(h.len(), 5);
    assert_eq!(h[2], ("x-frame-options".to_string(), "SAMEORIGIN".to_string()));
}

#[test]
fn configured_values_and_defaults() {
    assert_eq!(get_server_bind(None), "0.0.0.0:8080");
    assert_eq!(get_server_bind(Some("127.0.0.1:9".to_string())), "127.0.0.1:9");
    assert_eq!(get_allow_origins(None), "*");
    assert_eq!(get_allow_origins(Some("a;b,c d".to_string())), "a b c d");
    assert_eq!(get_jwt_duration(None), 3600);
    assert_eq!(get_jwt_duration(Some(60)), 60);
    assert_eq!(get_tz(None), "Asia/Tokyo");
    assert_eq!(get_tz(Some("UTC".to_string())), "UTC");
}

#[test]
fn text_helpers() {
    assert_eq!(decimal(0), "0");
    assert_eq!(decimal(1234567), "1234567");
    assert_eq!(join_strs(&vec!["a", "b", "c"], ", "), "a, b, c");
    assert_eq!(join_strs(&vec![], ", "), "");
}
