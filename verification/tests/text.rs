use vmm_devices::gpu_display::text::{c_string, parse_port};

fn std_port(addr: &str) -> i32 {
    addr.rsplit(':')
        .next()
        .and_then(|p| p.parse::<i32>().ok())
        .unwrap_or(5900)
}

#[test]
fn port_follows_last_colon() {
    assert_eq!(parse_port("0.0.0.0:5901"), 5901);
    assert_eq!(parse_port("[::1]:17"), 17);
    assert_eq!(parse_port("host:1:2"), 2);
    assert_eq!(parse_port("5902"), 5902);
    assert_eq!(parse_port("host"), 5900);
    assert_eq!(parse_port("host:"), 5900);
    assert_eq!(parse_port(""), 5900);
    assert_eq!(parse_port("host:-3"), -3);
    assert_eq!(parse_port("host:+3"), 3);
    assert_eq!(parse_port("host:2147483647"), 2147483647);
    assert_eq!(parse_port("host:2147483648"), 5900);
    assert_eq!(parse_port("host:-2147483648"), -2147483648);
    assert_eq!(parse_port("host:-2147483649"), 5900);
}

#[test]
fn port_agrees_with_std() {
    for addr in [
        "", ":", "::", "a", "a:", ":1", "a:1", "a:01", "a:-", "a:+", "a:--1", "a:+-1", "a: 1",
        "a:1 ", "a:1_0", "a:0x1", "a:99999999999999999999999999", "a:-99999999999999999999999",
        "a:00000000000000000000000000000007", "a:-0", "\u{fc}:4", "4\u{fc}", "a:\u{661}", "a:2147483650",
        "a:21474836470", "a:-2147483648", "a:1:", "-5", "+5",
    ] {
        assert_eq!(parse_port(addr), std_port(addr), "{addr:?}");
    }
}

#[test]
fn c_string_appends_zero() {
    assert_eq!(c_string("abc"), Some(b"abc\0".to_vec()));
    assert_eq!(c_string(""), Some(vec![0]));
    assert_eq!(c_string("\u{20ac}"), Some(vec![0xe2, 0x82, 0xac, 0]));
}

#[test]
fn c_string_refuses_null() {
    assert_eq!(c_string("a\0b"), None);
    assert_eq!(c_string("\0"), None);
    assert_eq!(c_string("\u{100}\0"), None);
}
