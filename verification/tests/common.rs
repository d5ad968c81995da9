use fastlink::common::config::{Config, ConfigError};
use fastlink::common::net::{is_public_ip, IpAddr, SocketAddr};
use fastlink::common::text::{to_hex, with_decimal_suffix};
use fastlink::common::time::{Duration, Instant, Timestamp};

#[test]
fn test_default_config() {
    let config = Config::default();
    assert_eq!(config.node.name, "FastLink Node");
    assert_eq!(config.network.max_connections, 100);
}

#[test]
fn default_config_other_fields() {
    let config = Config::default();
    assert_eq!(config.node.listen_addr, "0.0.0.0:0");
    assert_eq!(config.node.data_dir, "./data");
    assert!(config.p2p.nat_traversal);
    assert_eq!(config.p2p.max_relay_hops, 3);
    assert_eq!(config.logging.level, "info");
}

#[test]
fn config_error_messages() {
    assert_eq!(ConfigError::FileNotFound("a.toml".to_string()).to_string(), "File not found: a.toml");
    assert_eq!(ConfigError::Parse("bad".to_string()).to_string(), "Parse error: bad");
    assert_eq!(ConfigError::MissingField("x".to_string()).to_string(), "Missing field: x");
    assert_eq!(ConfigError::InvalidValue("y".to_string()).to_string(), "Invalid value: y");
}

#[test]
fn test_timestamp_operations() {
    let t1 = Timestamp::now();
    let t2 = t1 + Duration::from_secs(1);
    assert!(t2.is_after(t1));
    assert_eq!(t2 - t1, Duration::from_secs(1));
}

#[test]
fn timestamp_subtraction_saturates() {
    let t1 = Timestamp::new(Duration::from_secs(5));
    let t2 = Timestamp::new(Duration::from_secs(7));
    assert_eq!(t1 - t2, Duration::zero());
    assert_eq!(t2.duration_since(t1), Duration::from_secs(2));
    assert!(t1.is_before(t2));
    assert_eq!(t1.checked_sub(Duration::from_secs(6)), None);
}

#[test]
fn duration_conversions() {
    let d = Duration::new(3, 500_000_000);
    assert_eq!(d.as_millis(), 3500);
    assert_eq!(d.as_secs(), 3);
    assert_eq!(d.subsec_nanos(), 500_000_000);
    assert_eq!(Duration::from_micros(1500).as_nanos(), 1_500_000);
    assert_eq!(Duration::from_secs(1).checked_sub(Duration::from_secs(2)), None);
    assert_eq!(Duration::from_secs(1).saturating_sub(Duration::from_secs(2)), Duration::zero());
    assert_eq!(Duration::from_secs(2).checked_mul(3), Some(Duration::from_secs(6)));
}

#[test]
fn instant_arithmetic() {
    let a = Instant::now();
    let b = a.plus(Duration::from_millis(5));
    assert_eq!(b.saturating_duration_since(a), Duration::from_millis(5));
    assert_eq!(a.saturating_duration_since(b), Duration::zero());
}

#[test]
fn public_ip_classification() {
    assert!(is_public_ip(IpAddr::v4(1, 1, 1, 1)));
    assert!(!is_public_ip(IpAddr::v4(192, 168, 0, 1)));
    assert!(!is_public_ip(IpAddr::v4(172, 16, 0, 1)));
    assert!(!is_public_ip(IpAddr::v4(127, 0, 0, 1)));
    assert!(!is_public_ip(IpAddr::v4(169, 254, 1, 1)));
    assert!(!is_public_ip(IpAddr::v4(224, 0, 0, 1)));
    assert!(!is_public_ip(IpAddr::v4(0, 0, 0, 0)));
    let a = SocketAddr::v4(10, 1, 2, 3, 80);
    assert_eq!(a.port(), 80);
    assert_eq!(a.ip().octets(), vec![10, 1, 2, 3]);
    assert!(a.is_ipv4());
}

#[test]
fn decimal_and_hex_text() {
    assert_eq!(with_decimal_suffix("n=", 0), "n=0");
    assert_eq!(with_decimal_suffix("n=", 907), "n=907");
    assert_eq!(with_decimal_suffix("", u64::MAX), u64::MAX.to_string());
    assert_eq!(to_hex(&[0x00, 0x0f, 0xab, 0xff]), "000fabff");
}
