use kubelet_config::address::{
    choose_node_ip, is_same_ip_family, lookup_target, parse_ip_address, unspecified_of, IpAddress,
};
use kubelet_config::config::{Config, ConfigBuilder, Fallbacks};
use kubelet_config::error::{invalid_config_value_error, ConfigError, FieldId};
use kubelet_config::field::{ok_result_of, FieldState};
use kubelet_config::labels::{labels_from_tokens, split_one_label};
use kubelet_config::paths::{
    default_cert_path, default_key_path, hostname_from, join_path, sanitize_hostname,
};
use kubelet_config::sources::Opts;

fn fixed_fallbacks(
    preferred: IpAddress,
) -> Fallbacks<
    impl Fn() -> Result<String, String>,
    impl Fn() -> Result<String, String>,
    impl Fn(String) -> String,
    impl Fn(String) -> String,
    impl Fn(String, IpAddress) -> Result<IpAddress, String>,
> {
    Fallbacks {
        node_ip: |_, _| Ok(IpAddress::V4(4, 4, 4, 4)),
        hostname: || Ok("Fallback-Host".to_owned()),
        data_dir: || Ok("/fallback/data/dir".to_owned()),
        cert_path: |d: String| default_cert_path(&d),
        key_path: |d: String| default_key_path(&d),
        preferred_ip_family: preferred,
    }
}

fn no_opts() -> Opts {
    Opts {
        addr: None,
        port: None,
        max_pods: None,
        tls_cert_file: None,
        tls_private_key_file: None,
        node_ip: None,
        node_labels: vec![],
        hostname: None,
        node_name: None,
        data_dir: None,
        bootstrap_file: "/etc/kubernetes/bootstrap-kubelet.conf".to_owned(),
    }
}

#[test]
fn labels_split_on_first_equals_and_drop_empty_keys() {
    let tokens = vec!["label1=val1".to_owned(), "=bad".to_owned(), "justkey".to_owned()];
    match labels_from_tokens(&tokens) {
        FieldState::Valid(l) => {
            assert_eq!(l.len(), 2);
            assert_eq!(l.get("label1"), Some(&"val1".to_owned()));
            assert_eq!(l.get("justkey"), Some(&String::new()));
            assert_eq!(l.get(""), None);
        }
        _ => panic!("expected labels"),
    }
}

#[test]
fn later_label_wins() {
    let tokens = vec!["a=1".to_owned(), "b=2".to_owned(), "a=3".to_owned()];
    match labels_from_tokens(&tokens) {
        FieldState::Valid(l) => {
            assert_eq!(l.len(), 2);
            assert_eq!(l.get("a"), Some(&"3".to_owned()));
            let e = l.entries();
            assert_eq!(e[0], ("a".to_owned(), "3".to_owned()));
            assert_eq!(e[1], ("b".to_owned(), "2".to_owned()));
        }
        _ => panic!("expected labels"),
    }
}

#[test]
fn no_label_pairs_is_absent() {
    let tokens = vec!["=x".to_owned(), String::new()];
    assert!(matches!(labels_from_tokens(&tokens), FieldState::Absent));
    assert!(matches!(labels_from_tokens(&vec![]), FieldState::Absent));
}

#[test]
fn split_one_label_cases() {
    assert_eq!(split_one_label("k=v=w"), Some(("k".to_owned(), "v=w".to_owned())));
    assert_eq!(split_one_label("k="), Some(("k".to_owned(), String::new())));
    assert_eq!(split_one_label("key"), Some(("key".to_owned(), String::new())));
    assert_eq!(split_one_label("=v"), None);
    assert_eq!(split_one_label(""), None);
}

#[test]
fn paths_join_under_data_dir() {
    assert_eq!(default_cert_path("/data"), "/data/config/krustlet.crt");
    assert_eq!(default_key_path("/data/"), "/data/config/krustlet.key");
    assert_eq!(default_key_path(""), "config/krustlet.key");
    assert_eq!(join_path("/home/me", ".krustlet"), "/home/me/.krustlet");
}

#[test]
fn hostname_is_lowercased() {
    assert_eq!(sanitize_hostname("Krusty-HOST.Example"), "krusty-host.example");
    assert_eq!(sanitize_hostname("k_8"), "k_8");
}

#[test]
fn hostname_reports() {
    assert_eq!(hostname_from(Ok(Some("h".to_owned()))), Ok("h".to_owned()));
    assert_eq!(
        hostname_from(Ok(None)),
        Err("invalid utf-8 hostname string".to_owned())
    );
    assert_eq!(hostname_from(Err("boom".to_owned())), Err("boom".to_owned()));
}

#[test]
fn ipv4_text_parses() {
    assert_eq!(parse_ip_address("172.182.192.1"), Some(IpAddress::V4(172, 182, 192, 1)));
    assert_eq!(parse_ip_address("0.0.0.0"), Some(IpAddress::V4(0, 0, 0, 0)));
    assert_eq!(parse_ip_address("255.255.255.255"), Some(IpAddress::V4(255, 255, 255, 255)));
    assert_eq!(parse_ip_address("256.1.1.1"), None);
    assert_eq!(parse_ip_address("01.1.1.1"), None);
    assert_eq!(parse_ip_address("1.1.1"), None);
    assert_eq!(parse_ip_address("1.1.1.1.1"), None);
    assert_eq!(parse_ip_address("1..1.1"), None);
    assert_eq!(parse_ip_address("a.b.c.d"), None);
    assert_eq!(parse_ip_address(""), None);
}

#[test]
fn address_classes() {
    let v4 = IpAddress::V4(10, 0, 0, 1);
    let v6 = IpAddress::V6(0, 0, 0, 0, 0, 0, 0, 1);
    assert!(is_same_ip_family(&v4, &IpAddress::V4(1, 2, 3, 4)));
    assert!(!is_same_ip_family(&v4, &v6));
    assert!(v6.is_loopback());
    assert!(IpAddress::V4(127, 0, 0, 1).is_loopback());
    assert!(IpAddress::V4(224, 0, 0, 1).is_multicast());
    assert!(IpAddress::V6(0xff02, 0, 0, 0, 0, 0, 0, 1).is_multicast());
    assert_eq!(unspecified_of(&v6), IpAddress::V6(0, 0, 0, 0, 0, 0, 0, 0));
    assert_eq!(unspecified_of(&v4), IpAddress::V4(0, 0, 0, 0));
    assert!(unspecified_of(&v4).is_unspecified());
}

#[test]
fn node_ip_choice_skips_unusable() {
    let candidates = vec![
        IpAddress::V4(127, 0, 0, 1),
        IpAddress::V4(0, 0, 0, 0),
        IpAddress::V4(239, 1, 1, 1),
        IpAddress::V6(0x2001, 0xdb8, 0, 0, 0, 0, 0, 1),
        IpAddress::V4(192, 168, 1, 7),
        IpAddress::V4(192, 168, 1, 8),
    ];
    assert_eq!(
        choose_node_ip(&candidates, &IpAddress::V4(0, 0, 0, 0)),
        Ok(IpAddress::V4(192, 168, 1, 7))
    );
    assert_eq!(
        choose_node_ip(&candidates, &IpAddress::V6(0, 0, 0, 0, 0, 0, 0, 0)),
        Ok(IpAddress::V6(0x2001, 0xdb8, 0, 0, 0, 0, 0, 1))
    );
    let err = choose_node_ip(&vec![IpAddress::V4(127, 0, 0, 1)], &IpAddress::V4(0, 0, 0, 0))
        .unwrap_err();
    assert!(err.contains("specify a node IP manually"));
}

#[test]
fn lookup_target_appends_port() {
    assert_eq!(lookup_target("krusty"), "krusty:80");
}

#[test]
fn field_error_text_names_field() {
    let e = invalid_config_value_error("bad thing".to_owned(), FieldId::MaxPods);
    assert_eq!(e.to_text(), "invalid maximum pods in configuration: bad thing");
    assert_eq!(FieldId::NodeIp.name(), "node IP");
}

#[test]
fn ok_result_of_marks_presence() {
    assert!(matches!(ok_result_of::<u16>(None), FieldState::Absent));
    assert!(matches!(ok_result_of(Some(7u16)), FieldState::Valid(7)));
}

#[test]
fn empty_sources_give_defaults() {
    let config = ConfigBuilder::empty()
        .build(fixed_fallbacks(IpAddress::V6(0, 0, 0, 0, 0, 0, 0, 1)))
        .unwrap();
    assert_eq!(config.hostname, "Fallback-Host");
    assert_eq!(config.node_name, "fallback-host");
    assert_eq!(config.data_dir, "/fallback/data/dir");
    assert_eq!(config.server_config.port, 3000);
    assert_eq!(config.max_pods, 110);
    assert_eq!(config.server_config.addr, IpAddress::V6(0, 0, 0, 0, 0, 0, 0, 0));
    assert_eq!(config.server_config.tls_cert_file, "/fallback/data/dir/config/krustlet.crt");
    assert_eq!(config.server_config.tls_private_key_file, "/fallback/data/dir/config/krustlet.key");
    assert_eq!(config.node_ip, IpAddress::V4(4, 4, 4, 4));
    assert_eq!(config.node_labels.len(), 0);
    assert_eq!(config.bootstrap_file, "/etc/kubernetes/bootstrap-kubelet.conf");
}

#[test]
fn file_values_with_defaults() {
    let b = ConfigBuilder::from_json_text(
        r#"{"listenerPort":1234,"listenerAddress":"172.182.192.1","nodeName":"krusty-node"}"#,
    )
    .unwrap();
    let c = Config::new_from_file_and_flags(
        Some(r#"{"listenerPort":1234,"listenerAddress":"172.182.192.1","nodeName":"krusty-node"}"#),
        no_opts(),
        fixed_fallbacks(IpAddress::V4(1, 1, 1, 1)),
    )
    .unwrap();
    assert_eq!(c.server_config.port, 1234);
    assert_eq!(c.server_config.addr, IpAddress::V4(172, 182, 192, 1));
    assert_eq!(c.node_name, "krusty-node");
    assert_eq!(c.hostname, "Fallback-Host");
    assert_eq!(c.max_pods, 110);
    let c2 = b.build(fixed_fallbacks(IpAddress::V4(1, 1, 1, 1))).unwrap();
    assert_eq!(c2.server_config.tls_cert_file, "/fallback/data/dir/config/krustlet.crt");
}

#[test]
fn unoverridden_bad_port_fails_naming_server_port() {
    let r = Config::new_from_file(
        Some(r#"{"listenerPort":"qqqqqqqqqqq"}"#),
        fixed_fallbacks(IpAddress::V4(1, 1, 1, 1)),
    );
    match r {
        Err(ConfigError::InvalidField { field, cause }) => {
            assert_eq!(field, FieldId::ServerPort);
            assert!(cause.contains("invalid type"));
        }
        _ => panic!("expected a field error"),
    }
}

#[test]
fn cli_port_overrides_out_of_range_file_port() {
    let mut opts = no_opts();
    opts.port = Some(1234);
    let c = Config::new_from_file_and_flags(
        Some(r#"{"listenerPort":8675309}"#),
        opts,
        fixed_fallbacks(IpAddress::V4(1, 1, 1, 1)),
    )
    .unwrap();
    assert_eq!(c.server_config.port, 1234);
}

#[test]
fn cli_invalid_masks_file_valid() {
    let file = ConfigBuilder::from_json_text(r#"{"maxPods":20}"#).unwrap();
    let over = ConfigBuilder::from_json_text(r#"{"maxPods":-1}"#).unwrap();
    let e = file
        .with_override(over)
        .build(fixed_fallbacks(IpAddress::V4(1, 1, 1, 1)))
        .unwrap_err();
    assert!(e.to_text().starts_with("invalid maximum pods in configuration: "));
}

#[test]
fn earlier_field_error_comes_first() {
    let b = ConfigBuilder::from_json_text(
        r#"{"listenerPort":"x","listenerAddress":"not-an-ip","nodeIP":"1.2.3"}"#,
    )
    .unwrap();
    let e = b.build(fixed_fallbacks(IpAddress::V4(1, 1, 1, 1))).unwrap_err();
    assert_eq!(
        e.to_text(),
        "invalid server address in configuration: invalid IP address syntax"
    );
}

#[test]
fn failing_fallback_is_a_field_error() {
    let fb = Fallbacks {
        node_ip: |_: String, _: IpAddress| Err("no route".to_owned()),
        hostname: || Ok("h".to_owned()),
        data_dir: || Err("Unable to get home directory".to_owned()),
        cert_path: |d: String| d,
        key_path: |d: String| d,
        preferred_ip_family: IpAddress::V4(0, 0, 0, 0),
    };
    let e = ConfigBuilder::empty().build(fb).unwrap_err();
    assert_eq!(
        e.to_text(),
        "invalid data directory in configuration: Unable to get home directory"
    );
    let fb2 = Fallbacks {
        node_ip: |_: String, _: IpAddress| Err("no route".to_owned()),
        hostname: || Ok("h".to_owned()),
        data_dir: || Ok("/d".to_owned()),
        cert_path: |d: String| d,
        key_path: |d: String| d,
        preferred_ip_family: IpAddress::V4(0, 0, 0, 0),
    };
    let e2 = ConfigBuilder::empty().build(fb2).unwrap_err();
    assert_eq!(e2.to_text(), "invalid node IP in configuration: no route");
}

#[test]
fn merge_keeps_base_where_override_absent() {
    let a = ConfigBuilder::from_json_text(r#"{"hostname":"a","maxPods":5}"#).unwrap();
    let b = ConfigBuilder::from_json_text(r#"{"maxPods":"x"}"#).unwrap();
    let c = ConfigBuilder::from_json_text(r#"{"maxPods":7}"#).unwrap();
    let left = a.with_override(b).with_override(c);
    let r = left.build(fixed_fallbacks(IpAddress::V4(1, 1, 1, 1))).unwrap();
    assert_eq!(r.hostname, "a");
    assert_eq!(r.max_pods, 7);
    let a2 = ConfigBuilder::from_json_text(r#"{"hostname":"a","maxPods":5}"#).unwrap();
    let b2 = ConfigBuilder::from_json_text(r#"{"maxPods":"x"}"#).unwrap();
    let c2 = ConfigBuilder::from_json_text(r#"{"maxPods":7}"#).unwrap();
    let right = a2.with_override(b2.with_override(c2));
    let r2 = right.build(fixed_fallbacks(IpAddress::V4(1, 1, 1, 1))).unwrap();
    assert_eq!(r2.hostname, "a");
    assert_eq!(r2.max_pods, 7);
}

#[test]
fn json_kinds_are_checked() {
    assert!(matches!(
        ConfigBuilder::from_json_text(r#"{"hostname":5}"#),
        Err(ConfigError::Source(_))
    ));
    assert!(matches!(
        ConfigBuilder::from_json_text(r#"[1,2]"#),
        Err(ConfigError::Source(_))
    ));
    let b = ConfigBuilder::from_json_text(r#"{"hostname":null,"unknown":1,"nodeLabels":{}}"#)
        .unwrap();
    assert!(matches!(b.hostname, FieldState::Absent));
    match b.node_labels {
        FieldState::Valid(l) => assert_eq!(l.len(), 0),
        _ => panic!("expected empty labels"),
    }
    let bad = ConfigBuilder::from_json_text(r#"{"nodeIP":"1.2.3.400"}"#).unwrap();
    assert!(matches!(bad.node_ip, FieldState::Invalid(_)));
}

#[test]
fn flags_alone_resolve() {
    let mut opts = no_opts();
    opts.node_labels = vec!["x=y".to_owned()];
    opts.hostname = Some("HostA".to_owned());
    opts.addr = Some(IpAddress::V4(10, 1, 2, 3));
    let c = Config::new_from_flags(opts, fixed_fallbacks(IpAddress::V4(1, 1, 1, 1))).unwrap();
    assert_eq!(c.node_name, "hosta");
    assert_eq!(c.server_config.addr, IpAddress::V4(10, 1, 2, 3));
    assert_eq!(c.node_labels.get("x"), Some(&"y".to_owned()));
}

#[test]
fn ipv6_text_parses() {
    assert_eq!(parse_ip_address("::"), Some(IpAddress::V6(0, 0, 0, 0, 0, 0, 0, 0)));
    assert_eq!(parse_ip_address("::1"), Some(IpAddress::V6(0, 0, 0, 0, 0, 0, 0, 1)));
    assert_eq!(parse_ip_address("1::"), Some(IpAddress::V6(1, 0, 0, 0, 0, 0, 0, 0)));
    assert_eq!(
        parse_ip_address("2001:DB8::ff"),
        Some(IpAddress::V6(0x2001, 0xdb8, 0, 0, 0, 0, 0, 0xff))
    );
    assert_eq!(
        parse_ip_address("1:2:3:4:5:6:7:8"),
        Some(IpAddress::V6(1, 2, 3, 4, 5, 6, 7, 8))
    );
    assert_eq!(
        parse_ip_address("1:2:3:4:5:6:7::"),
        Some(IpAddress::V6(1, 2, 3, 4, 5, 6, 7, 0))
    );
    assert_eq!(
        parse_ip_address("fe80::a:0b:00c"),
        Some(IpAddress::V6(0xfe80, 0, 0, 0, 0, 0xa, 0xb, 0xc))
    );
    assert_eq!(parse_ip_address(":::"), None);
    assert_eq!(parse_ip_address(":1"), None);
    assert_eq!(parse_ip_address("1:2:3:4:5:6:7:8:9"), None);
    assert_eq!(parse_ip_address("1:2:3:4:5:6:7::8"), None);
    assert_eq!(parse_ip_address("12345::"), None);
    assert_eq!(parse_ip_address("1::2::3"), None);
    assert_eq!(parse_ip_address("g::"), None);
}

#[test]
fn ipv6_with_ipv4_tail_parses() {
    assert_eq!(
        parse_ip_address("::ffff:1.2.3.4"),
        Some(IpAddress::V6(0, 0, 0, 0, 0, 0xffff, 0x0102, 0x0304))
    );
    assert_eq!(
        parse_ip_address("1:2:3:4:5:6:10.0.0.1"),
        Some(IpAddress::V6(1, 2, 3, 4, 5, 6, 0x0a00, 0x0001))
    );
    assert_eq!(parse_ip_address("::1.2.3.4"), Some(IpAddress::V6(0, 0, 0, 0, 0, 0, 0x0102, 0x0304)));
    assert_eq!(parse_ip_address("1.2.3.4::"), None);
    assert_eq!(parse_ip_address("1:2:3:4:5:6:7:1.2.3.4"), None);
    assert_eq!(parse_ip_address("1:2:3:4:5:6:7::1.2.3.4"), None);
    assert_eq!(parse_ip_address("::1.2.3.256"), None);
}

#[test]
fn ipv6_address_in_file() {
    let b = ConfigBuilder::from_json_text(r#"{"listenerAddress":"::","nodeIP":"fd00::7"}"#)
        .unwrap();
    let c = b.build(fixed_fallbacks(IpAddress::V4(1, 1, 1, 1))).unwrap();
    assert_eq!(c.server_config.addr, IpAddress::V6(0, 0, 0, 0, 0, 0, 0, 0));
    assert_eq!(c.node_ip, IpAddress::V6(0xfd00, 0, 0, 0, 0, 0, 0, 7));
}
