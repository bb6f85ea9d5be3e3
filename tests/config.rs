use kubelet_config::address::IpAddress;
use kubelet_config::config::{Config, ConfigBuilder, Fallbacks};
use kubelet_config::error::ConfigError;

fn builder_from_json_string(json: &str) -> Result<ConfigBuilder, ConfigError> {
    ConfigBuilder::from_json_text(json)
}

fn fallbacks() -> Fallbacks<
    impl Fn() -> Result<String, String>,
    impl Fn() -> Result<String, String>,
    impl Fn(String) -> String,
    impl Fn(String) -> String,
    impl Fn(String, IpAddress) -> Result<IpAddress, String>,
> {
    Fallbacks {
        node_ip: |_, _| Ok(IpAddress::V4(4, 4, 4, 4)),
        hostname: || Ok("fallback-hostname".to_owned()),
        data_dir: || Ok("/fallback/data/dir".to_owned()),
        cert_path: |_| "/fallback/cert/path".to_owned(),
        key_path: |_| "/fallback/key/path".to_owned(),
        preferred_ip_family: IpAddress::V4(127, 0, 0, 1),
    }
}

fn build(b: ConfigBuilder) -> Result<Config, ConfigError> {
    b.build(fallbacks())
}

#[test]
fn config_file_inputs_are_respected_if_present() {
    let config_builder = builder_from_json_string(
        r#"{
            "listenerPort": 1234,
            "listenerAddress": "172.182.192.1",
            "hostname": "krusty-host",
            "dataDir": "/krusty/data/dir",
            "maxPods": 400,
            "nodeIP": "173.183.193.2",
            "nodeLabels": {
                "label1": "val1",
                "label2": "val2"
            },
            "nodeName": "krusty-node",
            "tlsCertificateFile": "/my/secure/cert.pfx",
            "tlsPrivateKeyFile": "/the/key"
        }"#,
    );
    let config = build(config_builder.unwrap()).unwrap();
    assert_eq!(config.server_config.port, 1234);
    assert_eq!(config.server_config.addr, IpAddress::V4(172, 182, 192, 1));
    assert_eq!(config.server_config.tls_cert_file, "/my/secure/cert.pfx");
    assert_eq!(config.server_config.tls_private_key_file, "/the/key");
    assert_eq!(config.node_name, "krusty-node");
    assert_eq!(config.hostname, "krusty-host");
    assert_eq!(config.data_dir, "/krusty/data/dir");
    assert_eq!(config.node_ip, IpAddress::V4(173, 183, 193, 2));
    assert_eq!(config.max_pods, 400);
    assert_eq!(config.node_labels.len(), 2);
    assert_eq!(config.node_labels.get("label1"), Some(&("val1".to_owned())));
}

#[test]
fn config_fallbacks_are_respected() {
    let config_builder = builder_from_json_string(
        r#"{
            "listenerPort": 2345,
            "listenerAddress": "173.183.193.2",
            "nodeLabels": {
                "label": "val"
            },
            "nodeName": "krustsome-node"
        }"#,
    );
    let config = build(config_builder.unwrap()).unwrap();
    assert_eq!(config.server_config.port, 2345);
    assert_eq!(config.server_config.addr, IpAddress::V4(173, 183, 193, 2));
    assert_eq!(config.server_config.tls_cert_file, "/fallback/cert/path");
    assert_eq!(config.server_config.tls_private_key_file, "/fallback/key/path");
    assert_eq!(config.node_name, "krustsome-node");
    assert_eq!(config.hostname, "fallback-hostname");
    assert_eq!(config.data_dir, "/fallback/data/dir");
    assert_eq!(config.node_ip, IpAddress::V4(4, 4, 4, 4));
    assert_eq!(config.node_labels.get("label"), Some(&("val".to_owned())));
}

#[test]
fn defaults_are_respected() {
    let config_builder = builder_from_json_string(
        r#"{
        }"#,
    );
    let config = build(config_builder.unwrap()).unwrap();
    assert_eq!(config.server_config.port, 3000);
    assert_eq!(config.max_pods, 110);
    assert_eq!(config.server_config.addr, IpAddress::V4(0, 0, 0, 0));
    assert_eq!(config.server_config.tls_cert_file, "/fallback/cert/path");
    assert_eq!(config.server_config.tls_private_key_file, "/fallback/key/path");
    assert_eq!(config.node_name, "fallback-hostname");
    assert_eq!(config.hostname, "fallback-hostname");
    assert_eq!(config.data_dir, "/fallback/data/dir");
    assert_eq!(config.node_ip, IpAddress::V4(4, 4, 4, 4));
    assert_eq!(config.node_labels.len(), 0);
}

#[test]
fn derived_defaults_are_respected() {
    let config_builder = builder_from_json_string(
        r#"{
                "hostname": "k"
        }"#,
    );
    let config = build(config_builder.unwrap()).unwrap();
    assert_eq!(config.node_name, "k");
    assert_eq!(config.hostname, "k");
}

#[test]
fn merging_overrides_all_values() {
    let base_values = builder_from_json_string(
        r#"{
            "listenerPort": 1234,
            "listenerAddress": "172.182.192.1",
            "hostname": "krusty-host",
            "dataDir": "/krusty/data/dir",
            "maxPods": 20,
            "nodeIP": "173.183.193.2",
            "nodeLabels": {
                "label1": "val1",
                "label2": "val2"
            },
            "nodeName": "krusty-node",
            "tlsCertificateFile": "/my/secure/cert.pfx",
            "tlsPrivateKeyFile": "/the/key"
        }"#,
    );
    let override_values = builder_from_json_string(
        r#"{
            "listenerPort": 5678,
            "listenerAddress": "171.181.191.21",
            "hostname": "krusty-host-2",
            "dataDir": "/krusty/data/dir/2",
            "maxPods": 30,
            "nodeIP": "173.183.193.22",
            "nodeLabels": {
                "label21": "val21",
                "label22": "val22"
            },
            "nodeName": "krusty-node-2",
            "tlsCertificateFile": "/my/secure/cert-2.pfx",
            "tlsPrivateKeyFile": "/the/2nd/key"
        }"#,
    );
    let config_builder = base_values.unwrap().with_override(override_values.unwrap());
    let config = build(config_builder).unwrap();
    assert_eq!(config.server_config.port, 5678);
    assert_eq!(config.server_config.addr, IpAddress::V4(171, 181, 191, 21));
    assert_eq!(config.server_config.tls_cert_file, "/my/secure/cert-2.pfx");
    assert_eq!(config.server_config.tls_private_key_file, "/the/2nd/key");
    assert_eq!(config.node_name, "krusty-node-2");
    assert_eq!(config.hostname, "krusty-host-2");
    assert_eq!(config.max_pods, 30);
    assert_eq!(config.data_dir, "/krusty/data/dir/2");
    assert_eq!(config.node_ip, IpAddress::V4(173, 183, 193, 22));
    assert_eq!(config.node_labels.len(), 2);
    assert_eq!(config.node_labels.get("label21"), Some(&("val21".to_owned())));
}

#[test]
fn merging_respects_non_overridden_values() {
    let base_values = builder_from_json_string(
        r#"{
            "listenerPort": 1234,
            "listenerAddress": "172.182.192.1",
            "hostname": "krusty-host",
            "dataDir": "/krusty/data/dir",
            "nodeIP": "173.183.193.2",
            "nodeLabels": {
                "label1": "val1",
                "label2": "val2"
            },
            "nodeName": "krusty-node",
            "tlsCertificateFile": "/my/secure/cert.pfx",
            "tlsPrivateKeyFile": "/the/key"
        }"#,
    );
    let override_values = builder_from_json_string(
        r#"{
            "listenerPort": 2345,
            "nodeName": "krusterrific-node",
            "tlsPrivateKeyFile": "/the/other/key"
        }"#,
    );
    let config_builder = base_values.unwrap().with_override(override_values.unwrap());
    let config = build(config_builder).unwrap();
    assert_eq!(config.server_config.port, 2345);
    assert_eq!(config.server_config.addr, IpAddress::V4(172, 182, 192, 1));
    assert_eq!(config.server_config.tls_cert_file, "/my/secure/cert.pfx");
    assert_eq!(config.server_config.tls_private_key_file, "/the/other/key");
    assert_eq!(config.node_name, "krusterrific-node");
    assert_eq!(config.hostname, "krusty-host");
    assert_eq!(config.data_dir, "/krusty/data/dir");
    assert_eq!(config.node_ip, IpAddress::V4(173, 183, 193, 2));
    assert_eq!(config.node_labels.len(), 2);
    assert_eq!(config.node_labels.get("label1"), Some(&("val1".to_owned())));
}

#[test]
fn malformed_config_file_is_reported() {
    let config_builder = builder_from_json_string(
        r#"{
            "listenerPort": 2345,
            "listenerAddress": "173.183.193.2",
            "nodeName": "krustsome-node",
        }"#,
    );
    let error =
        config_builder.expect_err("Expected malformed config to produce error but was okay");
    assert!(
        error.to_text().contains("comma"),
        "Expected malformed config descriptive error"
    );
}

#[test]
fn malformed_config_value_is_reported() {
    let config_builder = builder_from_json_string(
        r#"{
            "listenerPort": "qqqqqqqqqqq",
            "listenerAddress": "173.183.193.2",
            "nodeName": "krustsome-node"
        }"#,
    );
    let error = build(config_builder.unwrap()).expect_err("Expected config error but was okay");
    assert!(
        error.to_text().contains("invalid type"),
        "Expected 'invalid type' but got '{}'",
        error.to_text()
    );
}

#[test]
fn malformed_config_value_says_which_value() {
    let config_builder = builder_from_json_string(
        r#"{
            "listenerPort": "qqqqqqqqqqq",
            "listenerAddress": "173.183.193.2",
            "nodeName": "krustsome-node"
        }"#,
    );
    let error = build(config_builder.unwrap()).expect_err("Expected config error but was okay");
    assert!(error.to_text().contains("server port"), "{}", error.to_text());
}

#[test]
fn out_of_range_config_value_is_reported() {
    let config_builder = builder_from_json_string(
        r#"{
            "listenerPort": 8675309,
            "listenerAddress": "173.183.193.2",
            "nodeName": "krustsome-node"
        }"#,
    );
    let error = build(config_builder.unwrap()).expect_err("Expected config error but was okay");
    assert!(
        error.to_text().contains("invalid value"),
        "Expected 'invalid value' but got '{}'",
        error.to_text()
    );
}

#[test]
fn if_invalid_config_value_is_overridden_by_valid_one_it_is_not_an_error() {
    let config_builder_1 = builder_from_json_string(
        r#"{
            "listenerPort": 8675309
        }"#,
    )
    .unwrap();
    let config_builder_2 = builder_from_json_string(
        r#"{
            "listenerPort": 1234
        }"#,
    )
    .unwrap();
    let config_builder = config_builder_1.with_override(config_builder_2);
    let config = build(config_builder);
    assert!(
        config.is_ok(),
        "Merged config had error {}",
        config.as_ref().unwrap_err().to_text()
    );
    assert_eq!(config.unwrap().server_config.port, 1234);
}

#[test]
fn if_invalid_config_value_is_not_overridden_it_is_still_an_error() {
    let config_builder_1 = builder_from_json_string(
        r#"{
            "listenerPort": "qqqqqqqq"
        }"#,
    )
    .unwrap();
    let config_builder_2 = builder_from_json_string(
        r#"{
            "nodeName": "krustsome-node"
        }"#,
    )
    .unwrap();
    let config_builder = config_builder_1.with_override(config_builder_2);
    let error = build(config_builder).expect_err("Expected config error but was okay");
    assert!(
        error.to_text().contains("invalid type"),
        "Expected 'invalid type' but got '{}'",
        error.to_text()
    );
}
