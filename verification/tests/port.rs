use zenoh_plugin_rest::number::{decimal_string, parse_u16};
use zenoh_plugin_rest::{parse_http_port, ConfigField, RestPlugin, RunningPlugin, StartError};

fn chars(s: &str) -> Vec<char> {
    s.chars().collect()
}

#[test]
fn port_only_gets_default_host() {
    assert_eq!(parse_http_port("8080"), "0.0.0.0:8080");
    assert_eq!(parse_http_port("+8080"), "0.0.0.0:+8080");
    assert_eq!(parse_http_port("65535"), "0.0.0.0:65535");
}

#[test]
fn host_only_gets_default_port() {
    assert_eq!(parse_http_port("localhost"), "localhost:8000");
    assert_eq!(parse_http_port("65536"), "65536:8000");
    assert_eq!(parse_http_port(""), ":8000");
    assert_eq!(parse_http_port("-1"), "-1:8000");
}

#[test]
fn address_with_colon_is_kept() {
    assert_eq!(parse_http_port("127.0.0.1:9000"), "127.0.0.1:9000");
    assert_eq!(parse_http_port(":"), ":");
}

#[test]
fn completing_an_address_twice_changes_nothing() {
    for arg in ["8080", "localhost", "10.0.0.1:80", "", "+1", "99999"] {
        let once = parse_http_port(arg);
        assert_eq!(parse_http_port(&once), once);
        assert!(once.contains(':'));
    }
}

#[test]
fn u16_parsing_follows_std() {
    for s in ["0", "00080", "+7", "65535", "65536", "", "+", "-0", "1a", " 1", "4294967296"] {
        assert_eq!(parse_u16(&chars(s)), s.parse::<u16>().ok(), "on {:?}", s);
    }
}

#[test]
fn decimal_writing_follows_std() {
    for n in [0u64, 7, 10, 8000, 65535, u64::MAX] {
        assert_eq!(decimal_string(n), n.to_string());
    }
}

fn section(fields: Vec<(&str, ConfigField)>) -> Vec<(String, ConfigField)> {
    fields.into_iter().map(|(k, v)| (k.to_string(), v)).collect()
}

#[test]
fn port_setting_from_string_or_number() {
    let s = section(vec![("port", ConfigField::Text("8000".to_string()))]);
    assert_eq!(RestPlugin::port_setting(Some(&s)), Ok("8000".to_string()));
    let s = section(vec![("other", ConfigField::Null), ("port", ConfigField::Number(Some(9000)))]);
    assert_eq!(RestPlugin::port_setting(Some(&s)), Ok("9000".to_string()));
}

#[test]
fn port_setting_errors() {
    assert_eq!(RestPlugin::port_setting(None), Err(StartError::NoConfiguration));
    let s = section(vec![("host", ConfigField::Text("x".to_string()))]);
    assert_eq!(RestPlugin::port_setting(Some(&s)), Err(StartError::PortRequired));
    let s = section(vec![("port", ConfigField::Number(None))]);
    assert_eq!(RestPlugin::port_setting(Some(&s)), Err(StartError::PortNotPositive));
    for f in [ConfigField::Null, ConfigField::Bool(true), ConfigField::Array, ConfigField::Object] {
        let s = section(vec![("port", f)]);
        assert_eq!(RestPlugin::port_setting(Some(&s)), Err(StartError::PortNotInteger));
    }
}

#[test]
fn first_port_field_counts() {
    let s = section(vec![("port", ConfigField::Text("1".to_string())), ("port", ConfigField::Null)]);
    assert_eq!(RestPlugin::port_setting(Some(&s)), Ok("1".to_string()));
}

#[test]
fn start_error_messages() {
    assert_eq!(StartError::NoConfiguration.message("rest"), "No configuration found for plugin 'rest'");
    assert_eq!(StartError::PortNotInteger.message("rest"), "\"port\" option must be an integer");
    assert_eq!(StartError::PortNotPositive.message("rest"), "\"port\" option must be a positive integer");
    assert_eq!(StartError::PortRequired.message("rest"), "Plugin option \"port\" is required");
}

#[test]
fn plugin_names() {
    assert_eq!(RestPlugin::static_name(), "rest");
    assert_eq!(RestPlugin::plugin_uid(), "zenoh-plugin-rest");
}

#[test]
fn configuration_changes_are_refused() {
    let p = RunningPlugin {};
    assert_eq!(
        p.check_config_change(),
        Err("zenoh-plugin-rest doesn't accept any runtime configuration changes".to_string())
    );
}
