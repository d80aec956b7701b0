use micro_kit::config::{ConfigError, ConfigFile, ConfigValue};
use micro_kit::http::APIConfig;
use micro_kit::logging::LoggingConfig;
use micro_kit::TimeStamp;

fn text(s: &str) -> ConfigValue {
    ConfigValue::String(s.to_string())
}

fn hash(entries: Vec<(&str, ConfigValue)>) -> ConfigValue {
    ConfigValue::Hash(entries.into_iter().map(|(k, v)| (text(k), v)).collect())
}

fn missing(r: Result<APIConfig<'_>, ConfigError>) -> String {
    match r {
        Err(ConfigError::MissingComponent(m)) => m,
        Err(e) => panic!("unexpected error {:?}", e),
        Ok(c) => panic!("unexpected success {}", c.get_conn()),
    }
}

#[test]
fn api_config_reads_address_and_port() {
    let config = ConfigFile::new(hash(vec![(
        "service",
        hash(vec![("address", text("127.0.0.1")), ("port", ConfigValue::Integer(8080))]),
    )]));
    let api = APIConfig::new(&config).unwrap();
    assert_eq!(api.get_conn(), "127.0.0.1:8080");
}

#[test]
fn api_config_default_port() {
    let config = ConfigFile::new(hash(vec![("service", hash(vec![("address", text("example.org"))]))]));
    assert_eq!(APIConfig::new(&config).unwrap().get_conn(), "example.org:8081");

    let config = ConfigFile::new(hash(vec![(
        "service",
        hash(vec![("address", text("h")), ("port", text("eighty"))]),
    )]));
    assert_eq!(APIConfig::new(&config).unwrap().get_conn(), "h:8081");
}

#[test]
fn api_config_port_wraps_to_sixteen_bits() {
    let config = ConfigFile::new(hash(vec![(
        "service",
        hash(vec![("address", text("h")), ("port", ConfigValue::Integer(65536 + 9))]),
    )]));
    assert_eq!(APIConfig::new(&config).unwrap().get_conn(), "h:9");
}

#[test]
fn api_config_missing_parts() {
    let config = ConfigFile::new(hash(vec![("logging", ConfigValue::Null)]));
    assert_eq!(missing(APIConfig::new(&config)), "service");

    let config = ConfigFile::new(hash(vec![("service", hash(vec![("port", ConfigValue::Integer(1))]))]));
    assert_eq!(missing(APIConfig::new(&config)), "service -> address");

    let config = ConfigFile::new(hash(vec![("service", hash(vec![("address", ConfigValue::Integer(1))]))]));
    assert_eq!(missing(APIConfig::new(&config)), "service -> address");
}

#[test]
fn config_lookups() {
    let config = ConfigFile::new(hash(vec![("name", text("svc")), ("level", ConfigValue::Integer(3))]));
    assert_eq!(config["name"].as_str(), Some("svc"));
    assert_eq!(config["level"].as_i64(), Some(3));
    assert!(config["absent"].is_badvalue());
    assert!(config[0].is_badvalue());

    let list = ConfigFile::new(ConfigValue::Array(vec![text("first"), ConfigValue::Boolean(true)]));
    assert_eq!(list[0].as_str(), Some("first"));
    assert!(!list[1].is_badvalue());
    assert!(list[2].is_badvalue());
    assert!(list["first"].is_badvalue());

    let by_int = ConfigFile::new(ConfigValue::Hash(vec![(ConfigValue::Integer(4), text("four"))]));
    assert_eq!(by_int[4].as_str(), Some("four"));
    assert!(by_int[5].is_badvalue());
}

#[test]
fn nested_lookup() {
    let root = hash(vec![("outer", hash(vec![("inner", ConfigValue::Integer(-2))]))]);
    let inner = root.get("outer").and_then(|o| o.get("inner"));
    assert_eq!(inner.and_then(|v| v.as_i64()), Some(-2));
    assert!(root.get("inner").is_none());
    assert!(text("x").get("x").is_none());
}

#[test]
fn logging_section_present_or_missing() {
    let config = ConfigFile::new(hash(vec![("logging", hash(vec![("refresh_rate", text("30 seconds"))]))]));
    let section = LoggingConfig::logging_section(&config).unwrap();
    assert_eq!(section.get("refresh_rate").and_then(|v| v.as_str()), Some("30 seconds"));

    let config = ConfigFile::new(hash(vec![]));
    match LoggingConfig::logging_section(&config) {
        Err(ConfigError::MissingComponent(m)) => assert_eq!(m, "logging"),
        other => panic!("unexpected {:?}", other),
    }
}

#[test]
fn timestamp_holds_seconds() {
    let ts = TimeStamp::new(1431648000);
    assert_eq!(ts.seconds(), 1431648000);
    assert_eq!(*ts, 1431648000);
    assert!(TimeStamp::new(-1) < TimeStamp::new(0));
}

#[test]
fn config_clone_keeps_the_document() {
    let config = ConfigFile::new(hash(vec![(
        "service",
        hash(vec![("address", text("10.0.0.1")), ("tags", ConfigValue::Array(vec![text("a"), ConfigValue::Null]))]),
    )]));
    let copy = config.clone();
    drop(config);
    assert_eq!(APIConfig::new(&copy).unwrap().get_conn(), "10.0.0.1:8081");
    let tags = copy["service"].get("tags").unwrap();
    assert_eq!(tags.at(0).and_then(|v| v.as_str()), Some("a"));
    assert!(tags.at(2).is_none());
}
