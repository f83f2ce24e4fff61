use vector::apex::{ApexDefaultBatchSettings, ApexSinkConfig};
use vector::builder_hash::ConfigBuilderHash;
use vector::http_source::{base64_encode, basic_auth_token, default_path, default_path_key, ApiKeyExtractor, HttpMethod, HttpSourceAuth, HttpSourceAuthConfig};
use vector::kind::Kind;
use vector::splunk::{build_uri, host_key, HealthcheckError};
use vector::topology::{ConfigBuilder, DataType, SinkSpec, SourceSpec};

#[test]
fn splunk_build_uri_trims_and_joins() {
    let uri = build_uri("http://localhost:8888///", "/services/collector/event").unwrap();
    assert_eq!(uri, "http://localhost:8888/services/collector/event");

    let uri = build_uri("http://localhost:8888", "/services/collector/health/1.0").unwrap();
    assert_eq!(uri, "http://localhost:8888/services/collector/health/1.0");
}

#[test]
fn splunk_build_uri_rejects_invalid_text() {
    let err = build_uri("not a uri", "/x").unwrap_err();
    assert_eq!(err, "not a uri/x");
}

#[test]
fn splunk_healthcheck_statuses() {
    assert!(HealthcheckError::from_status(200).is_ok());
    assert_eq!(HealthcheckError::from_status(400), Err(Some(HealthcheckError::InvalidToken)));
    assert_eq!(HealthcheckError::from_status(503), Err(Some(HealthcheckError::QueuesFull)));
    assert_eq!(HealthcheckError::from_status(500), Err(None));
    assert_eq!(HealthcheckError::InvalidToken.message(), "Invalid HEC token");
    assert_eq!(HealthcheckError::QueuesFull.message(), "Queues are full");
}

#[test]
fn splunk_host_key_is_host() {
    assert_eq!(host_key(), "host");
}

#[test]
fn http_source_defaults() {
    assert_eq!(default_path(), "/");
    assert_eq!(default_path_key(), "path");
    assert!(matches!(HttpMethod::default(), HttpMethod::Post));
}

#[test]
fn http_source_auth_checks_token() {
    let open_auth = HttpSourceAuth::from_token(None);
    assert!(open_auth.is_valid(&None).is_ok());
    assert!(open_auth.is_valid(&Some("anything".to_string())).is_ok());

    let auth = HttpSourceAuth::from_token(Some("Basic dXNlcjpwYXNz".to_string()));
    assert!(auth.is_valid(&Some("Basic dXNlcjpwYXNz".to_string())).is_ok());

    let wrong = auth.is_valid(&Some("Basic other".to_string())).unwrap_err();
    assert_eq!(wrong.code, 401);
    assert_eq!(wrong.message, "Invalid username/password");

    let missing = auth.is_valid(&None).unwrap_err();
    assert_eq!(missing.code, 401);
    assert_eq!(missing.message, "No authorization header");
}

#[test]
fn apex_defaults() {
    let config = ApexSinkConfig::generate_config();
    assert_eq!(config.uri, "https://10.22.212.22:9000/endpoint");
    assert_eq!(ApexDefaultBatchSettings::max_bytes(), Some(100_000));
    assert_eq!(ApexDefaultBatchSettings::max_events(), None);
    assert_eq!(ApexDefaultBatchSettings::timeout_secs(), 5);
}

fn hash_builder(order_swapped: bool) -> ConfigBuilder {
    let mut builder = ConfigBuilder::new();
    if order_swapped {
        builder.add_source("b", SourceSpec { output_type: DataType::Log, resources: vec![] });
        builder.add_source("a", SourceSpec { output_type: DataType::Log, resources: vec![] });
    } else {
        builder.add_source("a", SourceSpec { output_type: DataType::Log, resources: vec![] });
        builder.add_source("b", SourceSpec { output_type: DataType::Log, resources: vec![] });
    }
    builder.add_sink(
        "out",
        vec!["a".to_string(), "b".to_string()],
        SinkSpec { input_type: DataType::Any, resources: vec![] },
    );
    builder
}

#[test]
fn builder_hash_is_order_stable() {
    let first = ConfigBuilderHash::from_builder(hash_builder(false)).sha256_hex();
    let second = ConfigBuilderHash::from_builder(hash_builder(true)).sha256_hex();
    assert_eq!(first, second);
    assert_eq!(first.len(), 64);
    assert!(first.chars().all(|c| c.is_ascii_hexdigit() && !c.is_ascii_uppercase()));
}

#[test]
fn builder_hash_changes_with_content() {
    let mut other_builder = hash_builder(false);
    other_builder.add_source("c", SourceSpec { output_type: DataType::Log, resources: vec![] });
    let first = ConfigBuilderHash::from_builder(hash_builder(false)).sha256_hex();
    let second = ConfigBuilderHash::from_builder(other_builder).sha256_hex();
    assert_ne!(first, second);
}

#[test]
fn kind_union_and_superset() {
    let number = Kind::integer().union(&Kind::float());
    assert!(number.is_superset(&Kind::integer()));
    assert!(number.is_superset(&Kind::float()));
    assert!(!number.is_superset(&Kind::boolean()));
    assert!(Kind::any().is_superset(&number));
    assert_eq!(number.union(&number), number);
    assert!(Kind::never().is_never());
    assert!(!number.is_never());
}

#[test]
fn api_key_extractor_url_capture_wins() {
    let ex = ApiKeyExtractor { store_api_key: true };
    let key = "abcdefghij0123456789ABCDEFGHIJ12";
    assert_eq!(key.len(), 32);
    let path = format!("/v1/input/{}/rest", key);
    let got = ex.extract(
        &path,
        Some("header-key".to_string()),
        Some("query-key".to_string()),
    );
    assert_eq!(got.as_deref(), Some(key));
}

#[test]
fn api_key_extractor_query_then_header() {
    let ex = ApiKeyExtractor { store_api_key: true };
    let got = ex.extract(
        "/api/v2/logs",
        Some("header-key".to_string()),
        Some("query-key".to_string()),
    );
    assert_eq!(got.as_deref(), Some("query-key"));
    let got = ex.extract("/api/v2/logs", Some("header-key".to_string()), None);
    assert_eq!(got.as_deref(), Some("header-key"));
    let got = ex.extract("/api/v2/logs", None, None);
    assert_eq!(got, None);
}

#[test]
fn api_key_extractor_rejects_short_or_bad_capture() {
    let ex = ApiKeyExtractor { store_api_key: true };
    let got = ex.extract("/v1/input/short", None, Some("q".to_string()));
    assert_eq!(got.as_deref(), Some("q"));
    let bad = "/v1/input/abcdefghij0123456789ABCDEFGHI-12";
    let got = ex.extract(bad, Some("h".to_string()), None);
    assert_eq!(got.as_deref(), Some("h"));
}

#[test]
fn api_key_extractor_off_returns_none() {
    let ex = ApiKeyExtractor { store_api_key: false };
    let path = "/v1/input/abcdefghij0123456789ABCDEFGHIJ12";
    assert_eq!(ex.extract(path, Some("h".to_string()), Some("q".to_string())), None);
}

#[test]
fn base64_known_vectors() {
    assert_eq!(base64_encode(&b"".to_vec()), "");
    assert_eq!(base64_encode(&b"f".to_vec()), "Zg==");
    assert_eq!(base64_encode(&b"fo".to_vec()), "Zm8=");
    assert_eq!(base64_encode(&b"foo".to_vec()), "Zm9v");
    assert_eq!(base64_encode(&b"foob".to_vec()), "Zm9vYg==");
    assert_eq!(base64_encode(&b"fooba".to_vec()), "Zm9vYmE=");
    assert_eq!(base64_encode(&b"foobar".to_vec()), "Zm9vYmFy");
}

#[test]
fn basic_auth_token_encodes_credentials() {
    assert_eq!(basic_auth_token("user", "pass"), "Basic dXNlcjpwYXNz");
}

#[test]
fn auth_from_config_round_trip() {
    let auth = HttpSourceAuth::from_config(None);
    assert!(auth.is_valid(&None).is_ok());
    let config = HttpSourceAuthConfig {
        username: "user".to_string(),
        password: "pass".to_string(),
    };
    let auth = HttpSourceAuth::from_config(Some(&config));
    assert!(auth.is_valid(&Some("Basic dXNlcjpwYXNz".to_string())).is_ok());
    assert!(auth.is_valid(&Some("Basic dXNlcjpvdGhlcg==".to_string())).is_err());
    assert!(auth.is_valid(&None).is_err());
}
