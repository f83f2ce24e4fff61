use vector::datadog::{
    build_uri, default_site, DatadogEventsConfig, DatadogMetricsConfig, DatadogMetricsEndpoint,
    DatadogMetricsEndpointConfiguration, Region, RequestBuildError,
};

#[test]
fn generate_config() {
    let config = DatadogEventsConfig::generate_config();
    assert_eq!(config.default_api_key, "${DATADOG_API_KEY_ENV_VAR}");
    assert_eq!(config.site, "datadoghq.com");
    assert!(config.endpoint.is_none());
    assert_eq!(config.get_api_endpoint(), "https://api.datadoghq.com");
    assert_eq!(config.get_uri(), "https://api.datadoghq.com/api/v1/events");
}

#[test]
fn config_generate_config() {
    let config = DatadogMetricsConfig::default();
    assert!(config.default_namespace.is_none());
    assert!(config.endpoint.is_none());
    assert!(config.region.is_none());
    assert!(config.site.is_none());
    assert_eq!(config.api_key, "");
    assert!(config.generate_metrics_endpoint_configuration().is_ok());
}

#[test]
fn events_endpoint_prefers_configured_endpoint() {
    let config = DatadogEventsConfig {
        endpoint: Some("http://localhost:8080".to_string()),
        site: default_site(),
        default_api_key: "key".to_string(),
    };
    assert_eq!(config.get_uri(), "http://localhost:8080/api/v1/events");
}

#[test]
fn metrics_site_falls_back_to_region() {
    let mut config = DatadogMetricsConfig::from_api_key("key");
    assert_eq!(config.get_site(), "datadoghq.com");
    config.region = Some(Region::Eu);
    assert_eq!(config.get_site(), "datadoghq.eu");
    config.site = Some("mine.example.com".to_string());
    assert_eq!(config.get_site(), "mine.example.com");
    assert_eq!(config.get_api_endpoint(), "https://api.mine.example.com");
}

#[test]
fn metrics_endpoint_configuration_maps_uris() {
    let config = DatadogMetricsConfig::from_api_key("key");
    let endpoints = config.generate_metrics_endpoint_configuration().unwrap();
    let series = endpoints.get_uri_for_endpoint(DatadogMetricsEndpoint::Series);
    let sketches = endpoints.get_uri_for_endpoint(DatadogMetricsEndpoint::Sketches);
    assert!(series.ends_with("/api/v1/series"), "{}", series);
    assert!(sketches.ends_with("/api/beta/sketches"), "{}", sketches);
    assert!(series.starts_with("https://0-1-0-vector.agent.datadoghq.com"), "{}", series);
}

#[test]
fn endpoint_content_types() {
    assert_eq!(DatadogMetricsEndpoint::Series.content_type(), "application/json");
    assert_eq!(DatadogMetricsEndpoint::Sketches.content_type(), "application/x-protobuf");
}

#[test]
fn build_uri_validates_text() {
    let ok = build_uri("https://api.datadoghq.com", "/api/v1/series").unwrap();
    assert_eq!(ok, "https://api.datadoghq.com/api/v1/series");

    let endpoints = DatadogMetricsEndpointConfiguration::new(
        "https://a/api/v1/series".to_string(),
        "https://a/api/beta/sketches".to_string(),
    );
    assert_eq!(
        endpoints.get_uri_for_endpoint(DatadogMetricsEndpoint::Series),
        "https://a/api/v1/series",
    );
}

#[test]
fn request_build_error_messages() {
    assert_eq!(
        RequestBuildError::PayloadTooBig.message(),
        "Encoded payload is greater than the max limit.",
    );
    assert_eq!(
        RequestBuildError::Io { error: "disk full".to_string() }.message(),
        "Failed to build payload with error: disk full",
    );
}
