//! Value-level pieces of the datadog sinks: endpoint selection and URI
//! construction for the events and metrics APIs.

use vstd::prelude::*;

use crate::trusted::{spec_uri_ok, uri_text_ok};

verus! {

/// The hosting region a deprecated configuration may name instead of a
/// site.
#[derive(Clone, Copy, PartialEq, Eq, Structural, Debug)]
pub enum Region {
    Us,
    Eu,
}

/// The default API site.
pub fn default_site() -> (r: String)
    ensures
        r@ == "datadoghq.com"@,
{
    String::from_str("datadoghq.com")
}

/// The version tag this library reports in agent endpoints.
pub fn version_tag() -> (r: String)
    ensures
        r@ == "0-1-0"@,
{
    String::from_str("0-1-0")
}

/// The configuration of the events sink.
#[derive(Debug)]
pub struct DatadogEventsConfig {
    pub endpoint: Option<String>,
    pub site: String,
    pub default_api_key: String,
}

impl DatadogEventsConfig {
    /// The example configuration shown to users.
    pub fn generate_config() -> (c: DatadogEventsConfig)
        ensures
            c.endpoint is None,
            c.site@ == "datadoghq.com"@,
            c.default_api_key@ == "${DATADOG_API_KEY_ENV_VAR}"@,
    {
        DatadogEventsConfig {
            endpoint: None,
            site: default_site(),
            default_api_key: String::from_str("${DATADOG_API_KEY_ENV_VAR}"),
        }
    }

    /// The base URI of the API: the configured endpoint where one is
    /// given, else the site under the api domain.
    pub fn get_api_endpoint(&self) -> (r: String)
        ensures
            match &self.endpoint {
                Some(e) => r@ == e@,
                None => r@ == "https://api."@ + self.site@,
            },
    {
        match &self.endpoint {
            Some(e) => e.clone(),
            None => String::from_str("https://api.").concat(self.site.as_str()),
        }
    }

    /// The URI events are posted to.
    pub fn get_uri(&self) -> (r: String)
        ensures
            match &self.endpoint {
                Some(e) => r@ == e@ + "/api/v1/events"@,
                None => r@ == ("https://api."@ + self.site@) + "/api/v1/events"@,
            },
    {
        self.get_api_endpoint().concat("/api/v1/events")
    }
}

/// Why building a logs request failed.
#[derive(Clone, PartialEq, Eq, Debug)]
pub enum RequestBuildError {
    /// The encoded payload is greater than the endpoint's limit.
    PayloadTooBig,
    /// Writing the payload failed with the given message.
    Io { error: String },
}

impl RequestBuildError {
    /// A short human-readable description of the failure.
    pub fn message(&self) -> (r: String)
        ensures
            self is PayloadTooBig ==> r@ == "Encoded payload is greater than the max limit."@,
    {
        match self {
            RequestBuildError::PayloadTooBig => {
                String::from_str("Encoded payload is greater than the max limit.")
            },
            RequestBuildError::Io { error } => {
                String::from_str("Failed to build payload with error: ").concat(error.as_str())
            },
        }
    }
}

/// The metric endpoints of the agent API.
#[derive(Clone, Copy, PartialEq, Eq, Structural, Debug)]
pub enum DatadogMetricsEndpoint {
    Series,
    Sketches,
}

impl DatadogMetricsEndpoint {
    /// The content type of the payloads the endpoint takes.
    pub fn content_type(&self) -> (r: String)
        ensures
            self is Series ==> r@ == "application/json"@,
            self is Sketches ==> r@ == "application/x-protobuf"@,
    {
        match self {
            DatadogMetricsEndpoint::Series => String::from_str("application/json"),
            DatadogMetricsEndpoint::Sketches => String::from_str("application/x-protobuf"),
        }
    }
}

/// The checked URI of each metric endpoint.
#[derive(Debug)]
pub struct DatadogMetricsEndpointConfiguration {
    series_endpoint: String,
    sketches_endpoint: String,
}

impl DatadogMetricsEndpointConfiguration {
    pub closed spec fn series_view(&self) -> Seq<char> {
        self.series_endpoint@
    }

    pub closed spec fn sketches_view(&self) -> Seq<char> {
        self.sketches_endpoint@
    }

    /// Wrap the two endpoint URIs.
    pub fn new(series_endpoint: String, sketches_endpoint: String) -> (r:
        DatadogMetricsEndpointConfiguration)
        ensures
            r.series_view() == series_endpoint@,
            r.sketches_view() == sketches_endpoint@,
    {
        DatadogMetricsEndpointConfiguration { series_endpoint, sketches_endpoint }
    }

    /// The URI of the given endpoint.
    pub fn get_uri_for_endpoint(&self, endpoint: DatadogMetricsEndpoint) -> (r: String)
        ensures
            endpoint is Series ==> r@ == self.series_view(),
            endpoint is Sketches ==> r@ == self.sketches_view(),
    {
        match endpoint {
            DatadogMetricsEndpoint::Series => self.series_endpoint.clone(),
            DatadogMetricsEndpoint::Sketches => self.sketches_endpoint.clone(),
        }
    }
}

/// The configuration of the metrics sink.
#[derive(Debug)]
pub struct DatadogMetricsConfig {
    pub default_namespace: Option<String>,
    pub endpoint: Option<String>,
    pub region: Option<Region>,
    pub site: Option<String>,
    pub api_key: String,
}

impl Default for DatadogMetricsConfig {
    /// An empty configuration against the default site.
    fn default() -> (c: DatadogMetricsConfig)
        ensures
            c.default_namespace is None,
            c.endpoint is None,
            c.region is None,
            c.site is None,
            c.api_key@ == Seq::<char>::empty(),
    {
        DatadogMetricsConfig {
            default_namespace: None,
            endpoint: None,
            region: None,
            site: None,
            api_key: String::new(),
        }
    }
}

/// The site a configuration points at: the configured site, else the
/// domain of the configured region, else the default US domain.
pub open spec fn spec_site(site: Option<Seq<char>>, region: Option<Region>) -> Seq<char> {
    match site {
        Some(s) => s,
        None => match region {
            Some(Region::Eu) => "datadoghq.eu"@,
            _ => "datadoghq.com"@,
        },
    }
}

impl DatadogMetricsConfig {
    /// An otherwise default configuration with the given API key.
    pub fn from_api_key(api_key: &str) -> (c: DatadogMetricsConfig)
        ensures
            c.api_key@ == api_key@,
            c.default_namespace is None,
            c.endpoint is None,
            c.region is None,
            c.site is None,
    {
        DatadogMetricsConfig {
            default_namespace: None,
            endpoint: None,
            region: None,
            site: None,
            api_key: api_key.to_owned(),
        }
    }

    pub closed spec fn site_view(&self) -> Option<Seq<char>> {
        match self.site {
            Some(ref s) => Some(s@),
            None => None,
        }
    }

    /// The base domain for any call.
    pub fn get_site(&self) -> (r: String)
        ensures
            r@ == spec_site(self.site_view(), self.region),
    {
        match &self.site {
            Some(s) => s.clone(),
            None => match self.region {
                Some(Region::Eu) => String::from_str("datadoghq.eu"),
                _ => String::from_str("datadoghq.com"),
            },
        }
    }

    /// The base URI of the agent API: the configured endpoint where one
    /// is given, else a version-tagged agent domain under the site.
    pub fn get_base_agent_endpoint(&self) -> (r: String)
        ensures
            match &self.endpoint {
                Some(e) => r@ == e@,
                None => r@ == (("https://"@ + "0-1-0"@) + "-vector.agent."@) + spec_site(
                    self.site_view(),
                    self.region,
                ),
            },
    {
        match &self.endpoint {
            Some(e) => e.clone(),
            None => {
                let tagged = String::from_str("https://").concat(version_tag().as_str());
                tagged.concat("-vector.agent.").concat(self.get_site().as_str())
            },
        }
    }

    /// The base URI of the API.
    pub fn get_api_endpoint(&self) -> (r: String)
        ensures
            match &self.endpoint {
                Some(e) => r@ == e@,
                None => r@ == "https://api."@ + spec_site(self.site_view(), self.region),
            },
    {
        match &self.endpoint {
            Some(e) => e.clone(),
            None => String::from_str("https://api.").concat(self.get_site().as_str()),
        }
    }

    /// The endpoint configuration for the series and sketches APIs, or
    /// the unparsable URI text where one of the two does not parse.
    pub fn generate_metrics_endpoint_configuration(&self) -> (r: Result<
        DatadogMetricsEndpointConfiguration,
        String,
    >)
        ensures
            r matches Ok(c) ==> spec_uri_ok(c.series_view()) && spec_uri_ok(c.sketches_view()),
            r matches Err(bad) ==> !spec_uri_ok(bad@),
    {
        let base = self.get_base_agent_endpoint();
        let series = match build_uri(base.as_str(), "/api/v1/series") {
            Ok(s) => s,
            Err(e) => {
                return Err(e);
            },
        };
        let sketches = match build_uri(base.as_str(), "/api/beta/sketches") {
            Ok(s) => s,
            Err(e) => {
                return Err(e);
            },
        };
        Ok(DatadogMetricsEndpointConfiguration::new(series, sketches))
    }
}

/// Join a host and an endpoint path into the URI a request would use.
/// The text comes back only where it parses as a URI; the unparsable
/// text is the error.
pub fn build_uri(host: &str, endpoint: &str) -> (r: Result<String, String>)
    ensures
        match r {
            Ok(uri) => uri@ == host@ + endpoint@ && spec_uri_ok(uri@),
            Err(bad) => bad@ == host@ + endpoint@ && !spec_uri_ok(bad@),
        },
{
    let text = host.to_owned().concat(endpoint);
    if uri_text_ok(text.as_str()) {
        Ok(text)
    } else {
        Err(text)
    }
}

} // verus!
