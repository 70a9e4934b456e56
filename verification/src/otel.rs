//! Settings for OpenTelemetry support.

use vstd::prelude::*;

verus! {

/// Configuration values for OpenTelemetry.
#[derive(Clone, Debug)]
pub struct OtelConfig {
    /// The traces exporter, as `OTEL_TRACES_EXPORTER` names it.
    pub traces_exporter: Option<String>,
    /// The endpoint of the OTLP exporter, as `OTEL_EXPORTER_OTLP_ENDPOINT`
    /// names it.
    pub exporter_otlp_endpoint: Option<String>,
}

impl Default for OtelConfig {
    fn default() -> (config: Self)
        ensures
            config.traces_exporter is None,
            config.exporter_otlp_endpoint is None,
    {
        OtelConfig { traces_exporter: None, exporter_otlp_endpoint: None }
    }
}

} // verus!
