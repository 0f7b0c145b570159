use vstd::prelude::*;
use vstd::string::*;

use crate::cli::LogLevel;
use crate::config::ConfigService;

verus! {

/// What the telemetry collaborator needs to set itself up: the service's
/// identity, the log level, and the export endpoints from configuration.
/// The core hands these over and depends on no specific exporter.
#[derive(Debug)]
pub struct TelemetryParams {
    pub service_name: String,
    pub service_namespace: String,
    pub log_level: LogLevel,
    pub grpc_endpoint: String,
    pub http_endpoint: String,
}

impl Clone for TelemetryParams {
    fn clone(&self) -> (r: Self)
        ensures
            r == *self,
    {
        TelemetryParams {
            service_name: self.service_name.clone(),
            service_namespace: self.service_namespace.clone(),
            log_level: self.log_level,
            grpc_endpoint: self.grpc_endpoint.clone(),
            http_endpoint: self.http_endpoint.clone(),
        }
    }
}

impl TelemetryParams {
    /// Gathers the telemetry parameters: the given service name, the
    /// environment's name as namespace, the endpoints from configuration,
    /// and the `Info` level where none was chosen.
    pub fn new(config_service: &ConfigService, service_name: &str, log_level: Option<LogLevel>) -> (r: TelemetryParams)
        ensures
            r.service_name@ == service_name@,
            r.service_namespace == config_service.spec_environment().name,
            r.grpc_endpoint == config_service.spec_environment().otlp_grpc_endpoint,
            r.http_endpoint == config_service.spec_environment().otlp_http_endpoint,
            r.log_level == (match log_level {
                Some(l) => l,
                None => LogLevel::Info,
            }),
    {
        let env = config_service.environment();
        TelemetryParams {
            service_name: String::from_str(service_name),
            service_namespace: env.name.clone(),
            log_level: match log_level {
                Some(l) => l,
                None => LogLevel::Info,
            },
            grpc_endpoint: env.otlp_grpc_endpoint.clone(),
            http_endpoint: env.otlp_http_endpoint.clone(),
        }
    }
}

} // verus!
