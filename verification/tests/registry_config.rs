use shogun::Cli;
use shogun::ConfigService;
use shogun::EnvironmentConfig;
use shogun::Error;
use shogun::GetOutcome;
use shogun::LogLevel;
use shogun::ServiceProvider;
use shogun::TaskConfig;
use shogun::TaskConfigs;
use shogun::TelemetryParams;

const CONFIG_KEY: u64 = 1;
const PRICE_KEY: u64 = 2;

#[test]
fn resolve_runs_factory_exactly_once() {
    let mut registry: ServiceProvider<u32> = ServiceProvider::new();
    assert!(!registry.has_service(CONFIG_KEY));

    // The first resolver claims the slot and is told to run the factory.
    assert_eq!(registry.get_service(CONFIG_KEY), GetOutcome::MustInit);
    // A concurrent resolver arriving before the factory finished waits; it
    // is never told to run the factory a second time.
    assert_eq!(registry.get_service(CONFIG_KEY), GetOutcome::Pending);
    assert!(registry.is_initializing(CONFIG_KEY));
    assert!(!registry.has_service(CONFIG_KEY));

    registry.finish_init(CONFIG_KEY, Some(7));
    assert!(registry.has_service(CONFIG_KEY));

    // Every later resolver receives the same cached instance.
    assert_eq!(registry.get_service(CONFIG_KEY), GetOutcome::Cached);
    assert_eq!(*registry.get_service_unchecked(CONFIG_KEY), 7);
    assert_eq!(registry.get_service(CONFIG_KEY), GetOutcome::Cached);
    assert_eq!(*registry.get_service_unchecked(CONFIG_KEY), 7);
}

#[test]
fn factory_failure_poisons_nothing() {
    let mut registry: ServiceProvider<u32> = ServiceProvider::new();
    registry.add_service(PRICE_KEY, 99);

    assert_eq!(registry.get_service(CONFIG_KEY), GetOutcome::MustInit);
    // The factory fails: the failure surfaces to that resolve only.
    registry.finish_init(CONFIG_KEY, None);
    assert!(!registry.has_service(CONFIG_KEY));

    // The other key is untouched, and a retry may run the factory again.
    assert_eq!(*registry.get_service_unchecked(PRICE_KEY), 99);
    assert_eq!(registry.get_service(CONFIG_KEY), GetOutcome::MustInit);
    registry.finish_init(CONFIG_KEY, Some(5));
    assert_eq!(*registry.get_service_unchecked(CONFIG_KEY), 5);
}

#[test]
fn add_and_remove_service() {
    let mut registry: ServiceProvider<String> = ServiceProvider::new();
    registry.add_service(CONFIG_KEY, String::from("first"));
    registry.add_service(CONFIG_KEY, String::from("second"));
    assert_eq!(registry.get_service_unchecked(CONFIG_KEY), "second");

    registry.remove_service(CONFIG_KEY);
    assert!(!registry.has_service(CONFIG_KEY));
    // Removing an absent service is a no-op.
    registry.remove_service(CONFIG_KEY);
    assert!(!registry.has_service(CONFIG_KEY));
}

#[test]
fn config_defaults_and_values() {
    let config = ConfigService::new(None, None).unwrap();
    assert_eq!(config.fetch_interval(), 0);
    let inner = config.inner();
    assert_eq!(inner.tasks.fetcher.interval, 0);
    assert_eq!(inner.environment.name, "");

    let config = ConfigService::new(
        Some(TaskConfigs {
            fetcher: TaskConfig { interval: 30 },
        }),
        Some(EnvironmentConfig {
            name: String::from("stage"),
            otlp_grpc_endpoint: String::from("http://collector:4317"),
            otlp_http_endpoint: String::from("http://collector:4318"),
        }),
    )
    .unwrap();
    assert_eq!(config.fetch_interval(), 30);
    let inner = config.inner();
    assert_eq!(inner.environment.name, "stage");
    assert_eq!(inner.environment.otlp_grpc_endpoint, "http://collector:4317");
    assert_eq!(inner.environment.otlp_http_endpoint, "http://collector:4318");
}

#[test]
fn telemetry_params_from_config() {
    let config = ConfigService::new(
        Some(TaskConfigs {
            fetcher: TaskConfig { interval: 30 },
        }),
        Some(EnvironmentConfig {
            name: String::from("stage"),
            otlp_grpc_endpoint: String::from("grpc-endpoint"),
            otlp_http_endpoint: String::from("http-endpoint"),
        }),
    )
    .unwrap();

    let params = TelemetryParams::new(&config, "shogun", Some(LogLevel::Debug));
    assert_eq!(params.service_name, "shogun");
    assert_eq!(params.service_namespace, "stage");
    assert_eq!(params.log_level, LogLevel::Debug);
    assert_eq!(params.grpc_endpoint, "grpc-endpoint");
    assert_eq!(params.http_endpoint, "http-endpoint");

    // With no chosen level, Info is the default.
    let params = TelemetryParams::new(&config, "shogun", None);
    assert_eq!(params.log_level, LogLevel::Info);
}

#[test]
fn cli_defaults() {
    let cli = Cli::new(None, None);
    assert_eq!(cli.config, "config.toml");
    assert_eq!(cli.log_level, LogLevel::Info);

    let cli = Cli::new(Some(String::from("other.toml")), Some(LogLevel::Warn));
    assert_eq!(cli.config, "other.toml");
    assert_eq!(cli.log_level, LogLevel::Warn);

    assert_eq!(LogLevel::Trace.name(), "trace");
    assert_eq!(LogLevel::Error.name(), "error");
}

#[test]
fn error_messages() {
    assert_eq!(Error::Unknown.message(), "Unknown error");
    assert_eq!(Error::Serialization.message(), "Failed to serialize");
    assert_eq!(Error::Deserialization.message(), "Failed to deserialize");
    assert_eq!(Error::InvalidConfig.message(), "Invalid config");
    assert_eq!(Error::FetchError.message(), "Failed to fetch");
}
