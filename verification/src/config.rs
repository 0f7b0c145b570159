use vstd::prelude::*;

use std::sync::Arc;

use crate::error::Error;

verus! {

/// Settings of one periodic task: the fetch interval in seconds.
#[derive(Clone, Copy, Debug, PartialEq, Eq, Structural)]
pub struct TaskConfig {
    pub interval: u64,
}

impl Default for TaskConfig {
    fn default() -> (r: TaskConfig)
        ensures
            r.interval == 0,
    {
        TaskConfig { interval: 0 }
    }
}

/// The per-task settings the core reads from configuration.
#[derive(Clone, Copy, Debug, PartialEq, Eq, Structural)]
pub struct TaskConfigs {
    pub fetcher: TaskConfig,
}

impl Default for TaskConfigs {
    fn default() -> (r: TaskConfigs)
        ensures
            r.fetcher.interval == 0,
    {
        TaskConfigs { fetcher: TaskConfig { interval: 0 } }
    }
}

/// Environment metadata handed on to the telemetry collaborator.
#[derive(Debug)]
pub struct EnvironmentConfig {
    pub name: String,
    pub otlp_grpc_endpoint: String,
    pub otlp_http_endpoint: String,
}

impl Clone for EnvironmentConfig {
    fn clone(&self) -> (r: Self)
        ensures
            r == *self,
    {
        EnvironmentConfig {
            name: self.name.clone(),
            otlp_grpc_endpoint: self.otlp_grpc_endpoint.clone(),
            otlp_http_endpoint: self.otlp_http_endpoint.clone(),
        }
    }
}

impl Default for EnvironmentConfig {
    fn default() -> (r: EnvironmentConfig)
        ensures
            r.name@ == Seq::<char>::empty(),
            r.otlp_grpc_endpoint@ == Seq::<char>::empty(),
            r.otlp_http_endpoint@ == Seq::<char>::empty(),
    {
        EnvironmentConfig {
            name: String::new(),
            otlp_grpc_endpoint: String::new(),
            otlp_http_endpoint: String::new(),
        }
    }
}

/// The configuration values the core depends on.
#[derive(Debug)]
pub struct ConfigServiceInner {
    pub tasks: TaskConfigs,
    pub environment: EnvironmentConfig,
}

impl Clone for ConfigServiceInner {
    fn clone(&self) -> (r: Self)
        ensures
            r == *self,
    {
        ConfigServiceInner { tasks: self.tasks, environment: self.environment.clone() }
    }
}

/// The configuration provider: it supplies the poll interval and the
/// environment metadata, and nothing in the core depends on where those
/// values were loaded from.
#[derive(Debug)]
pub struct ConfigService {
    inner: ConfigServiceInner,
}

impl Clone for ConfigService {
    fn clone(&self) -> (r: Self)
        ensures
            r == *self,
    {
        ConfigService { inner: self.inner.clone() }
    }
}

impl ConfigService {
    pub closed spec fn spec_inner(self) -> ConfigServiceInner {
        self.inner
    }

    pub open spec fn spec_tasks(self) -> TaskConfigs {
        self.spec_inner().tasks
    }

    pub open spec fn spec_environment(self) -> EnvironmentConfig {
        self.spec_inner().environment
    }

    /// Builds a configuration from whatever values were supplied, filling
    /// the rest with defaults. Never fails.
    pub fn new(tasks: Option<TaskConfigs>, environment: Option<EnvironmentConfig>) -> (r: Result<
        ConfigService,
        Error,
    >)
        ensures
            r matches Ok(c) ==> {
                &&& c.spec_tasks() == (match tasks {
                    Some(t) => t,
                    None => TaskConfigs { fetcher: TaskConfig { interval: 0 } },
                })
                &&& (match environment {
                    Some(e) => c.spec_environment() == e,
                    None => c.spec_environment().name@ == Seq::<char>::empty()
                        && c.spec_environment().otlp_grpc_endpoint@ == Seq::<char>::empty()
                        && c.spec_environment().otlp_http_endpoint@ == Seq::<char>::empty(),
                })
            },
            r is Ok,
    {
        let tasks = match tasks {
            Some(t) => t,
            None => TaskConfigs::default(),
        };
        let environment = match environment {
            Some(e) => e,
            None => EnvironmentConfig::default(),
        };
        Ok(ConfigService { inner: ConfigServiceInner { tasks, environment } })
    }

    /// A shared handle on the configuration values.
    pub fn inner(&self) -> (r: Arc<ConfigServiceInner>)
        ensures
            *r == self.spec_inner(),
    {
        Arc::new(self.inner.clone())
    }

    /// The environment metadata.
    pub fn environment(&self) -> (r: &EnvironmentConfig)
        ensures
            *r == self.spec_environment(),
    {
        &self.inner.environment
    }

    /// The configured fetch interval in seconds.
    pub fn fetch_interval(&self) -> (r: u64)
        ensures
            r == self.spec_tasks().fetcher.interval,
    {
        self.inner.tasks.fetcher.interval
    }
}

} // verus!
