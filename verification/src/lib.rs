//! Price-distribution library: a typed service registry with single-flight
//! resolution, a polling price backend that maintains an asset table and
//! publishes price events through a lossy broadcast channel, and a
//! distributor that fans several backends into one subscription surface.
//!
//! The asynchronous plumbing (timers, HTTP, channel wiring) lives outside
//! this crate; here stand the data structures and the decision logic, each
//! with a proved contract.

pub mod asset;
pub mod channel;
pub mod cli;
pub mod config;
pub mod distributor;
pub mod error;
pub mod fetch;
pub mod ident;
pub mod poll;
pub mod provider;
pub mod registry;
pub mod table;
pub mod telemetry;

pub use asset::Asset;
pub use asset::AssetPriceEvent;
pub use asset::AssetPriceProvider;
pub use asset::Chain;
pub use asset::Price;
pub use channel::Broadcaster;
pub use channel::Cursor;
pub use channel::RecvResult;
pub use cli::Cli;
pub use cli::LogLevel;
pub use config::ConfigService;
pub use config::ConfigServiceInner;
pub use config::EnvironmentConfig;
pub use config::TaskConfig;
pub use config::TaskConfigs;
pub use distributor::PriceService;
pub use distributor::Subscription;
pub use error::Error;
pub use fetch::FetchWarning;
pub use fetch::PriceEntry;
pub use poll::FetchOutcome;
pub use poll::PollState;
pub use poll::TickAction;
pub use provider::DefiLlamaProvider;
pub use registry::GetOutcome;
pub use registry::ServiceProvider;
pub use registry::ServiceSlot;
pub use table::AssetTable;
pub use telemetry::TelemetryParams;
