//! Overrides, shared options and their resolution to a [`Configuration`].

pub mod builder;
pub mod configuration;
pub mod global;
pub mod key_map;
pub mod keys;
pub mod laws;
pub mod resolve_config;

pub use builder::ConfigurationBuilder;
pub use configuration::Configuration;
pub use global::{GlobalConfiguration, NewLineKind, RecommendedGlobalConfiguration};
pub use key_map::{ConfigKeyMap, ConfigKeyValue};
pub use resolve_config::{resolve_config, ConfigurationDiagnostic, ResolveConfigurationResult};
