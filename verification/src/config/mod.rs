pub mod env_config;
pub mod runtime_config;
pub mod validate_config;
pub mod defaults;
pub mod workspace;
