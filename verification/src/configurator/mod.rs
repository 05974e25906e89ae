//! The desktop configurator: reading and writing the assistant's configuration, the
//! usage statistics and tips of the monitor tab, and the wizard's decisions.

pub mod stats;
pub mod analyzer;
pub mod claude_config;
pub mod commands;
pub mod installer;
pub mod system_proxy;
pub mod config_doc;
