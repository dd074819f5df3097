//! The contract between a host application and its plugins.
//!
//! A plugin is a separately built unit that implements [`Plugin`]: it has a
//! name, advertises the commands it handles, executes them, and may customise
//! the help shown for them. The host keeps its plugins in a [`Registry`], which
//! maps every advertised command to the plugin that owns it and routes each
//! invocation to that plugin.
//!
//! Every function in this crate is verified with Verus against the contract
//! written in its signature.

pub mod error;
pub mod help;
pub mod ownership;
pub mod plugin;
pub mod registry;

pub use error::PluginError;
pub use help::{render_help, HelpMode};
pub use plugin::Plugin;
pub use registry::Registry;
