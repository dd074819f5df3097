//! The failures of loading and dispatch.

use vstd::prelude::*;

verus! {

/// What can go wrong between the host and its plugins, apart from a plugin's
/// own failures while it executes a command.
///
/// The set is closed: callers may match on it, and a variant never changes its
/// meaning. Each value carries a detail for the person reading the message.
#[derive(Debug)]
pub enum PluginError {
    /// A plugin module could not be opened, or its factory could not be found
    /// or gave no instance. Only that plugin is lost: the host goes on without it.
    LoadError(String),
    /// No plugin owns the command that was asked for. The detail is the command.
    CommandNotFound(String),
}

impl PluginError {
    /// The message of this error: the fixed text of its kind, then the detail.
    pub open spec fn rendered(&self) -> Seq<char> {
        match self {
            PluginError::LoadError(detail) => "Failed to load plugin: "@ + detail@,
            PluginError::CommandNotFound(detail) => "Command not found: "@ + detail@,
        }
    }

    /// Renders the message of this error.
    pub fn to_string(&self) -> (text: String)
        ensures
            text@ == self.rendered(),
    {
        match self {
            PluginError::LoadError(detail) => {
                String::from_str("Failed to load plugin: ").concat(detail.as_str())
            },
            PluginError::CommandNotFound(detail) => {
                String::from_str("Command not found: ").concat(detail.as_str())
            },
        }
    }
}

} // verus!
