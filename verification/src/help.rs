//! How a plugin's help text combines with the help that the host writes.

use vstd::prelude::*;

verus! {

/// What the host does with the help text that a plugin hands it.
#[derive(Debug, Clone, Copy, PartialEq, Eq, Structural)]
pub enum HelpMode {
    /// The plugin's text replaces the host's help.
    Override,
    /// The plugin's text comes first, the host's help after it.
    Prepend,
    /// The plugin does not customise help: the host's help is shown alone.
    Unchanged,
}

/// The help that is shown for a plugin's answer `custom` where the host itself
/// would show `system`.
pub open spec fn composed_help(custom: Option<(HelpMode, String)>, system: Seq<char>) -> Seq<char> {
    match custom {
        Some((HelpMode::Override, text)) => text@,
        Some((HelpMode::Prepend, text)) => text@ + system,
        Some((HelpMode::Unchanged, _)) => system,
        None => system,
    }
}

/// Composes the help to show from a plugin's answer to a help request and the
/// host's own help text.
///
/// No answer, or an answer in mode [`HelpMode::Unchanged`], shows the host's
/// help alone; [`HelpMode::Override`] shows the plugin's text alone;
/// [`HelpMode::Prepend`] shows the plugin's text and then the host's help,
/// with nothing put between them.
pub fn render_help(custom: Option<(HelpMode, String)>, system_help: &str) -> (shown: String)
    ensures
        shown@ == composed_help(custom, system_help@),
{
    match custom {
        Some((HelpMode::Override, text)) => text,
        Some((HelpMode::Prepend, text)) => text.concat(system_help),
        Some((HelpMode::Unchanged, _)) => system_help.to_owned(),
        None => system_help.to_owned(),
    }
}

} // verus!
