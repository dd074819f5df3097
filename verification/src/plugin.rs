//! The interface that every plugin implements.

use vstd::prelude::*;
use crate::help::HelpMode;

verus! {

/// `anyhow::Error`, in which a plugin reports a failure of its own making: an
/// error of any kind, with a message to show.
///
/// Verus is told that the type exists and nothing of its values. The host
/// carries such an error from the plugin to its caller and never looks inside.
#[verifier::external_type_specification]
#[verifier::external_body]
pub struct ExError(anyhow::Error);

/// The names in a list of commands, as a plugin advertises it.
pub open spec fn names_of(commands: Seq<&'static str>) -> Seq<Seq<char>> {
    commands.map_values(|command: &'static str| command@)
}

/// What a plugin offers to the host.
///
/// The host calls a plugin only through the four methods. To the host a
/// plugin has no state: it may call them in any order and any number of times.
///
/// The two specification functions say what a plugin's answers can be. As they
/// stand they allow every answer, so a plugin that is not verified need not
/// know of them. A verified plugin may define them more narrowly, and then has
/// to prove that its methods keep to them.
pub trait Plugin: 'static {
    /// Whether `names` is a list that [`Plugin::commands`] may return.
    open spec fn advertises(&self, names: Seq<Seq<char>>) -> bool {
        true
    }

    /// Whether [`Plugin::execute`] may return `outcome` for `command` and `args`.
    open spec fn may_return(
        &self,
        command: Seq<char>,
        args: Seq<Seq<char>>,
        outcome: Result<(), anyhow::Error>,
    ) -> bool {
        true
    }

    /// The name of the plugin, for display and diagnostics. It is not empty
    /// and is the same at every call.
    fn name(&self) -> (name: &'static str)
        ensures
            name@.len() > 0,
    ;

    /// Every command that this plugin handles, the same list at every call.
    /// No name in it is empty. A plugin with no commands is legal, and cannot
    /// be reached by dispatch.
    fn commands(&self) -> (names: Vec<&'static str>)
        ensures
            self.advertises(names_of(names@)),
            forall|i: int| 0 <= i < names@.len() ==> (#[trigger] names@[i])@.len() > 0,
    ;

    /// Performs `command` with the arguments `args`, which the plugin parses
    /// itself. A command that is in no list that the plugin may advertise must
    /// fail. Any other failure is the plugin's own and is reported as it is.
    fn execute(&self, command: &str, args: &[String]) -> (outcome: Result<(), anyhow::Error>)
        ensures
            self.may_return(command@, args.deep_view(), outcome),
            (forall|names: Seq<Seq<char>>| #[trigger]
                self.advertises(names) ==> !names.contains(command@)) ==> outcome is Err,
    ;

    /// The plugin's own help for a request with the arguments `_args`: a mode
    /// and a text, or `None` to leave help to the host. It changes nothing.
    /// Unless a plugin says otherwise, it is `None`.
    fn get_help_output(&self, _args: &[String]) -> (custom: Option<(HelpMode, String)>)
        default_ensures
            custom is None,
    {
        None
    }
}

} // verus!
