//! The host's table of commands and of the plugins that own them.

use vstd::prelude::*;
use crate::error::PluginError;
use crate::ownership::{claimed, claimed_in_turn, lemma_next_claim};
use crate::plugin::{names_of, Plugin};

verus! {

/// A plugin as the registry holds it.
///
/// The type of the plugin is a parameter so that a boxed plugin moves in as
/// the value that it is. Where a boxed trait object is handed to something
/// that names its type, the compiler records a conversion, and Verus then no
/// longer knows it for the same value. That is also why a plugin is put into
/// a `Held` in a statement of its own, before it is handed on.
struct Held<P> {
    plugin: P,
}

/// One line of the table: a command, and the place of the plugin that claimed it.
struct Entry {
    command: String,
    slot: usize,
}

/// The plugins that the host has loaded, in the order in which they were
/// registered, and for each command the plugin that owns it.
///
/// Where two plugins advertise the same command, the one that was registered
/// first owns it: the later claim gives the later plugin nothing. A registry is
/// built once, by [`Registry::load`] or by registering plugin after plugin,
/// and then only read: dispatch changes nothing in it.
pub struct Registry {
    slots: Vec<Held<Box<dyn Plugin>>>,
    table: Vec<Entry>,
}

/// How many of `attempts` to load a plugin gave one.
pub open spec fn loaded(attempts: Seq<Result<Box<dyn Plugin>, PluginError>>) -> nat
    decreases attempts.len(),
{
    if attempts.len() == 0 {
        0
    } else if attempts.last() is Ok {
        loaded(attempts.drop_last()) + 1
    } else {
        loaded(attempts.drop_last())
    }
}

/// The errors of those of `attempts` to load a plugin that failed, in their order.
pub open spec fn failed(attempts: Seq<Result<Box<dyn Plugin>, PluginError>>) -> Seq<PluginError>
    decreases attempts.len(),
{
    if attempts.len() == 0 {
        Seq::empty()
    } else {
        match attempts.last() {
            Ok(_) => failed(attempts.drop_last()),
            Err(error) => failed(attempts.drop_last()).push(error),
        }
    }
}

/// No attempt is lost: each of `attempts` either gave a plugin or left its error.
pub proof fn lemma_every_attempt_counts(attempts: Seq<Result<Box<dyn Plugin>, PluginError>>)
    ensures
        loaded(attempts) + failed(attempts).len() == attempts.len(),
    decreases attempts.len(),
{
    if attempts.len() > 0 {
        lemma_every_attempt_counts(attempts.drop_last());
    }
}

/// The plugins keep the order of the attempts that gave them, each in a place
/// of its own: an attempt that gave a plugin is counted from the next attempt
/// on, so the plugin of a later attempt stands in a later place.
pub proof fn lemma_loaded_grows(attempts: Seq<Result<Box<dyn Plugin>, PluginError>>, i: int, n: int)
    requires
        0 <= i < n <= attempts.len(),
        attempts[i] is Ok,
    ensures
        loaded(attempts.take(i)) < loaded(attempts.take(n)),
    decreases n,
{
    assert(attempts.take(n).drop_last() =~= attempts.take(n - 1));
    assert(attempts.take(n).last() == attempts[n - 1]);
    if i < n - 1 {
        lemma_loaded_grows(attempts, i, n - 1);
    }
}

/// The place that the first line for `command` in `table` names, if there is one.
spec fn owner_in(table: Seq<Entry>, command: Seq<char>) -> Option<int>
    decreases table.len(),
{
    if table.len() == 0 {
        None
    } else {
        let earlier = owner_in(table.drop_last(), command);
        if earlier is Some {
            earlier
        } else if table.last().command@ == command {
            Some(table.last().slot as int)
        } else {
            None
        }
    }
}

/// The owner of `command` once `slot` has claimed `names`, where it was
/// `earlier` before.
spec fn claim_in(earlier: Option<int>, names: Seq<Seq<char>>, slot: int, command: Seq<char>) -> Option<
    int,
> {
    if earlier is Some {
        earlier
    } else if names.contains(command) {
        Some(slot)
    } else {
        None
    }
}

/// A list with one more item holds what it held before, and that item.
proof fn lemma_contains_push(names: Seq<Seq<char>>, last: Seq<char>, command: Seq<char>)
    ensures
        names.push(last).contains(command) <==> names.contains(command) || last == command,
{
    let longer = names.push(last);
    if names.contains(command) {
        let j = choose|j: int| 0 <= j < names.len() && names[j] == command;
        assert(longer[j] == command);
    }
    if last == command {
        assert(longer[names.len() as int] == command);
    }
    if longer.contains(command) {
        let j = choose|j: int| 0 <= j < longer.len() && longer[j] == command;
        if j < names.len() {
            assert(names[j] == command);
        }
    }
}

/// What a longer table says of a command that a shorter one already has.
proof fn lemma_owner_in_prefix(table: Seq<Entry>, k: int, command: Seq<char>)
    requires
        0 <= k <= table.len(),
        owner_in(table.take(k), command) is Some,
    ensures
        owner_in(table, command) == owner_in(table.take(k), command),
    decreases table.len(),
{
    if k < table.len() {
        assert(table.drop_last().take(k) =~= table.take(k));
        lemma_owner_in_prefix(table.drop_last(), k, command);
    } else {
        assert(table.take(k) =~= table);
    }
}

impl Registry {
    /// The number of plugins.
    pub closed spec fn count(&self) -> nat {
        self.slots@.len()
    }

    /// The plugin in place `slot`, where `0 <= slot < self.count()`. The
    /// places are numbered in the order in which the plugins were registered.
    pub closed spec fn plugin(&self, slot: int) -> &Box<dyn Plugin> {
        &self.slots@[slot].plugin
    }

    /// For each command that has an owner, the place of the plugin that owns it.
    pub closed spec fn owners(&self) -> Map<Seq<char>, int> {
        Map::new(
            |command: Seq<char>| owner_in(self.table@, command) is Some,
            |command: Seq<char>| owner_in(self.table@, command).unwrap(),
        )
    }

    /// What holds of every registry that this module hands out, and what its
    /// methods ask for: the owner of a command is the place of one of the
    /// plugins.
    pub open spec fn wf(&self) -> bool {
        forall|command: Seq<char>|
            self.owners().contains_key(command) ==> 0 <= #[trigger] self.owners()[command]
                < self.count()
    }

    /// A registry without plugins, in which no command has an owner.
    pub fn new() -> (registry: Registry)
        ensures
            registry.wf(),
            registry.count() == 0,
            registry.owners() == Map::<Seq<char>, int>::empty(),
    {
        let registry = Registry { slots: Vec::new(), table: Vec::new() };
        assert(registry.owners() =~= Map::<Seq<char>, int>::empty());
        registry
    }

    /// The number of plugins.
    pub fn len(&self) -> (n: usize)
        ensures
            n == self.count(),
    {
        self.slots.len()
    }

    /// Puts the plugin of `held` behind the plugins that are there, with its
    /// claim to `commands`.
    fn insert(&mut self, held: Held<Box<dyn Plugin>>, commands: Vec<&'static str>)
        requires
            old(self).wf(),
        ensures
            final(self).wf(),
            final(self).count() == old(self).count() + 1,
            final(self).plugin(old(self).count() as int) == held.plugin,
            forall|slot: int|
                0 <= slot < old(self).count() ==> #[trigger] final(self).plugin(slot) == old(
                    self,
                ).plugin(slot),
            final(self).owners() == claimed(
                old(self).owners(),
                names_of(commands@),
                old(self).count() as int,
            ),
    {
        let ghost names = names_of(commands@);
        let ghost before = self.table@;
        let slot = self.slots.len();
        self.slots.push(held);
        let mut i: usize = 0;
        while i < commands.len()
            invariant
                i <= commands@.len(),
                names == names_of(commands@),
                before == old(self).table@,
                self.slots@ == old(self).slots@.push(held),
                slot == old(self).slots@.len(),
                forall|command: Seq<char>|
                    #[trigger] owner_in(self.table@, command) == claim_in(
                        owner_in(before, command),
                        names.take(i as int),
                        slot as int,
                        command,
                    ),
            decreases commands@.len() - i,
        {
            let ghost table = self.table@;
            self.table.push(Entry { command: commands[i].to_owned(), slot });
            proof {
                assert(self.table@.drop_last() =~= table);
                assert(names.take(i + 1) =~= names.take(i as int).push(names[i as int]));
                assert forall|command: Seq<char>|
                    #[trigger] owner_in(self.table@, command) == claim_in(
                        owner_in(before, command),
                        names.take(i + 1),
                        slot as int,
                        command,
                    ) by {
                    assert(owner_in(table, command) == claim_in(
                        owner_in(before, command),
                        names.take(i as int),
                        slot as int,
                        command,
                    ));
                    lemma_contains_push(names.take(i as int), names[i as int], command);
                }
            }
            i += 1;
        }
        proof {
            assert(names.take(i as int) =~= names);
            assert forall|command: Seq<char>|
                owner_in(self.table@, command) is Some <==> claimed(
                    old(self).owners(),
                    names,
                    slot as int,
                ).contains_key(command) by {
                assert(owner_in(self.table@, command) == claim_in(
                    owner_in(before, command),
                    names,
                    slot as int,
                    command,
                ));
            }
            assert(self.owners() =~= claimed(old(self).owners(), names, slot as int));
            assert forall|command: Seq<char>| self.owners().contains_key(command) implies 0
                <= #[trigger] self.owners()[command] < self.count() by {
                if old(self).owners().contains_key(command) {
                    assert(self.owners()[command] == old(self).owners()[command]);
                }
            }
        }
    }

    /// Registers `plugin` behind the plugins that are there, with a claim to
    /// `commands`, whatever the plugin itself advertises.
    ///
    /// A command that had an owner keeps it. Every other command of `commands`
    /// now belongs to `plugin`. No other command gets an owner.
    pub fn register_as(&mut self, plugin: Box<dyn Plugin>, commands: Vec<&'static str>)
        requires
            old(self).wf(),
        ensures
            final(self).wf(),
            final(self).count() == old(self).count() + 1,
            final(self).plugin(old(self).count() as int) == plugin,
            forall|slot: int|
                0 <= slot < old(self).count() ==> #[trigger] final(self).plugin(slot) == old(
                    self,
                ).plugin(slot),
            final(self).owners() == claimed(
                old(self).owners(),
                names_of(commands@),
                old(self).count() as int,
            ),
    {
        let held = Held { plugin };
        self.insert(held, commands);
    }

    /// Registers `plugin` behind the plugins that are there, with a claim to
    /// the commands that it advertises: [`Plugin::commands`] is asked once, now.
    ///
    /// A command that had an owner keeps it. Every other command of that list
    /// now belongs to `plugin`. No other command gets an owner.
    pub fn register(&mut self, plugin: Box<dyn Plugin>)
        requires
            old(self).wf(),
        ensures
            final(self).wf(),
            final(self).count() == old(self).count() + 1,
            final(self).plugin(old(self).count() as int) == plugin,
            forall|slot: int|
                0 <= slot < old(self).count() ==> #[trigger] final(self).plugin(slot) == old(
                    self,
                ).plugin(slot),
            exists|names: Seq<Seq<char>>|
                #[trigger] plugin.advertises(names) && final(self).owners() == claimed(
                    old(self).owners(),
                    names,
                    old(self).count() as int,
                ),
    {
        let commands = plugin.commands();
        let ghost names = names_of(commands@);
        let held = Held { plugin };
        self.insert(held, commands);
        assert(plugin.advertises(names) && self.owners() == claimed(
            old(self).owners(),
            names,
            old(self).count() as int,
        ));
    }

    /// Builds the registry of a host from its attempts to load plugins, in
    /// their order.
    ///
    /// A failed attempt costs the host only that plugin: its error is set
    /// aside and the others are registered, each as [`Registry::register`]
    /// does it. The errors come back beside the registry, in their order.
    pub fn load(attempts: Vec<Result<Box<dyn Plugin>, PluginError>>) -> (built: (
        Registry,
        Vec<PluginError>,
    ))
        ensures
            built.0.wf(),
            built.0.count() == loaded(attempts@),
            forall|i: int|
                0 <= i < attempts@.len() && attempts@[i] is Ok ==> built.0.plugin(
                    loaded(attempts@.take(i)) as int,
                ) == (#[trigger] attempts@[i])->Ok_0,
            exists|lists: Seq<Seq<Seq<char>>>|
                {
                    &&& lists.len() == built.0.count()
                    &&& forall|slot: int|
                        0 <= slot < lists.len() ==> built.0.plugin(slot).advertises(
                            #[trigger] lists[slot],
                        )
                    &&& built.0.owners() == #[trigger] claimed_in_turn(lists)
                },
            built.1@ == failed(attempts@),
    {
        let ghost all = attempts@;
        let ghost mut lists = Seq::<Seq<Seq<char>>>::empty();
        let mut registry = Registry::new();
        let mut failures: Vec<PluginError> = Vec::new();
        for attempt in it: attempts
            invariant
                it.seq() == all,
                registry.wf(),
                registry.count() == loaded(all.take(it.index() as int)),
                forall|i: int|
                    0 <= i < it.index() && all[i] is Ok ==> registry.plugin(
                        loaded(all.take(i)) as int,
                    ) == (#[trigger] all[i])->Ok_0,
                lists.len() == registry.count(),
                forall|slot: int|
                    0 <= slot < lists.len() ==> registry.plugin(slot).advertises(
                        #[trigger] lists[slot],
                    ),
                registry.owners() == claimed_in_turn(lists),
                failures@ == failed(all.take(it.index() as int)),
        {
            proof {
                let n = it.index() as int;
                assert(all.take(n + 1).drop_last() =~= all.take(n));
                assert(all.take(n + 1).last() == all[n]);
            }
            match attempt {
                Ok(plugin) => {
                    let commands = plugin.commands();
                    let held = Held { plugin };
                    registry.insert(held, commands);
                    proof {
                        assert forall|i: int| 0 <= i < it.index() && all[i] is Ok implies loaded(
                            all.take(i),
                        ) < loaded(all.take(it.index() as int)) by {
                            lemma_loaded_grows(all, i, it.index() as int);
                        }
                        lemma_next_claim(lists, names_of(commands@));
                        lists = lists.push(names_of(commands@));
                    }
                },
                Err(error) => {
                    failures.push(error);
                },
            }
        }
        proof {
            assert(all.take(all.len() as int) =~= all);
        }
        (registry, failures)
    }

    /// Finds the plugin that owns `command`.
    ///
    /// Fails with [`PluginError::CommandNotFound`], naming `command`, exactly
    /// when no plugin owns it.
    pub fn lookup(&self, command: &str) -> (found: Result<&Box<dyn Plugin>, PluginError>)
        requires
            self.wf(),
        ensures
            found is Ok <==> self.owners().contains_key(command@),
            found matches Ok(plugin) ==> plugin == self.plugin(self.owners()[command@]),
            found matches Err(error) ==> {
                &&& error matches PluginError::CommandNotFound(detail)
                &&& detail@ == command@
            },
    {
        let wanted = command.to_owned();
        let mut k: usize = 0;
        while k < self.table.len()
            invariant
                k <= self.table@.len(),
                wanted@ == command@,
                owner_in(self.table@.take(k as int), command@) is None,
                self.wf(),
            decreases self.table@.len() - k,
        {
            let entry = &self.table[k];
            proof {
                assert(self.table@.take(k + 1).drop_last() =~= self.table@.take(k as int));
                assert(self.table@.take(k + 1).last() == self.table@[k as int]);
            }
            if entry.command == wanted {
                proof {
                    lemma_owner_in_prefix(self.table@, k + 1, command@);
                    assert(self.owners()[command@] == entry.slot);
                }
                return Ok(&self.slots[entry.slot].plugin);
            }
            k += 1;
        }
        proof {
            assert(self.table@.take(k as int) =~= self.table@);
        }
        Err(PluginError::CommandNotFound(wanted))
    }

    /// Routes `command` with `args` to the plugin that owns it, and hands back
    /// what that plugin's `execute` returned, unchanged.
    ///
    /// Fails with [`PluginError::CommandNotFound`], naming `command`, exactly
    /// when no plugin owns it; no plugin is called then. A failure of the
    /// plugin itself is never reported as that: it is the inner result.
    pub fn dispatch(&self, command: &str, args: &[String]) -> (outcome: Result<
        Result<(), anyhow::Error>,
        PluginError,
    >)
        requires
            self.wf(),
        ensures
            outcome is Ok <==> self.owners().contains_key(command@),
            outcome matches Ok(returned) ==> self.plugin(self.owners()[command@]).may_return(
                command@,
                args.deep_view(),
                returned,
            ),
            outcome matches Err(error) ==> {
                &&& error matches PluginError::CommandNotFound(detail)
                &&& detail@ == command@
            },
    {
        match self.lookup(command) {
            Ok(plugin) => Ok(plugin.execute(command, args)),
            Err(error) => Err(error),
        }
    }
}

} // verus!
