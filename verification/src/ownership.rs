//! Who owns a command: the rule by which plugins come to own the commands
//! that they advertise, and what follows from it.
//!
//! Plugins are numbered by the places in which they were registered, from 0.
//! The owners of the commands are a map from the name of a command to the place
//! of its plugin. A plugin claims the commands that it advertises when it is
//! registered, and the first claim to a command stands.

use vstd::prelude::*;

verus! {

/// The owners of all commands, once the plugin in place `slot` has claimed
/// `names` where the commands in `owners` had their owner before: a command
/// that had an owner keeps it, and any other of `names` belongs to `slot`.
pub open spec fn claimed(owners: Map<Seq<char>, int>, names: Seq<Seq<char>>, slot: int) -> Map<
    Seq<char>,
    int,
> {
    Map::new(
        |command: Seq<char>| owners.contains_key(command) || names.contains(command),
        |command: Seq<char>|
            if owners.contains_key(command) {
                owners[command]
            } else {
                slot
            },
    )
}

/// The owners of all commands, once plugins have claimed the lists of `lists`
/// one after the other, the plugin in place `k` the list `lists[k]`.
pub open spec fn claimed_in_turn(lists: Seq<Seq<Seq<char>>>) -> Map<Seq<char>, int>
    decreases lists.len(),
{
    if lists.len() == 0 {
        Map::empty()
    } else {
        claimed(claimed_in_turn(lists.drop_last()), lists.last(), lists.len() - 1)
    }
}

/// The first claim to a command stands: a command that had an owner has the
/// same owner after any later claim.
pub proof fn lemma_first_claim_stands(
    owners: Map<Seq<char>, int>,
    names: Seq<Seq<char>>,
    slot: int,
    command: Seq<char>,
)
    requires
        owners.contains_key(command),
    ensures
        claimed(owners, names, slot).contains_key(command),
        claimed(owners, names, slot)[command] == owners[command],
{
}

/// A command that a plugin claims has an owner afterwards, and where it had
/// none before, that plugin owns it.
pub proof fn lemma_claimed_command_is_owned(
    owners: Map<Seq<char>, int>,
    names: Seq<Seq<char>>,
    slot: int,
    command: Seq<char>,
)
    requires
        names.contains(command),
    ensures
        claimed(owners, names, slot).contains_key(command),
        !owners.contains_key(command) ==> claimed(owners, names, slot)[command] == slot,
{
}

/// A claim gives an owner to no command but those that it names.
pub proof fn lemma_claim_adds_only_its_names(
    owners: Map<Seq<char>, int>,
    names: Seq<Seq<char>>,
    slot: int,
    command: Seq<char>,
)
    requires
        !names.contains(command),
        !owners.contains_key(command),
    ensures
        !claimed(owners, names, slot).contains_key(command),
{
}

/// To claim in turn is to claim one after the other: the plugin behind those
/// that are there claims where the commands have the owners that the earlier
/// claims gave them.
pub proof fn lemma_next_claim(lists: Seq<Seq<Seq<char>>>, names: Seq<Seq<char>>)
    ensures
        claimed_in_turn(lists.push(names)) == claimed(
            claimed_in_turn(lists),
            names,
            lists.len() as int,
        ),
{
    assert(lists.push(names).drop_last() =~= lists);
}

/// Where plugins have claimed their lists in turn, a command has an owner
/// exactly when some list holds it, and its owner is the first plugin whose
/// list holds it.
pub proof fn lemma_first_to_advertise_owns(lists: Seq<Seq<Seq<char>>>, command: Seq<char>)
    ensures
        claimed_in_turn(lists).contains_key(command) <==> exists|k: int|
            0 <= k < lists.len() && (#[trigger] lists[k]).contains(command),
        claimed_in_turn(lists).contains_key(command) ==> {
            let owner = claimed_in_turn(lists)[command];
            &&& 0 <= owner < lists.len()
            &&& lists[owner].contains(command)
            &&& forall|k: int| 0 <= k < owner ==> !(#[trigger] lists[k]).contains(command)
        },
    decreases lists.len(),
{
    if lists.len() > 0 {
        let earlier = lists.drop_last();
        let last = lists.len() - 1;
        lemma_first_to_advertise_owns(earlier, command);
        assert forall|k: int| 0 <= k < last implies earlier[k] == lists[k] by {}
        if claimed_in_turn(earlier).contains_key(command) {
            let k = choose|k: int| 0 <= k < earlier.len() && (#[trigger] earlier[k]).contains(command);
            assert(lists[k].contains(command));
            let owner = claimed_in_turn(earlier)[command];
            assert(lists[owner] == earlier[owner]);
        } else if lists[last].contains(command) {
            assert forall|k: int| 0 <= k < last implies !(#[trigger] lists[k]).contains(
                command,
            ) by {
                assert(earlier[k] == lists[k]);
            }
        } else {
            assert forall|k: int| 0 <= k < lists.len() implies !(#[trigger] lists[k]).contains(
                command,
            ) by {
                if k < last {
                    assert(earlier[k] == lists[k]);
                }
            }
        }
    }
}

} // verus!
