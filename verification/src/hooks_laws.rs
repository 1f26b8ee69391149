//! What stands in the hook file and in the Codex configuration, and what of it belongs to this
//! program.
use vstd::prelude::*;

use crate::config::{disabled, enabled, hook_enabled};
use crate::hooks_file::{
    empty_file, group_handlers, has_stop, keys_in_file, lemma_merged_groups, managed,
    managed_file, managed_group, managed_handler, managed_places, merged, places_in_group,
    removal, setup_keeps_other_hooks, state_key, stop_groups, stripped, unmanaged,
};
use crate::json::{member, JsonView};
use crate::setup::bare_file;
use crate::text::decimal;
use crate::toml::TomlView;

verus! {

/// Whether a handler is the one of this program: it is told by its status message.
pub open spec fn is_ours(handler: JsonView) -> bool {
    handler matches JsonView::Members(members) && members.contains_key("statusMessage"@)
        && members["statusMessage"@] == JsonView::Text("open-wake: waiting for armed condition"@)
}

proof fn lemma_member_names()
    ensures
        "type"@.len() == 4,
        "command"@.len() == 7,
        "timeout"@.len() == 7,
        "statusMessage"@.len() == 13,
        "command"@[0] == 'c',
        "timeout"@[0] == 't',
        "description"@.len() == 11,
        "hooks"@.len() == 5,
        "Stop"@.len() == 4,
        "features"@.len() == 8,
        "state"@.len() == 5,
        "hooks"@[0] == 'h',
        "state"@[0] == 's',
{
    reveal_strlit("type");
    reveal_strlit("command");
    reveal_strlit("timeout");
    reveal_strlit("statusMessage");
    reveal_strlit("description");
    reveal_strlit("hooks");
    reveal_strlit("Stop");
    reveal_strlit("features");
    reveal_strlit("state");
}

/// The handler that setup writes runs the command of the installation, for up to a week, and carries
/// the message by which it is known again; it holds nothing else.
pub proof fn our_handler_is_known_again(command: Seq<char>)
    ensures
        is_ours(managed_handler(command)),
        member(managed_handler(command), "type"@) == Some(JsonView::Text("command"@)),
        member(managed_handler(command), "command"@) == Some(JsonView::Text(command)),
        member(managed_handler(command), "timeout"@) == Some(JsonView::Unsigned(604_800)),
        forall|key: Seq<char>|
            #![trigger member(managed_handler(command), key)]
            member(managed_handler(command), key) is Some ==> key == "type"@ || key == "command"@
                || key == "timeout"@ || key == "statusMessage"@,
        managed_group(command) == JsonView::Members(
            Map::<Seq<char>, JsonView>::empty().insert(
                "hooks"@,
                JsonView::List(seq![managed_handler(command)]),
            ),
        ),
{
    lemma_member_names();
}

/// A handler counts as managed if and only if it is ours.
pub proof fn only_our_handlers_are_managed(handler: JsonView)
    ensures
        managed(handler) <==> is_ours(handler),
{
}

/// Of the handlers of a group those of others stay, in their order, and ours go.
pub proof fn our_handlers_go(handlers: Seq<JsonView>, handler: JsonView)
    ensures
        unmanaged(seq![]) == Seq::<JsonView>::empty(),
        unmanaged(handlers.push(handler)) == if is_ours(handler) {
            unmanaged(handlers)
        } else {
            unmanaged(handlers).push(handler)
        },
{
    assert(handlers.push(handler).drop_last() =~= handlers);
}

/// Of the groups of an event those without a handler of ours stay as they are; a group that held
/// nothing but ours goes, and any other keeps its other handlers and all its other members.
pub proof fn our_groups_go(groups: Seq<JsonView>, group: JsonView)
    ensures
        stripped(seq![]) == Seq::<JsonView>::empty(),
        ({
            let before = stripped(groups);
            let after = stripped(groups.push(group));
            match group {
                JsonView::Members(members) => if members.contains_key("hooks"@)
                    && members["hooks"@] is List {
                    let handlers = members["hooks"@]->List_0;
                    let kept = unmanaged(handlers);
                    if kept == handlers {
                        after == before.push(group)
                    } else if kept.len() == 0 {
                        after == before
                    } else {
                        after == before.push(
                            JsonView::Members(members.insert("hooks"@, JsonView::List(kept))),
                        )
                    }
                } else {
                    after == before.push(group)
                },
                _ => after == before.push(group),
            }
        }),
{
    assert(groups.push(group).drop_last() =~= groups);
    if let Some(handlers) = group_handlers(group) {
        lemma_unmanaged_is_shorter(handlers);
    }
}

proof fn lemma_unmanaged_is_shorter(handlers: Seq<JsonView>)
    ensures
        unmanaged(handlers).len() <= handlers.len(),
        unmanaged(handlers).len() == handlers.len() ==> unmanaged(handlers) == handlers,
    decreases handlers.len(),
{
    if handlers.len() > 0 {
        lemma_unmanaged_is_shorter(handlers.drop_last());
        assert(handlers.drop_last().push(handlers.last()) =~= handlers);
    } else {
        assert(unmanaged(handlers) =~= handlers);
    }
}

/// Whether a place in some groups holds a handler of ours.
pub open spec fn ours_at(groups: Seq<JsonView>, place: (nat, nat)) -> bool {
    place.0 < groups.len() && (groups[place.0 as int] matches JsonView::Members(members)
        && members.contains_key("hooks"@) && (members["hooks"@] matches JsonView::List(handlers)
        && place.1 < handlers.len() && is_ours(handlers[place.1 as int])))
}

proof fn lemma_places_in_group(handlers: Seq<JsonView>, group: nat)
    ensures
        forall|place: (nat, nat)|
            #[trigger] places_in_group(handlers, group).contains(place) <==> place.0 == group
                && place.1 < handlers.len() && is_ours(handlers[place.1 as int]),
    decreases handlers.len(),
{
    if handlers.len() > 0 {
        let rest = handlers.drop_last();
        let before = places_in_group(rest, group);
        let all = places_in_group(handlers, group);
        let last = (group, (handlers.len() - 1) as nat);
        lemma_places_in_group(rest, group);
        assert forall|place: (nat, nat)|
            #[trigger] all.contains(place) <==> place.0 == group && place.1 < handlers.len()
                && is_ours(handlers[place.1 as int]) by {
            if all.contains(place) {
                let i = choose|i: int| 0 <= i < all.len() && all[i] == place;
                if i < before.len() {
                    assert(before[i] == place);
                    assert(before.contains(place));
                    assert(rest[place.1 as int] == handlers[place.1 as int]);
                }
            }
            if place.0 == group && place.1 < handlers.len() && is_ours(handlers[place.1 as int]) {
                if place.1 < rest.len() {
                    assert(rest[place.1 as int] == handlers[place.1 as int]);
                    assert(before.contains(place));
                    let i = choose|i: int| 0 <= i < before.len() && before[i] == place;
                    assert(all[i] == place);
                } else {
                    assert(place == last);
                    assert(all[all.len() - 1] == place);
                }
            }
        }
    }
}

/// The places that are found are those where a handler of ours stands, and no others.
pub proof fn our_handlers_are_found(groups: Seq<JsonView>)
    ensures
        forall|place: (nat, nat)|
            #[trigger] managed_places(groups).contains(place) <==> ours_at(groups, place),
    decreases groups.len(),
{
    if groups.len() > 0 {
        let rest = groups.drop_last();
        let before = managed_places(rest);
        let all = managed_places(groups);
        let index = (groups.len() - 1) as nat;
        our_handlers_are_found(rest);
        assert forall|place: (nat, nat)|
            #[trigger] all.contains(place) <==> ours_at(groups, place) by {
            let found = match group_handlers(groups.last()) {
                Some(handlers) => places_in_group(handlers, index),
                None => seq![],
            };
            assert(all =~= before + found);
            if let Some(handlers) = group_handlers(groups.last()) {
                lemma_places_in_group(handlers, index);
            }
            if all.contains(place) {
                let i = choose|i: int| 0 <= i < all.len() && all[i] == place;
                if i < before.len() {
                    assert(before[i] == place);
                    assert(before.contains(place));
                    assert(ours_at(rest, place));
                    assert(rest[place.0 as int] == groups[place.0 as int]);
                } else {
                    assert(found[i - before.len()] == place);
                    assert(found.contains(place));
                    let handlers = group_handlers(groups.last())->0;
                    assert(is_ours(handlers[place.1 as int]));
                }
            }
            if ours_at(groups, place) {
                if place.0 < rest.len() {
                    assert(rest[place.0 as int] == groups[place.0 as int]);
                    assert(ours_at(rest, place));
                    assert(before.contains(place));
                    let i = choose|i: int| 0 <= i < before.len() && before[i] == place;
                    assert(all[i] == place);
                } else {
                    let handlers = group_handlers(groups.last())->0;
                    assert(is_ours(handlers[place.1 as int]));
                    assert(found.contains(place));
                    let i = choose|i: int| 0 <= i < found.len() && found[i] == place;
                    assert(all[before.len() + i] == place);
                }
            }
        }
    }
}

/// A hook file can be changed if and only if it is an object whose hooks, where it has any, are an
/// object, and whose Stop hooks, where it has any, are a list.
pub open spec fn can_hold_hooks(root: JsonView) -> bool {
    root matches JsonView::Members(members) && (members.contains_key("hooks"@) ==> (
    members["hooks"@] matches JsonView::Members(hooks) && (hooks.contains_key("Stop"@)
        ==> hooks["Stop"@] is List)))
}

/// Setup puts one group with our handler behind the groups of others, where the file can hold it. A
/// file without a description gets one, and a description that is there stays.
pub proof fn setup_puts_our_handler_last(root: JsonView, command: Seq<char>)
    ensures
        merged(root, command) is Ok <==> can_hold_hooks(root),
        removal(root) is Ok <==> can_hold_hooks(root),
        merged(root, command) matches Ok(file) ==> {
            &&& stop_groups(file) matches Ok(groups) && groups.len() > 0 && groups.last()
                == managed_group(command) && groups.drop_last() == stripped(
                stop_groups(root)->Ok_0,
            )
            &&& member(file, "description"@) == match member(root, "description"@) {
                Some(description) => Some(description),
                None => Some(
                    JsonView::Text("Resume Codex when an armed local condition completes."@),
                ),
            }
        },
        managed_file(command) == JsonView::Members(
            Map::<Seq<char>, JsonView>::empty().insert(
                "description"@,
                JsonView::Text("Resume Codex when an armed local condition completes."@),
            ).insert(
                "hooks"@,
                JsonView::Members(
                    Map::<Seq<char>, JsonView>::empty().insert(
                        "Stop"@,
                        JsonView::List(seq![managed_group(command)]),
                    ),
                ),
            ),
        ),
{
    lemma_member_names();
    if let Ok(file) = merged(root, command) {
        setup_keeps_other_hooks(root, command);
        let groups = stop_groups(file)->Ok_0;
        assert(groups.drop_last() =~= stripped(stop_groups(root)->Ok_0));
    }
}

/// What is left of a hook file is worth keeping unless it is an object with nothing in it but our own
/// description and empty hooks.
pub proof fn only_our_own_remains_are_empty(root: JsonView)
    ensures
        empty_file(root) <==> root is Members && forall|key: Seq<char>|
            #![trigger member(root, key)]
            member(root, key) matches Some(value) ==> (key == "description"@ && value
                == JsonView::Text("Resume Codex when an armed local condition completes."@)) || (key
                == "hooks"@ && value == JsonView::Members(Map::<Seq<char>, JsonView>::empty())),
{
    if let JsonView::Members(members) = root {
        assert forall|key: Seq<char>| #[trigger] members.contains_key(key) <==> member(
            root,
            key,
        ) is Some by {}
        if empty_file(root) {
            assert forall|key: Seq<char>|
                #![trigger member(root, key)]
                member(root, key) matches Some(value) ==> (key == "description"@ && value
                    == JsonView::Text("Resume Codex when an armed local condition completes."@)) || (
                key == "hooks"@ && value == JsonView::Members(
                    Map::<Seq<char>, JsonView>::empty(),
                )) by {
                assert(members.contains_key(key) <==> member(root, key) is Some);
            }
        } else {
            let key = choose|key: Seq<char>|
                #[trigger] members.contains_key(key) && !((key == "description"@ && members[key]
                    == JsonView::Text(
                    "Resume Codex when an armed local condition completes."@,
                )) || (key == "hooks"@ && members[key] == JsonView::Members(
                    Map::<Seq<char>, JsonView>::empty(),
                )));
            assert(member(root, key) == Some(members[key]));
        }
    }
}

/// Uninstall tells whether a handler of ours was there at all.
pub proof fn removal_tells_whether_we_were_there(root: JsonView)
    ensures
        removal(root) matches Ok((_, removed)) ==> (removed <==> exists|place: (nat, nat)|
            #[trigger] ours_at(stop_groups(root)->Ok_0, place)),
{
    if let Ok((_, removed)) = removal(root) {
        let groups = stop_groups(root)->Ok_0;
        our_handlers_are_found(groups);
        if managed_places(groups).len() > 0 {
            let place = managed_places(groups)[0];
            assert(managed_places(groups).contains(place));
            assert(ours_at(groups, place));
        }
        if exists|place: (nat, nat)| #[trigger] ours_at(groups, place) {
            let place = choose|place: (nat, nat)| #[trigger] ours_at(groups, place);
            assert(managed_places(groups).contains(place));
        }
    }
}

/// Codex knows a handler by the path of its file, its event, its group and its place in the group.
pub proof fn handlers_are_keyed_by_their_place(root: JsonView, path: Seq<char>, place: (nat, nat))
    ensures
        state_key(path, place) == path + ":stop:"@ + decimal(place.0) + ":"@ + decimal(place.1),
        keys_in_file(root, path) is Ok <==> can_hold_hooks(root),
        keys_in_file(root, path) matches Ok(keys) ==> keys.len() == managed_places(
            stop_groups(root)->Ok_0,
        ).len() && (ours_at(stop_groups(root)->Ok_0, place) ==> keys.contains(
            path + ":stop:"@ + decimal(place.0) + ":"@ + decimal(place.1),
        )),
{
    if let Ok(keys) = keys_in_file(root, path) {
        let places = managed_places(stop_groups(root)->Ok_0);
        our_handlers_are_found(stop_groups(root)->Ok_0);
        if ours_at(stop_groups(root)->Ok_0, place) {
            assert(places.contains(place));
            let i = choose|i: int| 0 <= i < places.len() && places[i] == place;
            assert(keys[i] == state_key(path, place));
        }
    }
}

/// The table under a key, where there is one or nothing at all.
pub open spec fn table_at(table: Map<Seq<char>, TomlView>, key: Seq<char>) -> Option<
    Map<Seq<char>, TomlView>,
> {
    if !table.contains_key(key) || table[key] is Nothing {
        Some(Map::empty())
    } else {
        match table[key] {
            TomlView::Section(inner) => Some(inner),
            _ => None,
        }
    }
}

/// Setup switches the hooks feature on and enables the handler under its key; the keys that it had
/// before are gone. It fails only where something else than a table is in the way.
pub proof fn setup_enables_the_feature_and_the_handler(
    root: Map<Seq<char>, TomlView>,
    old_keys: Seq<Seq<char>>,
    new_key: Seq<char>,
    path: Seq<char>,
)
    ensures
        enabled(root, old_keys, new_key, path) is Ok <==> table_at(root, "features"@) is Some
            && table_at(root, "hooks"@) is Some && table_at(
            table_at(root, "hooks"@)->0,
            "state"@,
        ) is Some && table_at(
            table_at(table_at(root, "hooks"@)->0, "state"@)->0,
            new_key,
        ) is Some,
        enabled(root, old_keys, new_key, path) matches Ok(edited) ==> {
            &&& edited.contains_key("features"@)
            &&& edited["features"@] matches TomlView::Section(features) && features.contains_key(
                "hooks"@,
            ) && features["hooks"@] == TomlView::Flag(true)
            &&& edited.contains_key("hooks"@)
            &&& edited["hooks"@] matches TomlView::Section(hooks) && hooks.contains_key("state"@)
                && (hooks["state"@] matches TomlView::Section(states) && {
                &&& states.contains_key(new_key)
                &&& states[new_key] matches TomlView::Section(state) && state.contains_key(
                    "enabled"@,
                ) && state["enabled"@] == TomlView::Flag(true)
                &&& forall|key: Seq<char>|
                    #![trigger states.contains_key(key)]
                    old_keys.contains(key) && key != new_key ==> !states.contains_key(key)
            })
        },
{
    lemma_member_names();
}

/// The state of the handlers in a configuration, if it is recorded.
pub open spec fn recorded_states(root: Map<Seq<char>, TomlView>) -> Option<
    Map<Seq<char>, TomlView>,
> {
    if root.contains_key("hooks"@) {
        match root["hooks"@] {
            TomlView::Section(hooks) => if hooks.contains_key("state"@) {
                match hooks["state"@] {
                    TomlView::Section(states) => Some(states),
                    _ => None,
                }
            } else {
                None
            },
            _ => None,
        }
    } else {
        None
    }
}

/// Uninstall takes the keys of the handler away and no others, and tells whether any was there.
pub proof fn uninstall_forgets_the_handler(root: Map<Seq<char>, TomlView>, keys: Seq<Seq<char>>)
    ensures
        recorded_states(root) is None ==> disabled(root, keys) == (root, false),
        recorded_states(root) matches Some(states) ==> {
            let (edited, changed) = disabled(root, keys);
            &&& changed <==> exists|key: Seq<char>|
                keys.contains(key) && #[trigger] states.contains_key(key)
            &&& recorded_states(edited) matches Some(left) && forall|key: Seq<char>|
                #![trigger left.contains_key(key)]
                left.contains_key(key) <==> states.contains_key(key) && !keys.contains(key)
            &&& recorded_states(edited) matches Some(left) && forall|key: Seq<char>|
                #![trigger left[key]]
                left.contains_key(key) ==> left[key] == states[key]
        },
{
    lemma_member_names();
    if let Some(states) = recorded_states(root) {
        let (edited, changed) = disabled(root, keys);
        if changed {
            let i = choose|i: int| 0 <= i < keys.len() && states.contains_key(#[trigger] keys[i]);
            assert(keys.contains(keys[i]) && states.contains_key(keys[i]));
        }
        if exists|key: Seq<char>| keys.contains(key) && #[trigger] states.contains_key(key) {
            let key = choose|key: Seq<char>|
                keys.contains(key) && #[trigger] states.contains_key(key);
            let i = choose|i: int| 0 <= i < keys.len() && keys[i] == key;
            assert(states.contains_key(keys[i]));
        }
    }
}

/// A handler is enabled unless its state says otherwise: only a flag that is off disables it, and
/// only a flag that is none is an error.
pub proof fn a_handler_is_enabled_by_default(
    root: Map<Seq<char>, TomlView>,
    key: Seq<char>,
    path: Seq<char>,
)
    ensures
        ({
            let flag = match recorded_states(root) {
                Some(states) => if states.contains_key(key) {
                    match states[key] {
                        TomlView::Section(state) => if state.contains_key("enabled"@) {
                            state["enabled"@]
                        } else {
                            TomlView::Nothing
                        },
                        _ => TomlView::Nothing,
                    }
                } else {
                    TomlView::Nothing
                },
                None => TomlView::Nothing,
            };
            match flag {
                TomlView::Nothing => hook_enabled(root, key, path) == Ok::<bool, Seq<char>>(true),
                TomlView::Flag(on) => hook_enabled(root, key, path) == Ok::<bool, Seq<char>>(on),
                _ => hook_enabled(root, key, path) is Err,
            }
        }),
{
}

/// Where no group of others is left under the event, nothing is left of the event either; otherwise
/// it holds the groups of others and no more.
pub proof fn an_event_without_groups_goes(root: JsonView)
    requires
        can_hold_hooks(root),
        member(root, "hooks"@) is Some,
        member(member(root, "hooks"@)->0, "Stop"@) is Some,
    ensures
        removal(root) matches Ok((bare, _)) && member(bare, "hooks"@) matches Some(hooks) && member(
            hooks,
            "Stop"@,
        ) == if stripped(stop_groups(root)->Ok_0).len() == 0 {
            None
        } else {
            Some(JsonView::List(stripped(stop_groups(root)->Ok_0)))
        },
{
}

/// What setup made from nothing, uninstall takes away whole: nothing worth keeping is left of the file.
pub proof fn what_was_made_from_nothing_goes(command: Seq<char>)
    ensures
        merged(bare_file(), command) matches Ok(file) && (removal(file) matches Ok((bare, removed))
            && removed && empty_file(bare)),
{
    lemma_member_names();
    let nothing = bare_file();
    assert(can_hold_hooks(nothing));
    setup_puts_our_handler_last(nothing, command);
    let file = merged(nothing, command)->Ok_0;
    let group = managed_group(command);
    let groups = stop_groups(file)->Ok_0;
    assert(stop_groups(nothing)->Ok_0 =~= seq![]);
    assert(stripped(seq![]) == Seq::<JsonView>::empty());
    assert(groups =~= seq![group]);
    lemma_merged_groups(seq![], command);
    assert(Seq::<JsonView>::empty().push(group) =~= groups);
    assert(stripped(groups) == Seq::<JsonView>::empty());
    assert(managed_places(groups).len() == 1);
    assert(has_stop(file));
    let bare = removal(file)->Ok_0.0;
    let hooks = file->Members_0["hooks"@]->Members_0;
    assert(hooks.remove("Stop"@) =~= Map::<Seq<char>, JsonView>::empty());
    assert(bare->Members_0["hooks"@] == JsonView::Members(Map::<Seq<char>, JsonView>::empty()));
}

} // verus!
