//! The hook state in the Codex configuration: enabling it, removing it, looking at it.
use toml_edit::{DocumentMut, Table};
use vstd::prelude::*;

use crate::text::{joined, outcome, same_text, texts};
use crate::toml::{
    assign, document_view, ensure_table, entry, flag_item, not_a_table, section, table_view,
    TomlView,
};

verus! {

/// The items of a table without those under some keys, but for one key that stays.
pub open spec fn without(
    table: Map<Seq<char>, TomlView>,
    keys: Seq<Seq<char>>,
    kept: Option<Seq<char>>,
) -> Map<Seq<char>, TomlView> {
    table.restrict(
        Set::new(|key: Seq<char>| !keys.contains(key) || Some(key) == kept).intersect(table.dom()),
    )
}

/// A table with a truth value set under a key.
pub open spec fn with_flag(table: Map<Seq<char>, TomlView>, key: Seq<char>) -> Map<
    Seq<char>,
    TomlView,
> {
    table.insert(key, TomlView::Flag(true))
}

/// The hook states with the state of one hook enabled and those of its former places removed.
pub open spec fn enabled_states(
    states: Map<Seq<char>, TomlView>,
    old_keys: Seq<Seq<char>>,
    new_key: Seq<char>,
    path: Seq<char>,
) -> Result<Map<Seq<char>, TomlView>, Seq<char>> {
    let rest = without(states, old_keys, Some(new_key));
    match section(rest, new_key) {
        Some(state) => Ok(rest.insert(new_key, TomlView::Section(with_flag(state, "enabled"@)))),
        None => Err(not_a_table(path, new_key)),
    }
}

/// The configuration with the hooks feature on, the state of one hook enabled and those of its
/// former places removed.
pub open spec fn enabled(
    root: Map<Seq<char>, TomlView>,
    old_keys: Seq<Seq<char>>,
    new_key: Seq<char>,
    path: Seq<char>,
) -> Result<Map<Seq<char>, TomlView>, Seq<char>> {
    match section(root, "features"@) {
        None => Err(not_a_table(path, "features"@)),
        Some(features) => {
            let featured = root.insert(
                "features"@,
                TomlView::Section(with_flag(features, "hooks"@)),
            );
            match section(featured, "hooks"@) {
                None => Err(not_a_table(path, "hooks"@)),
                Some(hooks) => match section(hooks, "state"@) {
                    None => Err(not_a_table(path, "state"@)),
                    Some(states) => match enabled_states(states, old_keys, new_key, path) {
                        Err(error) => Err(error),
                        Ok(states) => Ok(
                            featured.insert(
                                "hooks"@,
                                TomlView::Section(hooks.insert("state"@, TomlView::Section(states))),
                            ),
                        ),
                    },
                },
            }
        },
    }
}

fn remove_others(table: &mut Table, keys: &Vec<String>, kept: &str)
    ensures
        table_view(*final(table)) == without(table_view(*old(table)), texts(keys@), Some(kept@)),
{
    let ghost given = table_view(*table);
    let mut index: usize = 0;
    assert(without(given, texts(keys@).take(0), Some(kept@)) =~= given);
    while index < keys.len()
        invariant
            index <= keys@.len(),
            table_view(*table) == without(given, texts(keys@).take(index as int), Some(kept@)),
        decreases keys@.len() - index,
    {
        let ghost before = texts(keys@).take(index as int);
        let ghost now = texts(keys@).take(index + 1);
        proof {
            assert(now =~= before.push(keys@[index as int]@));
            assert forall|key: Seq<char>| now.contains(key) == (before.contains(key) || key
                == keys@[index as int]@) by {
                if before.contains(key) {
                    let i = before.index_of(key);
                    assert(now[i] == key);
                }
                assert(now[index as int] == keys@[index as int]@);
            }
        }
        if !same_text(keys[index].as_str(), kept) {
            let _ = table.remove(keys[index].as_str());
        }
        assert(table_view(*table) =~= without(given, now, Some(kept@)));
        index = index + 1;
    }
    assert(texts(keys@).take(index as int) =~= texts(keys@));
}

/// Turns the hooks feature on, enables the state of one hook and removes those of its former
/// places.
pub(crate) fn enable_document(
    document: DocumentMut,
    path: &str,
    old_keys: &Vec<String>,
    new_key: &str,
) -> (result: Result<DocumentMut, String>)
    requires
        document_view(document) is Section,
    ensures
        match result {
            Ok(edited) => enabled(
                document_view(document)->Section_0,
                texts(old_keys@),
                new_key@,
                path@,
            ) matches Ok(root) && document_view(edited) == TomlView::Section(root),
            Err(error) => enabled(
                document_view(document)->Section_0,
                texts(old_keys@),
                new_key@,
                path@,
            ) == Err::<Map<Seq<char>, TomlView>, Seq<char>>(error@),
        },
{
    let mut document = document;
    let root = document.as_table_mut();
    match ensure_table(root, "features", path) {
        Ok(features) => assign(features, "hooks", flag_item(true)),
        Err(error) => return Err(error),
    }
    match ensure_table(root, "hooks", path) {
        Ok(hooks) => match ensure_table(hooks, "state", path) {
            Ok(state) => {
                remove_others(state, old_keys, new_key);
                match ensure_table(state, new_key, path) {
                    Ok(hook) => assign(hook, "enabled", flag_item(true)),
                    Err(error) => return Err(error),
                }
            },
            Err(error) => return Err(error),
        },
        Err(error) => return Err(error),
    }
    Ok(document)
}

/// The hook states of a configuration, where it has a table of them.
pub open spec fn states_of(root: Map<Seq<char>, TomlView>) -> Option<Map<Seq<char>, TomlView>> {
    match entry(root, "hooks"@) {
        Some(TomlView::Section(hooks)) => match entry(hooks, "state"@) {
            Some(TomlView::Section(states)) => Some(states),
            _ => None,
        },
        _ => None,
    }
}

/// Whether a table holds something under one of some keys.
pub open spec fn holds_any(table: Map<Seq<char>, TomlView>, keys: Seq<Seq<char>>) -> bool {
    exists|i: int| 0 <= i < keys.len() && table.contains_key(#[trigger] keys[i])
}

/// The configuration without the states of some hooks, and whether there were any.
pub open spec fn disabled(root: Map<Seq<char>, TomlView>, keys: Seq<Seq<char>>) -> (
    Map<Seq<char>, TomlView>,
    bool,
) {
    match states_of(root) {
        Some(states) => (
            root.insert(
                "hooks"@,
                TomlView::Section(
                    root["hooks"@]->Section_0.insert(
                        "state"@,
                        TomlView::Section(without(states, keys, None)),
                    ),
                ),
            ),
            holds_any(states, keys),
        ),
        None => (root, false),
    }
}

fn remove_all(table: &mut Table, keys: &Vec<String>) -> (removed: bool)
    ensures
        table_view(*final(table)) == without(table_view(*old(table)), texts(keys@), None),
        removed == holds_any(table_view(*old(table)), texts(keys@)),
{
    let ghost given = table_view(*table);
    let ghost all = texts(keys@);
    let mut removed = false;
    let mut index: usize = 0;
    assert(without(given, all.take(0), None) =~= given);
    while index < keys.len()
        invariant
            index <= keys@.len(),
            all == texts(keys@),
            table_view(*table) == without(given, all.take(index as int), None),
            removed == holds_any(given, all.take(index as int)),
        decreases keys@.len() - index,
    {
        let ghost before = all.take(index as int);
        let ghost now = all.take(index + 1);
        proof {
            assert(now =~= before.push(all[index as int]));
            assert forall|key: Seq<char>| now.contains(key) == (before.contains(key) || key
                == all[index as int]) by {
                if before.contains(key) {
                    let i = before.index_of(key);
                    assert(now[i] == key);
                }
                assert(now[index as int] == all[index as int]);
            }
        }
        let taken = table.remove(keys[index].as_str());
        proof {
            let key = all[index as int];
            if holds_any(given, before) {
                let i = choose|i: int|
                    0 <= i < before.len() && given.contains_key(#[trigger] before[i]);
                assert(given.contains_key(now[i]));
            }
            if taken is Some {
                assert(given.contains_key(now[index as int]));
            }
            if holds_any(given, now) && !holds_any(given, before) {
                let i = choose|i: int| 0 <= i < now.len() && given.contains_key(#[trigger] now[i]);
                if i < index {
                    assert(given.contains_key(before[i]));
                }
                assert(now[i] == key);
                if before.contains(key) {
                    let j = before.index_of(key);
                    assert(given.contains_key(before[j]));
                }
            }
            assert(table_view(*table) =~= without(given, now, None));
        }
        if taken.is_some() {
            removed = true;
        }
        index = index + 1;
    }
    assert(all.take(index as int) =~= all);
    removed
}

/// Removes the states of some hooks, and tells whether there were any.
pub(crate) fn disable_document(document: &mut DocumentMut, keys: &Vec<String>) -> (removed: bool)
    requires
        document_view(*old(document)) is Section,
    ensures
        document_view(*final(document)) == TomlView::Section(
            disabled(document_view(*old(document))->Section_0, texts(keys@)).0,
        ),
        removed == disabled(document_view(*old(document))->Section_0, texts(keys@)).1,
{
    let ghost given = document_view(*document)->Section_0;
    let root = document.as_table_mut();
    match root.get_mut("hooks") {
        Some(item) => match item.as_table_mut() {
            Some(hooks) => match hooks.get_mut("state") {
                Some(inner) => match inner.as_table_mut() {
                    Some(state) => remove_all(state, keys),
                    None => {
                        assert(given.insert("hooks"@, given["hooks"@]) =~= given);
                        let ghost hooks_view = given["hooks"@]->Section_0;
                        assert(hooks_view.insert("state"@, hooks_view["state"@]) =~= hooks_view);
                        false
                    },
                },
                None => {
                    assert(given.insert("hooks"@, given["hooks"@]) =~= given);
                    false
                },
            },
            None => {
                assert(given.insert("hooks"@, given["hooks"@]) =~= given);
                false
            },
        },
        None => false,
    }
}

/// Whether Codex will run a hook: a hook without a state is enabled.
pub open spec fn hook_enabled(
    root: Map<Seq<char>, TomlView>,
    key: Seq<char>,
    path: Seq<char>,
) -> Result<bool, Seq<char>> {
    match states_of(root) {
        Some(states) => match entry(states, key) {
            Some(TomlView::Section(state)) => match entry(state, "enabled"@) {
                Some(TomlView::Flag(flag)) => Ok(flag),
                Some(_) => Err(
                    path + " stores a non-boolean enabled state for "@ + key,
                ),
                None => Ok(true),
            },
            _ => Ok(true),
        },
        None => Ok(true),
    }
}

/// Tells whether Codex will run a hook.
pub(crate) fn inspect_document(document: &DocumentMut, key: &str, path: &str) -> (result: Result<
    bool,
    String,
>)
    requires
        document_view(*document) is Section,
    ensures
        outcome(result) == hook_enabled(document_view(*document)->Section_0, key@, path@),
{
    let root = document.as_table();
    let hooks = match root.get("hooks") {
        Some(item) => match item.as_table() {
            Some(hooks) => hooks,
            None => return Ok(true),
        },
        None => return Ok(true),
    };
    let states = match hooks.get("state") {
        Some(item) => match item.as_table() {
            Some(states) => states,
            None => return Ok(true),
        },
        None => return Ok(true),
    };
    let state = match states.get(key) {
        Some(item) => match item.as_table() {
            Some(state) => state,
            None => return Ok(true),
        },
        None => return Ok(true),
    };
    match state.get("enabled") {
        Some(item) => match item.as_bool() {
            Some(flag) => Ok(flag),
            None => {
                let mut error = joined(path, " stores a non-boolean enabled state for ");
                error.append(key);
                Err(error)
            },
        },
        None => Ok(true),
    }
}

proof fn lemma_config_keys_differ()
    ensures
        "features"@ != "hooks"@,
{
    reveal_strlit("features");
    reveal_strlit("hooks");
    assert("features"@.len() != "hooks"@.len());
}

/// A hook that setup enabled is enabled.
pub proof fn an_enabled_hook_is_enabled(
    root: Map<Seq<char>, TomlView>,
    old_keys: Seq<Seq<char>>,
    new_key: Seq<char>,
    path: Seq<char>,
)
    requires
        enabled(root, old_keys, new_key, path) is Ok,
    ensures
        hook_enabled(enabled(root, old_keys, new_key, path)->Ok_0, new_key, path) == Ok::<
            bool,
            Seq<char>,
        >(true),
{
    lemma_config_keys_differ();
}

/// Enabling touches one feature and the states of the managed hook alone: every other item of the
/// configuration, every other feature, every other hook setting, every other hook state and every
/// other field of the managed state, such as its trust hash, is kept.
pub proof fn enabling_keeps_everything_else(
    root: Map<Seq<char>, TomlView>,
    old_keys: Seq<Seq<char>>,
    new_key: Seq<char>,
    path: Seq<char>,
)
    requires
        enabled(root, old_keys, new_key, path) is Ok,
    ensures
        ({
            let edited = enabled(root, old_keys, new_key, path)->Ok_0;
            let hooks = section(root, "hooks"@)->0;
            let states = section(hooks, "state"@)->0;
            &&& section(root, "hooks"@) is Some
            &&& section(hooks, "state"@) is Some
            &&& states_of(edited) is Some
            &&& forall|key: Seq<char>|
                #![trigger entry(edited, key)]
                key != "features"@ && key != "hooks"@ ==> entry(edited, key) == entry(root, key)
            &&& forall|key: Seq<char>|
                #![trigger entry(edited["features"@]->Section_0, key)]
                key != "hooks"@ ==> entry(edited["features"@]->Section_0, key) == entry(
                    section(root, "features"@)->0,
                    key,
                )
            &&& forall|key: Seq<char>|
                #![trigger entry(edited["hooks"@]->Section_0, key)]
                key != "state"@ ==> entry(edited["hooks"@]->Section_0, key) == entry(hooks, key)
            &&& forall|key: Seq<char>|
                #![trigger entry(states_of(edited)->0, key)]
                key != new_key && !old_keys.contains(key) ==> entry(states_of(edited)->0, key)
                    == entry(states, key)
            &&& forall|field: Seq<char>|
                #![trigger entry(states_of(edited)->0[new_key]->Section_0, field)]
                field != "enabled"@ ==> entry(
                    states_of(edited)->0[new_key]->Section_0,
                    field,
                ) == entry(section(states, new_key)->0, field)
        }),
{
    lemma_config_keys_differ();
    let edited = enabled(root, old_keys, new_key, path)->Ok_0;
    let states = section(section(root, "hooks"@)->0, "state"@)->0;
    let rest = without(states, old_keys, Some(new_key));
    assert(entry(rest, new_key) == entry(states, new_key));
}

/// Enabling twice changes nothing in what the configuration holds.
pub proof fn enabling_is_idempotent(
    root: Map<Seq<char>, TomlView>,
    old_keys: Seq<Seq<char>>,
    new_key: Seq<char>,
    path: Seq<char>,
)
    requires
        enabled(root, old_keys, new_key, path) is Ok,
    ensures
        enabled(
            enabled(root, old_keys, new_key, path)->Ok_0,
            seq![new_key],
            new_key,
            path,
        ) == enabled(root, old_keys, new_key, path),
{
    lemma_config_keys_differ();
    let edited = enabled(root, old_keys, new_key, path)->Ok_0;
    let features = edited["features"@]->Section_0;
    assert(features.insert("hooks"@, TomlView::Flag(true)) =~= features);
    assert(edited.insert("features"@, edited["features"@]) =~= edited);
    let hooks = edited["hooks"@]->Section_0;
    let states = hooks["state"@]->Section_0;
    assert(without(states, seq![new_key], Some(new_key)) =~= states);
    let state = states[new_key]->Section_0;
    assert(state.insert("enabled"@, TomlView::Flag(true)) =~= state);
    assert(states.insert(new_key, states[new_key]) =~= states);
    assert(hooks.insert("state"@, hooks["state"@]) =~= hooks);
    assert(edited.insert("hooks"@, edited["hooks"@]) =~= edited);
}

/// Removing the states of some hooks keeps everything else.
pub proof fn disabling_keeps_everything_else(root: Map<Seq<char>, TomlView>, keys: Seq<Seq<char>>)
    ensures
        ({
            let edited = disabled(root, keys).0;
            &&& forall|key: Seq<char>|
                #![trigger entry(edited, key)]
                key != "hooks"@ ==> entry(edited, key) == entry(root, key)
            &&& states_of(root) matches Some(states) ==> states_of(edited) == Some(
                without(states, keys, None),
            )
            &&& states_of(root) is None ==> edited == root
        }),
{
}

} // verus!
