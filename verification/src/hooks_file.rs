//! The hook file of Codex: which handlers are managed, and how they are put in and taken out.
use serde_json::Value;
use vstd::prelude::*;
use vstd::set_lib::lemma_subset_equality;

use crate::condition::HOOK_TIMEOUT_SECONDS;
use crate::json::{
    count_members, empty_object, get_member, json_of, jsons_of, list_items, list_value, member,
    number_value, put_member, take_member, text_value, JsonView,
};
use crate::text::{decimal, joined, push_decimal, same_text, texts};

verus! {

/// The status message by which a managed handler is known.
pub const MANAGED_STATUS_MESSAGE: &'static str = "open-wake: waiting for armed condition";

/// The description of a hook file that holds nothing but the managed handler.
pub const HOOK_DESCRIPTION: &'static str = "Resume Codex when an armed local condition completes.";

/// Whether a handler is the managed one.
pub open spec fn managed(handler: JsonView) -> bool {
    member(handler, "statusMessage"@) == Some(JsonView::Text(MANAGED_STATUS_MESSAGE@))
}

fn is_managed_handler(handler: &Value) -> (result: bool)
    ensures
        result == managed(json_of(*handler)),
{
    match get_member(handler, "statusMessage") {
        Some(message) => match message.as_str() {
            Some(text) => same_text(text, MANAGED_STATUS_MESSAGE),
            None => false,
        },
        None => false,
    }
}

/// The handlers of a group, where it has a list of them.
pub open spec fn group_handlers(group: JsonView) -> Option<Seq<JsonView>> {
    match member(group, "hooks"@) {
        Some(JsonView::List(handlers)) => Some(handlers),
        _ => None,
    }
}

pub(crate) fn handlers_in<'a>(group: &'a Value) -> (handlers: Option<&'a Vec<Value>>)
    ensures
        match handlers {
            Some(handlers) => group_handlers(json_of(*group)) == Some(jsons_of(handlers@)),
            None => group_handlers(json_of(*group)) is None,
        },
{
    match get_member(group, "hooks") {
        Some(inner) => inner.as_array(),
        None => None,
    }
}

/// The groups of the Stop event. A file without any has none.
pub open spec fn stop_groups(root: JsonView) -> Result<Seq<JsonView>, Seq<char>> {
    if !(root is Members) {
        Err("hooks.json root must be an object"@)
    } else {
        match member(root, "hooks"@) {
            None => Ok(seq![]),
            Some(hooks) => if !(hooks is Members) {
                Err("hooks.json `hooks` must be an object"@)
            } else {
                match member(hooks, "Stop"@) {
                    None => Ok(seq![]),
                    Some(JsonView::List(groups)) => Ok(groups),
                    Some(_) => Err("hooks.json `hooks.Stop` must be an array"@),
                }
            },
        }
    }
}

pub(crate) fn groups_in<'a>(root: &'a Value) -> (result: Result<Option<&'a Vec<Value>>, String>)
    ensures
        match result {
            Ok(Some(groups)) => stop_groups(json_of(*root)) == Ok::<Seq<JsonView>, Seq<char>>(
                jsons_of(groups@),
            ) && member(json_of(*root), "hooks"@) is Some && member(
                member(json_of(*root), "hooks"@)->0,
                "Stop"@,
            ) == Some(JsonView::List(jsons_of(groups@))),
            Ok(None) => stop_groups(json_of(*root)) == Ok::<Seq<JsonView>, Seq<char>>(seq![]) && (
            member(json_of(*root), "hooks"@) is None || member(
                member(json_of(*root), "hooks"@)->0,
                "Stop"@,
            ) is None),
            Err(error) => stop_groups(json_of(*root)) == Err::<Seq<JsonView>, Seq<char>>(error@),
        },
{
    if !root.is_object() {
        return Err("hooks.json root must be an object".to_owned());
    }
    let hooks = match get_member(root, "hooks") {
        Some(hooks) => hooks,
        None => return Ok(None),
    };
    if !hooks.is_object() {
        return Err("hooks.json `hooks` must be an object".to_owned());
    }
    let stop = match get_member(hooks, "Stop") {
        Some(stop) => stop,
        None => return Ok(None),
    };
    match stop.as_array() {
        Some(groups) => Ok(Some(groups)),
        None => Err("hooks.json `hooks.Stop` must be an array".to_owned()),
    }
}

/// Where the managed handlers of one group stand.
pub open spec fn places_in_group(handlers: Seq<JsonView>, group: nat) -> Seq<(nat, nat)>
    decreases handlers.len(),
{
    if handlers.len() == 0 {
        seq![]
    } else {
        let before = places_in_group(handlers.drop_last(), group);
        if managed(handlers.last()) {
            before.push((group, (handlers.len() - 1) as nat))
        } else {
            before
        }
    }
}

/// Where the managed handlers of some groups stand: their group, and their place in it.
pub open spec fn managed_places(groups: Seq<JsonView>) -> Seq<(nat, nat)>
    decreases groups.len(),
{
    if groups.len() == 0 {
        seq![]
    } else {
        let before = managed_places(groups.drop_last());
        match group_handlers(groups.last()) {
            Some(handlers) => before + places_in_group(handlers, (groups.len() - 1) as nat),
            None => before,
        }
    }
}

/// A place in spec form.
pub open spec fn place_view(place: (usize, usize)) -> (nat, nat) {
    (place.0 as nat, place.1 as nat)
}

/// Places in spec form.
pub open spec fn place_views(places: Seq<(usize, usize)>) -> Seq<(nat, nat)> {
    places.map_values(|place: (usize, usize)| place_view(place))
}

fn push_places(places: &mut Vec<(usize, usize)>, handlers: &Vec<Value>, group: usize)
    ensures
        place_views(final(places)@) == place_views(old(places)@) + places_in_group(
            jsons_of(handlers@),
            group as nat,
        ),
{
    let mut index: usize = 0;
    let ghost views = jsons_of(handlers@);
    assert(views.take(0) =~= seq![]);
    assert(place_views(places@) =~= place_views(old(places)@) + places_in_group(
        views.take(0),
        group as nat,
    ));
    while index < handlers.len()
        invariant
            index <= handlers@.len(),
            views == jsons_of(handlers@),
            place_views(places@) == place_views(old(places)@) + places_in_group(
                views.take(index as int),
                group as nat,
            ),
        decreases handlers@.len() - index,
    {
        let ghost now = views.take(index + 1);
        assert(now.drop_last() =~= views.take(index as int));
        assert(now.last() == json_of(handlers@[index as int]));
        let ghost before = places@;
        if is_managed_handler(&handlers[index]) {
            places.push((group, index));
            assert(place_views(places@) =~= place_views(before).push((group as nat, index as nat)));
        }
        assert(place_views(places@) =~= place_views(old(places)@) + places_in_group(
            now,
            group as nat,
        ));
        index = index + 1;
    }
    assert(views.take(index as int) =~= views);
}

/// The result of looking for managed handlers.
pub open spec fn places_outcome(result: Result<Vec<(usize, usize)>, String>) -> Result<
    Seq<(nat, nat)>,
    Seq<char>,
> {
    match result {
        Ok(places) => Ok(place_views(places@)),
        Err(error) => Err(error@),
    }
}

/// Where the managed handlers of a file stand.
pub open spec fn places_in_file(root: JsonView) -> Result<Seq<(nat, nat)>, Seq<char>> {
    match stop_groups(root) {
        Ok(groups) => Ok(managed_places(groups)),
        Err(error) => Err(error),
    }
}

/// Finds the managed handlers of a file.
pub fn managed_handlers(root: &Value) -> (result: Result<Vec<(usize, usize)>, String>)
    ensures
        places_outcome(result) == places_in_file(json_of(*root)),
{
    let mut places: Vec<(usize, usize)> = Vec::new();
    let groups = match groups_in(root) {
        Ok(Some(groups)) => groups,
        Ok(None) => {
            assert(place_views(places@) =~= seq![]);
            return Ok(places);
        },
        Err(error) => return Err(error),
    };
    let ghost views = jsons_of(groups@);
    let mut index: usize = 0;
    assert(views.take(0) =~= seq![]);
    assert(place_views(places@) =~= managed_places(views.take(0)));
    while index < groups.len()
        invariant
            index <= groups@.len(),
            views == jsons_of(groups@),
            place_views(places@) == managed_places(views.take(index as int)),
        decreases groups@.len() - index,
    {
        proof {
            let now = views.take(index + 1);
            assert(now.drop_last() =~= views.take(index as int));
            assert(now.last() == json_of(groups@[index as int]));
        }
        if let Some(handlers) = handlers_in(&groups[index]) {
            push_places(&mut places, handlers, index);
        }
        index = index + 1;
    }
    assert(views.take(index as int) =~= views);
    Ok(places)
}

/// The key under which Codex keeps the state of one handler.
pub open spec fn state_key(hook_path: Seq<char>, place: (nat, nat)) -> Seq<char> {
    hook_path + ":stop:"@ + decimal(place.0) + ":"@ + decimal(place.1)
}

/// The keys under which Codex keeps the state of some handlers.
pub open spec fn state_keys(hook_path: Seq<char>, places: Seq<(nat, nat)>) -> Seq<Seq<char>> {
    places.map_values(|place: (nat, nat)| state_key(hook_path, place))
}

/// The keys under which Codex keeps the state of the managed handlers of a file.
pub open spec fn keys_in_file(root: JsonView, hook_path: Seq<char>) -> Result<
    Seq<Seq<char>>,
    Seq<char>,
> {
    match places_in_file(root) {
        Ok(places) => Ok(state_keys(hook_path, places)),
        Err(error) => Err(error),
    }
}

/// The views of some texts or of an error.
pub open spec fn texts_outcome(result: Result<Vec<String>, String>) -> Result<
    Seq<Seq<char>>,
    Seq<char>,
> {
    match result {
        Ok(list) => Ok(texts(list@)),
        Err(error) => Err(error@),
    }
}

/// The keys under which Codex keeps the state of the managed handlers of a file.
pub fn managed_hook_state_keys(root: &Value, hook_path: &str) -> (result: Result<
    Vec<String>,
    String,
>)
    ensures
        texts_outcome(result) == keys_in_file(json_of(*root), hook_path@),
{
    let places = match managed_handlers(root) {
        Ok(places) => places,
        Err(error) => return Err(error),
    };
    let ghost views = place_views(places@);
    let mut keys: Vec<String> = Vec::new();
    let mut index: usize = 0;
    while index < places.len()
        invariant
            index <= places@.len(),
            views == place_views(places@),
            texts(keys@) == state_keys(hook_path@, views).take(index as int),
        decreases places@.len() - index,
    {
        let mut key = joined(hook_path, ":stop:");
        push_decimal(&mut key, places[index].0 as u64);
        key.append(":");
        push_decimal(&mut key, places[index].1 as u64);
        let ghost before = texts(keys@);
        assert(key@ == state_key(hook_path@, views[index as int]));
        keys.push(key);
        index = index + 1;
        assert(texts(keys@) =~= before.push(key@));
        assert(texts(keys@) =~= state_keys(hook_path@, views).take(index as int));
    }
    assert(texts(keys@) =~= state_keys(hook_path@, views));
    Ok(keys)
}

/// The handler that is managed.
pub open spec fn managed_handler(command: Seq<char>) -> JsonView {
    JsonView::Members(
        Map::<Seq<char>, JsonView>::empty().insert("type"@, JsonView::Text("command"@)).insert(
            "command"@,
            JsonView::Text(command),
        ).insert("timeout"@, JsonView::Unsigned(HOOK_TIMEOUT_SECONDS)).insert(
            "statusMessage"@,
            JsonView::Text(MANAGED_STATUS_MESSAGE@),
        ),
    )
}

/// The group of the handler that is managed.
pub open spec fn managed_group(command: Seq<char>) -> JsonView {
    JsonView::Members(
        Map::<Seq<char>, JsonView>::empty().insert(
            "hooks"@,
            JsonView::List(seq![managed_handler(command)]),
        ),
    )
}

fn managed_hook_group(command: &str) -> (group: Value)
    ensures
        json_of(group) == managed_group(command@),
{
    let mut handler = empty_object();
    put_member(&mut handler, "type", text_value("command"));
    put_member(&mut handler, "command", text_value(command));
    put_member(&mut handler, "timeout", number_value(HOOK_TIMEOUT_SECONDS));
    put_member(&mut handler, "statusMessage", text_value(MANAGED_STATUS_MESSAGE));
    let mut handlers: Vec<Value> = Vec::new();
    handlers.push(handler);
    assert(jsons_of(handlers@) =~= seq![managed_handler(command@)]);
    let mut group = empty_object();
    put_member(&mut group, "hooks", list_value(handlers));
    group
}

/// A hook file that holds nothing but the managed handler.
pub open spec fn managed_file(command: Seq<char>) -> JsonView {
    JsonView::Members(
        Map::<Seq<char>, JsonView>::empty().insert(
            "description"@,
            JsonView::Text(HOOK_DESCRIPTION@),
        ).insert(
            "hooks"@,
            JsonView::Members(
                Map::<Seq<char>, JsonView>::empty().insert(
                    "Stop"@,
                    JsonView::List(seq![managed_group(command)]),
                ),
            ),
        ),
    )
}

/// A hook file that holds nothing but the managed handler.
pub fn managed_hook_config(command: &str) -> (file: Value)
    ensures
        json_of(file) == managed_file(command@),
{
    let mut groups: Vec<Value> = Vec::new();
    groups.push(managed_hook_group(command));
    assert(jsons_of(groups@) =~= seq![managed_group(command@)]);
    let mut hooks = empty_object();
    put_member(&mut hooks, "Stop", list_value(groups));
    let mut file = empty_object();
    put_member(&mut file, "description", text_value(HOOK_DESCRIPTION));
    put_member(&mut file, "hooks", hooks);
    file
}

/// The handlers that are not managed.
pub open spec fn unmanaged(handlers: Seq<JsonView>) -> Seq<JsonView>
    decreases handlers.len(),
{
    if handlers.len() == 0 {
        seq![]
    } else if managed(handlers.last()) {
        unmanaged(handlers.drop_last())
    } else {
        unmanaged(handlers.drop_last()).push(handlers.last())
    }
}

/// A group without its managed handlers. A group that held nothing else goes with them.
pub open spec fn stripped_group(group: JsonView) -> Option<JsonView> {
    match group_handlers(group) {
        Some(handlers) => {
            let kept = unmanaged(handlers);
            if kept.len() == handlers.len() {
                Some(group)
            } else if kept.len() == 0 {
                None
            } else {
                Some(JsonView::Members(group->Members_0.insert("hooks"@, JsonView::List(kept))))
            }
        },
        None => Some(group),
    }
}

/// Some groups without their managed handlers.
pub open spec fn stripped(groups: Seq<JsonView>) -> Seq<JsonView>
    decreases groups.len(),
{
    if groups.len() == 0 {
        seq![]
    } else {
        match stripped_group(groups.last()) {
            Some(group) => stripped(groups.drop_last()).push(group),
            None => stripped(groups.drop_last()),
        }
    }
}

/// A file with other groups for the Stop event; without any the event goes too.
pub open spec fn with_groups(root: JsonView, groups: Seq<JsonView>) -> JsonView {
    let members = root->Members_0;
    let hooks = members["hooks"@]->Members_0;
    JsonView::Members(
        members.insert(
            "hooks"@,
            JsonView::Members(
                if groups.len() == 0 {
                    hooks.remove("Stop"@)
                } else {
                    hooks.insert("Stop"@, JsonView::List(groups))
                },
            ),
        ),
    )
}

/// Whether a file has a list of groups for the Stop event.
pub open spec fn has_stop(root: JsonView) -> bool {
    member(root, "hooks"@) matches Some(hooks) && (member(hooks, "Stop"@) matches Some(stop) && (
    stop is List))
}

/// A file without its managed handlers, and whether there were any.
pub open spec fn removal(root: JsonView) -> Result<(JsonView, bool), Seq<char>> {
    match stop_groups(root) {
        Err(error) => Err(error),
        Ok(groups) => if has_stop(root) {
            Ok((with_groups(root, stripped(groups)), managed_places(groups).len() > 0))
        } else {
            Ok((root, false))
        },
    }
}

fn keep_unmanaged(handlers: Vec<Value>) -> (kept: Vec<Value>)
    ensures
        jsons_of(kept@) == unmanaged(jsons_of(handlers@)),
{
    let mut rest = handlers;
    let ghost views = jsons_of(handlers@);
    let ghost given = handlers@;
    let count: usize = rest.len();
    let mut kept: Vec<Value> = Vec::new();
    let mut index: usize = 0;
    assert(views.take(0) =~= seq![]);
    assert(jsons_of(kept@) =~= seq![]);
    assert(given.skip(0) =~= given);
    while index < count
        invariant
            index <= count,
            count == given.len(),
            views == jsons_of(given),
            rest@ == given.skip(index as int),
            jsons_of(kept@) == unmanaged(views.take(index as int)),
        decreases count - index,
    {
        let handler = rest.remove(0);
        index = index + 1;
        let ghost before = kept@;
        proof {
            let now = views.take(index as int);
            assert(now.drop_last() =~= views.take(index - 1));
            assert(now.last() == json_of(handler));
            assert(rest@ =~= given.skip(index as int));
        }
        if !is_managed_handler(&handler) {
            kept.push(handler);
            assert(jsons_of(kept@) =~= jsons_of(before).push(json_of(handler)));
        }
    }
    assert(views.take(index as int) =~= views);
    kept
}

proof fn lemma_unmanaged_length(handlers: Seq<JsonView>, group: nat)
    ensures
        unmanaged(handlers).len() + places_in_group(handlers, group).len() == handlers.len(),
        unmanaged(handlers).len() == handlers.len() ==> unmanaged(handlers) == handlers,
    decreases handlers.len(),
{
    if handlers.len() > 0 {
        lemma_unmanaged_length(handlers.drop_last(), group);
        if unmanaged(handlers).len() == handlers.len() {
            assert(handlers.drop_last().push(handlers.last()) =~= handlers);
        }
    }
}

fn strip_group(group: Value) -> (result: Option<Value>)
    ensures
        match result {
            Some(kept) => stripped_group(json_of(group)) == Some(json_of(kept)),
            None => stripped_group(json_of(group)) is None,
        },
{
    let count: usize = match handlers_in(&group) {
        Some(handlers) => handlers.len(),
        None => return Some(group),
    };
    let mut group = group;
    let ghost whole = json_of(group);
    if let Some(list) = take_member(&mut group, "hooks") {
        let handlers = list_items(list);
        let ghost views = jsons_of(handlers@);
        let kept = keep_unmanaged(handlers);
        proof {
            lemma_unmanaged_length(views, 0);
            assert(whole->Members_0.remove("hooks"@).insert(
                "hooks"@,
                JsonView::List(jsons_of(kept@)),
            ) =~= whole->Members_0.insert("hooks"@, JsonView::List(jsons_of(kept@))));
            if kept@.len() == count {
                assert(whole->Members_0.insert("hooks"@, JsonView::List(views))
                    =~= whole->Members_0);
            }
        }
        if kept.len() != count && kept.len() == 0 {
            return None;
        }
        put_member(&mut group, "hooks", list_value(kept));
    }
    Some(group)
}

fn strip_groups(groups: Vec<Value>) -> (kept: Vec<Value>)
    ensures
        jsons_of(kept@) == stripped(jsons_of(groups@)),
{
    let mut rest = groups;
    let ghost views = jsons_of(groups@);
    let ghost given = groups@;
    let count: usize = rest.len();
    let mut kept: Vec<Value> = Vec::new();
    let mut index: usize = 0;
    assert(views.take(0) =~= seq![]);
    assert(jsons_of(kept@) =~= seq![]);
    assert(given.skip(0) =~= given);
    while index < count
        invariant
            index <= count,
            count == given.len(),
            views == jsons_of(given),
            rest@ == given.skip(index as int),
            jsons_of(kept@) == stripped(views.take(index as int)),
        decreases count - index,
    {
        let group = rest.remove(0);
        index = index + 1;
        let ghost before = kept@;
        proof {
            let now = views.take(index as int);
            assert(now.drop_last() =~= views.take(index - 1));
            assert(now.last() == json_of(group));
            assert(rest@ =~= given.skip(index as int));
        }
        if let Some(group) = strip_group(group) {
            kept.push(group);
            assert(jsons_of(kept@) =~= jsons_of(before).push(json_of(group)));
        }
    }
    assert(views.take(index as int) =~= views);
    kept
}

/// Takes the managed handlers out of a file, and tells whether there were any. A file that cannot
/// be understood is left as it is.
pub fn remove_managed_hooks(root: &mut Value) -> (result: Result<bool, String>)
    ensures
        match result {
            Ok(removed) => removal(json_of(*old(root))) == Ok::<(JsonView, bool), Seq<char>>(
                (json_of(*final(root)), removed),
            ),
            Err(error) => removal(json_of(*old(root))) == Err::<(JsonView, bool), Seq<char>>(error@)
                && *final(root) == *old(root),
        },
{
    match groups_in(root) {
        Ok(Some(_)) => {},
        Ok(None) => return Ok(false),
        Err(error) => return Err(error),
    }
    let removed = match managed_handlers(root) {
        Ok(places) => places.len() > 0,
        Err(error) => return Err(error),
    };
    let ghost whole = json_of(*root);
    if let Some(hooks) = take_member(root, "hooks") {
        let mut hooks = hooks;
        let ghost inner = json_of(hooks);
        if let Some(stop) = take_member(&mut hooks, "Stop") {
            let kept = strip_groups(list_items(stop));
            if kept.len() > 0 {
                put_member(&mut hooks, "Stop", list_value(kept));
                assert(inner->Members_0.remove("Stop"@).insert(
                    "Stop"@,
                    JsonView::List(jsons_of(kept@)),
                ) =~= inner->Members_0.insert("Stop"@, JsonView::List(jsons_of(kept@))));
            }
        }
        put_member(root, "hooks", hooks);
        assert(whole->Members_0.remove("hooks"@).insert("hooks"@, json_of(hooks))
            =~= whole->Members_0.insert("hooks"@, json_of(hooks)));
    }
    Ok(removed)
}

/// A file with the managed handler put in, as the only one, behind all others.
pub open spec fn merged(root: JsonView, command: Seq<char>) -> Result<JsonView, Seq<char>> {
    match removal(root) {
        Err(error) => Err(error),
        Ok((bare, _)) => {
            let members = if bare->Members_0.contains_key("description"@) {
                bare->Members_0
            } else {
                bare->Members_0.insert("description"@, JsonView::Text(HOOK_DESCRIPTION@))
            };
            let hooks = if members.contains_key("hooks"@) {
                members["hooks"@]->Members_0
            } else {
                Map::<Seq<char>, JsonView>::empty()
            };
            let groups = if hooks.contains_key("Stop"@) {
                hooks["Stop"@]->List_0
            } else {
                seq![]
            };
            Ok(
                JsonView::Members(
                    members.insert(
                        "hooks"@,
                        JsonView::Members(
                            hooks.insert("Stop"@, JsonView::List(groups.push(managed_group(command)))),
                        ),
                    ),
                ),
            )
        },
    }
}

proof fn lemma_keys_differ()
    ensures
        "description"@ != "hooks"@,
{
    reveal_strlit("description");
    reveal_strlit("hooks");
    assert("description"@.len() != "hooks"@.len());
}

proof fn lemma_removal_keeps_shape(root: JsonView)
    requires
        removal(root) is Ok,
    ensures
        removal(root)->Ok_0.0 is Members,
        stop_groups(removal(root)->Ok_0.0) is Ok,
{
}

/// Puts the managed handler into a file, as the only one. A file that cannot be understood is left
/// as it is.
pub fn merge_managed_hook(root: &mut Value, command: &str) -> (result: Result<(), String>)
    ensures
        match result {
            Ok(()) => merged(json_of(*old(root)), command@) == Ok::<JsonView, Seq<char>>(
                json_of(*final(root)),
            ),
            Err(error) => merged(json_of(*old(root)), command@) == Err::<JsonView, Seq<char>>(
                error@,
            ) && *final(root) == *old(root),
        },
{
    match remove_managed_hooks(root) {
        Ok(_) => {},
        Err(error) => return Err(error),
    }
    let ghost bare = json_of(*root);
    proof {
        lemma_keys_differ();
        lemma_removal_keeps_shape(json_of(*old(root)));
    }
    if get_member(root, "description").is_none() {
        put_member(root, "description", text_value(HOOK_DESCRIPTION));
    }
    let ghost described = json_of(*root);
    let mut hooks = match take_member(root, "hooks") {
        Some(hooks) => hooks,
        None => empty_object(),
    };
    let ghost inner = json_of(hooks);
    let mut groups = match take_member(&mut hooks, "Stop") {
        Some(stop) => list_items(stop),
        None => Vec::new(),
    };
    let ghost before = groups@;
    groups.push(managed_hook_group(command));
    assert(jsons_of(groups@) =~= jsons_of(before).push(managed_group(command@)));
    proof {
        if !(member(inner, "Stop"@) is Some) {
            assert(jsons_of(before) =~= seq![]);
        }
    }
    put_member(&mut hooks, "Stop", list_value(groups));
    assert(inner->Members_0.remove("Stop"@).insert("Stop"@, JsonView::List(jsons_of(groups@)))
        =~= inner->Members_0.insert("Stop"@, JsonView::List(jsons_of(groups@))));
    put_member(root, "hooks", hooks);
    assert(described->Members_0.remove("hooks"@).insert("hooks"@, json_of(hooks))
        =~= described->Members_0.insert("hooks"@, json_of(hooks)));
    Ok(())
}

/// Whether a file holds nothing but what setup may have put there.
pub open spec fn empty_file(root: JsonView) -> bool {
    root matches JsonView::Members(members) && forall|key: Seq<char>|
        #[trigger] members.contains_key(key) ==> (key == "description"@ && members[key]
            == JsonView::Text(HOOK_DESCRIPTION@)) || (key == "hooks"@ && members[key]
            == JsonView::Members(Map::<Seq<char>, JsonView>::empty()))
}

/// Whether a member of a file is the description that setup gives.
pub open spec fn own_description(root: JsonView) -> bool {
    member(root, "description"@) == Some(JsonView::Text(HOOK_DESCRIPTION@))
}

/// Whether a member of a file is an object without hooks.
pub open spec fn no_hooks(root: JsonView) -> bool {
    member(root, "hooks"@) == Some(JsonView::Members(Map::<Seq<char>, JsonView>::empty()))
}

proof fn lemma_empty_file(root: JsonView, own: nat)
    requires
        root is Members,
        root->Members_0.dom().finite(),
        own == (if own_description(root) {
            1nat
        } else {
            0
        }) + (if no_hooks(root) {
            1nat
        } else {
            0
        }),
    ensures
        empty_file(root) == (root->Members_0.dom().len() == own),
{
    lemma_keys_differ();
    let members = root->Members_0;
    let mine = Set::<Seq<char>>::empty();
    let mine = if own_description(root) {
        mine.insert("description"@)
    } else {
        mine
    };
    let mine = if no_hooks(root) {
        mine.insert("hooks"@)
    } else {
        mine
    };
    assert(mine.len() == own);
    assert(mine.subset_of(members.dom()));
    if empty_file(root) {
        assert forall|key: Seq<char>| members.contains_key(key) implies mine.contains(key) by {}
        assert(mine =~= members.dom());
    }
    if members.dom().len() == own {
        lemma_subset_equality(mine, members.dom());
        assert forall|key: Seq<char>| #[trigger] members.contains_key(key) implies (key
            == "description"@ && members[key] == JsonView::Text(HOOK_DESCRIPTION@)) || (key
            == "hooks"@ && members[key] == JsonView::Members(
            Map::<Seq<char>, JsonView>::empty(),
        )) by {
            assert(members.dom().contains(key));
            assert(mine.contains(key));
        }
    }
}

/// Whether a file holds nothing but what setup may have put there.
pub fn is_empty_managed_hook_file(root: &Value) -> (result: bool)
    ensures
        result == empty_file(json_of(*root)),
{
    if !root.is_object() {
        return false;
    }
    let described = match get_member(root, "description") {
        Some(description) => match description.as_str() {
            Some(text) => same_text(text, HOOK_DESCRIPTION),
            None => false,
        },
        None => false,
    };
    let unhooked = match get_member(root, "hooks") {
        Some(hooks) => {
            if hooks.is_object() {
                let count = count_members(hooks);
                proof {
                    let inner = json_of(*hooks)->Members_0;
                    if count == 0 {
                        assert(inner.dom() =~= Set::empty());
                        assert(inner =~= Map::<Seq<char>, JsonView>::empty());
                    } else {
                        assert(Map::<Seq<char>, JsonView>::empty().dom().len() == 0);
                    }
                }
                count == 0
            } else {
                false
            }
        },
        None => false,
    };
    let count = count_members(root);
    let own: usize = match (described, unhooked) {
        (true, true) => 2,
        (false, false) => 0,
        _ => 1,
    };
    proof {
        lemma_empty_file(json_of(*root), own as nat);
    }
    count == own
}

proof fn lemma_unmanaged(handlers: Seq<JsonView>, group: nat)
    ensures
        places_in_group(unmanaged(handlers), group).len() == 0,
        forall|i: int| 0 <= i < unmanaged(handlers).len() ==> !managed(#[trigger] unmanaged(handlers)[i]),
    decreases handlers.len(),
{
    if handlers.len() > 0 {
        lemma_unmanaged(handlers.drop_last(), group);
        if !managed(handlers.last()) {
            let kept = unmanaged(handlers.drop_last()).push(handlers.last());
            assert(kept.drop_last() =~= unmanaged(handlers.drop_last()));
        }
    }
}

proof fn lemma_stripped_group(group: JsonView, index: nat)
    ensures
        stripped_group(group) matches Some(kept) ==> (group_handlers(kept) matches Some(handlers)
            ==> places_in_group(handlers, index).len() == 0 && unmanaged(handlers) == handlers),
{
    if let Some(handlers) = group_handlers(group) {
        lemma_unmanaged_length(handlers, index);
        lemma_unmanaged(handlers, index);
        lemma_unmanaged_length(unmanaged(handlers), index);
    }
}

proof fn lemma_stripped(groups: Seq<JsonView>)
    ensures
        managed_places(stripped(groups)).len() == 0,
        stripped(stripped(groups)) == stripped(groups),
    decreases groups.len(),
{
    if groups.len() > 0 {
        let rest = groups.drop_last();
        lemma_stripped(rest);
        if let Some(group) = stripped_group(groups.last()) {
            let kept = stripped(rest).push(group);
            assert(kept.drop_last() =~= stripped(rest));
            lemma_stripped_group(groups.last(), (kept.len() - 1) as nat);
            assert(stripped_group(group) == Some(group));
        }
    }
}

proof fn lemma_managed_group(command: Seq<char>, index: nat)
    ensures
        managed(managed_handler(command)),
        group_handlers(managed_group(command)) == Some(seq![managed_handler(command)]),
        places_in_group(seq![managed_handler(command)], index) == seq![(index, 0nat)],
        stripped_group(managed_group(command)) is None,
{
    let handlers = seq![managed_handler(command)];
    assert(handlers.drop_last() =~= seq![]);
    assert(places_in_group(handlers.drop_last(), index) =~= seq![]);
    assert(places_in_group(handlers, index) =~= seq![(index, 0nat)]);
    assert(unmanaged(handlers.drop_last()) =~= seq![]);
    assert(unmanaged(handlers) =~= seq![]);
}

/// Groups without managed handlers and then the managed group hold one managed handler, and lose
/// nothing but it when they are stripped again.
pub proof fn lemma_merged_groups(groups: Seq<JsonView>, command: Seq<char>)
    ensures
        managed_places(stripped(groups).push(managed_group(command))) == seq![
            (stripped(groups).len(), 0nat),
        ],
        stripped(stripped(groups).push(managed_group(command))) == stripped(groups),
{
    lemma_stripped(groups);
    let kept = stripped(groups);
    let all = kept.push(managed_group(command));
    lemma_managed_group(command, kept.len());
    assert(all.drop_last() =~= kept);
    assert(managed_places(kept) =~= seq![]);
    assert(managed_places(all) =~= seq![(kept.len(), 0nat)]);
}

/// What setup leaves of a hook file: its Stop groups are the former ones without their managed
/// handlers, and then the managed group; every other event and every other member is kept.
pub proof fn setup_keeps_other_hooks(root: JsonView, command: Seq<char>)
    requires
        merged(root, command) is Ok,
    ensures
        ({
            let file = merged(root, command)->Ok_0;
            &&& stop_groups(root) is Ok
            &&& stop_groups(file) == Ok::<Seq<JsonView>, Seq<char>>(
                stripped(stop_groups(root)->Ok_0).push(managed_group(command)),
            )
            &&& file is Members
            &&& forall|key: Seq<char>|
                #![trigger member(file, key)]
                key != "hooks"@ && member(root, key) is Some ==> member(file, key) == member(
                    root,
                    key,
                )
            &&& forall|key: Seq<char>|
                #![trigger member(file, key)]
                key != "hooks"@ && key != "description"@ && member(root, key) is None ==> member(
                    file,
                    key,
                ) is None
            &&& forall|event: Seq<char>|
                #![trigger member(member(file, "hooks"@)->0, event)]
                event != "Stop"@ ==> member(member(file, "hooks"@)->0, event) == (match member(
                    root,
                    "hooks"@,
                ) {
                    Some(hooks) => member(hooks, event),
                    None => None,
                })
        }),
{
    lemma_keys_differ();
    lemma_removal_keeps_shape(root);
    let kept = stripped(stop_groups(root)->Ok_0);
    if kept.len() == 0 {
        assert(kept =~= seq![]);
    }
}

/// Setup owns exactly one handler.
pub proof fn setup_leaves_one_managed_handler(root: JsonView, command: Seq<char>)
    requires
        merged(root, command) is Ok,
    ensures
        places_in_file(merged(root, command)->Ok_0) matches Ok(places) && places.len() == 1,
{
    setup_keeps_other_hooks(root, command);
    lemma_merged_groups(stop_groups(root)->Ok_0, command);
}

/// Setting up twice changes nothing.
pub proof fn setup_is_idempotent(root: JsonView, command: Seq<char>)
    requires
        merged(root, command) is Ok,
    ensures
        merged(merged(root, command)->Ok_0, command) == merged(root, command),
{
    lemma_keys_differ();
    setup_keeps_other_hooks(root, command);
    let file = merged(root, command)->Ok_0;
    let groups = stop_groups(root)->Ok_0;
    lemma_merged_groups(groups, command);
    lemma_removal_keeps_shape(root);
    lemma_removal_keeps_shape(file);
    let again = merged(file, command)->Ok_0;
    let hooks = file->Members_0["hooks"@]->Members_0;
    let bare = removal(file)->Ok_0.0;
    assert(has_stop(file));
    let kept = stripped(groups);
    assert(bare == with_groups(file, kept));
    assert(bare->Members_0.contains_key("description"@));
    if kept.len() == 0 {
        assert(hooks.remove("Stop"@).insert("Stop"@, JsonView::List(kept.push(managed_group(command))))
            =~= hooks);
        assert(seq![].push(managed_group(command)) =~= kept.push(managed_group(command)));
    } else {
        assert(hooks.insert("Stop"@, JsonView::List(kept)).insert(
            "Stop"@,
            JsonView::List(kept.push(managed_group(command))),
        ) =~= hooks);
    }
    assert(again->Members_0 =~= file->Members_0);
}

/// Removing the managed handlers leaves none behind, keeps every other handler in its place, and
/// touches no other event and no other member.
pub proof fn removal_keeps_other_hooks(root: JsonView)
    requires
        removal(root) is Ok,
    ensures
        ({
            let bare = removal(root)->Ok_0.0;
            &&& stop_groups(bare) == Ok::<Seq<JsonView>, Seq<char>>(
                stripped(stop_groups(root)->Ok_0),
            )
            &&& places_in_file(bare) matches Ok(places) && places.len() == 0
            &&& forall|key: Seq<char>|
                #![trigger member(bare, key)]
                key != "hooks"@ ==> member(bare, key) == member(root, key)
            &&& forall|event: Seq<char>|
                #![trigger member(member(bare, "hooks"@)->0, event)]
                member(root, "hooks"@) is Some && event != "Stop"@ ==> member(
                    member(bare, "hooks"@)->0,
                    event,
                ) == member(member(root, "hooks"@)->0, event)
        }),
{
    lemma_stripped(stop_groups(root)->Ok_0);
    if !has_stop(root) {
        assert(stripped(seq![]) =~= seq![]);
        assert(managed_places(seq![]) =~= seq![]);
    }
}

/// What setup put in, removal takes out: the Stop groups are again the former ones without their
/// managed handlers.
pub proof fn removal_undoes_setup(root: JsonView, command: Seq<char>)
    requires
        merged(root, command) is Ok,
    ensures
        removal(merged(root, command)->Ok_0) matches Ok((bare, removed)) && removed && stop_groups(
            bare,
        ) == Ok::<Seq<JsonView>, Seq<char>>(stripped(stop_groups(root)->Ok_0)),
{
    setup_keeps_other_hooks(root, command);
    lemma_merged_groups(stop_groups(root)->Ok_0, command);
    lemma_removal_keeps_shape(root);
    removal_keeps_other_hooks(merged(root, command)->Ok_0);
}

proof fn lemma_unmanaged_groups(groups: Seq<JsonView>)
    requires
        managed_places(groups).len() == 0,
    ensures
        stripped(groups) == groups,
    decreases groups.len(),
{
    if groups.len() > 0 {
        let rest = groups.drop_last();
        lemma_unmanaged_groups(rest);
        if let Some(handlers) = group_handlers(groups.last()) {
            lemma_unmanaged_length(handlers, (groups.len() - 1) as nat);
        }
        assert(rest.push(groups.last()) =~= groups);
    }
}

/// Whether a file is one that setup and removal leave as it was: it has a description, groups for
/// the Stop event, and no managed handler.
pub open spec fn is_foreign(root: JsonView) -> bool {
    &&& member(root, "description"@) is Some
    &&& has_stop(root)
    &&& stop_groups(root) matches Ok(groups) && groups.len() > 0 && managed_places(groups).len()
        == 0
}

/// Setting up and removing leaves the whole file as it was: every group, handler and event, and
/// every other member.
pub proof fn removal_restores_the_file(root: JsonView, command: Seq<char>)
    requires
        is_foreign(root),
    ensures
        removal(root) == Ok::<(JsonView, bool), Seq<char>>((root, false)),
        merged(root, command) is Ok,
        merged(root, command)->Ok_0 != root,
        removal(merged(root, command)->Ok_0) == Ok::<(JsonView, bool), Seq<char>>((root, true)),
{
    lemma_keys_differ();
    let groups = stop_groups(root)->Ok_0;
    lemma_unmanaged_groups(groups);
    let members = root->Members_0;
    let hooks = members["hooks"@]->Members_0;
    assert(hooks.insert("Stop"@, JsonView::List(groups)) =~= hooks);
    assert(members.insert("hooks"@, JsonView::Members(hooks)) =~= members);
    assert(removal(root) == Ok::<(JsonView, bool), Seq<char>>((root, false)));
    setup_keeps_other_hooks(root, command);
    setup_leaves_one_managed_handler(root, command);
    lemma_merged_groups(groups, command);
    let file = merged(root, command)->Ok_0;
    let all = groups.push(managed_group(command));
    assert(has_stop(file));
    assert(hooks.insert("Stop"@, JsonView::List(all)).insert("Stop"@, JsonView::List(groups))
        =~= hooks);
    assert(with_groups(file, groups)->Members_0 =~= members);
}

} // verus!
