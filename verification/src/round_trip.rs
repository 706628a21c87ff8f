//! What is written of a message is read back as the same message.

use crate::json::{member_of, JsonValue};
use crate::message::{
    action_name, action_of, decoded_item, decoded_items, decoded_list, decoded_lists,
    decoded_request_list, decoded_request_update, decoded_response, download_of, download_tree,
    item_keys, item_tree, item_trees, list_keys, list_tree, list_trees, lists_member,
    optional_member, optional_text, request_list_keys, request_list_tree, request_update_keys,
    request_update_tree, required_id, required_text, response_tree, status_name, status_of,
    token_of, DownloadView, ItemView, ListView, RequestUpdateView, ResponseView,
    SoftwareRequestList,
};
use crate::smartrest::text_member;
use crate::software::SoftwareModuleAction;
use crate::text::{ascii, decimal, lemma_decimal_round_trip};
use vstd::prelude::*;
use vstd::string::*;

verus! {

/// A member is looked up in the first of two runs of members, then in the
/// second.
pub proof fn lemma_member_of_joined(
    first: Seq<(Seq<u8>, JsonValue)>,
    second: Seq<(Seq<u8>, JsonValue)>,
    key: Seq<u8>,
)
    ensures
        member_of(first + second, key) == (match member_of(first, key) {
            Some(value) => Some(value),
            None => member_of(second, key),
        }),
    decreases first.len(),
{
    if first.len() == 0 {
        assert(first + second =~= second);
    } else {
        assert((first + second)[0] == first[0]);
        assert((first + second).drop_first() =~= first.drop_first() + second);
        if first[0].0 != key {
            lemma_member_of_joined(first.drop_first(), second, key);
        }
    }
}

/// A member that may be absent is found under its own name only.
pub proof fn lemma_member_of_optional(name: Seq<u8>, value: Option<JsonValue>, key: Seq<u8>)
    ensures
        member_of(optional_member(name, value), key) == (if name == key {
            value
        } else {
            None
        }),
{
    match value {
        Some(v) => {
            let members = optional_member(name, value);
            assert(members.drop_first() =~= Seq::empty());
            assert(member_of(members.drop_first(), key) is None);
        },
        None => {},
    }
}

proof fn lemma_member_of_one(name: Seq<u8>, value: JsonValue, key: Seq<u8>)
    ensures
        member_of(seq![(name, value)], key) == (if name == key {
            Some(value)
        } else {
            None
        }),
{
    lemma_member_of_optional(name, Some(value), key);
}

/// The names of the members, told apart.
proof fn lemma_names_differ()
    ensures
        ascii("name"@) != ascii("version"@),
        ascii("name"@) != ascii("action"@),
        ascii("name"@) != ascii("url"@),
        ascii("name"@) != ascii("reason"@),
        ascii("version"@) != ascii("action"@),
        ascii("version"@) != ascii("url"@),
        ascii("version"@) != ascii("reason"@),
        ascii("action"@) != ascii("url"@),
        ascii("action"@) != ascii("reason"@),
        ascii("url"@) != ascii("reason"@),
        ascii("url"@) != ascii("auth"@),
        ascii("type"@) != ascii("token"@),
        ascii("type"@) != ascii("list"@),
        ascii("id"@) != ascii("updateList"@),
        ascii("id"@) != ascii("status"@),
        ascii("id"@) != ascii("reason"@),
        ascii("id"@) != ascii("currentSoftwareList"@),
        ascii("id"@) != ascii("failures"@),
        ascii("status"@) != ascii("reason"@),
        ascii("status"@) != ascii("currentSoftwareList"@),
        ascii("status"@) != ascii("failures"@),
        ascii("reason"@) != ascii("currentSoftwareList"@),
        ascii("reason"@) != ascii("failures"@),
        ascii("currentSoftwareList"@) != ascii("failures"@),
        ascii("install"@) != ascii("remove"@),
        ascii("successful"@) != ascii("failed"@),
        ascii("successful"@) != ascii("executing"@),
        ascii("failed"@) != ascii("executing"@),
{
    reveal_strlit("name");
    reveal_strlit("version");
    reveal_strlit("action");
    reveal_strlit("url");
    reveal_strlit("reason");
    reveal_strlit("auth");
    reveal_strlit("type");
    reveal_strlit("token");
    reveal_strlit("list");
    reveal_strlit("id");
    reveal_strlit("updateList");
    reveal_strlit("status");
    reveal_strlit("currentSoftwareList");
    reveal_strlit("failures");
    reveal_strlit("install");
    reveal_strlit("remove");
    reveal_strlit("successful");
    reveal_strlit("failed");
    reveal_strlit("executing");
    assert(ascii("name"@).len() == 4);
    assert(ascii("version"@).len() == 7);
    assert(ascii("action"@).len() == 6);
    assert(ascii("url"@).len() == 3);
    assert(ascii("reason"@).len() == 6);
    assert(ascii("auth"@).len() == 4);
    assert(ascii("type"@).len() == 4);
    assert(ascii("token"@).len() == 5);
    assert(ascii("list"@).len() == 4);
    assert(ascii("id"@).len() == 2);
    assert(ascii("updateList"@).len() == 10);
    assert(ascii("status"@).len() == 6);
    assert(ascii("currentSoftwareList"@).len() == 19);
    assert(ascii("failures"@).len() == 8);
    assert(ascii("install"@).len() == 7);
    assert(ascii("remove"@).len() == 6);
    assert(ascii("successful"@).len() == 10);
    assert(ascii("failed"@).len() == 6);
    assert(ascii("executing"@).len() == 9);
    assert(ascii("action"@)[0] != ascii("reason"@)[0]);
    assert(ascii("type"@)[0] != ascii("list"@)[0]);
    assert(ascii("status"@)[0] != ascii("reason"@)[0]);
    assert(ascii("name"@)[0] != ascii("auth"@)[0]);
}

proof fn lemma_id_round_trip(id: usize, rest: Seq<(Seq<u8>, JsonValue)>)
    ensures
        required_id(
            JsonValue::Object(seq![(ascii("id"@), JsonValue::Number(decimal(id as nat)))] + rest),
        ) == Some(id),
{
    lemma_decimal_round_trip(id as nat);
    let first = seq![(ascii("id"@), JsonValue::Number(decimal(id as nat)))];
    lemma_member_of_joined(first, rest, ascii("id"@));
    lemma_member_of_one(ascii("id"@), JsonValue::Number(decimal(id as nat)), ascii("id"@));
}

/// A request for the software list is read back as it was written.
pub proof fn lemma_request_list_round_trip(request: SoftwareRequestList)
    ensures
        decoded_request_list(request_list_tree(request)) == Some(request),
{
    let members = seq![(ascii("id"@), JsonValue::Number(decimal(request.id as nat)))];
    lemma_id_round_trip(request.id, Seq::empty());
    assert(members + Seq::<(Seq<u8>, JsonValue)>::empty() =~= members);
    assert forall|i: int| 0 <= i < members.len() implies request_list_keys().contains(
        (#[trigger] members[i]).0,
    ) by {
        assert(request_list_keys()[0] == ascii("id"@));
    }
}

/// An address is read back as it was written.
pub proof fn lemma_download_round_trip(
    before: Seq<(Seq<u8>, JsonValue)>,
    info: Option<DownloadView>,
    after: Seq<(Seq<u8>, JsonValue)>,
)
    requires
        member_of(before, ascii("url"@)) is None,
    ensures
        download_of(
            JsonValue::Object(
                before + optional_member(
                    ascii("url"@),
                    match info {
                        Some(u) => Some(download_tree(u)),
                        None => None,
                    },
                ) + after,
            ),
        ) == (match info {
            Some(u) => Ok::<Option<DownloadView>, ()>(Some(u)),
            None => download_of(JsonValue::Object(after)),
        }),
{
    lemma_names_differ();
    let url = ascii("url"@);
    let held = match info {
        Some(u) => Some(download_tree(u)),
        None => None,
    };
    let middle = optional_member(url, held);
    lemma_member_of_joined(before + middle, after, url);
    lemma_member_of_joined(before, middle, url);
    lemma_member_of_optional(url, held, url);
    match info {
        Some(u) => {
            match u.auth {
                Some(token) => {
                    let auth = JsonValue::Object(
                        seq![
                            (ascii("type"@), JsonValue::Text(ascii("Bearer"@))),
                            (ascii("token"@), JsonValue::Text(token)),
                        ],
                    );
                    let inner = seq![(url, JsonValue::Text(u.url)), (ascii("auth"@), auth)];
                    assert(inner =~= seq![(url, JsonValue::Text(u.url))] + seq![
                        (ascii("auth"@), auth),
                    ]);
                    lemma_member_of_joined(
                        seq![(url, JsonValue::Text(u.url))],
                        seq![(ascii("auth"@), auth)],
                        url,
                    );
                    lemma_member_of_joined(
                        seq![(url, JsonValue::Text(u.url))],
                        seq![(ascii("auth"@), auth)],
                        ascii("auth"@),
                    );
                    lemma_member_of_one(url, JsonValue::Text(u.url), url);
                    lemma_member_of_one(url, JsonValue::Text(u.url), ascii("auth"@));
                    lemma_member_of_one(ascii("auth"@), auth, ascii("auth"@));
                    let held_auth = seq![
                        (ascii("type"@), JsonValue::Text(ascii("Bearer"@))),
                        (ascii("token"@), JsonValue::Text(token)),
                    ];
                    assert(held_auth =~= seq![
                        (ascii("type"@), JsonValue::Text(ascii("Bearer"@))),
                    ] + seq![(ascii("token"@), JsonValue::Text(token))]);
                    lemma_member_of_joined(
                        seq![(ascii("type"@), JsonValue::Text(ascii("Bearer"@)))],
                        seq![(ascii("token"@), JsonValue::Text(token))],
                        ascii("token"@),
                    );
                    lemma_member_of_one(
                        ascii("type"@),
                        JsonValue::Text(ascii("Bearer"@)),
                        ascii("token"@),
                    );
                    lemma_member_of_one(
                        ascii("token"@),
                        JsonValue::Text(token),
                        ascii("token"@),
                    );
                    assert(token_of(JsonValue::Object(inner)) == Ok::<Option<Seq<u8>>, ()>(
                        Some(token),
                    ));
                    assert(required_text(JsonValue::Object(inner), url) == Some(u.url));
                },
                None => {},
            }
        },
        None => {},
    }
}

/// A module is read back as it was written.
pub proof fn lemma_item_round_trip(item: ItemView)
    ensures
        decoded_item(item_tree(item)) == Some(item),
{
    lemma_names_differ();
    let name = seq![(ascii("name"@), JsonValue::Text(item.name))];
    let version = optional_member(ascii("version"@), optional_text(item.version));
    let action_value = match item.action {
        Some(a) => Some(JsonValue::Text(action_name(a))),
        None => None,
    };
    let action = optional_member(ascii("action"@), action_value);
    let url_value = match item.url {
        Some(u) => Some(download_tree(u)),
        None => None,
    };
    let url = optional_member(ascii("url"@), url_value);
    let reason = optional_member(ascii("reason"@), optional_text(item.reason));
    let members = name + version + action + url + reason;
    let tree = JsonValue::Object(members);
    assert(item_tree(item) == tree);

    assert forall|key: Seq<u8>|
        member_of(members, key) == (if key == ascii("name"@) {
            Some(JsonValue::Text(item.name))
        } else if key == ascii("version"@) {
            optional_text(item.version)
        } else if key == ascii("action"@) {
            action_value
        } else if key == ascii("url"@) {
            url_value
        } else if key == ascii("reason"@) {
            optional_text(item.reason)
        } else {
            None
        }) by {
        lemma_member_of_joined(name + version + action + url, reason, key);
        lemma_member_of_joined(name + version + action, url, key);
        lemma_member_of_joined(name + version, action, key);
        lemma_member_of_joined(name, version, key);
        lemma_member_of_one(ascii("name"@), JsonValue::Text(item.name), key);
        lemma_member_of_optional(ascii("version"@), optional_text(item.version), key);
        lemma_member_of_optional(ascii("action"@), action_value, key);
        lemma_member_of_optional(ascii("url"@), url_value, key);
        lemma_member_of_optional(ascii("reason"@), optional_text(item.reason), key);
    }
    assert(required_text(tree, ascii("name"@)) == Some(item.name));
    assert(text_member(tree, ascii("version"@)) == Ok::<Option<Seq<u8>>, ()>(item.version));
    assert(text_member(tree, ascii("reason"@)) == Ok::<Option<Seq<u8>>, ()>(item.reason));
    assert(action_of(tree) == Ok::<Option<SoftwareModuleAction>, ()>(item.action)) by {
        reveal_strlit("install");
        reveal_strlit("remove");
    }
    assert(download_of(tree) == Ok::<Option<DownloadView>, ()>(item.url)) by {
        let key = ascii("url"@);
        lemma_member_of_joined(name + version, action, key);
        lemma_member_of_joined(name, version, key);
        lemma_member_of_one(ascii("name"@), JsonValue::Text(item.name), key);
        lemma_member_of_optional(ascii("version"@), optional_text(item.version), key);
        lemma_member_of_optional(ascii("action"@), action_value, key);
        lemma_member_of_optional(ascii("reason"@), optional_text(item.reason), key);
        lemma_download_round_trip(name + version + action, item.url, reason);
    }
    assert forall|i: int| 0 <= i < members.len() implies item_keys().contains(
        (#[trigger] members[i]).0,
    ) by {
        let keys = item_keys();
        assert(keys[0] == ascii("name"@));
        assert(keys[1] == ascii("version"@));
        assert(keys[2] == ascii("action"@));
        assert(keys[3] == ascii("url"@));
        assert(keys[4] == ascii("reason"@));
    }
}

/// The modules of a list are read back as they were written.
pub proof fn lemma_items_round_trip(items: Seq<ItemView>, n: nat)
    requires
        n <= items.len(),
    ensures
        decoded_items(item_trees(items), n) == Some(items.subrange(0, n as int)),
    decreases n,
{
    if n == 0 {
        assert(items.subrange(0, 0) =~= Seq::empty());
    } else {
        lemma_items_round_trip(items, (n - 1) as nat);
        lemma_item_round_trip(items[n - 1]);
        assert(items.subrange(0, n - 1).push(items[n - 1]) =~= items.subrange(0, n as int));
    }
}

/// The modules of one type are read back as they were written.
pub proof fn lemma_list_round_trip(list: ListView)
    ensures
        decoded_list(list_tree(list)) == Some(list),
{
    lemma_names_differ();
    let kind = seq![(ascii("type"@), JsonValue::Text(list.plugin_type))];
    let held = seq![(ascii("list"@), JsonValue::Array(item_trees(list.list)))];
    let members = kind + held;
    assert(list_tree(list) == JsonValue::Object(members)) by {
        assert(members =~= seq![
            (ascii("type"@), JsonValue::Text(list.plugin_type)),
            (ascii("list"@), JsonValue::Array(item_trees(list.list))),
        ]);
    }
    lemma_member_of_joined(kind, held, ascii("type"@));
    lemma_member_of_joined(kind, held, ascii("list"@));
    lemma_member_of_one(ascii("type"@), JsonValue::Text(list.plugin_type), ascii("type"@));
    lemma_member_of_one(ascii("type"@), JsonValue::Text(list.plugin_type), ascii("list"@));
    lemma_member_of_one(
        ascii("list"@),
        JsonValue::Array(item_trees(list.list)),
        ascii("list"@),
    );
    lemma_items_round_trip(list.list, list.list.len());
    assert(list.list.subrange(0, list.list.len() as int) =~= list.list);
    assert forall|i: int| 0 <= i < members.len() implies list_keys().contains(
        (#[trigger] members[i]).0,
    ) by {
        assert(list_keys()[0] == ascii("type"@));
        assert(list_keys()[1] == ascii("list"@));
    }
}

/// Lists are read back as they were written.
pub proof fn lemma_lists_round_trip(lists: Seq<ListView>, n: nat)
    requires
        n <= lists.len(),
    ensures
        decoded_lists(list_trees(lists), n) == Some(lists.subrange(0, n as int)),
    decreases n,
{
    if n == 0 {
        assert(lists.subrange(0, 0) =~= Seq::empty());
    } else {
        lemma_lists_round_trip(lists, (n - 1) as nat);
        lemma_list_round_trip(lists[n - 1]);
        assert(lists.subrange(0, n - 1).push(lists[n - 1]) =~= lists.subrange(0, n as int));
    }
}

/// A request for an update is read back as it was written.
pub proof fn lemma_request_update_round_trip(request: RequestUpdateView)
    ensures
        decoded_request_update(request_update_tree(request)) == Some(request),
{
    lemma_names_differ();
    let id = seq![(ascii("id"@), JsonValue::Number(decimal(request.id as nat)))];
    let lists = seq![(ascii("updateList"@), JsonValue::Array(list_trees(request.update_list)))];
    let members = id + lists;
    assert(request_update_tree(request) == JsonValue::Object(members)) by {
        assert(members =~= seq![
            (ascii("id"@), JsonValue::Number(decimal(request.id as nat))),
            (ascii("updateList"@), JsonValue::Array(list_trees(request.update_list))),
        ]);
    }
    lemma_id_round_trip(request.id, lists);
    lemma_member_of_joined(id, lists, ascii("updateList"@));
    lemma_member_of_one(
        ascii("id"@),
        JsonValue::Number(decimal(request.id as nat)),
        ascii("updateList"@),
    );
    lemma_member_of_one(
        ascii("updateList"@),
        JsonValue::Array(list_trees(request.update_list)),
        ascii("updateList"@),
    );
    lemma_lists_round_trip(request.update_list, request.update_list.len());
    assert(request.update_list.subrange(0, request.update_list.len() as int)
        =~= request.update_list);
    assert forall|i: int| 0 <= i < members.len() implies request_update_keys().contains(
        (#[trigger] members[i]).0,
    ) by {
        assert(request_update_keys()[0] == ascii("id"@));
        assert(request_update_keys()[1] == ascii("updateList"@));
    }
}

/// An answer is read back as it was written.
pub proof fn lemma_response_round_trip(response: ResponseView)
    ensures
        decoded_response(response_tree(response)) == Some(response),
{
    lemma_names_differ();
    let id = seq![(ascii("id"@), JsonValue::Number(decimal(response.id as nat)))];
    let status = seq![(ascii("status"@), JsonValue::Text(status_name(response.status)))];
    let reason = optional_member(ascii("reason"@), optional_text(response.reason));
    let current_value = JsonValue::Array(list_trees(response.current_software_list));
    let current = seq![(ascii("currentSoftwareList"@), current_value)];
    let failures_value = if response.failures.len() == 0 {
        None
    } else {
        Some(JsonValue::Array(list_trees(response.failures)))
    };
    let failures = optional_member(ascii("failures"@), failures_value);
    let members = id + status + reason + current + failures;
    let tree = JsonValue::Object(members);
    assert(response_tree(response) == tree) by {
        assert(id + status =~= seq![
            (ascii("id"@), JsonValue::Number(decimal(response.id as nat))),
            (ascii("status"@), JsonValue::Text(status_name(response.status))),
        ]);
    }
    assert forall|key: Seq<u8>|
        member_of(members, key) == (if key == ascii("id"@) {
            Some(JsonValue::Number(decimal(response.id as nat)))
        } else if key == ascii("status"@) {
            Some(JsonValue::Text(status_name(response.status)))
        } else if key == ascii("reason"@) {
            optional_text(response.reason)
        } else if key == ascii("currentSoftwareList"@) {
            Some(current_value)
        } else if key == ascii("failures"@) {
            failures_value
        } else {
            None
        }) by {
        lemma_member_of_joined(id + status + reason + current, failures, key);
        lemma_member_of_joined(id + status + reason, current, key);
        lemma_member_of_joined(id + status, reason, key);
        lemma_member_of_joined(id, status, key);
        lemma_member_of_one(
            ascii("id"@),
            JsonValue::Number(decimal(response.id as nat)),
            key,
        );
        lemma_member_of_one(
            ascii("status"@),
            JsonValue::Text(status_name(response.status)),
            key,
        );
        lemma_member_of_optional(ascii("reason"@), optional_text(response.reason), key);
        lemma_member_of_one(ascii("currentSoftwareList"@), current_value, key);
        lemma_member_of_optional(ascii("failures"@), failures_value, key);
    }
    lemma_decimal_round_trip(response.id as nat);
    assert(required_id(tree) == Some(response.id));
    assert(status_of(tree) == Some(response.status)) by {
        reveal_strlit("successful");
        reveal_strlit("failed");
        reveal_strlit("executing");
    }
    assert(text_member(tree, ascii("reason"@)) == Ok::<Option<Seq<u8>>, ()>(response.reason));
    lemma_lists_round_trip(
        response.current_software_list,
        response.current_software_list.len(),
    );
    assert(response.current_software_list.subrange(
        0,
        response.current_software_list.len() as int,
    ) =~= response.current_software_list);
    lemma_lists_round_trip(response.failures, response.failures.len());
    assert(response.failures.subrange(0, response.failures.len() as int) =~= response.failures);
    assert(lists_member(tree, ascii("currentSoftwareList"@)) == Some(
        response.current_software_list,
    ));
    assert(lists_member(tree, ascii("failures"@)) == Some(response.failures)) by {
        if response.failures.len() == 0 {
            assert(response.failures =~= Seq::empty());
        }
    }
}

} // verus!
