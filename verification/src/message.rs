//! The JSON messages between the cloud mapper and the software agent.

use crate::json::{
    item_views, json_parsed, json_text, lemma_array_view, lemma_object_view, member_views, parse,
    Json, JsonValue, Member,
};
use crate::smartrest::{get_text_member, text_member};
use crate::software::{
    copy_optional, optional_bytes, ModuleView, SoftwareError, SoftwareModule, SoftwareModuleAction,
    SoftwareModuleUpdate, UpdateView,
};
use crate::text::{ascii, bytes_eq, bytes_of, decimal, decimal_value, parse_decimal, views};
use vstd::prelude::*;
use vstd::slice::*;
use vstd::string::*;

verus! {

/// Where a module can be fetched, and the bearer token to present there.
#[derive(Debug)]
pub struct DownloadInfo {
    pub url: Vec<u8>,
    pub auth: Option<Vec<u8>>,
}

pub struct DownloadView {
    pub url: Seq<u8>,
    pub auth: Option<Seq<u8>>,
}

impl View for DownloadInfo {
    type V = DownloadView;

    open spec fn view(&self) -> DownloadView {
        DownloadView { url: self.url@, auth: optional_bytes(self.auth) }
    }
}

impl DownloadInfo {
    pub fn new(url: &[u8]) -> (info: DownloadInfo)
        ensures
            info@ == (DownloadView { url: url@, auth: None }),
    {
        DownloadInfo { url: slice_to_vec(url), auth: None }
    }

    pub fn with_auth(self, token: &[u8]) -> (info: DownloadInfo)
        ensures
            info@ == (DownloadView { url: self@.url, auth: Some(token@) }),
    {
        DownloadInfo { url: self.url, auth: Some(slice_to_vec(token)) }
    }

    pub fn duplicate(&self) -> (info: DownloadInfo)
        ensures
            info@ == self@,
    {
        DownloadInfo { url: slice_to_vec(self.url.as_slice()), auth: copy_optional(&self.auth) }
    }
}

/// A module as a message names it.
#[derive(Debug)]
pub struct SoftwareModuleItem {
    pub name: Vec<u8>,
    pub version: Option<Vec<u8>>,
    pub action: Option<SoftwareModuleAction>,
    pub url: Option<DownloadInfo>,
    pub reason: Option<Vec<u8>>,
}

pub struct ItemView {
    pub name: Seq<u8>,
    pub version: Option<Seq<u8>>,
    pub action: Option<SoftwareModuleAction>,
    pub url: Option<DownloadView>,
    pub reason: Option<Seq<u8>>,
}

/// The model of an optional address.
pub open spec fn optional_download(info: Option<DownloadInfo>) -> Option<DownloadView> {
    match info {
        Some(i) => Some(i@),
        None => None,
    }
}

impl View for SoftwareModuleItem {
    type V = ItemView;

    open spec fn view(&self) -> ItemView {
        ItemView {
            name: self.name@,
            version: optional_bytes(self.version),
            action: self.action,
            url: optional_download(self.url),
            reason: optional_bytes(self.reason),
        }
    }
}

impl SoftwareModuleItem {
    pub fn duplicate(&self) -> (copy: SoftwareModuleItem)
        ensures
            copy@ == self@,
    {
        SoftwareModuleItem {
            name: slice_to_vec(self.name.as_slice()),
            version: copy_optional(&self.version),
            action: self.action,
            url: match &self.url {
                Some(info) => Some(info.duplicate()),
                None => None,
            },
            reason: copy_optional(&self.reason),
        }
    }
}

/// The models of a list of modules.
pub open spec fn item_list_views(items: Seq<SoftwareModuleItem>) -> Seq<ItemView> {
    Seq::new(items.len(), |i: int| items[i]@)
}

/// The modules of one type.
#[derive(Debug)]
pub struct SoftwareRequestResponseSoftwareList {
    pub plugin_type: Vec<u8>,
    pub list: Vec<SoftwareModuleItem>,
}

pub struct ListView {
    pub plugin_type: Seq<u8>,
    pub list: Seq<ItemView>,
}

impl View for SoftwareRequestResponseSoftwareList {
    type V = ListView;

    open spec fn view(&self) -> ListView {
        ListView { plugin_type: self.plugin_type@, list: item_list_views(self.list@) }
    }
}

/// The models of a list of lists.
pub open spec fn list_views(lists: Seq<SoftwareRequestResponseSoftwareList>) -> Seq<ListView> {
    Seq::new(lists.len(), |i: int| lists[i]@)
}

/// A copy of a list of modules.
pub fn copy_items(items: &Vec<SoftwareModuleItem>) -> (copy: Vec<SoftwareModuleItem>)
    ensures
        item_list_views(copy@) == item_list_views(items@),
{
    let mut copy: Vec<SoftwareModuleItem> = Vec::new();
    let mut i: usize = 0;
    while i < items.len()
        invariant
            i <= items@.len(),
            copy@.len() == i,
            forall|j: int| 0 <= j < i ==> copy@[j]@ == items@[j]@,
        decreases items@.len() - i,
    {
        copy.push(items[i].duplicate());
        i += 1;
    }
    assert(item_list_views(copy@) =~= item_list_views(items@));
    copy
}

impl SoftwareRequestResponseSoftwareList {
    pub fn duplicate(&self) -> (copy: SoftwareRequestResponseSoftwareList)
        ensures
            copy@ == self@,
    {
        SoftwareRequestResponseSoftwareList {
            plugin_type: slice_to_vec(self.plugin_type.as_slice()),
            list: copy_items(&self.list),
        }
    }
}

/// A request for the list of the installed software.
#[derive(Clone, Copy, Debug, PartialEq, Eq, Structural)]
pub struct SoftwareRequestList {
    pub id: usize,
}

/// A request to install and to remove modules.
#[derive(Debug)]
pub struct SoftwareRequestUpdate {
    pub id: usize,
    pub update_list: Vec<SoftwareRequestResponseSoftwareList>,
}

pub struct RequestUpdateView {
    pub id: usize,
    pub update_list: Seq<ListView>,
}

impl View for SoftwareRequestUpdate {
    type V = RequestUpdateView;

    open spec fn view(&self) -> RequestUpdateView {
        RequestUpdateView { id: self.id, update_list: list_views(self.update_list@) }
    }
}

/// How far an operation has come.
#[derive(Clone, Copy, Debug, PartialEq, Eq, Structural)]
pub enum SoftwareOperationStatus {
    Successful,
    Failed,
    Executing,
}

/// The answer to a software request.
#[derive(Debug)]
pub struct SoftwareRequestResponse {
    pub id: usize,
    pub status: SoftwareOperationStatus,
    pub reason: Option<Vec<u8>>,
    pub current_software_list: Vec<SoftwareRequestResponseSoftwareList>,
    pub failures: Vec<SoftwareRequestResponseSoftwareList>,
}

pub struct ResponseView {
    pub id: usize,
    pub status: SoftwareOperationStatus,
    pub reason: Option<Seq<u8>>,
    pub current_software_list: Seq<ListView>,
    pub failures: Seq<ListView>,
}

impl View for SoftwareRequestResponse {
    type V = ResponseView;

    open spec fn view(&self) -> ResponseView {
        ResponseView {
            id: self.id,
            status: self.status,
            reason: optional_bytes(self.reason),
            current_software_list: list_views(self.current_software_list@),
            failures: list_views(self.failures@),
        }
    }
}

impl SoftwareRequestResponse {
    /// An answer without reason, software list or failures.
    pub fn new(id: usize, status: SoftwareOperationStatus) -> (response: SoftwareRequestResponse)
        ensures
            response@ == (ResponseView {
                id,
                status,
                reason: None,
                current_software_list: Seq::empty(),
                failures: Seq::empty(),
            }),
    {
        let response = SoftwareRequestResponse {
            id,
            status,
            current_software_list: Vec::new(),
            reason: None,
            failures: Vec::new(),
        };
        assert(response@.current_software_list =~= Seq::empty());
        assert(response@.failures =~= Seq::empty());
        response
    }

    /// Ends the operation: it succeeded if nothing failed; the software list
    /// is what is installed now.
    pub fn finalize_response(&mut self, software_list: Vec<SoftwareRequestResponseSoftwareList>)
        ensures
            final(self)@ == (ResponseView {
                status: if old(self)@.failures.len() == 0 {
                    SoftwareOperationStatus::Successful
                } else {
                    old(self)@.status
                },
                current_software_list: list_views(software_list@),
                ..old(self)@
            }),
    {
        if self.failures.len() == 0 {
            self.status = SoftwareOperationStatus::Successful;
        }
        self.current_software_list = software_list;
    }
}

// ---------------------------------------------------------------------------
// Writing
// ---------------------------------------------------------------------------
/// One member where `value` is given, none where it is not.
pub open spec fn optional_member(key: Seq<u8>, value: Option<JsonValue>) -> Seq<
    (Seq<u8>, JsonValue),
> {
    match value {
        Some(v) => seq![(key, v)],
        None => Seq::empty(),
    }
}

/// An optional text as an optional JSON string.
pub open spec fn optional_text(text: Option<Seq<u8>>) -> Option<JsonValue> {
    match text {
        Some(t) => Some(JsonValue::Text(t)),
        None => None,
    }
}

/// The name of an action in a message.
pub open spec fn action_name(action: SoftwareModuleAction) -> Seq<u8> {
    match action {
        SoftwareModuleAction::Install => ascii("install"@),
        SoftwareModuleAction::Remove => ascii("remove"@),
    }
}

/// The name of a status in a message.
pub open spec fn status_name(status: SoftwareOperationStatus) -> Seq<u8> {
    match status {
        SoftwareOperationStatus::Successful => ascii("successful"@),
        SoftwareOperationStatus::Failed => ascii("failed"@),
        SoftwareOperationStatus::Executing => ascii("executing"@),
    }
}

/// A plain address is a string. With a token it is an object that holds the
/// address and the token.
pub open spec fn download_tree(info: DownloadView) -> JsonValue {
    match info.auth {
        None => JsonValue::Text(info.url),
        Some(token) => JsonValue::Object(
            seq![
                (ascii("url"@), JsonValue::Text(info.url)),
                (
                    ascii("auth"@),
                    JsonValue::Object(
                        seq![
                            (ascii("type"@), JsonValue::Text(ascii("Bearer"@))),
                            (ascii("token"@), JsonValue::Text(token)),
                        ],
                    ),
                ),
            ],
        ),
    }
}

/// A module as a document: its name, then its version, its action, its
/// address and its reason, each where it is given.
pub open spec fn item_tree(item: ItemView) -> JsonValue {
    JsonValue::Object(
        seq![(ascii("name"@), JsonValue::Text(item.name))] + optional_member(
            ascii("version"@),
            optional_text(item.version),
        ) + optional_member(
            ascii("action"@),
            match item.action {
                Some(a) => Some(JsonValue::Text(action_name(a))),
                None => None,
            },
        ) + optional_member(
            ascii("url"@),
            match item.url {
                Some(u) => Some(download_tree(u)),
                None => None,
            },
        ) + optional_member(ascii("reason"@), optional_text(item.reason)),
    )
}

/// The documents of a list of modules.
pub open spec fn item_trees(items: Seq<ItemView>) -> Seq<JsonValue> {
    Seq::new(items.len(), |i: int| item_tree(items[i]))
}

/// The modules of one type as a document.
pub open spec fn list_tree(list: ListView) -> JsonValue {
    JsonValue::Object(
        seq![
            (ascii("type"@), JsonValue::Text(list.plugin_type)),
            (ascii("list"@), JsonValue::Array(item_trees(list.list))),
        ],
    )
}

/// The documents of a list of lists.
pub open spec fn list_trees(lists: Seq<ListView>) -> Seq<JsonValue> {
    Seq::new(lists.len(), |i: int| list_tree(lists[i]))
}

/// A request for the software list as a document.
pub open spec fn request_list_tree(request: SoftwareRequestList) -> JsonValue {
    JsonValue::Object(seq![(ascii("id"@), JsonValue::Number(decimal(request.id as nat)))])
}

/// A request for an update as a document.
pub open spec fn request_update_tree(request: RequestUpdateView) -> JsonValue {
    JsonValue::Object(
        seq![
            (ascii("id"@), JsonValue::Number(decimal(request.id as nat))),
            (ascii("updateList"@), JsonValue::Array(list_trees(request.update_list))),
        ],
    )
}

/// The software list is always written; the reason where there is one; the
/// failures where there are any.
pub open spec fn response_tree(response: ResponseView) -> JsonValue {
    JsonValue::Object(
        seq![
            (ascii("id"@), JsonValue::Number(decimal(response.id as nat))),
            (ascii("status"@), JsonValue::Text(status_name(response.status))),
        ] + optional_member(ascii("reason"@), optional_text(response.reason)) + seq![
            (
                ascii("currentSoftwareList"@),
                JsonValue::Array(list_trees(response.current_software_list)),
            ),
        ] + optional_member(
            ascii("failures"@),
            if response.failures.len() == 0 {
                None
            } else {
                Some(JsonValue::Array(list_trees(response.failures)))
            },
        ),
    )
}

fn push_member(members: &mut Vec<Member>, key: &str, value: Json)
    requires
        is_ascii(key),
    ensures
        member_views(final(members)@) == member_views(old(members)@).push((ascii(key@), value@)),
{
    let name = bytes_of(key);
    members.push(Member::new(name.as_slice(), value));
    assert(member_views(members@) =~= member_views(old(members)@).push((ascii(key@), value@)));
}

fn push_optional_text(members: &mut Vec<Member>, key: &str, text: &Option<Vec<u8>>)
    requires
        is_ascii(key),
    ensures
        member_views(final(members)@) == member_views(old(members)@) + optional_member(
            ascii(key@),
            optional_text(optional_bytes(*text)),
        ),
{
    match text {
        Some(t) => {
            push_member(members, key, Json::text(t.as_slice()));
            assert(member_views(members@) =~= member_views(old(members)@) + optional_member(
                ascii(key@),
                optional_text(optional_bytes(*text)),
            ));
        },
        None => {
            assert(member_views(members@) =~= member_views(old(members)@) + optional_member(
                ascii(key@),
                optional_text(optional_bytes(*text)),
            ));
        },
    }
}

impl SoftwareModuleAction {
    pub fn name(&self) -> (name: Vec<u8>)
        ensures
            name@ == action_name(*self),
    {
        proof {
            reveal_strlit("install");
            reveal_strlit("remove");
        }
        match self {
            SoftwareModuleAction::Install => bytes_of("install"),
            SoftwareModuleAction::Remove => bytes_of("remove"),
        }
    }
}

impl SoftwareOperationStatus {
    pub fn name(&self) -> (name: Vec<u8>)
        ensures
            name@ == status_name(*self),
    {
        proof {
            reveal_strlit("successful");
            reveal_strlit("failed");
            reveal_strlit("executing");
        }
        match self {
            SoftwareOperationStatus::Successful => bytes_of("successful"),
            SoftwareOperationStatus::Failed => bytes_of("failed"),
            SoftwareOperationStatus::Executing => bytes_of("executing"),
        }
    }
}

impl DownloadInfo {
    pub fn to_tree(&self) -> (tree: Json)
        ensures
            tree@ == download_tree(self@),
    {
        proof {
            reveal_strlit("url");
            reveal_strlit("auth");
            reveal_strlit("type");
            reveal_strlit("Bearer");
            reveal_strlit("token");
        }
        match &self.auth {
            None => Json::text(self.url.as_slice()),
            Some(token) => {
                let mut auth: Vec<Member> = Vec::new();
                assert(member_views(auth@) =~= Seq::empty());
                push_member(&mut auth, "type", Json::text(bytes_of("Bearer").as_slice()));
                push_member(&mut auth, "token", Json::text(token.as_slice()));
                assert(member_views(auth@) =~= seq![
                    (ascii("type"@), JsonValue::Text(ascii("Bearer"@))),
                    (ascii("token"@), JsonValue::Text(token@)),
                ]);
                let mut members: Vec<Member> = Vec::new();
                assert(member_views(members@) =~= Seq::empty());
                push_member(&mut members, "url", Json::text(self.url.as_slice()));
                push_member(&mut members, "auth", Json::object(auth));
                assert(member_views(members@) =~= download_tree(self@)->Object_0);
                Json::object(members)
            },
        }
    }
}

impl SoftwareModuleItem {
    pub fn to_tree(&self) -> (tree: Json)
        ensures
            tree@ == item_tree(self@),
    {
        proof {
            reveal_strlit("name");
            reveal_strlit("version");
            reveal_strlit("action");
            reveal_strlit("url");
            reveal_strlit("reason");
        }
        let mut members: Vec<Member> = Vec::new();
        assert(member_views(members@) =~= Seq::empty());
        push_member(&mut members, "name", Json::text(self.name.as_slice()));
        push_optional_text(&mut members, "version", &self.version);
        match &self.action {
            Some(action) => {
                push_member(&mut members, "action", Json::text(action.name().as_slice()));
            },
            None => {},
        }
        match &self.url {
            Some(info) => {
                push_member(&mut members, "url", info.to_tree());
            },
            None => {},
        }
        push_optional_text(&mut members, "reason", &self.reason);
        assert(member_views(members@) =~= item_tree(self@)->Object_0);
        Json::object(members)
    }
}

/// The documents of a list of modules.
pub fn items_to_trees(items: &Vec<SoftwareModuleItem>) -> (trees: Vec<Json>)
    ensures
        item_views(trees@) == item_trees(item_list_views(items@)),
{
    let mut trees: Vec<Json> = Vec::new();
    let mut i: usize = 0;
    while i < items.len()
        invariant
            i <= items@.len(),
            trees@.len() == i,
            forall|j: int| 0 <= j < i ==> trees@[j]@ == item_tree(items@[j]@),
        decreases items@.len() - i,
    {
        trees.push(items[i].to_tree());
        i += 1;
    }
    assert(item_views(trees@) =~= item_trees(item_list_views(items@)));
    trees
}

impl SoftwareRequestResponseSoftwareList {
    pub fn to_tree(&self) -> (tree: Json)
        ensures
            tree@ == list_tree(self@),
    {
        proof {
            reveal_strlit("type");
            reveal_strlit("list");
        }
        let mut members: Vec<Member> = Vec::new();
        assert(member_views(members@) =~= Seq::empty());
        push_member(&mut members, "type", Json::text(self.plugin_type.as_slice()));
        push_member(&mut members, "list", Json::array(items_to_trees(&self.list)));
        assert(member_views(members@) =~= list_tree(self@)->Object_0);
        Json::object(members)
    }
}

/// The documents of a list of lists.
pub fn lists_to_trees(lists: &Vec<SoftwareRequestResponseSoftwareList>) -> (trees: Vec<Json>)
    ensures
        item_views(trees@) == list_trees(list_views(lists@)),
{
    let mut trees: Vec<Json> = Vec::new();
    let mut i: usize = 0;
    while i < lists.len()
        invariant
            i <= lists@.len(),
            trees@.len() == i,
            forall|j: int| 0 <= j < i ==> trees@[j]@ == list_tree(lists@[j]@),
        decreases lists@.len() - i,
    {
        trees.push(lists[i].to_tree());
        i += 1;
    }
    assert(item_views(trees@) =~= list_trees(list_views(lists@)));
    trees
}

impl SoftwareRequestList {
    pub fn to_tree(&self) -> (tree: Json)
        ensures
            tree@ == request_list_tree(*self),
    {
        proof {
            reveal_strlit("id");
        }
        let mut members: Vec<Member> = Vec::new();
        assert(member_views(members@) =~= Seq::empty());
        push_member(&mut members, "id", Json::number(self.id as u64));
        assert(member_views(members@) =~= request_list_tree(*self)->Object_0);
        Json::object(members)
    }

    /// The text of the request.
    pub fn to_json(&self) -> (text: Result<Vec<u8>, SoftwareError>)
        ensures
            text matches Ok(t) && t@ == json_text(request_list_tree(*self)),
    {
        Ok(self.to_tree().to_text())
    }

    /// The bytes of the request.
    pub fn to_bytes(&self) -> (text: Result<Vec<u8>, SoftwareError>)
        ensures
            text matches Ok(t) && t@ == json_text(request_list_tree(*self)),
    {
        self.to_json()
    }
}

impl SoftwareRequestUpdate {
    pub fn to_tree(&self) -> (tree: Json)
        ensures
            tree@ == request_update_tree(self@),
    {
        proof {
            reveal_strlit("id");
            reveal_strlit("updateList");
        }
        let mut members: Vec<Member> = Vec::new();
        assert(member_views(members@) =~= Seq::empty());
        push_member(&mut members, "id", Json::number(self.id as u64));
        push_member(&mut members, "updateList", Json::array(lists_to_trees(&self.update_list)));
        assert(member_views(members@) =~= request_update_tree(self@)->Object_0);
        Json::object(members)
    }

    /// The text of the request.
    pub fn to_json(&self) -> (text: Result<Vec<u8>, SoftwareError>)
        ensures
            text matches Ok(t) && t@ == json_text(request_update_tree(self@)),
    {
        Ok(self.to_tree().to_text())
    }

    /// The bytes of the request.
    pub fn to_bytes(&self) -> (text: Result<Vec<u8>, SoftwareError>)
        ensures
            text matches Ok(t) && t@ == json_text(request_update_tree(self@)),
    {
        self.to_json()
    }
}

impl SoftwareRequestResponse {
    pub fn to_tree(&self) -> (tree: Json)
        ensures
            tree@ == response_tree(self@),
    {
        proof {
            reveal_strlit("id");
            reveal_strlit("status");
            reveal_strlit("reason");
            reveal_strlit("currentSoftwareList");
            reveal_strlit("failures");
        }
        let mut members: Vec<Member> = Vec::new();
        assert(member_views(members@) =~= Seq::empty());
        push_member(&mut members, "id", Json::number(self.id as u64));
        push_member(&mut members, "status", Json::text(self.status.name().as_slice()));
        push_optional_text(&mut members, "reason", &self.reason);
        push_member(
            &mut members,
            "currentSoftwareList",
            Json::array(lists_to_trees(&self.current_software_list)),
        );
        if self.failures.len() > 0 {
            push_member(&mut members, "failures", Json::array(lists_to_trees(&self.failures)));
        }
        assert(member_views(members@) =~= response_tree(self@)->Object_0);
        Json::object(members)
    }

    /// The text of the answer.
    pub fn to_json(&self) -> (text: Result<Vec<u8>, SoftwareError>)
        ensures
            text matches Ok(t) && t@ == json_text(response_tree(self@)),
    {
        Ok(self.to_tree().to_text())
    }

    /// The bytes of the answer.
    pub fn to_bytes(&self) -> (text: Result<Vec<u8>, SoftwareError>)
        ensures
            text matches Ok(t) && t@ == json_text(response_tree(self@)),
    {
        self.to_json()
    }
}

// ---------------------------------------------------------------------------
// Reading
// ---------------------------------------------------------------------------
/// The member `key` of an object, which has to be a string.
pub open spec fn required_text(tree: JsonValue, key: Seq<u8>) -> Option<Seq<u8>> {
    match tree.get(key) {
        Some(JsonValue::Text(t)) => Some(t),
        _ => None,
    }
}

/// The member `id` of an object, which has to be a number written in decimal
/// digits that fits the machine's word.
pub open spec fn required_id(tree: JsonValue) -> Option<usize> {
    match tree.get(ascii("id"@)) {
        Some(JsonValue::Number(n)) => match decimal_value(n) {
            Some(v) => if v <= usize::MAX {
                Some(v as usize)
            } else {
                None
            },
            None => None,
        },
        _ => None,
    }
}

/// Every member is named by one of `allowed`.
pub open spec fn known_keys(members: Seq<(Seq<u8>, JsonValue)>, allowed: Seq<Seq<u8>>) -> bool {
    forall|i: int| 0 <= i < members.len() ==> allowed.contains((#[trigger] members[i]).0)
}

/// The action that a document names in its member `action`, where it has one.
pub open spec fn action_of(tree: JsonValue) -> Result<Option<SoftwareModuleAction>, ()> {
    match text_member(tree, ascii("action"@)) {
        Err(_) => Err(()),
        Ok(None) => Ok(None),
        Ok(Some(name)) => if name == ascii("install"@) {
            Ok(Some(SoftwareModuleAction::Install))
        } else if name == ascii("remove"@) {
            Ok(Some(SoftwareModuleAction::Remove))
        } else {
            Err(())
        },
    }
}

/// The token in the member `auth` of a download object, where there is one.
pub open spec fn token_of(tree: JsonValue) -> Result<Option<Seq<u8>>, ()> {
    match tree.get(ascii("auth"@)) {
        None => Ok(None),
        Some(auth) => match required_text(auth, ascii("token"@)) {
            Some(token) => Ok(Some(token)),
            None => Err(()),
        },
    }
}

/// The address that a document gives in its member `url`, where it has one: a
/// string, or an object with the address and the token.
pub open spec fn download_of(tree: JsonValue) -> Result<Option<DownloadView>, ()> {
    match tree.get(ascii("url"@)) {
        None => Ok(None),
        Some(JsonValue::Null) => Ok(None),
        Some(JsonValue::Text(url)) => Ok(Some(DownloadView { url, auth: None })),
        Some(JsonValue::Object(inner)) => match (
            required_text(JsonValue::Object(inner), ascii("url"@)),
            token_of(JsonValue::Object(inner)),
        ) {
            (Some(url), Ok(auth)) => Ok(Some(DownloadView { url, auth })),
            _ => Err(()),
        },
        Some(_) => Err(()),
    }
}

/// The names of the members of a module.
pub open spec fn item_keys() -> Seq<Seq<u8>> {
    seq![ascii("name"@), ascii("version"@), ascii("action"@), ascii("url"@), ascii("reason"@)]
}

/// The module that a document describes: an object with a name and, each
/// optional, a version, an action, an address and a reason, and nothing else.
pub open spec fn decoded_item(tree: JsonValue) -> Option<ItemView> {
    match tree {
        JsonValue::Object(members) => match (
            required_text(tree, ascii("name"@)),
            text_member(tree, ascii("version"@)),
            action_of(tree),
            download_of(tree),
            text_member(tree, ascii("reason"@)),
        ) {
            (Some(name), Ok(version), Ok(action), Ok(url), Ok(reason)) => if known_keys(
                members,
                item_keys(),
            ) {
                Some(ItemView { name, version, action, url, reason })
            } else {
                None
            },
            _ => None,
        },
        _ => None,
    }
}

/// The modules that the first `n` documents describe; none where one of them
/// describes none.
pub open spec fn decoded_items(trees: Seq<JsonValue>, n: nat) -> Option<Seq<ItemView>>
    decreases n,
{
    if n == 0 || n > trees.len() {
        Some(Seq::empty())
    } else {
        match (decoded_items(trees, (n - 1) as nat), decoded_item(trees[n - 1])) {
            (Some(rest), Some(item)) => Some(rest.push(item)),
            _ => None,
        }
    }
}

/// The names of the members of a list.
pub open spec fn list_keys() -> Seq<Seq<u8>> {
    seq![ascii("type"@), ascii("list"@)]
}

/// The modules of one type that a document describes: an object with the
/// type and the list, and nothing else.
pub open spec fn decoded_list(tree: JsonValue) -> Option<ListView> {
    match tree {
        JsonValue::Object(members) => match (
            required_text(tree, ascii("type"@)),
            tree.get(ascii("list"@)),
        ) {
            (Some(plugin_type), Some(JsonValue::Array(items))) => match decoded_items(
                items,
                items.len(),
            ) {
                Some(list) => if known_keys(members, list_keys()) {
                    Some(ListView { plugin_type, list })
                } else {
                    None
                },
                None => None,
            },
            _ => None,
        },
        _ => None,
    }
}

/// The lists that the first `n` documents describe; none where one of them
/// describes none.
pub open spec fn decoded_lists(trees: Seq<JsonValue>, n: nat) -> Option<Seq<ListView>>
    decreases n,
{
    if n == 0 || n > trees.len() {
        Some(Seq::empty())
    } else {
        match (decoded_lists(trees, (n - 1) as nat), decoded_list(trees[n - 1])) {
            (Some(rest), Some(list)) => Some(rest.push(list)),
            _ => None,
        }
    }
}

/// The names of the members of a request for the software list.
pub open spec fn request_list_keys() -> Seq<Seq<u8>> {
    seq![ascii("id"@)]
}

/// The request for the software list that a document describes: an object
/// with the id, and nothing else.
pub open spec fn decoded_request_list(tree: JsonValue) -> Option<SoftwareRequestList> {
    match tree {
        JsonValue::Object(members) => match required_id(tree) {
            Some(id) => if known_keys(members, request_list_keys()) {
                Some(SoftwareRequestList { id })
            } else {
                None
            },
            None => None,
        },
        _ => None,
    }
}

/// The names of the members of a request for an update.
pub open spec fn request_update_keys() -> Seq<Seq<u8>> {
    seq![ascii("id"@), ascii("updateList"@)]
}

/// The request for an update that a document describes: an object with the
/// id and the lists, and nothing else.
pub open spec fn decoded_request_update(tree: JsonValue) -> Option<RequestUpdateView> {
    match tree {
        JsonValue::Object(members) => match (required_id(tree), tree.get(ascii("updateList"@))) {
            (Some(id), Some(JsonValue::Array(lists))) => match decoded_lists(lists, lists.len()) {
                Some(update_list) => if known_keys(members, request_update_keys()) {
                    Some(RequestUpdateView { id, update_list })
                } else {
                    None
                },
                None => None,
            },
            _ => None,
        },
        _ => None,
    }
}

/// The status that a document names in its member `status`.
pub open spec fn status_of(tree: JsonValue) -> Option<SoftwareOperationStatus> {
    match required_text(tree, ascii("status"@)) {
        Some(name) => if name == ascii("successful"@) {
            Some(SoftwareOperationStatus::Successful)
        } else if name == ascii("failed"@) {
            Some(SoftwareOperationStatus::Failed)
        } else if name == ascii("executing"@) {
            Some(SoftwareOperationStatus::Executing)
        } else {
            None
        },
        None => None,
    }
}

/// The lists in the member `key`: none where the member is absent.
pub open spec fn lists_member(tree: JsonValue, key: Seq<u8>) -> Option<Seq<ListView>> {
    match tree.get(key) {
        None => Some(Seq::empty()),
        Some(JsonValue::Array(lists)) => decoded_lists(lists, lists.len()),
        Some(_) => None,
    }
}

/// The answer that a document describes: an object with the id and the
/// status and, each optional, a reason, the software list and the failures.
/// Other members are passed over.
pub open spec fn decoded_response(tree: JsonValue) -> Option<ResponseView> {
    match (
        required_id(tree),
        status_of(tree),
        text_member(tree, ascii("reason"@)),
        lists_member(tree, ascii("currentSoftwareList"@)),
        lists_member(tree, ascii("failures"@)),
    ) {
        (
            Some(id),
            Some(status),
            Ok(reason),
            Some(current_software_list),
            Some(failures),
        ) => Some(ResponseView { id, status, reason, current_software_list, failures }),
        _ => None,
    }
}

fn get_required_text(tree: &Json, key: &str) -> (text: Option<Vec<u8>>)
    requires
        is_ascii(key),
    ensures
        optional_bytes(text) == required_text(tree@, ascii(key@)),
{
    let name = bytes_of(key);
    match tree.get(name.as_slice()) {
        Some(Json::Text(t)) => Some(slice_to_vec(t.as_slice())),
        _ => None,
    }
}

fn get_optional_text(tree: &Json, key: &str) -> (text: Result<Option<Vec<u8>>, ()>)
    requires
        is_ascii(key),
    ensures
        match text {
            Ok(found) => text_member(tree@, ascii(key@)) == Ok::<Option<Seq<u8>>, ()>(
                optional_bytes(found),
            ),
            Err(_) => text_member(tree@, ascii(key@)) is Err,
        },
{
    let name = bytes_of(key);
    match get_text_member(tree, name.as_slice()) {
        Ok(Some(t)) => Ok(Some(t)),
        Ok(None) => Ok(None),
        Err(_) => Err(()),
    }
}

fn get_required_id(tree: &Json) -> (id: Option<usize>)
    ensures
        id == required_id(tree@),
{
    proof {
        reveal_strlit("id");
    }
    let name = bytes_of("id");
    match tree.get(name.as_slice()) {
        Some(Json::Number(n)) => match parse_decimal(n.as_slice()) {
            Some(v) => if v <= usize::MAX as u64 {
                Some(v as usize)
            } else {
                None
            },
            None => None,
        },
        _ => None,
    }
}

fn has_known_keys(members: &Vec<Member>, allowed: &Vec<Vec<u8>>) -> (known: bool)
    ensures
        known == known_keys(member_views(members@), views(allowed@)),
{
    let ghost all = member_views(members@);
    let ghost names = views(allowed@);
    let mut i: usize = 0;
    while i < members.len()
        invariant
            i <= members@.len(),
            all == member_views(members@),
            names == views(allowed@),
            forall|k: int| 0 <= k < i ==> names.contains((#[trigger] all[k]).0),
        decreases members@.len() - i,
    {
        assert(all[i as int] == members@[i as int]@);
        let mut j: usize = 0;
        let mut found = false;
        while j < allowed.len() && !found
            invariant
                j <= allowed@.len(),
                i < members@.len(),
                names == views(allowed@),
                found ==> names.contains(members@[i as int].key@),
                !found ==> forall|k: int| 0 <= k < j ==> names[k] != members@[i as int].key@,
            decreases allowed@.len() - j + (if found { 0int } else { 1int }),
        {
            assert(names[j as int] == allowed@[j as int]@);
            if bytes_eq(allowed[j].as_slice(), members[i].key.as_slice()) {
                found = true;
            } else {
                j += 1;
            }
        }
        if !found {
            assert(!names.contains(all[i as int].0));
            return false;
        }
        i += 1;
    }
    true
}

fn names_of(a: &str, b: &str, c: &str, d: &str, e: &str, n: usize) -> (names: Vec<Vec<u8>>)
    requires
        is_ascii(a),
        is_ascii(b),
        is_ascii(c),
        is_ascii(d),
        is_ascii(e),
        1 <= n <= 5,
    ensures
        views(names@) == seq![ascii(a@), ascii(b@), ascii(c@), ascii(d@), ascii(e@)].subrange(
            0,
            n as int,
        ),
{
    let mut names: Vec<Vec<u8>> = Vec::new();
    names.push(bytes_of(a));
    if n > 1 {
        names.push(bytes_of(b));
    }
    if n > 2 {
        names.push(bytes_of(c));
    }
    if n > 3 {
        names.push(bytes_of(d));
    }
    if n > 4 {
        names.push(bytes_of(e));
    }
    assert(views(names@) =~= seq![ascii(a@), ascii(b@), ascii(c@), ascii(d@), ascii(e@)].subrange(
        0,
        n as int,
    ));
    names
}

impl SoftwareModuleAction {
    fn from_tree(tree: &Json) -> (action: Result<Option<SoftwareModuleAction>, ()>)
        ensures
            action == action_of(tree@),
    {
        proof {
            reveal_strlit("action");
            reveal_strlit("install");
            reveal_strlit("remove");
        }
        match get_optional_text(tree, "action") {
            Err(_) => Err(()),
            Ok(None) => Ok(None),
            Ok(Some(name)) => if bytes_eq(name.as_slice(), bytes_of("install").as_slice()) {
                Ok(Some(SoftwareModuleAction::Install))
            } else if bytes_eq(name.as_slice(), bytes_of("remove").as_slice()) {
                Ok(Some(SoftwareModuleAction::Remove))
            } else {
                Err(())
            },
        }
    }
}

impl SoftwareOperationStatus {
    fn from_tree(tree: &Json) -> (status: Option<SoftwareOperationStatus>)
        ensures
            status == status_of(tree@),
    {
        proof {
            reveal_strlit("status");
            reveal_strlit("successful");
            reveal_strlit("failed");
            reveal_strlit("executing");
        }
        match get_required_text(tree, "status") {
            Some(name) => if bytes_eq(name.as_slice(), bytes_of("successful").as_slice()) {
                Some(SoftwareOperationStatus::Successful)
            } else if bytes_eq(name.as_slice(), bytes_of("failed").as_slice()) {
                Some(SoftwareOperationStatus::Failed)
            } else if bytes_eq(name.as_slice(), bytes_of("executing").as_slice()) {
                Some(SoftwareOperationStatus::Executing)
            } else {
                None
            },
            None => None,
        }
    }
}

impl DownloadInfo {
    fn token_from(tree: &Json) -> (token: Result<Option<Vec<u8>>, ()>)
        ensures
            match token {
                Ok(t) => token_of(tree@) == Ok::<Option<Seq<u8>>, ()>(optional_bytes(t)),
                Err(_) => token_of(tree@) is Err,
            },
    {
        proof {
            reveal_strlit("auth");
            reveal_strlit("token");
        }
        let name = bytes_of("auth");
        match tree.get(name.as_slice()) {
            None => Ok(None),
            Some(auth) => match get_required_text(auth, "token") {
                Some(token) => Ok(Some(token)),
                None => Err(()),
            },
        }
    }

    /// The address in the member `url` of a module, where there is one.
    fn from_tree(tree: &Json) -> (info: Result<Option<DownloadInfo>, ()>)
        ensures
            match info {
                Ok(i) => download_of(tree@) == Ok::<Option<DownloadView>, ()>(
                    optional_download(i),
                ),
                Err(_) => download_of(tree@) is Err,
            },
    {
        proof {
            reveal_strlit("url");
        }
        let name = bytes_of("url");
        match tree.get(name.as_slice()) {
            None => Ok(None),
            Some(Json::Null) => Ok(None),
            Some(Json::Text(url)) => Ok(Some(DownloadInfo::new(url.as_slice()))),
            Some(inner) => match inner {
                Json::Object(members) => {
                    proof {
                        lemma_object_view(*members);
                    }
                    match (get_required_text(inner, "url"), DownloadInfo::token_from(inner)) {
                        (Some(url), Ok(auth)) => Ok(Some(DownloadInfo { url, auth })),
                        _ => Err(()),
                    }
                },
                _ => Err(()),
            },
        }
    }
}

impl SoftwareModuleItem {
    /// The module that a document describes.
    pub fn from_tree(tree: &Json) -> (item: Option<SoftwareModuleItem>)
        ensures
            match item {
                Some(i) => decoded_item(tree@) == Some(i@),
                None => decoded_item(tree@) is None,
            },
    {
        proof {
            reveal_strlit("name");
            reveal_strlit("version");
            reveal_strlit("action");
            reveal_strlit("url");
            reveal_strlit("reason");
        }
        match tree {
            Json::Object(members) => {
                proof {
                    lemma_object_view(*members);
                }
                let allowed = names_of("name", "version", "action", "url", "reason", 5);
                assert(views(allowed@) =~= item_keys());
                match (
                    get_required_text(tree, "name"),
                    get_optional_text(tree, "version"),
                    SoftwareModuleAction::from_tree(tree),
                    DownloadInfo::from_tree(tree),
                    get_optional_text(tree, "reason"),
                ) {
                    (Some(name), Ok(version), Ok(action), Ok(url), Ok(reason)) => {
                        if has_known_keys(members, &allowed) {
                            Some(SoftwareModuleItem { name, version, action, url, reason })
                        } else {
                            None
                        }
                    },
                    _ => None,
                }
            },
            _ => None,
        }
    }
}

proof fn lemma_items_none_stays(trees: Seq<JsonValue>, n: nat, m: nat)
    requires
        n <= m <= trees.len(),
        decoded_items(trees, n) is None,
    ensures
        decoded_items(trees, m) is None,
    decreases m - n,
{
    if n < m {
        lemma_items_none_stays(trees, n, (m - 1) as nat);
    }
}

proof fn lemma_lists_none_stays(trees: Seq<JsonValue>, n: nat, m: nat)
    requires
        n <= m <= trees.len(),
        decoded_lists(trees, n) is None,
    ensures
        decoded_lists(trees, m) is None,
    decreases m - n,
{
    if n < m {
        lemma_lists_none_stays(trees, n, (m - 1) as nat);
    }
}

fn items_from_trees(trees: &Vec<Json>) -> (items: Option<Vec<SoftwareModuleItem>>)
    ensures
        match items {
            Some(list) => decoded_items(item_views(trees@), trees@.len() as nat) == Some(
                item_list_views(list@),
            ),
            None => decoded_items(item_views(trees@), trees@.len() as nat) is None,
        },
{
    let ghost all = item_views(trees@);
    let mut list: Vec<SoftwareModuleItem> = Vec::new();
    let mut i: usize = 0;
    assert(item_list_views(list@) =~= Seq::empty());
    while i < trees.len()
        invariant
            i <= trees@.len(),
            all == item_views(trees@),
            decoded_items(all, i as nat) == Some(item_list_views(list@)),
        decreases trees@.len() - i,
    {
        assert(all[i as int] == trees@[i as int]@);
        match SoftwareModuleItem::from_tree(&trees[i]) {
            Some(item) => {
                let ghost before = item_list_views(list@);
                list.push(item);
                assert(item_list_views(list@) =~= before.push(item@));
            },
            None => {
                proof {
                    assert(decoded_items(all, (i + 1) as nat) is None);
                    lemma_items_none_stays(all, (i + 1) as nat, trees@.len() as nat);
                }
                return None;
            },
        }
        i += 1;
    }
    Some(list)
}

impl SoftwareRequestResponseSoftwareList {
    /// The modules of one type that a document describes.
    pub fn from_tree(tree: &Json) -> (list: Option<SoftwareRequestResponseSoftwareList>)
        ensures
            match list {
                Some(l) => decoded_list(tree@) == Some(l@),
                None => decoded_list(tree@) is None,
            },
    {
        proof {
            reveal_strlit("type");
            reveal_strlit("list");
        }
        match tree {
            Json::Object(members) => {
                proof {
                    lemma_object_view(*members);
                }
                let allowed = names_of("type", "list", "list", "list", "list", 2);
                assert(views(allowed@) =~= list_keys());
                let name = bytes_of("list");
                match (get_required_text(tree, "type"), tree.get(name.as_slice())) {
                    (Some(plugin_type), Some(Json::Array(trees))) => {
                        proof {
                            lemma_array_view(*trees);
                        }
                        match items_from_trees(trees) {
                            Some(list) => if has_known_keys(members, &allowed) {
                                Some(SoftwareRequestResponseSoftwareList { plugin_type, list })
                            } else {
                                None
                            },
                            None => None,
                        }
                    },
                    _ => None,
                }
            },
            _ => None,
        }
    }
}

fn lists_from_trees(trees: &Vec<Json>) -> (lists: Option<Vec<SoftwareRequestResponseSoftwareList>>)
    ensures
        match lists {
            Some(l) => decoded_lists(item_views(trees@), trees@.len() as nat) == Some(
                list_views(l@),
            ),
            None => decoded_lists(item_views(trees@), trees@.len() as nat) is None,
        },
{
    let ghost all = item_views(trees@);
    let mut lists: Vec<SoftwareRequestResponseSoftwareList> = Vec::new();
    let mut i: usize = 0;
    assert(list_views(lists@) =~= Seq::empty());
    while i < trees.len()
        invariant
            i <= trees@.len(),
            all == item_views(trees@),
            decoded_lists(all, i as nat) == Some(list_views(lists@)),
        decreases trees@.len() - i,
    {
        assert(all[i as int] == trees@[i as int]@);
        match SoftwareRequestResponseSoftwareList::from_tree(&trees[i]) {
            Some(list) => {
                let ghost before = list_views(lists@);
                lists.push(list);
                assert(list_views(lists@) =~= before.push(list@));
            },
            None => {
                proof {
                    assert(decoded_lists(all, (i + 1) as nat) is None);
                    lemma_lists_none_stays(all, (i + 1) as nat, trees@.len() as nat);
                }
                return None;
            },
        }
        i += 1;
    }
    Some(lists)
}

fn get_lists_member(tree: &Json, key: &str) -> (lists: Option<
    Vec<SoftwareRequestResponseSoftwareList>,
>)
    requires
        is_ascii(key),
    ensures
        match lists {
            Some(l) => lists_member(tree@, ascii(key@)) == Some(list_views(l@)),
            None => lists_member(tree@, ascii(key@)) is None,
        },
{
    let name = bytes_of(key);
    match tree.get(name.as_slice()) {
        None => {
            let none: Vec<SoftwareRequestResponseSoftwareList> = Vec::new();
            assert(list_views(none@) =~= Seq::empty());
            Some(none)
        },
        Some(Json::Array(trees)) => {
            proof {
                lemma_array_view(*trees);
            }
            lists_from_trees(trees)
        },
        Some(_) => None,
    }
}

/// What is said of a message that cannot be read.
pub open spec fn unreadable() -> Seq<u8> {
    ascii("the message is not what its topic asks for"@)
}

fn parse_error() -> (error: SoftwareError)
    ensures
        error@ == (crate::software::SoftwareErrorView::ParseError { reason: unreadable() }),
{
    proof {
        reveal_strlit("the message is not what its topic asks for");
    }
    SoftwareError::ParseError { reason: bytes_of("the message is not what its topic asks for") }
}

/// A request for the software list in a text that was read as `parsed`.
pub open spec fn request_list_in(parsed: Option<JsonValue>) -> Option<SoftwareRequestList> {
    match parsed {
        Some(tree) => decoded_request_list(tree),
        None => None,
    }
}

/// A request for an update in a text that was read as `parsed`.
pub open spec fn request_update_in(parsed: Option<JsonValue>) -> Option<RequestUpdateView> {
    match parsed {
        Some(tree) => decoded_request_update(tree),
        None => None,
    }
}

/// An answer in a text that was read as `parsed`.
pub open spec fn response_in(parsed: Option<JsonValue>) -> Option<ResponseView> {
    match parsed {
        Some(tree) => decoded_response(tree),
        None => None,
    }
}

impl SoftwareRequestList {
    /// The request that a document describes.
    pub fn from_tree(tree: &Json) -> (request: Option<SoftwareRequestList>)
        ensures
            request == decoded_request_list(tree@),
    {
        proof {
            reveal_strlit("id");
        }
        match tree {
            Json::Object(members) => {
                proof {
                    lemma_object_view(*members);
                }
                let allowed = names_of("id", "id", "id", "id", "id", 1);
                assert(views(allowed@) =~= request_list_keys());
                match get_required_id(tree) {
                    Some(id) => if has_known_keys(members, &allowed) {
                        Some(SoftwareRequestList { id })
                    } else {
                        None
                    },
                    None => None,
                }
            },
            _ => None,
        }
    }

    /// Reads a request from its text.
    pub fn from_json(text: &[u8]) -> (request: Result<SoftwareRequestList, SoftwareError>)
        ensures
            match request {
                Ok(r) => request_list_in(json_parsed(text@)) == Some(r),
                Err(e) => request_list_in(json_parsed(text@)) is None && e@ == (
                crate::software::SoftwareErrorView::ParseError { reason: unreadable() }),
            },
    {
        match parse(text) {
            Some(tree) => match SoftwareRequestList::from_tree(&tree) {
                Some(request) => Ok(request),
                None => Err(parse_error()),
            },
            None => Err(parse_error()),
        }
    }

    /// Reads a request from its bytes.
    pub fn from_slice(bytes: &[u8]) -> (request: Result<SoftwareRequestList, SoftwareError>)
        ensures
            match request {
                Ok(r) => request_list_in(json_parsed(bytes@)) == Some(r),
                Err(e) => request_list_in(json_parsed(bytes@)) is None && e@ == (
                crate::software::SoftwareErrorView::ParseError { reason: unreadable() }),
            },
    {
        SoftwareRequestList::from_json(bytes)
    }
}

impl SoftwareRequestUpdate {
    /// The request that a document describes.
    pub fn from_tree(tree: &Json) -> (request: Option<SoftwareRequestUpdate>)
        ensures
            match request {
                Some(r) => decoded_request_update(tree@) == Some(r@),
                None => decoded_request_update(tree@) is None,
            },
    {
        proof {
            reveal_strlit("id");
            reveal_strlit("updateList");
        }
        match tree {
            Json::Object(members) => {
                proof {
                    lemma_object_view(*members);
                }
                let allowed = names_of("id", "updateList", "id", "id", "id", 2);
                assert(views(allowed@) =~= request_update_keys());
                let name = bytes_of("updateList");
                match (get_required_id(tree), tree.get(name.as_slice())) {
                    (Some(id), Some(Json::Array(trees))) => {
                        proof {
                            lemma_array_view(*trees);
                        }
                        match lists_from_trees(trees) {
                            Some(update_list) => if has_known_keys(members, &allowed) {
                                Some(SoftwareRequestUpdate { id, update_list })
                            } else {
                                None
                            },
                            None => None,
                        }
                    },
                    _ => None,
                }
            },
            _ => None,
        }
    }

    /// Reads a request from its text.
    pub fn from_json(text: &[u8]) -> (request: Result<SoftwareRequestUpdate, SoftwareError>)
        ensures
            match request {
                Ok(r) => request_update_in(json_parsed(text@)) == Some(r@),
                Err(e) => request_update_in(json_parsed(text@)) is None && e@ == (
                crate::software::SoftwareErrorView::ParseError { reason: unreadable() }),
            },
    {
        match parse(text) {
            Some(tree) => match SoftwareRequestUpdate::from_tree(&tree) {
                Some(request) => Ok(request),
                None => Err(parse_error()),
            },
            None => Err(parse_error()),
        }
    }

    /// Reads a request from its bytes.
    pub fn from_slice(bytes: &[u8]) -> (request: Result<SoftwareRequestUpdate, SoftwareError>)
        ensures
            match request {
                Ok(r) => request_update_in(json_parsed(bytes@)) == Some(r@),
                Err(e) => request_update_in(json_parsed(bytes@)) is None && e@ == (
                crate::software::SoftwareErrorView::ParseError { reason: unreadable() }),
            },
    {
        SoftwareRequestUpdate::from_json(bytes)
    }
}

impl SoftwareRequestResponse {
    /// The answer that a document describes.
    pub fn from_tree(tree: &Json) -> (response: Option<SoftwareRequestResponse>)
        ensures
            match response {
                Some(r) => decoded_response(tree@) == Some(r@),
                None => decoded_response(tree@) is None,
            },
    {
        proof {
            reveal_strlit("reason");
            reveal_strlit("currentSoftwareList");
            reveal_strlit("failures");
        }
        match (
            get_required_id(tree),
            SoftwareOperationStatus::from_tree(tree),
            get_optional_text(tree, "reason"),
            get_lists_member(tree, "currentSoftwareList"),
            get_lists_member(tree, "failures"),
        ) {
            (
                Some(id),
                Some(status),
                Ok(reason),
                Some(current_software_list),
                Some(failures),
            ) => Some(
                SoftwareRequestResponse { id, status, reason, current_software_list, failures },
            ),
            _ => None,
        }
    }

    /// Reads an answer from its text.
    pub fn from_json(text: &[u8]) -> (response: Result<SoftwareRequestResponse, SoftwareError>)
        ensures
            match response {
                Ok(r) => response_in(json_parsed(text@)) == Some(r@),
                Err(e) => response_in(json_parsed(text@)) is None && e@ == (
                crate::software::SoftwareErrorView::ParseError { reason: unreadable() }),
            },
    {
        match parse(text) {
            Some(tree) => match SoftwareRequestResponse::from_tree(&tree) {
                Some(response) => Ok(response),
                None => Err(parse_error()),
            },
            None => Err(parse_error()),
        }
    }

    /// Reads an answer from its bytes.
    pub fn from_slice(bytes: &[u8]) -> (response: Result<SoftwareRequestResponse, SoftwareError>)
        ensures
            match response {
                Ok(r) => response_in(json_parsed(bytes@)) == Some(r@),
                Err(e) => response_in(json_parsed(bytes@)) is None && e@ == (
                crate::software::SoftwareErrorView::ParseError { reason: unreadable() }),
            },
    {
        SoftwareRequestResponse::from_json(bytes)
    }
}

// ---------------------------------------------------------------------------
// Modules and the items that name them
// ---------------------------------------------------------------------------
/// The module that an item names, for the type of the list that holds it.
pub open spec fn module_of(item: ItemView, software_type: Seq<u8>) -> ModuleView {
    ModuleView {
        software_type,
        name: item.name,
        version: item.version,
        url: match item.url {
            Some(info) => Some(info.url),
            None => None,
        },
    }
}

/// The item that names a module, with an action and a reason where given.
pub open spec fn item_of(
    module: ModuleView,
    action: Option<SoftwareModuleAction>,
    reason: Option<Seq<u8>>,
) -> ItemView {
    ItemView {
        name: module.name,
        version: module.version,
        action,
        url: match module.url {
            Some(url) => Some(DownloadView { url, auth: None }),
            None => None,
        },
        reason,
    }
}

/// The update that an item asks for, where it names an action.
pub open spec fn update_of(item: ItemView, software_type: Seq<u8>) -> Option<UpdateView> {
    match item.action {
        Some(SoftwareModuleAction::Install) => Some(
            UpdateView::Install { module: module_of(item, software_type) },
        ),
        Some(SoftwareModuleAction::Remove) => Some(
            UpdateView::Remove { module: module_of(item, software_type) },
        ),
        None => None,
    }
}

/// The item that names the module of an update, with the update's action.
pub open spec fn item_of_update(update: UpdateView, reason: Option<Seq<u8>>) -> ItemView {
    match update {
        UpdateView::Install { module } => item_of(
            module,
            Some(SoftwareModuleAction::Install),
            reason,
        ),
        UpdateView::Remove { module } => item_of(
            module,
            Some(SoftwareModuleAction::Remove),
            reason,
        ),
    }
}

/// The model of an optional update.
pub open spec fn optional_update(update: Option<SoftwareModuleUpdate>) -> Option<UpdateView> {
    match update {
        Some(u) => Some(u@),
        None => None,
    }
}

impl SoftwareModuleItem {
    /// The module that the item names.
    pub fn into_module(self, software_type: &[u8]) -> (module: SoftwareModule)
        ensures
            module@ == module_of(self@, software_type@),
    {
        SoftwareModule {
            software_type: slice_to_vec(software_type),
            name: self.name,
            version: self.version,
            url: match self.url {
                Some(info) => Some(info.url),
                None => None,
            },
        }
    }

    /// The update that the item asks for, where it names an action.
    pub fn into_update(self, software_type: &[u8]) -> (update: Option<SoftwareModuleUpdate>)
        ensures
            optional_update(update) == update_of(self@, software_type@),
    {
        match self.action {
            Some(SoftwareModuleAction::Install) => Some(
                SoftwareModuleUpdate::Install { module: self.into_module(software_type) },
            ),
            Some(SoftwareModuleAction::Remove) => Some(
                SoftwareModuleUpdate::Remove { module: self.into_module(software_type) },
            ),
            None => None,
        }
    }

    /// The item that names a module.
    pub fn from_module(module: SoftwareModule) -> (item: SoftwareModuleItem)
        ensures
            item@ == item_of(module@, None, None),
    {
        SoftwareModuleItem {
            name: module.name,
            version: module.version,
            url: match module.url {
                Some(url) => Some(DownloadInfo { url, auth: None }),
                None => None,
            },
            action: None,
            reason: None,
        }
    }

    /// The item that names the module of an update, with the update's action.
    pub fn from_update(update: SoftwareModuleUpdate) -> (item: SoftwareModuleItem)
        ensures
            item@ == item_of_update(update@, None),
    {
        match update {
            SoftwareModuleUpdate::Install { module } => {
                let mut item = SoftwareModuleItem::from_module(module);
                item.action = Some(SoftwareModuleAction::Install);
                item
            },
            SoftwareModuleUpdate::Remove { module } => {
                let mut item = SoftwareModuleItem::from_module(module);
                item.action = Some(SoftwareModuleAction::Remove);
                item
            },
        }
    }

    /// The item for an update that failed for `reason`.
    pub fn from_failed_update(update: SoftwareModuleUpdate, reason: Option<Vec<u8>>) -> (item:
        SoftwareModuleItem)
        ensures
            item@ == item_of_update(update@, optional_bytes(reason)),
    {
        let mut item = SoftwareModuleItem::from_update(update);
        item.reason = reason;
        item
    }
}

} // verus!
