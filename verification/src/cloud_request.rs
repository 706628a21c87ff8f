//! The operations that the cloud asks for, read from their SmartREST records.

use crate::error::{ConversionError, ErrorView};
use crate::message::{
    item_list_views, list_views, DownloadInfo, DownloadView, ItemView, ListView, RequestUpdateView,
    SoftwareModuleItem, SoftwareRequestResponseSoftwareList, SoftwareRequestUpdate,
};
use crate::smartrest::{
    restart_operation, restart_operation_name, software_update_operation,
    software_update_operation_name,
};
use crate::software::{optional_bytes, SoftwareModuleAction};
use crate::text::{ascii, bytes_eq, bytes_of, split, split_fields, views};
use vstd::prelude::*;
use vstd::slice::*;
use vstd::string::*;

verus! {

/// The template id of a record: its first three bytes.
pub open spec fn template_of(record: Seq<u8>) -> Option<Seq<u8>> {
    if record.len() >= 3 {
        Some(record.subrange(0, 3))
    } else {
        None
    }
}

/// The template id of a record.
pub fn template_id(record: &[u8]) -> (id: Option<Vec<u8>>)
    ensures
        optional_bytes(id) == template_of(record@),
{
    if record.len() >= 3 {
        Some(slice_to_vec(slice_subrange(record, 0, 3)))
    } else {
        None
    }
}

/// The action that a record names: the cloud says `delete` where a module
/// is to be removed.
pub open spec fn action_in_record(name: Seq<u8>) -> Option<SoftwareModuleAction> {
    if name == ascii("install"@) {
        Some(SoftwareModuleAction::Install)
    } else if name == ascii("delete"@) || name == ascii("remove"@) {
        Some(SoftwareModuleAction::Remove)
    } else {
        None
    }
}

/// A field that may be left empty.
pub open spec fn optional_field(field: Seq<u8>) -> Option<Seq<u8>> {
    if field.len() == 0 {
        None
    } else {
        Some(field)
    }
}

/// The module in the five fields from `base` on: type, name, version,
/// address, action. Type and name are not empty; version and address may be.
pub open spec fn module_at(fields: Seq<Seq<u8>>, base: int) -> Option<(Seq<u8>, ItemView)> {
    if 0 <= base && base + 5 <= fields.len() && fields[base].len() > 0 && fields[base + 1].len()
        > 0 {
        match action_in_record(fields[base + 4]) {
            Some(action) => Some(
                (
                    fields[base],
                    ItemView {
                        name: fields[base + 1],
                        version: optional_field(fields[base + 2]),
                        action: Some(action),
                        url: match optional_field(fields[base + 3]) {
                            Some(url) => Some(DownloadView { url, auth: None }),
                            None => None,
                        },
                        reason: None,
                    },
                ),
            ),
            None => None,
        }
    } else {
        None
    }
}

/// The first place at or after `from` where `lists` holds the type.
pub open spec fn list_of_type(lists: Seq<ListView>, plugin_type: Seq<u8>, from: int) -> Option<int>
    decreases lists.len() - from,
{
    if from < 0 || from >= lists.len() {
        None
    } else if lists[from].plugin_type == plugin_type {
        Some(from)
    } else {
        list_of_type(lists, plugin_type, from + 1)
    }
}

/// `lists` with `item` at the end of the list of its type; a type that is
/// new gets a list of its own at the end.
pub open spec fn grouped(lists: Seq<ListView>, plugin_type: Seq<u8>, item: ItemView) -> Seq<
    ListView,
> {
    match list_of_type(lists, plugin_type, 0) {
        Some(at) => lists.update(
            at,
            ListView { plugin_type: lists[at].plugin_type, list: lists[at].list.push(item) },
        ),
        None => lists.push(ListView { plugin_type, list: seq![item] }),
    }
}

/// The lists that the first `n` modules of a record give; none where one of
/// them is ill-formed.
pub open spec fn update_lists(fields: Seq<Seq<u8>>, n: nat) -> Option<Seq<ListView>>
    decreases n,
{
    if n == 0 {
        Some(Seq::empty())
    } else {
        match (update_lists(fields, (n - 1) as nat), module_at(fields, 2 + 5 * (n - 1))) {
            (Some(rest), Some((plugin_type, item))) => Some(grouped(rest, plugin_type, item)),
            _ => None,
        }
    }
}

/// What is said of an update with fields missing or left over.
pub open spec fn wrong_field_count() -> Seq<u8> {
    ascii("the record does not hold the device and five fields for each module"@)
}

/// What is said of an update with an ill-formed module.
pub open spec fn wrong_module() -> Seq<u8> {
    ascii("a module lacks its type or its name, or has an unknown action"@)
}

/// What is said of an ill-formed restart.
pub open spec fn wrong_restart() -> Seq<u8> {
    ascii("the record does not hold the device and nothing else"@)
}

/// The update that the record `528,<device>,<type>,<name>,<version>,<address>,<action>,...`
/// asks for, under the id `id`.
pub open spec fn requested_update(record: Seq<u8>, id: usize) -> Result<
    RequestUpdateView,
    ErrorView,
> {
    let fields = split(record, 0x2c);
    if fields.len() < 2 || (fields.len() - 2) % 5 != 0 {
        Err(
            ErrorView::InvalidSmartRest {
                operation: software_update_operation(),
                reason: wrong_field_count(),
            },
        )
    } else {
        match update_lists(fields, ((fields.len() - 2) / 5) as nat) {
            Some(update_list) => Ok(RequestUpdateView { id, update_list }),
            None => Err(
                ErrorView::InvalidSmartRest {
                    operation: software_update_operation(),
                    reason: wrong_module(),
                },
            ),
        }
    }
}

/// Whether the record `510,<device>` is well formed.
pub open spec fn requested_restart(record: Seq<u8>) -> Result<(), ErrorView> {
    if split(record, 0x2c).len() == 2 {
        Ok(())
    } else {
        Err(ErrorView::InvalidSmartRest { operation: restart_operation(), reason: wrong_restart() })
    }
}

fn action_named(name: &[u8]) -> (action: Option<SoftwareModuleAction>)
    ensures
        action == action_in_record(name@),
{
    proof {
        reveal_strlit("install");
        reveal_strlit("delete");
        reveal_strlit("remove");
    }
    if bytes_eq(name, bytes_of("install").as_slice()) {
        Some(SoftwareModuleAction::Install)
    } else if bytes_eq(name, bytes_of("delete").as_slice()) || bytes_eq(
        name,
        bytes_of("remove").as_slice(),
    ) {
        Some(SoftwareModuleAction::Remove)
    } else {
        None
    }
}

fn field_or_none(field: &Vec<u8>) -> (value: Option<Vec<u8>>)
    ensures
        optional_bytes(value) == optional_field(field@),
{
    if field.len() == 0 {
        None
    } else {
        Some(slice_to_vec(field.as_slice()))
    }
}

fn read_module(fields: &Vec<Vec<u8>>, base: usize) -> (module: Option<
    (Vec<u8>, SoftwareModuleItem),
>)
    requires
        base + 5 <= fields.len(),
    ensures
        match module {
            Some((plugin_type, item)) => module_at(views(fields@), base as int) == Some(
                (plugin_type@, item@),
            ),
            None => module_at(views(fields@), base as int) is None,
        },
{
    let ghost all = views(fields@);
    assert(all[base as int] == fields@[base as int]@);
    assert(all[base + 1] == fields@[base + 1]@);
    assert(all[base + 2] == fields@[base + 2]@);
    assert(all[base + 3] == fields@[base + 3]@);
    assert(all[base + 4] == fields@[base + 4]@);
    if fields[base].len() == 0 || fields[base + 1].len() == 0 {
        return None;
    }
    match action_named(fields[base + 4].as_slice()) {
        Some(action) => {
            let url = match field_or_none(&fields[base + 3]) {
                Some(url) => Some(DownloadInfo::new(url.as_slice())),
                None => None,
            };
            Some(
                (
                    slice_to_vec(fields[base].as_slice()),
                    SoftwareModuleItem {
                        name: slice_to_vec(fields[base + 1].as_slice()),
                        version: field_or_none(&fields[base + 2]),
                        action: Some(action),
                        url,
                        reason: None,
                    },
                ),
            )
        },
        None => None,
    }
}

fn find_list(lists: &Vec<SoftwareRequestResponseSoftwareList>, plugin_type: &[u8]) -> (at: Option<
    usize,
>)
    ensures
        match at {
            Some(i) => list_of_type(list_views(lists@), plugin_type@, 0) == Some(i as int) && i
                < lists@.len(),
            None => list_of_type(list_views(lists@), plugin_type@, 0) is None,
        },
{
    let ghost all = list_views(lists@);
    let mut i: usize = 0;
    while i < lists.len()
        invariant
            i <= lists@.len(),
            all == list_views(lists@),
            list_of_type(all, plugin_type@, 0) == list_of_type(all, plugin_type@, i as int),
        decreases lists@.len() - i,
    {
        assert(all[i as int] == lists@[i as int]@);
        if bytes_eq(lists[i].plugin_type.as_slice(), plugin_type) {
            return Some(i);
        }
        i += 1;
    }
    None
}

/// Puts `item` at the end of the list of its type.
pub fn add_module(
    lists: &mut Vec<SoftwareRequestResponseSoftwareList>,
    plugin_type: Vec<u8>,
    item: SoftwareModuleItem,
)
    ensures
        list_views(final(lists)@) == grouped(list_views(old(lists)@), plugin_type@, item@),
{
    let ghost before = list_views(lists@);
    match find_list(lists, plugin_type.as_slice()) {
        Some(at) => {
            let ghost items = item_list_views(lists@[at as int].list@);
            let mut list = crate::message::copy_items(&lists[at].list);
            list.push(item);
            assert(item_list_views(list@) =~= items.push(item@));
            let kept = slice_to_vec(lists[at].plugin_type.as_slice());
            assert(before[at as int] == lists@[at as int]@);
            lists.set(at, SoftwareRequestResponseSoftwareList { plugin_type: kept, list });
            assert(list_views(lists@) =~= grouped(before, plugin_type@, item@));
        },
        None => {
            let mut list: Vec<SoftwareModuleItem> = Vec::new();
            list.push(item);
            assert(item_list_views(list@) =~= seq![item@]);
            lists.push(SoftwareRequestResponseSoftwareList { plugin_type, list });
            assert(list_views(lists@) =~= grouped(before, plugin_type@, item@));
        },
    }
}

proof fn lemma_update_lists_none_stays(fields: Seq<Seq<u8>>, n: nat, m: nat)
    requires
        n <= m,
        update_lists(fields, n) is None,
    ensures
        update_lists(fields, m) is None,
    decreases m - n,
{
    if n < m {
        lemma_update_lists_none_stays(fields, n, (m - 1) as nat);
    }
}

fn invalid_update(reason: Vec<u8>) -> (error: ConversionError)
    ensures
        error@ == (ErrorView::InvalidSmartRest {
            operation: software_update_operation(),
            reason: reason@,
        }),
{
    ConversionError::InvalidSmartRest { operation: software_update_operation_name(), reason }
}

/// Reads the record of a software update.
pub fn parse_software_update(record: &[u8], id: usize) -> (request: Result<
    SoftwareRequestUpdate,
    ConversionError,
>)
    ensures
        match request {
            Ok(r) => requested_update(record@, id) == Ok::<RequestUpdateView, ErrorView>(r@),
            Err(e) => requested_update(record@, id) == Err::<RequestUpdateView, ErrorView>(e@),
        },
{
    proof {
        reveal_strlit("the record does not hold the device and five fields for each module");
        reveal_strlit("a module lacks its type or its name, or has an unknown action");
    }
    let fields = split_fields(record, 0x2c);
    let ghost all = views(fields@);
    assert(all.len() == fields@.len());
    if fields.len() < 2 || (fields.len() - 2) % 5 != 0 {
        return Err(
            invalid_update(
                bytes_of("the record does not hold the device and five fields for each module"),
            ),
        );
    }
    let count: usize = (fields.len() - 2) / 5;
    let mut lists: Vec<SoftwareRequestResponseSoftwareList> = Vec::new();
    let mut k: usize = 0;
    assert(list_views(lists@) =~= Seq::empty());
    while k < count
        invariant
            k <= count,
            count == (fields@.len() - 2) / 5,
            fields@.len() >= 2,
            (fields@.len() - 2) % 5 == 0,
            all == views(fields@),
            all == split(record@, 0x2c),
            update_lists(all, k as nat) == Some(list_views(lists@)),
        decreases count - k,
    {
        assert(2 + 5 * k + 5 <= fields@.len()) by (nonlinear_arith)
            requires
                k < count,
                count == (fields@.len() - 2) / 5,
                (fields@.len() - 2) % 5 == 0,
                fields@.len() >= 2,
        ;
        match read_module(&fields, 2 + 5 * k) {
            Some((plugin_type, item)) => {
                add_module(&mut lists, plugin_type, item);
            },
            None => {
                proof {
                    reveal_strlit("a module lacks its type or its name, or has an unknown action");
                    assert(update_lists(all, (k + 1) as nat) is None);
                    lemma_update_lists_none_stays(all, (k + 1) as nat, count as nat);
                }
                return Err(
                    invalid_update(
                        bytes_of("a module lacks its type or its name, or has an unknown action"),
                    ),
                );
            },
        }
        k += 1;
    }
    Ok(SoftwareRequestUpdate { id, update_list: lists })
}

/// Checks the record of a restart.
pub fn parse_restart(record: &[u8]) -> (checked: Result<(), ConversionError>)
    ensures
        match checked {
            Ok(_) => requested_restart(record@) is Ok,
            Err(e) => requested_restart(record@) == Err::<(), ErrorView>(e@),
        },
{
    proof {
        reveal_strlit("the record does not hold the device and nothing else");
    }
    let fields = split_fields(record, 0x2c);
    assert(views(fields@).len() == fields@.len());
    if fields.len() == 2 {
        Ok(())
    } else {
        Err(
            ConversionError::InvalidSmartRest {
                operation: restart_operation_name(),
                reason: bytes_of("the record does not hold the device and nothing else"),
            },
        )
    }
}

/// A module with the bearer token on its address, where it has an address
/// and that address lies in the tenant's own domain.
pub open spec fn authorized(item: ItemView, token: Seq<u8>, in_tenant: bool) -> ItemView {
    match item.url {
        Some(info) => ItemView {
            url: Some(
                DownloadView {
                    url: info.url,
                    auth: if in_tenant {
                        Some(token)
                    } else {
                        None
                    },
                },
            ),
            ..item
        },
        None => item,
    }
}

impl SoftwareModuleItem {
    /// Puts the token on the address, or takes it off.
    pub fn with_token(self, token: &[u8], in_tenant: bool) -> (item: SoftwareModuleItem)
        ensures
            item@ == authorized(self@, token@, in_tenant),
    {
        match self.url {
            Some(info) => {
                let url = if in_tenant {
                    DownloadInfo::new(info.url.as_slice()).with_auth(token)
                } else {
                    DownloadInfo::new(info.url.as_slice())
                };
                SoftwareModuleItem {
                    name: self.name,
                    version: self.version,
                    action: self.action,
                    url: Some(url),
                    reason: self.reason,
                }
            },
            None => SoftwareModuleItem {
                name: self.name,
                version: self.version,
                action: self.action,
                url: None,
                reason: self.reason,
            },
        }
    }
}

/// `after` is `before` with each address decided one way or the other.
pub open spec fn items_authorized(
    before: Seq<ItemView>,
    after: Seq<ItemView>,
    token: Seq<u8>,
) -> bool {
    &&& after.len() == before.len()
    &&& forall|i: int|
        0 <= i < before.len() ==> (#[trigger] after[i] == authorized(before[i], token, true)
            || after[i] == authorized(before[i], token, false))
}

/// `after` is `before` with the same types in the same order, and each
/// address decided one way or the other.
pub open spec fn lists_authorized(
    before: Seq<ListView>,
    after: Seq<ListView>,
    token: Seq<u8>,
) -> bool {
    &&& after.len() == before.len()
    &&& forall|i: int|
        0 <= i < before.len() ==> (#[trigger] after[i]).plugin_type == before[i].plugin_type
            && items_authorized(before[i].list, after[i].list, token)
}

} // verus!
