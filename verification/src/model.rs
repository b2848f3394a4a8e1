//! The vault's data model: collections hold tabs, tabs hold groups, groups hold items.
//!
//! Every record carries a 128-bit identifier (the integer value of a random
//! version-4 UUID).  Each type has a view, a mathematical model of its contents,
//! over which the contracts of the library are stated.

use vstd::prelude::*;

verus! {

// ---------------------------------------------------------------------------
// Identifiers
// ---------------------------------------------------------------------------

/// Calls `uuid::Uuid::new_v4` and returns the UUID as an integer (`Uuid::as_u128`).
/// The value is random; the contract only states the version-4 and RFC 4122
/// variant bits that `new_v4` always sets.
#[verifier::external_body]
pub(crate) fn new_uuid() -> (id: u128)
    ensures
        (id >> 76u32) & 0xfu128 == 4u128,
        (id >> 62u32) & 0x3u128 == 2u128,
{
    uuid::Uuid::new_v4().as_u128()
}

/// `id` carries the marks that every version-4 UUID has: version nibble 4 and
/// the RFC 4122 variant bits.
pub open spec fn is_uuid_v4(id: u128) -> bool {
    &&& (id >> 76u32) & 0xfu128 == 4u128
    &&& (id >> 62u32) & 0x3u128 == 2u128
}

// ---------------------------------------------------------------------------
// Models
// ---------------------------------------------------------------------------

/// Model of a template parameter.
pub struct ParamModel {
    pub name: Seq<char>,
    pub value: Seq<char>,
}

/// Model of a vault item.
pub enum ItemModel {
    Text { id: u128, label: Seq<char>, value: Seq<char>, editing: bool, hidden: bool },
    KeyValue {
        id: u128,
        label: Seq<char>,
        key_label: Seq<char>,
        value_label: Seq<char>,
        key: Seq<char>,
        value: Seq<char>,
        editing: bool,
        hide_key: bool,
        hide_value: bool,
    },
    ReplaceText {
        id: u128,
        label: Seq<char>,
        template: Seq<char>,
        params: Seq<ParamModel>,
        editing: bool,
        hidden: bool,
    },
    Note { id: u128, label: Seq<char>, body: Seq<char>, editing: bool },
}

/// Model of a group.
pub struct GroupModel {
    pub id: u128,
    pub name: Seq<char>,
    pub items: Seq<ItemModel>,
    pub color: Seq<u8>,
}

/// Model of a tab.
pub struct TabModel {
    pub id: u128,
    pub name: Seq<char>,
    pub groups: Seq<GroupModel>,
}

/// Model of a collection.
pub struct CollectionModel {
    pub id: u128,
    pub name: Seq<char>,
    pub tabs: Seq<TabModel>,
}

/// Model of the whole vault.
pub struct VaultModel {
    pub collections: Seq<CollectionModel>,
}

// ---------------------------------------------------------------------------
// Executable types
// ---------------------------------------------------------------------------

/// A named placeholder value of a template item.
pub struct Param {
    pub name: String,
    pub value: String,
}

/// One entry of a group.
pub enum VaultItem {
    /// A multi-line text, optionally masked when displayed.
    Text { id: u128, label: String, value: String, editing: bool, hidden: bool },
    /// A key and a value, each with its own caption and masking flag.
    KeyValue {
        id: u128,
        label: String,
        key_label: String,
        value_label: String,
        key: String,
        value: String,
        editing: bool,
        hide_key: bool,
        hide_value: bool,
    },
    /// A template with `{{name}}` placeholders and the values to put in them.
    ReplaceText {
        id: u128,
        label: String,
        template: String,
        params: Vec<Param>,
        editing: bool,
        hidden: bool,
    },
    /// A markdown note.
    Note { id: u128, label: String, body: String, editing: bool },
}

/// A boxed section of items with a colour tag.
pub struct Group {
    pub id: u128,
    pub name: String,
    pub items: Vec<VaultItem>,
    pub color: [u8; 3],
}

/// A tab of a collection.
pub struct Tab {
    pub id: u128,
    pub name: String,
    pub groups: Vec<Group>,
}

/// A collection, shown in the sidebar.
pub struct Collection {
    pub id: u128,
    pub name: String,
    pub tabs: Vec<Tab>,
}

/// Everything the application stores.
pub struct Vault {
    pub collections: Vec<Collection>,
}

// ---------------------------------------------------------------------------
// Views
// ---------------------------------------------------------------------------

pub open spec fn params_model(ps: Seq<Param>) -> Seq<ParamModel> {
    ps.map_values(|p: Param| p@)
}

pub open spec fn items_model(items: Seq<VaultItem>) -> Seq<ItemModel> {
    items.map_values(|i: VaultItem| i@)
}

pub open spec fn groups_model(groups: Seq<Group>) -> Seq<GroupModel> {
    groups.map_values(|g: Group| g@)
}

pub open spec fn tabs_model(tabs: Seq<Tab>) -> Seq<TabModel> {
    tabs.map_values(|t: Tab| t@)
}

pub open spec fn collections_model(cs: Seq<Collection>) -> Seq<CollectionModel> {
    cs.map_values(|c: Collection| c@)
}

impl View for Param {
    type V = ParamModel;

    open spec fn view(&self) -> ParamModel {
        ParamModel { name: self.name@, value: self.value@ }
    }
}

impl View for VaultItem {
    type V = ItemModel;

    open spec fn view(&self) -> ItemModel {
        match self {
            VaultItem::Text { id, label, value, editing, hidden } => ItemModel::Text {
                id: *id,
                label: label@,
                value: value@,
                editing: *editing,
                hidden: *hidden,
            },
            VaultItem::KeyValue {
                id,
                label,
                key_label,
                value_label,
                key,
                value,
                editing,
                hide_key,
                hide_value,
            } => ItemModel::KeyValue {
                id: *id,
                label: label@,
                key_label: key_label@,
                value_label: value_label@,
                key: key@,
                value: value@,
                editing: *editing,
                hide_key: *hide_key,
                hide_value: *hide_value,
            },
            VaultItem::ReplaceText { id, label, template, params, editing, hidden } =>
                ItemModel::ReplaceText {
                id: *id,
                label: label@,
                template: template@,
                params: params_model(params@),
                editing: *editing,
                hidden: *hidden,
            },
            VaultItem::Note { id, label, body, editing } => ItemModel::Note {
                id: *id,
                label: label@,
                body: body@,
                editing: *editing,
            },
        }
    }
}

impl View for Group {
    type V = GroupModel;

    open spec fn view(&self) -> GroupModel {
        GroupModel {
            id: self.id,
            name: self.name@,
            items: items_model(self.items@),
            color: self.color@,
        }
    }
}

impl View for Tab {
    type V = TabModel;

    open spec fn view(&self) -> TabModel {
        TabModel { id: self.id, name: self.name@, groups: groups_model(self.groups@) }
    }
}

impl View for Collection {
    type V = CollectionModel;

    open spec fn view(&self) -> CollectionModel {
        CollectionModel { id: self.id, name: self.name@, tabs: tabs_model(self.tabs@) }
    }
}

impl View for Vault {
    type V = VaultModel;

    open spec fn view(&self) -> VaultModel {
        VaultModel { collections: collections_model(self.collections@) }
    }
}

// ---------------------------------------------------------------------------
// Content predicates
// ---------------------------------------------------------------------------

impl ItemModel {
    pub open spec fn id(self) -> u128 {
        match self {
            ItemModel::Text { id, .. } => id,
            ItemModel::KeyValue { id, .. } => id,
            ItemModel::ReplaceText { id, .. } => id,
            ItemModel::Note { id, .. } => id,
        }
    }

    pub open spec fn label(self) -> Seq<char> {
        match self {
            ItemModel::Text { label, .. } => label,
            ItemModel::KeyValue { label, .. } => label,
            ItemModel::ReplaceText { label, .. } => label,
            ItemModel::Note { label, .. } => label,
        }
    }

    /// An item has content when the user stored something in it: a text, a key
    /// or value, a template or a parameter value, or a note body.
    pub open spec fn has_content(self) -> bool {
        match self {
            ItemModel::Text { value, .. } => value.len() > 0,
            ItemModel::KeyValue { key, value, .. } => key.len() > 0 || value.len() > 0,
            ItemModel::ReplaceText { template, params, .. } => template.len() > 0 || exists|
                i: int,
            |
                0 <= i < params.len() && #[trigger] params[i].value.len() > 0,
            ItemModel::Note { body, .. } => body.len() > 0,
        }
    }
}

impl GroupModel {
    pub open spec fn has_content(self) -> bool {
        exists|i: int| 0 <= i < self.items.len() && #[trigger] self.items[i].has_content()
    }
}

impl TabModel {
    pub open spec fn has_content(self) -> bool {
        exists|i: int| 0 <= i < self.groups.len() && #[trigger] self.groups[i].has_content()
    }
}

impl CollectionModel {
    pub open spec fn has_content(self) -> bool {
        exists|i: int| 0 <= i < self.tabs.len() && #[trigger] self.tabs[i].has_content()
    }
}

/// The colour a new group gets: light grey.
pub open spec fn default_group_color_spec() -> Seq<u8> {
    seq![180u8, 180u8, 180u8]
}

/// The colour a new group gets: light grey.
pub fn default_group_color() -> (c: [u8; 3])
    ensures
        c@ == default_group_color_spec(),
{
    let c: [u8; 3] = [180, 180, 180];
    assert(c@ =~= default_group_color_spec());
    c
}

// ---------------------------------------------------------------------------
// Cloning
// ---------------------------------------------------------------------------

impl Clone for Param {
    fn clone(&self) -> (r: Self)
        ensures
            r@ == self@,
    {
        Param { name: self.name.clone(), value: self.value.clone() }
    }
}

pub fn clone_params(ps: &Vec<Param>) -> (r: Vec<Param>)
    ensures
        params_model(r@) == params_model(ps@),
{
    let mut r: Vec<Param> = Vec::new();
    let mut i: usize = 0;
    while i < ps.len()
        invariant
            0 <= i <= ps.len(),
            r@.len() == i,
            forall|j: int| 0 <= j < i ==> #[trigger] r@[j]@ == ps@[j]@,
        decreases ps.len() - i,
    {
        r.push(ps[i].clone());
        i = i + 1;
    }
    assert(params_model(r@) =~= params_model(ps@));
    r
}

impl Clone for VaultItem {
    fn clone(&self) -> (r: Self)
        ensures
            r@ == self@,
    {
        match self {
            VaultItem::Text { id, label, value, editing, hidden } => VaultItem::Text {
                id: *id,
                label: label.clone(),
                value: value.clone(),
                editing: *editing,
                hidden: *hidden,
            },
            VaultItem::KeyValue {
                id,
                label,
                key_label,
                value_label,
                key,
                value,
                editing,
                hide_key,
                hide_value,
            } => VaultItem::KeyValue {
                id: *id,
                label: label.clone(),
                key_label: key_label.clone(),
                value_label: value_label.clone(),
                key: key.clone(),
                value: value.clone(),
                editing: *editing,
                hide_key: *hide_key,
                hide_value: *hide_value,
            },
            VaultItem::ReplaceText { id, label, template, params, editing, hidden } =>
                VaultItem::ReplaceText {
                id: *id,
                label: label.clone(),
                template: template.clone(),
                params: clone_params(params),
                editing: *editing,
                hidden: *hidden,
            },
            VaultItem::Note { id, label, body, editing } => VaultItem::Note {
                id: *id,
                label: label.clone(),
                body: body.clone(),
                editing: *editing,
            },
        }
    }
}

fn clone_items(items: &Vec<VaultItem>) -> (r: Vec<VaultItem>)
    ensures
        items_model(r@) == items_model(items@),
{
    let mut r: Vec<VaultItem> = Vec::new();
    let mut i: usize = 0;
    while i < items.len()
        invariant
            0 <= i <= items.len(),
            r@.len() == i,
            forall|j: int| 0 <= j < i ==> #[trigger] r@[j]@ == items@[j]@,
        decreases items.len() - i,
    {
        r.push(items[i].clone());
        i = i + 1;
    }
    assert(items_model(r@) =~= items_model(items@));
    r
}

impl Clone for Group {
    fn clone(&self) -> (r: Self)
        ensures
            r@ == self@,
    {
        Group {
            id: self.id,
            name: self.name.clone(),
            items: clone_items(&self.items),
            color: self.color,
        }
    }
}

fn clone_groups(groups: &Vec<Group>) -> (r: Vec<Group>)
    ensures
        groups_model(r@) == groups_model(groups@),
{
    let mut r: Vec<Group> = Vec::new();
    let mut i: usize = 0;
    while i < groups.len()
        invariant
            0 <= i <= groups.len(),
            r@.len() == i,
            forall|j: int| 0 <= j < i ==> #[trigger] r@[j]@ == groups@[j]@,
        decreases groups.len() - i,
    {
        r.push(groups[i].clone());
        i = i + 1;
    }
    assert(groups_model(r@) =~= groups_model(groups@));
    r
}

impl Clone for Tab {
    fn clone(&self) -> (r: Self)
        ensures
            r@ == self@,
    {
        Tab { id: self.id, name: self.name.clone(), groups: clone_groups(&self.groups) }
    }
}

fn clone_tabs(tabs: &Vec<Tab>) -> (r: Vec<Tab>)
    ensures
        tabs_model(r@) == tabs_model(tabs@),
{
    let mut r: Vec<Tab> = Vec::new();
    let mut i: usize = 0;
    while i < tabs.len()
        invariant
            0 <= i <= tabs.len(),
            r@.len() == i,
            forall|j: int| 0 <= j < i ==> #[trigger] r@[j]@ == tabs@[j]@,
        decreases tabs.len() - i,
    {
        r.push(tabs[i].clone());
        i = i + 1;
    }
    assert(tabs_model(r@) =~= tabs_model(tabs@));
    r
}

impl Clone for Collection {
    fn clone(&self) -> (r: Self)
        ensures
            r@ == self@,
    {
        Collection { id: self.id, name: self.name.clone(), tabs: clone_tabs(&self.tabs) }
    }
}

fn clone_collections(cs: &Vec<Collection>) -> (r: Vec<Collection>)
    ensures
        collections_model(r@) == collections_model(cs@),
{
    let mut r: Vec<Collection> = Vec::new();
    let mut i: usize = 0;
    while i < cs.len()
        invariant
            0 <= i <= cs.len(),
            r@.len() == i,
            forall|j: int| 0 <= j < i ==> #[trigger] r@[j]@ == cs@[j]@,
        decreases cs.len() - i,
    {
        r.push(cs[i].clone());
        i = i + 1;
    }
    assert(collections_model(r@) =~= collections_model(cs@));
    r
}

impl Clone for Vault {
    fn clone(&self) -> (r: Self)
        ensures
            r@ == self@,
    {
        Vault { collections: clone_collections(&self.collections) }
    }
}


// ---------------------------------------------------------------------------
// Constructors
// ---------------------------------------------------------------------------

impl Collection {
    /// A new collection with a fresh id and a single empty tab named "Tab 1".
    pub fn new(name: String) -> (c: Collection)
        ensures
            c@.name == name@,
            c@.tabs.len() == 1,
            c@.tabs[0].name == "Tab 1"@,
            c@.tabs[0].groups.len() == 0,
            is_uuid_v4(c@.id),
            is_uuid_v4(c@.tabs[0].id),
    {
        let mut tabs: Vec<Tab> = Vec::new();
        tabs.push(Tab::new(String::from_str("Tab 1")));
        let c = Collection { id: new_uuid(), name, tabs };
        assert(c@.tabs[0] == c.tabs@[0]@);
        c
    }
}

impl Tab {
    /// A new tab with a fresh id and no groups.
    pub fn new(name: String) -> (t: Tab)
        ensures
            t@.name == name@,
            t@.groups.len() == 0,
            is_uuid_v4(t@.id),
    {
        Tab { id: new_uuid(), name, groups: Vec::new() }
    }
}

impl Group {
    /// A new group with a fresh id, no items and the default colour.
    pub fn new(name: String) -> (g: Group)
        ensures
            g@.name == name@,
            g@.items.len() == 0,
            g@.color == default_group_color_spec(),
            is_uuid_v4(g@.id),
    {
        Group { id: new_uuid(), name, items: Vec::new(), color: default_group_color() }
    }
}

/// Whether some parameter has a non-empty value.
fn any_param_value(params: &Vec<Param>) -> (r: bool)
    ensures
        r == exists|i: int|
            0 <= i < params_model(params@).len() && #[trigger] params_model(params@)[i].value.len()
                > 0,
{
    let ghost ps = params_model(params@);
    let mut i: usize = 0;
    while i < params.len()
        invariant
            0 <= i <= params.len(),
            ps == params_model(params@),
            forall|j: int| 0 <= j < i ==> #[trigger] ps[j].value.len() == 0,
        decreases params.len() - i,
    {
        if !params[i].value.as_str().is_empty() {
            assert(ps[i as int].value.len() > 0);
            return true;
        }
        i = i + 1;
    }
    false
}

impl VaultItem {
    /// The item's identifier.
    pub fn id(&self) -> (id: u128)
        ensures
            id == self@.id(),
    {
        match self {
            VaultItem::Text { id, .. } => *id,
            VaultItem::KeyValue { id, .. } => *id,
            VaultItem::ReplaceText { id, .. } => *id,
            VaultItem::Note { id, .. } => *id,
        }
    }

    /// The item's label.
    pub fn label(&self) -> (l: &String)
        ensures
            l@ == self@.label(),
    {
        match self {
            VaultItem::Text { label, .. } => label,
            VaultItem::KeyValue { label, .. } => label,
            VaultItem::ReplaceText { label, .. } => label,
            VaultItem::Note { label, .. } => label,
        }
    }

    /// A new empty text item, labelled "New text", open for editing.
    pub fn new_text() -> (r: VaultItem)
        ensures
            r@ matches ItemModel::Text { label, value, editing, hidden, .. } && label
                == "New text"@ && value.len() == 0 && editing && !hidden,
            is_uuid_v4(r@.id()),
    {
        VaultItem::Text {
            id: new_uuid(),
            label: String::from_str("New text"),
            value: String::new(),
            editing: true,
            hidden: false,
        }
    }

    /// A new empty key/value item, labelled "New entry", with captions "Key"
    /// and "Value", open for editing.
    pub fn new_kv() -> (r: VaultItem)
        ensures
            r@ matches ItemModel::KeyValue {
                label,
                key_label,
                value_label,
                key,
                value,
                editing,
                hide_key,
                hide_value,
                ..
            } && label == "New entry"@ && key_label == "Key"@ && value_label == "Value"@
                && key.len() == 0 && value.len() == 0 && editing && !hide_key && !hide_value,
            is_uuid_v4(r@.id()),
    {
        VaultItem::KeyValue {
            id: new_uuid(),
            label: String::from_str("New entry"),
            key_label: String::from_str("Key"),
            value_label: String::from_str("Value"),
            key: String::new(),
            value: String::new(),
            editing: true,
            hide_key: false,
            hide_value: false,
        }
    }

    /// A new empty template item, labelled "New template", open for editing.
    pub fn new_replace() -> (r: VaultItem)
        ensures
            r@ matches ItemModel::ReplaceText { label, template, params, editing, hidden, .. }
                && label == "New template"@ && template.len() == 0 && params.len() == 0
                && editing && !hidden,
            is_uuid_v4(r@.id()),
    {
        let params: Vec<Param> = Vec::new();
        let r = VaultItem::ReplaceText {
            id: new_uuid(),
            label: String::from_str("New template"),
            template: String::new(),
            params,
            editing: true,
            hidden: false,
        };
        assert(params_model(params@).len() == 0);
        r
    }

    /// A new empty note, labelled "New note", open for editing.
    pub fn new_note() -> (r: VaultItem)
        ensures
            r@ matches ItemModel::Note { label, body, editing, .. } && label == "New note"@
                && body.len() == 0 && editing,
            is_uuid_v4(r@.id()),
    {
        VaultItem::Note {
            id: new_uuid(),
            label: String::from_str("New note"),
            body: String::new(),
            editing: true,
        }
    }

    /// Whether the user stored anything in this item.
    pub fn has_content(&self) -> (r: bool)
        ensures
            r == self@.has_content(),
    {
        let r = match self {
            VaultItem::Text { value, .. } => !value.as_str().is_empty(),
            VaultItem::KeyValue { key, value, .. } => {
                !key.as_str().is_empty() || !value.as_str().is_empty()
            },
            VaultItem::ReplaceText { template, params, .. } => {
                let a = !template.as_str().is_empty();
                let b = any_param_value(params);
                assert(self@->ReplaceText_params == params_model(params@));
                assert(self@.has_content() == (a || b));
                a || b
            },
            VaultItem::Note { body, .. } => {
                let x = !body.as_str().is_empty();
                assert(self@.has_content() == x);
                x
            },
        };
        r
    }
}

impl Group {
    /// Whether some item of the group has content.
    pub fn has_content(&self) -> (r: bool)
        ensures
            r == self@.has_content(),
    {
        let mut i: usize = 0;
        while i < self.items.len()
            invariant
                0 <= i <= self.items.len(),
                forall|j: int| 0 <= j < i ==> !(#[trigger] self.items@[j]@).has_content(),
            decreases self.items.len() - i,
        {
            if self.items[i].has_content() {
                assert(self@.items[i as int].has_content());
                return true;
            }
            i = i + 1;
        }
        assert forall|j: int| 0 <= j < self@.items.len() implies !(
        #[trigger] self@.items[j]).has_content() by {
            assert(self@.items[j] == self.items@[j]@);
        }
        false
    }
}

impl Tab {
    /// Whether some group of the tab has content.
    pub fn has_content(&self) -> (r: bool)
        ensures
            r == self@.has_content(),
    {
        let mut i: usize = 0;
        while i < self.groups.len()
            invariant
                0 <= i <= self.groups.len(),
                forall|j: int| 0 <= j < i ==> !(#[trigger] self.groups@[j]@).has_content(),
            decreases self.groups.len() - i,
        {
            if self.groups[i].has_content() {
                assert(self@.groups[i as int].has_content());
                return true;
            }
            i = i + 1;
        }
        assert forall|j: int| 0 <= j < self@.groups.len() implies !(
        #[trigger] self@.groups[j]).has_content() by {
            assert(self@.groups[j] == self.groups@[j]@);
        }
        false
    }
}

impl Collection {
    /// Whether some tab of the collection has content.
    pub fn has_content(&self) -> (r: bool)
        ensures
            r == self@.has_content(),
    {
        let mut i: usize = 0;
        while i < self.tabs.len()
            invariant
                0 <= i <= self.tabs.len(),
                forall|j: int| 0 <= j < i ==> !(#[trigger] self.tabs@[j]@).has_content(),
            decreases self.tabs.len() - i,
        {
            if self.tabs[i].has_content() {
                assert(self@.tabs[i as int].has_content());
                return true;
            }
            i = i + 1;
        }
        assert forall|j: int| 0 <= j < self@.tabs.len() implies !(
        #[trigger] self@.tabs[j]).has_content() by {
            assert(self@.tabs[j] == self.tabs@[j]@);
        }
        false
    }
}

impl Default for Vault {
    /// An empty vault.
    fn default() -> (v: Vault)
        ensures
            v@.collections.len() == 0,
    {
        Vault { collections: Vec::new() }
    }
}


// ---------------------------------------------------------------------------
// Item edits
// ---------------------------------------------------------------------------

impl ItemModel {
    /// Whether the item is open for editing.
    pub open spec fn editing(self) -> bool {
        match self {
            ItemModel::Text { editing, .. } => editing,
            ItemModel::KeyValue { editing, .. } => editing,
            ItemModel::ReplaceText { editing, .. } => editing,
            ItemModel::Note { editing, .. } => editing,
        }
    }

    /// The item with its editing flag set to `e`.
    pub open spec fn with_editing(self, e: bool) -> ItemModel {
        match self {
            ItemModel::Text { id, label, value, hidden, .. } => ItemModel::Text {
                id,
                label,
                value,
                editing: e,
                hidden,
            },
            ItemModel::KeyValue {
                id,
                label,
                key_label,
                value_label,
                key,
                value,
                hide_key,
                hide_value,
                ..
            } => ItemModel::KeyValue {
                id,
                label,
                key_label,
                value_label,
                key,
                value,
                editing: e,
                hide_key,
                hide_value,
            },
            ItemModel::ReplaceText { id, label, template, params, hidden, .. } =>
                ItemModel::ReplaceText { id, label, template, params, editing: e, hidden },
            ItemModel::Note { id, label, body, .. } => ItemModel::Note {
                id,
                label,
                body,
                editing: e,
            },
        }
    }

    /// The item with label `l`.
    pub open spec fn with_label(self, l: Seq<char>) -> ItemModel {
        match self {
            ItemModel::Text { id, value, editing, hidden, .. } => ItemModel::Text {
                id,
                label: l,
                value,
                editing,
                hidden,
            },
            ItemModel::KeyValue {
                id,
                key_label,
                value_label,
                key,
                value,
                editing,
                hide_key,
                hide_value,
                ..
            } => ItemModel::KeyValue {
                id,
                label: l,
                key_label,
                value_label,
                key,
                value,
                editing,
                hide_key,
                hide_value,
            },
            ItemModel::ReplaceText { id, template, params, editing, hidden, .. } =>
                ItemModel::ReplaceText { id, label: l, template, params, editing, hidden },
            ItemModel::Note { id, body, editing, .. } => ItemModel::Note {
                id,
                label: l,
                body,
                editing,
            },
        }
    }
}

impl VaultItem {
    /// Opens or closes the item for editing.
    pub fn set_editing(&mut self, e: bool)
        ensures
            final(self)@ == old(self)@.with_editing(e),
    {
        match self {
            VaultItem::Text { editing, .. } => {
                *editing = e;
            },
            VaultItem::KeyValue { editing, .. } => {
                *editing = e;
            },
            VaultItem::ReplaceText { editing, .. } => {
                *editing = e;
            },
            VaultItem::Note { editing, .. } => {
                *editing = e;
            },
        }
    }

    /// Renames the item.
    pub fn set_label(&mut self, l: String)
        ensures
            final(self)@ == old(self)@.with_label(l@),
    {
        match self {
            VaultItem::Text { label, .. } => {
                *label = l;
            },
            VaultItem::KeyValue { label, .. } => {
                *label = l;
            },
            VaultItem::ReplaceText { label, .. } => {
                *label = l;
            },
            VaultItem::Note { label, .. } => {
                *label = l;
            },
        }
    }
}

} // verus!
