//! The portable file format for export and backup.
//!
//! On disk a file is either the plain JSON of an `ExportPayload`, or the
//! bytes that `crypto::encrypt` makes of that JSON.  Turning a payload into
//! JSON and back is the I/O layer's business; this module decides what is
//! written and what is read.

use vstd::prelude::*;
use vstd::string::StringSliceAdditionalSpecFns;
use crate::crypto::{self, has_header, has_magic, seals, aes256gcm_open, argon2id_key, salt_of, nonce_of, ciphertext_of};
use crate::error::VaultError;
use crate::text::{sanitize_filename, sanitize_spec};
use crate::model::{Collection, Vault, VaultItem, Group, Tab, ItemModel, GroupModel, TabModel, CollectionModel, new_uuid, is_uuid_v4};

verus! {

/// The format version written into every payload.
pub const PAYLOAD_VERSION: u32 = 1;

/// What an export or backup file holds.
pub enum ExportPayload {
    /// One collection (an export).
    Collection { version: u32, collection: Collection },
    /// The whole vault (a backup).
    Backup { version: u32, vault: Vault },
}

impl ExportPayload {
    /// The payload of a collection export.
    pub fn collection(c: Collection) -> (p: ExportPayload)
        ensures
            p matches ExportPayload::Collection { version, collection } && version == 1
                && collection@ == c@,
    {
        ExportPayload::Collection { version: PAYLOAD_VERSION, collection: c }
    }

    /// The payload of a full backup.
    pub fn backup(v: Vault) -> (p: ExportPayload)
        ensures
            p matches ExportPayload::Backup { version, vault } && version == 1 && vault@ == v@,
    {
        ExportPayload::Backup { version: PAYLOAD_VERSION, vault: v }
    }
}

/// What a file written with `password` for the JSON `json` may hold: the
/// JSON itself when the password is empty, else the JSON encrypted under the
/// password.
pub open spec fn written_for(
    file: Seq<u8>,
    json: Seq<u8>,
    password: Seq<char>,
    password_bytes: Seq<u8>,
) -> bool {
    if password.len() == 0 {
        file == json
    } else {
        seals(file, json, password_bytes)
    }
}

/// When reading `file` with `password` is sure to give back `json`: with an
/// empty password, a file that does not look encrypted is read as it is;
/// with a password, a file that is `json` encrypted under it (within the
/// limits of Argon2 and AES-GCM) decrypts to `json`.
pub open spec fn reads_as(
    file: Seq<u8>,
    json: Seq<u8>,
    password: Seq<char>,
    password_bytes: Seq<u8>,
) -> bool {
    if password.len() == 0 {
        !has_magic(file) && json == file
    } else {
        seals(file, json, password_bytes) && json.len() <= 0x10_0000_0000 && password_bytes.len()
            <= 0xffff_ffff
    }
}

/// The bytes written for a payload whose JSON is `json`: the JSON itself when
/// the password is empty, its encryption under the password otherwise.
pub fn export_bytes(json: &[u8], password: &str) -> (r: Result<Vec<u8>, VaultError>)
    ensures
        password@.len() == 0 ==> (r matches Ok(b) && b@ == json@),
        password@.len() > 0 && password.spec_bytes().len() > 0xffff_ffff ==> r matches Err(
            VaultError::Kdf(_),
        ),
        password@.len() > 0 && password.spec_bytes().len() <= 0xffff_ffff && json@.len()
            > 0x10_0000_0000 ==> r matches Err(VaultError::Encrypt),
        password@.len() > 0 && password.spec_bytes().len() <= 0xffff_ffff && json@.len()
            <= 0x10_0000_0000 ==> r is Ok,
        r matches Ok(b) ==> written_for(b@, json@, password@, password.spec_bytes()),
{
    if password.is_empty() {
        Ok(copy_bytes(json))
    } else {
        crypto::encrypt(json, password)
    }
}

fn copy_bytes(data: &[u8]) -> (r: Vec<u8>)
    ensures
        r@ == data@,
{
    let mut r: Vec<u8> = Vec::new();
    let mut i: usize = 0;
    while i < data.len()
        invariant
            0 <= i <= data@.len(),
            r@ == data@.take(i as int),
        decreases data.len() - i,
    {
        r.push(data[i]);
        i = i + 1;
        assert(r@ =~= data@.take(i as int));
    }
    assert(data@.take(data@.len() as int) =~= data@);
    r
}

/// The JSON held by a file's bytes, decrypting first when a password is
/// supplied.  With an empty password the bytes are the JSON, unless they look
/// encrypted (`PasswordRequired`); with a password they are decrypted by
/// `crypto::decrypt`, so bytes that are not an encrypted file are
/// `NotEncrypted`.
pub fn import_bytes(bytes: &[u8], password: &str) -> (r: Result<Vec<u8>, VaultError>)
    ensures
        password@.len() == 0 && !has_magic(bytes@) ==> (r matches Ok(j) && j@ == bytes@),
        password@.len() == 0 && has_magic(bytes@) ==> r matches Err(VaultError::PasswordRequired),
        password@.len() > 0 && !has_header(bytes@) ==> r matches Err(VaultError::NotEncrypted),
        password@.len() > 0 && has_header(bytes@) && password.spec_bytes().len() > 0xffff_ffff
            ==> r matches Err(VaultError::Kdf(_)),
        password@.len() > 0 && has_header(bytes@) && password.spec_bytes().len() <= 0xffff_ffff
            ==> match aes256gcm_open(
            argon2id_key(password.spec_bytes(), salt_of(bytes@)),
            nonce_of(bytes@),
            ciphertext_of(bytes@),
        ) {
            Some(p) => r matches Ok(x) && x@ == p,
            None => r matches Err(VaultError::DecryptFailed),
        },
        forall|j: Seq<u8>|
            #[trigger] reads_as(bytes@, j, password@, password.spec_bytes()) ==> (r matches Ok(x)
                && x@ == j),
{
    if password.is_empty() {
        if crypto::looks_encrypted(bytes) {
            Err(VaultError::PasswordRequired)
        } else {
            Ok(copy_bytes(bytes))
        }
    } else {
        crypto::decrypt(bytes, password)
    }
}

/// Reading a file back with the password it was written with gives the JSON
/// that was written: always when the password is not empty, and with an empty
/// password whenever the JSON does not itself start with the mark of an
/// encrypted file.
pub proof fn law_import_reads_what_export_wrote(
    file: Seq<u8>,
    json: Seq<u8>,
    password: Seq<char>,
    password_bytes: Seq<u8>,
)
    requires
        written_for(file, json, password, password_bytes),
        password.len() > 0 ==> json.len() <= 0x10_0000_0000 && password_bytes.len()
            <= 0xffff_ffff,
        password.len() == 0 ==> !has_magic(json),
    ensures
        reads_as(file, json, password, password_bytes),
{
}

/// A JSON object (first byte `{`) never looks encrypted, so a payload written
/// as plain JSON, which is always an object, meets the condition of
/// `law_import_reads_what_export_wrote` for an empty password.
pub proof fn law_json_object_never_looks_encrypted(json: Seq<u8>)
    requires
        json.len() > 0,
        json[0] == 0x7bu8,
    ensures
        !has_magic(json),
{
    if json.len() >= 8 {
        assert(json.subrange(0, 8)[0] != crypto::magic_spec()[0]);
    }
}

// ---------------------------------------------------------------------------
// Re-keying an imported collection
// ---------------------------------------------------------------------------

impl ItemModel {
    /// The same item under another id.
    pub open spec fn with_id(self, new_id: u128) -> ItemModel {
        match self {
            ItemModel::Text { id, label, value, editing, hidden } => ItemModel::Text {
                id: new_id,
                label,
                value,
                editing,
                hidden,
            },
            ItemModel::KeyValue {
                id,
                label,
                key_label,
                value_label,
                key,
                value,
                editing,
                hide_key,
                hide_value,
            } => ItemModel::KeyValue {
                id: new_id,
                label,
                key_label,
                value_label,
                key,
                value,
                editing,
                hide_key,
                hide_value,
            },
            ItemModel::ReplaceText { id, label, template, params, editing, hidden } =>
                ItemModel::ReplaceText { id: new_id, label, template, params, editing, hidden },
            ItemModel::Note { id, label, body, editing } => ItemModel::Note {
                id: new_id,
                label,
                body,
                editing,
            },
        }
    }
}

impl GroupModel {
    /// `other` is this group with possibly other ids for the group and its items.
    pub open spec fn same_but_ids(self, other: GroupModel) -> bool {
        &&& other.name == self.name
        &&& other.color == self.color
        &&& other.items.len() == self.items.len()
        &&& forall|i: int|
            0 <= i < self.items.len() ==> #[trigger] other.items[i] == self.items[i].with_id(
                other.items[i].id(),
            )
    }
}

impl TabModel {
    /// `other` is this tab with possibly other ids throughout.
    pub open spec fn same_but_ids(self, other: TabModel) -> bool {
        &&& other.name == self.name
        &&& other.groups.len() == self.groups.len()
        &&& forall|i: int|
            0 <= i < self.groups.len() ==> (#[trigger] self.groups[i]).same_but_ids(
                other.groups[i],
            )
    }
}

impl CollectionModel {
    /// `other` is this collection with possibly other ids throughout.
    pub open spec fn same_but_ids(self, other: CollectionModel) -> bool {
        &&& other.name == self.name
        &&& other.tabs.len() == self.tabs.len()
        &&& forall|i: int|
            0 <= i < self.tabs.len() ==> (#[trigger] self.tabs[i]).same_but_ids(other.tabs[i])
    }

    /// Every id in the collection (its own, and those of its tabs, groups
    /// and items) is a version-4 UUID.
    pub open spec fn all_ids_v4(self) -> bool {
        &&& is_uuid_v4(self.id)
        &&& forall|i: int| 0 <= i < self.tabs.len() ==> (#[trigger] self.tabs[i]).all_ids_v4()
    }
}

impl TabModel {
    /// Every id in the tab (its own, and those of its groups and items) is a
    /// version-4 UUID.
    pub open spec fn all_ids_v4(self) -> bool {
        &&& is_uuid_v4(self.id)
        &&& forall|i: int| 0 <= i < self.groups.len() ==> (#[trigger] self.groups[i]).all_ids_v4()
    }
}

impl GroupModel {
    /// The group's id and the ids of all its items are version-4 UUIDs.
    pub open spec fn all_ids_v4(self) -> bool {
        &&& is_uuid_v4(self.id)
        &&& forall|i: int| 0 <= i < self.items.len() ==> is_uuid_v4(#[trigger] self.items[i].id())
    }
}

/// Gives an item a fresh id.
fn rekey_item(item: &mut VaultItem)
    ensures
        final(item)@ == old(item)@.with_id(final(item)@.id()),
        is_uuid_v4(final(item)@.id()),
{
    let fresh = new_uuid();
    match item {
        VaultItem::Text { id, .. } => {
            *id = fresh;
        },
        VaultItem::KeyValue { id, .. } => {
            *id = fresh;
        },
        VaultItem::ReplaceText { id, .. } => {
            *id = fresh;
        },
        VaultItem::Note { id, .. } => {
            *id = fresh;
        },
    }
}

/// Gives a group and its items fresh ids.
fn rekey_group(g: &mut Group)
    ensures
        old(g)@.same_but_ids(final(g)@),
        final(g)@.all_ids_v4(),
{
    g.id = new_uuid();
    let n = g.items.len();
    let mut i: usize = 0;
    while i < n
        invariant
            0 <= i <= n,
            n == g.items@.len(),
            g.name@ == old(g).name@,
            g.color@ == old(g).color@,
            is_uuid_v4(g.id),
            old(g).items@.len() == n,
            forall|j: int|
                0 <= j < i ==> (#[trigger] g.items@[j])@ == old(g).items@[j]@.with_id(
                    g.items@[j]@.id(),
                ) && is_uuid_v4(g.items@[j]@.id()),
            forall|j: int| i <= j < n ==> #[trigger] g.items@[j] == old(g).items@[j],
        decreases n - i,
    {
        rekey_item(&mut g.items[i]);
        i = i + 1;
    }
}

/// Gives a tab and everything in it fresh ids.
fn rekey_tab(t: &mut Tab)
    ensures
        old(t)@.same_but_ids(final(t)@),
        final(t)@.all_ids_v4(),
{
    t.id = new_uuid();
    let n = t.groups.len();
    let mut i: usize = 0;
    while i < n
        invariant
            0 <= i <= n,
            n == t.groups@.len(),
            t.name@ == old(t).name@,
            is_uuid_v4(t.id),
            old(t).groups@.len() == n,
            forall|j: int|
                0 <= j < i ==> old(t).groups@[j]@.same_but_ids(#[trigger] t.groups@[j]@)
                    && t.groups@[j]@.all_ids_v4(),
            forall|j: int| i <= j < n ==> #[trigger] t.groups@[j] == old(t).groups@[j],
        decreases n - i,
    {
        rekey_group(&mut t.groups[i]);
        i = i + 1;
    }
}

/// Gives an imported collection fresh ids throughout (collection, tabs,
/// groups, items), so that it can neither collide with nor overwrite one that
/// is already in the vault.  Nothing else changes.
pub fn rekey_collection(c: &mut Collection)
    ensures
        old(c)@.same_but_ids(final(c)@),
        final(c)@.all_ids_v4(),
{
    c.id = new_uuid();
    let n = c.tabs.len();
    let mut i: usize = 0;
    while i < n
        invariant
            0 <= i <= n,
            n == c.tabs@.len(),
            c.name@ == old(c).name@,
            is_uuid_v4(c.id),
            old(c).tabs@.len() == n,
            forall|j: int|
                0 <= j < i ==> old(c).tabs@[j]@.same_but_ids(#[trigger] c.tabs@[j]@)
                    && c.tabs@[j]@.all_ids_v4(),
            forall|j: int| i <= j < n ==> #[trigger] c.tabs@[j] == old(c).tabs@[j],
        decreases n - i,
    {
        rekey_tab(&mut c.tabs[i]);
        i = i + 1;
    }
}


/// The file name offered when a collection is exported: its name (or
/// "collection" when it has none) made safe for a file name, then ".kv".
pub open spec fn export_file_name_spec(name: Seq<char>) -> Seq<char> {
    sanitize_spec(
        if name.len() == 0 {
            "collection"@
        } else {
            name
        },
    ) + ".kv"@
}

/// The file name offered when a collection is exported.
pub fn export_file_name(name: &str) -> (r: String)
    ensures
        r@ == export_file_name_spec(name@),
{
    let mut r = if name.is_empty() {
        sanitize_filename("collection")
    } else {
        sanitize_filename(name)
    };
    r.append(".kv");
    r
}


/// Re-keying keeps content: a collection with the same records under other
/// ids has content exactly when the original has, and so has each of its
/// tabs, groups and items.
pub proof fn law_same_but_ids_keeps_content(a: CollectionModel, b: CollectionModel)
    requires
        a.same_but_ids(b),
    ensures
        a.has_content() == b.has_content(),
{
    assert forall|ti: int| 0 <= ti < a.tabs.len() implies (#[trigger] a.tabs[ti]).has_content()
        == b.tabs[ti].has_content() by {
        let ta = a.tabs[ti];
        let tb = b.tabs[ti];
        assert(ta.same_but_ids(tb));
        assert forall|gi: int| 0 <= gi < ta.groups.len() implies (#[trigger] ta.groups[gi]).has_content()
            == tb.groups[gi].has_content() by {
            let ga = ta.groups[gi];
            let gb = tb.groups[gi];
            assert(ga.same_but_ids(gb));
            assert forall|ii: int| 0 <= ii < ga.items.len() implies (#[trigger] ga.items[ii]).has_content()
                == gb.items[ii].has_content() by {
                assert(gb.items[ii] == ga.items[ii].with_id(gb.items[ii].id()));
                lemma_with_id_keeps_content(ga.items[ii], gb.items[ii].id());
            }
            if ga.has_content() {
                let ii = choose|ii: int| 0 <= ii < ga.items.len() && #[trigger] ga.items[ii].has_content();
                assert(gb.items[ii].has_content());
            }
            if gb.has_content() {
                let ii = choose|ii: int| 0 <= ii < gb.items.len() && #[trigger] gb.items[ii].has_content();
                assert(ga.items[ii].has_content());
            }
        }
        if ta.has_content() {
            let gi = choose|gi: int| 0 <= gi < ta.groups.len() && #[trigger] ta.groups[gi].has_content();
            assert(tb.groups[gi].has_content());
        }
        if tb.has_content() {
            let gi = choose|gi: int| 0 <= gi < tb.groups.len() && #[trigger] tb.groups[gi].has_content();
            assert(ta.groups[gi].has_content());
        }
    }
    if a.has_content() {
        let ti = choose|ti: int| 0 <= ti < a.tabs.len() && #[trigger] a.tabs[ti].has_content();
        assert(b.tabs[ti].has_content());
    }
    if b.has_content() {
        let ti = choose|ti: int| 0 <= ti < b.tabs.len() && #[trigger] b.tabs[ti].has_content();
        assert(a.tabs[ti].has_content());
    }
}

proof fn lemma_with_id_keeps_content(it: ItemModel, id: u128)
    ensures
        it.with_id(id).has_content() == it.has_content(),
{
    if let ItemModel::ReplaceText { params, .. } = it {
        let w = it.with_id(id);
        assert(w->ReplaceText_params == params);
        if it.has_content() && w->ReplaceText_template.len() == 0 {
            let i = choose|i: int| 0 <= i < params.len() && #[trigger] params[i].value.len() > 0;
            assert(w->ReplaceText_params[i].value.len() > 0);
        }
        if w.has_content() && it->ReplaceText_template.len() == 0 {
            let i = choose|i: int|
                0 <= i < w->ReplaceText_params.len() && #[trigger] w->ReplaceText_params[i].value.len()
                    > 0;
            assert(params[i].value.len() > 0);
        }
    }
}

} // verus!
