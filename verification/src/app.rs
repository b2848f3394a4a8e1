//! The application's state and the decisions it takes: which collection and
//! tab are active, the undo/redo history, when to save, and what each user
//! action does to the vault.  The window, dialogs and files are the I/O
//! layer's; it reports user actions here and acts on what comes back.

use vstd::prelude::*;
use crate::template::{sync_params, synced_params};
use crate::text::{chars_of, decimal, numbered};
use crate::portable::{ExportPayload, rekey_collection};
use crate::model::{
    Collection, CollectionModel, Group, GroupModel, ItemModel, Param, ParamModel, Tab, TabModel,
    Vault, VaultItem, VaultModel, collections_model, is_uuid_v4, default_group_color_spec, groups_model, items_model, params_model,
    tabs_model,
};

verus! {

/// How many snapshots the undo history keeps.
pub const UNDO_CAP: usize = 100;

/// After how many frames without an edit a change is saved.
pub const SAVE_DEBOUNCE_FRAMES: u32 = 30;

// ---------------------------------------------------------------------------
// The model of the application state
// ---------------------------------------------------------------------------

/// Model of the application state.
pub struct AppModel {
    pub vault: VaultModel,
    pub active_collection: Option<u128>,
    pub active_tab: Option<u128>,
    /// Earlier vaults, the most recent last.
    pub undo: Seq<VaultModel>,
    /// Vaults undone, the most recently undone last.
    pub redo: Seq<VaultModel>,
    /// A backup's vault waiting for the user to confirm the restore.
    pub pending: Option<VaultModel>,
    /// Frames since the last edit (0: nothing unsaved).
    pub dirty_frames: nat,
    /// A short message for the status bar.
    pub toast: Option<Seq<char>>,
}

/// The first index in `ids` holding `id`.
pub open spec fn position(ids: Seq<u128>, id: u128) -> Option<int>
    decreases ids.len(),
{
    if ids.len() == 0 {
        None
    } else if ids[0] == id {
        Some(0)
    } else {
        match position(ids.drop_first(), id) {
            Some(i) => Some(i + 1),
            None => None,
        }
    }
}

pub open spec fn collection_ids(cs: Seq<CollectionModel>) -> Seq<u128> {
    cs.map_values(|c: CollectionModel| c.id)
}

pub open spec fn tab_ids(ts: Seq<TabModel>) -> Seq<u128> {
    ts.map_values(|t: TabModel| t.id)
}

pub open spec fn group_ids(gs: Seq<GroupModel>) -> Seq<u128> {
    gs.map_values(|g: GroupModel| g.id)
}

pub open spec fn item_ids(is: Seq<ItemModel>) -> Seq<u128> {
    is.map_values(|i: ItemModel| i.id())
}

/// The index of the collection with id `id`.
pub open spec fn collection_index(v: VaultModel, id: u128) -> Option<int> {
    position(collection_ids(v.collections), id)
}

/// The id of the first collection.
pub open spec fn first_collection_id(v: VaultModel) -> Option<u128> {
    if v.collections.len() > 0 {
        Some(v.collections[0].id)
    } else {
        None
    }
}

/// The id of the first tab of a collection.
pub open spec fn first_tab_id(c: CollectionModel) -> Option<u128> {
    if c.tabs.len() > 0 {
        Some(c.tabs[0].id)
    } else {
        None
    }
}

/// The id of the first tab of the collection with id `cid`.
pub open spec fn first_tab_of(v: VaultModel, cid: Option<u128>) -> Option<u128> {
    match cid {
        Some(id) => match collection_index(v, id) {
            Some(ci) => first_tab_id(v.collections[ci]),
            None => None,
        },
        None => None,
    }
}

impl AppModel {
    /// The state after recording the current vault in the undo history:
    /// the oldest snapshot goes when the history is full, and redo is cleared.
    pub open spec fn snapshot(self) -> AppModel {
        let kept = if self.undo.len() >= UNDO_CAP {
            self.undo.drop_first()
        } else {
            self.undo
        };
        AppModel { undo: kept.push(self.vault), redo: Seq::empty(), ..self }
    }

    /// The active ids after falling back to what exists: the active collection
    /// when it is in the vault, else the first; the active tab when it is in
    /// that collection, else its first tab.
    pub open spec fn repair(self) -> AppModel {
        let v = self.vault;
        let collection_ok = match self.active_collection {
            Some(id) => collection_index(v, id) is Some,
            None => false,
        };
        let ac = if collection_ok {
            self.active_collection
        } else {
            first_collection_id(v)
        };
        let tab_ok = match ac {
            Some(cid) => match collection_index(v, cid) {
                Some(ci) => match self.active_tab {
                    Some(tid) => position(tab_ids(v.collections[ci].tabs), tid) is Some,
                    None => false,
                },
                None => false,
            },
            None => false,
        };
        let at = if tab_ok {
            self.active_tab
        } else {
            first_tab_of(v, ac)
        };
        AppModel { active_collection: ac, active_tab: at, ..self }
    }

    /// The state after an undo: the last snapshot becomes the vault, the
    /// current vault goes to the redo history, the active ids are repaired.
    pub open spec fn undo_step(self) -> AppModel {
        if self.undo.len() == 0 {
            self
        } else {
            AppModel {
                vault: self.undo.last(),
                undo: self.undo.drop_last(),
                redo: self.redo.push(self.vault),
                toast: Some("Undo"@),
                dirty_frames: 1,
                ..self
            }.repair()
        }
    }

    /// The state after a redo: the last undone vault comes back, the current
    /// vault goes to the undo history, the active ids are repaired.
    pub open spec fn redo_step(self) -> AppModel {
        if self.redo.len() == 0 {
            self
        } else {
            AppModel {
                vault: self.redo.last(),
                redo: self.redo.drop_last(),
                undo: self.undo.push(self.vault),
                toast: Some("Redo"@),
                dirty_frames: 1,
                ..self
            }.repair()
        }
    }
}

// ---------------------------------------------------------------------------
// The executable state
// ---------------------------------------------------------------------------

/// The application state.
pub struct App {
    /// Everything the user stored.
    pub vault: Vault,
    /// The collection shown.
    pub active_collection_id: Option<u128>,
    /// The tab shown.
    pub active_tab_id: Option<u128>,
    undo_stack: Vec<Vault>,
    redo_stack: Vec<Vault>,
    pending_restore: Option<Vault>,
    dirty_frames: u32,
    toast: Option<String>,
}

pub open spec fn vaults_model(vs: Seq<Vault>) -> Seq<VaultModel> {
    vs.map_values(|v: Vault| v@)
}

pub open spec fn opt_vault_model(v: Option<Vault>) -> Option<VaultModel> {
    match v {
        Some(x) => Some(x@),
        None => None,
    }
}

pub open spec fn opt_string_model(s: Option<String>) -> Option<Seq<char>> {
    match s {
        Some(x) => Some(x@),
        None => None,
    }
}

impl View for App {
    type V = AppModel;

    closed spec fn view(&self) -> AppModel {
        AppModel {
            vault: self.vault@,
            active_collection: self.active_collection_id,
            active_tab: self.active_tab_id,
            undo: vaults_model(self.undo_stack@),
            redo: vaults_model(self.redo_stack@),
            pending: opt_vault_model(self.pending_restore),
            dirty_frames: self.dirty_frames as nat,
            toast: opt_string_model(self.toast),
        }
    }
}

/// Finds the first position of `id` in `ids`.
pub fn find_position(ids: &Vec<u128>, id: u128) -> (r: Option<usize>)
    ensures
        match r {
            Some(i) => position(ids@, id) == Some(i as int),
            None => position(ids@, id) is None,
        },
{
    assert(ids@.skip(0) =~= ids@);
    let mut i: usize = 0;
    while i < ids.len()
        invariant
            0 <= i <= ids@.len(),
            position(ids@, id) == match position(ids@.skip(i as int), id) {
                Some(k) => Some(k + i),
                None => None,
            },
        decreases ids.len() - i,
    {
        if ids[i] == id {
            assert(ids@.skip(i as int)[0] == id);
            return Some(i);
        }
        assert(ids@.skip(i as int).drop_first() =~= ids@.skip(i + 1));
        i = i + 1;
    }
    None
}

proof fn lemma_position_bounds(ids: Seq<u128>, id: u128)
    ensures
        position(ids, id) matches Some(i) ==> 0 <= i < ids.len() && ids[i] == id,
        position(ids, id) is None ==> !ids.contains(id),
    decreases ids.len(),
{
    if ids.len() > 0 && ids[0] != id {
        lemma_position_bounds(ids.drop_first(), id);
        if ids.contains(id) {
            let k = choose|k: int| 0 <= k < ids.len() && ids[k] == id;
            assert(ids.drop_first()[k - 1] == id);
        }
    }
}

fn collection_id_list(cs: &Vec<Collection>) -> (r: Vec<u128>)
    ensures
        r@ == collection_ids(collections_model(cs@)),
{
    let mut r: Vec<u128> = Vec::new();
    let mut i: usize = 0;
    while i < cs.len()
        invariant
            0 <= i <= cs@.len(),
            r@ == collection_ids(collections_model(cs@)).take(i as int),
        decreases cs.len() - i,
    {
        r.push(cs[i].id);
        i = i + 1;
        assert(r@ =~= collection_ids(collections_model(cs@)).take(i as int));
    }
    assert(collection_ids(collections_model(cs@)).take(cs@.len() as int) =~= collection_ids(
        collections_model(cs@),
    ));
    r
}

fn tab_id_list(ts: &Vec<Tab>) -> (r: Vec<u128>)
    ensures
        r@ == tab_ids(tabs_model(ts@)),
{
    let mut r: Vec<u128> = Vec::new();
    let mut i: usize = 0;
    while i < ts.len()
        invariant
            0 <= i <= ts@.len(),
            r@ == tab_ids(tabs_model(ts@)).take(i as int),
        decreases ts.len() - i,
    {
        r.push(ts[i].id);
        i = i + 1;
        assert(r@ =~= tab_ids(tabs_model(ts@)).take(i as int));
    }
    assert(tab_ids(tabs_model(ts@)).take(ts@.len() as int) =~= tab_ids(tabs_model(ts@)));
    r
}

fn group_id_list(gs: &Vec<Group>) -> (r: Vec<u128>)
    ensures
        r@ == group_ids(groups_model(gs@)),
{
    let mut r: Vec<u128> = Vec::new();
    let mut i: usize = 0;
    while i < gs.len()
        invariant
            0 <= i <= gs@.len(),
            r@ == group_ids(groups_model(gs@)).take(i as int),
        decreases gs.len() - i,
    {
        r.push(gs[i].id);
        i = i + 1;
        assert(r@ =~= group_ids(groups_model(gs@)).take(i as int));
    }
    assert(group_ids(groups_model(gs@)).take(gs@.len() as int) =~= group_ids(groups_model(gs@)));
    r
}

fn item_id_list(items: &Vec<VaultItem>) -> (r: Vec<u128>)
    ensures
        r@ == item_ids(items_model(items@)),
{
    let mut r: Vec<u128> = Vec::new();
    let mut i: usize = 0;
    while i < items.len()
        invariant
            0 <= i <= items@.len(),
            r@ == item_ids(items_model(items@)).take(i as int),
        decreases items.len() - i,
    {
        r.push(items[i].id());
        i = i + 1;
        assert(r@ =~= item_ids(items_model(items@)).take(i as int));
    }
    assert(item_ids(items_model(items@)).take(items@.len() as int) =~= item_ids(
        items_model(items@),
    ));
    r
}

impl App {
    /// The state for a vault loaded at start: an empty vault gets a collection
    /// named "Default"; the first collection and its first tab are active.
    pub fn new(vault: Vault) -> (app: App)
        ensures
            vault@.collections.len() > 0 ==> app@.vault == vault@,
            vault@.collections.len() == 0 ==> app@.vault.collections.len() == 1
                && app@.vault.collections[0].name == "Default"@
                && app@.vault.collections[0].tabs.len() == 1
                && app@.vault.collections[0].tabs[0].name == "Tab 1"@
                && app@.vault.collections[0].tabs[0].groups.len() == 0
                && is_uuid_v4(app@.vault.collections[0].id)
                && is_uuid_v4(app@.vault.collections[0].tabs[0].id),
            app@.active_collection == first_collection_id(app@.vault),
            app@.active_tab == (if app@.vault.collections.len() > 0 {
                first_tab_id(app@.vault.collections[0])
            } else {
                None
            }),
            app@.undo.len() == 0,
            app@.redo.len() == 0,
            app@.pending is None,
            app@.dirty_frames == 0,
            app@.toast is None,
    {
        let mut vault = vault;
        if vault.collections.len() == 0 {
            vault.collections.push(Collection::new(String::from_str("Default")));
        }
        let active_collection_id = if vault.collections.len() > 0 {
            Some(vault.collections[0].id)
        } else {
            None
        };
        let active_tab_id = if vault.collections.len() > 0 && vault.collections[0].tabs.len() > 0 {
            Some(vault.collections[0].tabs[0].id)
        } else {
            None
        };
        let app = App {
            vault,
            active_collection_id,
            active_tab_id,
            undo_stack: Vec::new(),
            redo_stack: Vec::new(),
            pending_restore: None,
            dirty_frames: 0,
            toast: None,
        };
        assert(app@.undo =~= Seq::<VaultModel>::empty());
        assert(app@.redo =~= Seq::<VaultModel>::empty());
        proof {
            if app@.vault.collections.len() > 0 {
                assert(app@.vault.collections[0] == app.vault.collections@[0]@);
                if app.vault.collections@[0].tabs@.len() > 0 {
                    assert(app@.vault.collections[0].tabs[0] == app.vault.collections@[0].tabs@[0]@);
                }
            }
        }
        app
    }

    /// Records that something changed and must be saved.
    pub fn mark_dirty(&mut self)
        ensures
            final(self)@ == (AppModel { dirty_frames: 1, ..old(self)@ }),
    {
        self.dirty_frames = 1;
    }

    /// Records the current vault in the undo history before a change; the
    /// history keeps at most `UNDO_CAP` snapshots, dropping the oldest, and the
    /// redo history is cleared.
    pub fn snapshot(&mut self)
        ensures
            final(self)@ == old(self)@.snapshot(),
    {
        let ghost before = self@;
        if self.undo_stack.len() >= UNDO_CAP {
            self.undo_stack.remove(0);
            assert(vaults_model(self.undo_stack@) =~= before.undo.drop_first());
        }
        let copy = self.vault.clone();
        let ghost kept = vaults_model(self.undo_stack@);
        self.undo_stack.push(copy);
        assert(vaults_model(self.undo_stack@) =~= kept.push(before.vault));
        self.redo_stack.clear();
        assert(vaults_model(self.redo_stack@) =~= Seq::<VaultModel>::empty());
    }

    /// Points the active ids at what exists: the active collection if it is
    /// in the vault, else the first one; the active tab if it is in that
    /// collection, else its first tab.
    pub fn repair_active_ids(&mut self)
        ensures
            final(self)@ == old(self)@.repair(),
    {
        let ghost m = self@;
        let cids = collection_id_list(&self.vault.collections);
        let collection_ok = match self.active_collection_id {
            Some(id) => find_position(&cids, id).is_some(),
            None => false,
        };
        if !collection_ok {
            self.active_collection_id = if self.vault.collections.len() > 0 {
                Some(self.vault.collections[0].id)
            } else {
                None
            };
        }
        let ac = self.active_collection_id;
        let tab_ok = match ac {
            Some(cid) => match find_position(&cids, cid) {
                Some(ci) => match self.active_tab_id {
                    Some(tid) => {
                        proof {
                            lemma_position_bounds(cids@, cid);
                        }
                        let tids = tab_id_list(&self.vault.collections[ci].tabs);
                        find_position(&tids, tid).is_some()
                    },
                    None => false,
                },
                None => false,
            },
            None => false,
        };
        if !tab_ok {
            self.active_tab_id = match ac {
                Some(cid) => match find_position(&cids, cid) {
                    Some(ci) => {
                        proof {
                            lemma_position_bounds(cids@, cid);
                        }
                        if self.vault.collections[ci].tabs.len() > 0 {
                            Some(self.vault.collections[ci].tabs[0].id)
                        } else {
                            None
                        }
                    },
                    None => None,
                },
                None => None,
            };
        }
        proof {
            if m.vault.collections.len() > 0 {
                assert(m.vault.collections[0] == self.vault.collections@[0]@);
            }
            if let Some(cid) = ac {
                lemma_position_bounds(cids@, cid);
                if let Some(ci) = position(cids@, cid) {
                    assert(m.vault.collections[ci] == self.vault.collections@[ci]@);
                    if self.vault.collections@[ci].tabs@.len() > 0 {
                        assert(m.vault.collections[ci].tabs[0] == self.vault.collections@[ci].tabs@[0]@);
                    }
                }
            }
        }
    }

    /// Undoes the last change, if there is one to undo.
    pub fn undo(&mut self) -> (done: bool)
        ensures
            done == (old(self)@.undo.len() > 0),
            final(self)@ == old(self)@.undo_step(),
    {
        let ghost before = self@;
        match self.undo_stack.pop() {
            Some(prev) => {
                let mut cur = prev;
                std::mem::swap(&mut cur, &mut self.vault);
                self.redo_stack.push(cur);
                assert(vaults_model(self.undo_stack@) =~= before.undo.drop_last());
                assert(vaults_model(self.redo_stack@) =~= before.redo.push(before.vault));
                self.set_toast(String::from_str("Undo"));
                self.dirty_frames = 1;
                self.repair_active_ids();
                true
            },
            None => false,
        }
    }

    /// Redoes the last undone change, if there is one.
    pub fn redo(&mut self) -> (done: bool)
        ensures
            done == (old(self)@.redo.len() > 0),
            final(self)@ == old(self)@.redo_step(),
    {
        let ghost before = self@;
        match self.redo_stack.pop() {
            Some(next) => {
                let mut cur = next;
                std::mem::swap(&mut cur, &mut self.vault);
                self.undo_stack.push(cur);
                assert(vaults_model(self.redo_stack@) =~= before.redo.drop_last());
                assert(vaults_model(self.undo_stack@) =~= before.undo.push(before.vault));
                self.set_toast(String::from_str("Redo"));
                self.dirty_frames = 1;
                self.repair_active_ids();
                true
            },
            None => false,
        }
    }

    /// Whether there is something to undo.
    pub fn can_undo(&self) -> (r: bool)
        ensures
            r == (self@.undo.len() > 0),
    {
        self.undo_stack.len() > 0
    }

    /// Whether there is something to redo.
    pub fn can_redo(&self) -> (r: bool)
        ensures
            r == (self@.redo.len() > 0),
    {
        self.redo_stack.len() > 0
    }

    /// Sets the status-bar message.
    pub fn set_toast(&mut self, msg: String)
        ensures
            final(self)@ == (AppModel { toast: Some(msg@), ..old(self)@ }),
    {
        self.toast = Some(msg);
    }

    /// Hands out the status-bar message set since the last call, if any.
    pub fn take_toast(&mut self) -> (msg: Option<String>)
        ensures
            opt_string_model(msg) == old(self)@.toast,
            final(self)@ == (AppModel { toast: None, ..old(self)@ }),
    {
        self.toast.take()
    }

    /// Called once a frame: whether the vault is to be saved now.  After an
    /// edit the save waits until `SAVE_DEBOUNCE_FRAMES` frames have passed.
    pub fn maybe_save(&mut self) -> (save: bool)
        ensures
            old(self)@.dirty_frames == 0 ==> !save && final(self)@ == old(self)@,
            old(self)@.dirty_frames > 0 && old(self)@.dirty_frames + 1 > SAVE_DEBOUNCE_FRAMES
                ==> save && final(self)@ == (AppModel { dirty_frames: 0, ..old(self)@ }),
            old(self)@.dirty_frames > 0 && old(self)@.dirty_frames + 1 <= SAVE_DEBOUNCE_FRAMES
                ==> !save && final(self)@ == (AppModel {
                dirty_frames: old(self)@.dirty_frames + 1,
                ..old(self)@
            }),
    {
        if self.dirty_frames == 0 {
            return false;
        }
        if self.dirty_frames >= SAVE_DEBOUNCE_FRAMES {
            self.dirty_frames = 0;
            return true;
        }
        self.dirty_frames = self.dirty_frames + 1;
        false
    }

    /// On exit: whether there is an unsaved change to save now.
    pub fn flush_save(&mut self) -> (save: bool)
        ensures
            save == (old(self)@.dirty_frames > 0),
            final(self)@ == (AppModel { dirty_frames: 0, ..old(self)@ }),
    {
        let save = self.dirty_frames > 0;
        self.dirty_frames = 0;
        save
    }

    /// Whether a change is waiting to be saved.
    pub fn is_dirty(&self) -> (r: bool)
        ensures
            r == (self@.dirty_frames > 0),
    {
        self.dirty_frames > 0
    }

    /// The index of the active collection.
    pub fn active_collection_idx(&self) -> (r: Option<usize>)
        ensures
            match self@.active_collection {
                Some(id) => match collection_index(self@.vault, id) {
                    Some(i) => r matches Some(j) && j as int == i,
                    None => r is None,
                },
                None => r is None,
            },
            r matches Some(i) ==> i < self@.vault.collections.len(),
    {
        match self.active_collection_id {
            Some(id) => {
                let cids = collection_id_list(&self.vault.collections);
                proof {
                    lemma_position_bounds(cids@, id);
                }
                find_position(&cids, id)
            },
            None => None,
        }
    }

    /// The indices of the active collection and of the active tab in it.
    pub fn active_tab_idx(&self) -> (r: Option<(usize, usize)>)
        ensures
            r == active_tab_position(self@),
            r matches Some((ci, ti)) ==> ci < self@.vault.collections.len() && ti
                < self@.vault.collections[ci as int].tabs.len(),
    {
        let ci = match self.active_collection_idx() {
            Some(ci) => ci,
            None => {
                return None;
            },
        };
        let tid = match self.active_tab_id {
            Some(t) => t,
            None => {
                return None;
            },
        };
        let tids = tab_id_list(&self.vault.collections[ci].tabs);
        proof {
            lemma_position_bounds(tids@, tid);
            assert(self@.vault.collections[ci as int] == self.vault.collections@[ci as int]@);
            assert(tab_ids(self@.vault.collections[ci as int].tabs) == tids@);
            let cid = self@.active_collection->Some_0;
            assert(collection_index(self@.vault, cid) == Some(ci as int));
        }
        match find_position(&tids, tid) {
            Some(ti) => Some((ci, ti)),
            None => None,
        }
    }
}

/// The indices of the active collection and of the active tab in it.
pub open spec fn active_tab_position(m: AppModel) -> Option<(usize, usize)> {
    match m.active_collection {
        Some(cid) => match collection_index(m.vault, cid) {
            Some(ci) => match m.active_tab {
                Some(tid) => match position(tab_ids(m.vault.collections[ci].tabs), tid) {
                    Some(ti) => Some((ci as usize, ti as usize)),
                    None => None,
                },
                None => None,
            },
            None => None,
        },
        None => None,
    }
}


// ---------------------------------------------------------------------------
// Laws of the history and of the active selection
// ---------------------------------------------------------------------------

/// Undo gives back the vault as it was when the last snapshot was taken,
/// whatever changed since: every change that records a snapshot first can be
/// undone.
pub proof fn law_undo_restores_snapshot(before: AppModel, after: AppModel)
    requires
        after.undo == before.snapshot().undo,
    ensures
        after.undo_step().vault == before.vault,
        after.undo_step().undo == before.snapshot().undo.drop_last(),
{
}

/// Redo after undo gives back the vault that was undone, and both histories
/// are as they were.
pub proof fn law_redo_reverts_undo(m: AppModel)
    requires
        m.undo.len() > 0,
    ensures
        m.undo_step().redo_step().vault == m.vault,
        m.undo_step().redo_step().undo == m.undo,
        m.undo_step().redo_step().redo == m.redo,
{
    assert(m.undo.drop_last().push(m.undo.last()) =~= m.undo);
    assert(m.redo.push(m.vault).drop_last() =~= m.redo);
}

/// Undo after redo gives back the vault that was redone over, and both
/// histories are as they were.
pub proof fn law_undo_reverts_redo(m: AppModel)
    requires
        m.redo.len() > 0,
    ensures
        m.redo_step().undo_step().vault == m.vault,
        m.redo_step().undo_step().undo == m.undo,
        m.redo_step().undo_step().redo == m.redo,
{
    assert(m.redo.drop_last().push(m.redo.last()) =~= m.redo);
    assert(m.undo.push(m.vault).drop_last() =~= m.undo);
}

/// The two histories together never hold more than `UNDO_CAP` vaults:
/// snapshots, undo and redo all keep that bound.
pub proof fn law_history_bounded(m: AppModel)
    requires
        m.undo.len() + m.redo.len() <= UNDO_CAP,
    ensures
        m.snapshot().undo.len() + m.snapshot().redo.len() <= UNDO_CAP,
        m.undo_step().undo.len() + m.undo_step().redo.len() <= UNDO_CAP,
        m.redo_step().undo.len() + m.redo_step().redo.len() <= UNDO_CAP,
{
}

/// A snapshot empties the redo history: after a new change, what was undone
/// can no longer be redone.
pub proof fn law_snapshot_clears_redo(m: AppModel)
    ensures
        m.snapshot().redo.len() == 0,
        m.snapshot().undo.last() == m.vault,
        m.snapshot().vault == m.vault,
{
}

proof fn lemma_position_of_index(ids: Seq<u128>, id: u128)
    requires
        ids.contains(id),
    ensures
        position(ids, id) is Some,
{
    lemma_position_bounds(ids, id);
}

/// After repair the active ids point at what exists: a collection is active
/// exactly when the vault has one, and then it is in the vault; a tab is
/// active exactly when that collection has one, and then it is in it.
/// Ids that already point at something are kept.
pub proof fn law_repair_points_at_existing(m: AppModel)
    ensures
        m.repair().active_collection is Some <==> m.vault.collections.len() > 0,
        m.repair().active_collection matches Some(cid) ==> collection_index(m.vault, cid) is Some,
        m.repair().active_tab is Some ==> active_tab_position(m.repair()) is Some,
        (m.repair().active_collection matches Some(cid) && collection_index(m.vault, cid) matches Some(
            ci,
        ) && m.vault.collections[ci].tabs.len() > 0) ==> m.repair().active_tab is Some,
        active_tab_position(m) is Some ==> m.repair().active_collection == m.active_collection
            && m.repair().active_tab == m.active_tab,
        m.repair().vault == m.vault,
        m.repair().undo == m.undo,
        m.repair().redo == m.redo,
{
    let v = m.vault;
    let cids = collection_ids(v.collections);
    if v.collections.len() > 0 {
        assert(cids[0] == v.collections[0].id);
        lemma_position_of_index(cids, v.collections[0].id);
    }
    let r = m.repair();
    if let Some(cid) = r.active_collection {
        lemma_position_bounds(cids, cid);
        if let Some(ci) = collection_index(v, cid) {
            let tids = tab_ids(v.collections[ci].tabs);
            if v.collections[ci].tabs.len() > 0 {
                assert(tids[0] == v.collections[ci].tabs[0].id);
                lemma_position_of_index(tids, v.collections[ci].tabs[0].id);
            }
            if let Some(tid) = r.active_tab {
                lemma_position_bounds(tids, tid);
            }
        }
    }
    if let Some(cid) = m.active_collection {
        lemma_position_bounds(cids, cid);
    }
}


// ---------------------------------------------------------------------------
// Addressing records by index
// ---------------------------------------------------------------------------

pub open spec fn valid_collection(v: VaultModel, ci: int) -> bool {
    0 <= ci < v.collections.len()
}

pub open spec fn valid_tab(v: VaultModel, ci: int, ti: int) -> bool {
    valid_collection(v, ci) && 0 <= ti < v.collections[ci].tabs.len()
}

pub open spec fn valid_group(v: VaultModel, ci: int, ti: int, gi: int) -> bool {
    valid_tab(v, ci, ti) && 0 <= gi < v.collections[ci].tabs[ti].groups.len()
}

pub open spec fn valid_item(v: VaultModel, ci: int, ti: int, gi: int, ii: int) -> bool {
    valid_group(v, ci, ti, gi) && 0 <= ii < v.collections[ci].tabs[ti].groups[gi].items.len()
}

pub open spec fn tab_at(v: VaultModel, ci: int, ti: int) -> TabModel {
    v.collections[ci].tabs[ti]
}

pub open spec fn group_at(v: VaultModel, ci: int, ti: int, gi: int) -> GroupModel {
    v.collections[ci].tabs[ti].groups[gi]
}

pub open spec fn item_at(v: VaultModel, ci: int, ti: int, gi: int, ii: int) -> ItemModel {
    v.collections[ci].tabs[ti].groups[gi].items[ii]
}

/// `v` with collection `ci` replaced.
pub open spec fn set_collection(v: VaultModel, ci: int, c: CollectionModel) -> VaultModel {
    VaultModel { collections: v.collections.update(ci, c) }
}

/// `v` with tab `ti` of collection `ci` replaced.
pub open spec fn set_tab(v: VaultModel, ci: int, ti: int, t: TabModel) -> VaultModel {
    let c = v.collections[ci];
    set_collection(v, ci, CollectionModel { id: c.id, name: c.name, tabs: c.tabs.update(ti, t) })
}

/// `v` with group `gi` of tab `ti` of collection `ci` replaced.
pub open spec fn set_group(v: VaultModel, ci: int, ti: int, gi: int, g: GroupModel) -> VaultModel {
    let t = tab_at(v, ci, ti);
    set_tab(v, ci, ti, TabModel { id: t.id, name: t.name, groups: t.groups.update(gi, g) })
}

/// `v` with item `ii` of the group at (ci, ti, gi) replaced.
pub open spec fn set_item(v: VaultModel, ci: int, ti: int, gi: int, ii: int, it: ItemModel) -> VaultModel {
    let g = group_at(v, ci, ti, gi);
    set_group(
        v,
        ci,
        ti,
        gi,
        GroupModel { id: g.id, name: g.name, items: g.items.update(ii, it), color: g.color },
    )
}

proof fn lemma_collections_update(cs: Seq<Collection>, i: int, c: Collection)
    requires
        0 <= i < cs.len(),
    ensures
        collections_model(cs.update(i, c)) == collections_model(cs).update(i, c@),
{
    assert(collections_model(cs.update(i, c)) =~= collections_model(cs).update(i, c@));
}

proof fn lemma_tabs_update(ts: Seq<Tab>, i: int, t: Tab)
    requires
        0 <= i < ts.len(),
    ensures
        tabs_model(ts.update(i, t)) == tabs_model(ts).update(i, t@),
{
    assert(tabs_model(ts.update(i, t)) =~= tabs_model(ts).update(i, t@));
}

proof fn lemma_groups_update(gs: Seq<Group>, i: int, g: Group)
    requires
        0 <= i < gs.len(),
    ensures
        groups_model(gs.update(i, g)) == groups_model(gs).update(i, g@),
{
    assert(groups_model(gs.update(i, g)) =~= groups_model(gs).update(i, g@));
}

proof fn lemma_items_update(is: Seq<VaultItem>, i: int, it: VaultItem)
    requires
        0 <= i < is.len(),
    ensures
        items_model(is.update(i, it)) == items_model(is).update(i, it@),
{
    assert(items_model(is.update(i, it)) =~= items_model(is).update(i, it@));
}

impl App {
    /// Whether (ci, ti, gi, ii) addresses an item.
    pub fn has_item(&self, ci: usize, ti: usize, gi: usize, ii: usize) -> (r: bool)
        ensures
            r == valid_item(self@.vault, ci as int, ti as int, gi as int, ii as int),
    {
        proof {
            self.lemma_views();
        }
        ci < self.vault.collections.len() && ti < self.vault.collections[ci].tabs.len() && gi
            < self.vault.collections[ci].tabs[ti].groups.len() && ii
            < self.vault.collections[ci].tabs[ti].groups[gi].items.len()
    }

    /// The models of the nested records are the views of the records.
    proof fn lemma_views(&self)
        ensures
            forall|ci: int|
                0 <= ci < self.vault.collections@.len() ==> #[trigger] self@.vault.collections[ci]
                    == self.vault.collections@[ci]@,
            forall|ci: int, ti: int|
                0 <= ci < self.vault.collections@.len() && 0 <= ti
                    < self.vault.collections@[ci].tabs@.len() ==> #[trigger] self@.vault.collections[ci].tabs[ti]
                    == self.vault.collections@[ci].tabs@[ti]@,
            forall|ci: int, ti: int, gi: int|
                0 <= ci < self.vault.collections@.len() && 0 <= ti
                    < self.vault.collections@[ci].tabs@.len() && 0 <= gi
                    < self.vault.collections@[ci].tabs@[ti].groups@.len() ==> #[trigger] self@.vault.collections[ci].tabs[ti].groups[gi]
                    == self.vault.collections@[ci].tabs@[ti].groups@[gi]@,
            forall|ci: int, ti: int, gi: int, ii: int|
                0 <= ci < self.vault.collections@.len() && 0 <= ti
                    < self.vault.collections@[ci].tabs@.len() && 0 <= gi
                    < self.vault.collections@[ci].tabs@[ti].groups@.len() && 0 <= ii
                    < self.vault.collections@[ci].tabs@[ti].groups@[gi].items@.len() ==> #[trigger] self@.vault.collections[ci].tabs[ti].groups[gi].items[ii]
                    == self.vault.collections@[ci].tabs@[ti].groups@[gi].items@[ii]@,
            self@.vault.collections.len() == self.vault.collections@.len(),
            forall|ci: int|
                0 <= ci < self.vault.collections@.len() ==> (
                #[trigger] self@.vault.collections[ci]).tabs.len()
                    == self.vault.collections@[ci].tabs@.len(),
            forall|ci: int, ti: int|
                0 <= ci < self.vault.collections@.len() && 0 <= ti
                    < self.vault.collections@[ci].tabs@.len() ==> (
                #[trigger] self@.vault.collections[ci].tabs[ti]).groups.len()
                    == self.vault.collections@[ci].tabs@[ti].groups@.len(),
            forall|ci: int, ti: int, gi: int|
                0 <= ci < self.vault.collections@.len() && 0 <= ti
                    < self.vault.collections@[ci].tabs@.len() && 0 <= gi
                    < self.vault.collections@[ci].tabs@[ti].groups@.len() ==> (
                #[trigger] self@.vault.collections[ci].tabs[ti].groups[gi]).items.len()
                    == self.vault.collections@[ci].tabs@[ti].groups@[gi].items@.len(),
    {
    }

    /// Replaces the item at (ci, ti, gi, ii), as the editors do while the user
    /// types; nothing happens when no item is there.
    pub fn update_item(&mut self, ci: usize, ti: usize, gi: usize, ii: usize, item: VaultItem)
        ensures
            valid_item(old(self)@.vault, ci as int, ti as int, gi as int, ii as int) ==> final(self)@ == (AppModel {
                vault: set_item(old(self)@.vault, ci as int, ti as int, gi as int, ii as int, item@),
                dirty_frames: 1,
                ..old(self)@
            }),
            !valid_item(old(self)@.vault, ci as int, ti as int, gi as int, ii as int) ==> final(self)@ == old(self)@,
    {
        if !self.has_item(ci, ti, gi, ii) {
            return;
        }
        self.put_item(ci, ti, gi, ii, item);
        self.dirty_frames = 1;
    }

    /// Stores `item` at (ci, ti, gi, ii).
    fn put_item(&mut self, ci: usize, ti: usize, gi: usize, ii: usize, item: VaultItem)
        requires
            valid_item(old(self)@.vault, ci as int, ti as int, gi as int, ii as int),
        ensures
            final(self)@ == (AppModel {
                vault: set_item(old(self)@.vault, ci as int, ti as int, gi as int, ii as int, item@),
                ..old(self)@
            }),
    {
        proof {
            self.lemma_views();
        }
        let ghost cs0 = self.vault.collections@;
        let ghost c0 = cs0[ci as int];
        let ghost t0 = c0.tabs@[ti as int];
        let ghost g0 = t0.groups@[gi as int];
        let ghost item_m = item@;
        self.vault.collections[ci].tabs[ti].groups[gi].items[ii] = item;
        proof {
            let cs1 = self.vault.collections@;
            let c1 = cs1[ci as int];
            let t1 = c1.tabs@[ti as int];
            let g1 = t1.groups@[gi as int];
            lemma_items_update(g0.items@, ii as int, g1.items@[ii as int]);
            assert(g1.items@ == g0.items@.update(ii as int, g1.items@[ii as int]));
            lemma_groups_update(t0.groups@, gi as int, g1);
            assert(t1.groups@ == t0.groups@.update(gi as int, g1));
            lemma_tabs_update(c0.tabs@, ti as int, t1);
            assert(c1.tabs@ == c0.tabs@.update(ti as int, t1));
            lemma_collections_update(cs0, ci as int, c1);
            assert(cs1 == cs0.update(ci as int, c1));
        }
    }
}


// ---------------------------------------------------------------------------
// Edits of items
// ---------------------------------------------------------------------------

/// The template item's parameters (none for other kinds).
pub open spec fn params_of(it: ItemModel) -> Seq<ParamModel> {
    match it {
        ItemModel::ReplaceText { params, .. } => params,
        _ => Seq::empty(),
    }
}

/// A template item with other parameters; other kinds unchanged.
pub open spec fn with_params(it: ItemModel, ps: Seq<ParamModel>) -> ItemModel {
    match it {
        ItemModel::ReplaceText { id, label, template, editing, hidden, .. } =>
            ItemModel::ReplaceText { id, label, template, params: ps, editing, hidden },
        _ => it,
    }
}

/// A template item after "Detect params"; other kinds unchanged.
pub open spec fn synced(it: ItemModel) -> ItemModel {
    match it {
        ItemModel::ReplaceText { template, params, .. } => with_params(
            it,
            synced_params(template, params),
        ),
        _ => it,
    }
}

/// A key/value item with another key caption; other kinds unchanged.
pub open spec fn with_key_label(it: ItemModel, l: Seq<char>) -> ItemModel {
    match it {
        ItemModel::KeyValue {
            id,
            label,
            value_label,
            key,
            value,
            editing,
            hide_key,
            hide_value,
            ..
        } => ItemModel::KeyValue {
            id,
            label,
            key_label: l,
            value_label,
            key,
            value,
            editing,
            hide_key,
            hide_value,
        },
        _ => it,
    }
}

/// A key/value item with another value caption; other kinds unchanged.
pub open spec fn with_value_label(it: ItemModel, l: Seq<char>) -> ItemModel {
    match it {
        ItemModel::KeyValue { id, label, key_label, key, value, editing, hide_key, hide_value, .. } =>
            ItemModel::KeyValue {
            id,
            label,
            key_label,
            value_label: l,
            key,
            value,
            editing,
            hide_key,
            hide_value,
        },
        _ => it,
    }
}

/// The text an editor writes into an item as the user types.
#[derive(PartialEq, Eq, Structural, Clone, Copy, Debug)]
pub enum TextField {
    /// The value of a text item or of a key/value item.
    Value,
    /// The key of a key/value item.
    Key,
    /// The template of a template item.
    Template,
    /// The body of a note.
    Body,
}

/// The check boxes that hide what an item holds.
#[derive(PartialEq, Eq, Structural, Clone, Copy, Debug)]
pub enum FlagField {
    /// "Hide" of a text item or of a template item.
    Hidden,
    /// "Hide key" of a key/value item.
    HideKey,
    /// "Hide value" of a key/value item.
    HideValue,
}

/// The item with `field` set to `s` where its kind has that field; other
/// kinds unchanged.
pub open spec fn with_text(it: ItemModel, field: TextField, s: Seq<char>) -> ItemModel {
    match it {
        ItemModel::Text { id, label, editing, hidden, .. } => if field == TextField::Value {
            ItemModel::Text { id, label, value: s, editing, hidden }
        } else {
            it
        },
        ItemModel::KeyValue {
            id,
            label,
            key_label,
            value_label,
            key,
            value,
            editing,
            hide_key,
            hide_value,
        } => if field == TextField::Value {
            ItemModel::KeyValue {
                id,
                label,
                key_label,
                value_label,
                key,
                value: s,
                editing,
                hide_key,
                hide_value,
            }
        } else if field == TextField::Key {
            ItemModel::KeyValue {
                id,
                label,
                key_label,
                value_label,
                key: s,
                value,
                editing,
                hide_key,
                hide_value,
            }
        } else {
            it
        },
        ItemModel::ReplaceText { id, label, params, editing, hidden, .. } => if field
            == TextField::Template {
            ItemModel::ReplaceText { id, label, template: s, params, editing, hidden }
        } else {
            it
        },
        ItemModel::Note { id, label, editing, .. } => if field == TextField::Body {
            ItemModel::Note { id, label, body: s, editing }
        } else {
            it
        },
    }
}

/// The item with check box `flag` set to `on` where its kind has that box;
/// other kinds unchanged.
pub open spec fn with_flag(it: ItemModel, flag: FlagField, on: bool) -> ItemModel {
    match it {
        ItemModel::Text { id, label, value, editing, .. } => if flag == FlagField::Hidden {
            ItemModel::Text { id, label, value, editing, hidden: on }
        } else {
            it
        },
        ItemModel::KeyValue {
            id,
            label,
            key_label,
            value_label,
            key,
            value,
            editing,
            hide_key,
            hide_value,
        } => if flag == FlagField::HideKey {
            ItemModel::KeyValue {
                id,
                label,
                key_label,
                value_label,
                key,
                value,
                editing,
                hide_key: on,
                hide_value,
            }
        } else if flag == FlagField::HideValue {
            ItemModel::KeyValue {
                id,
                label,
                key_label,
                value_label,
                key,
                value,
                editing,
                hide_key,
                hide_value: on,
            }
        } else {
            it
        },
        ItemModel::ReplaceText { id, label, template, params, editing, .. } => if flag
            == FlagField::Hidden {
            ItemModel::ReplaceText { id, label, template, params, editing, hidden: on }
        } else {
            it
        },
        ItemModel::Note { .. } => it,
    }
}

impl App {
    /// A copy of the item at (ci, ti, gi, ii).
    fn item_copy(&self, ci: usize, ti: usize, gi: usize, ii: usize) -> (it: VaultItem)
        requires
            valid_item(self@.vault, ci as int, ti as int, gi as int, ii as int),
        ensures
            it@ == item_at(self@.vault, ci as int, ti as int, gi as int, ii as int),
    {
        proof {
            self.lemma_views();
        }
        self.vault.collections[ci].tabs[ti].groups[gi].items[ii].clone()
    }

    /// "Edit": records a snapshot, then opens the item for editing.
    pub fn start_edit(&mut self, ci: usize, ti: usize, gi: usize, ii: usize)
        ensures
            valid_item(old(self)@.vault, ci as int, ti as int, gi as int, ii as int) ==> final(self)@
                == (AppModel {
                vault: set_item(
                    old(self)@.vault,
                    ci as int,
                    ti as int,
                    gi as int,
                    ii as int,
                    item_at(
                        old(self)@.vault,
                        ci as int,
                        ti as int,
                        gi as int,
                        ii as int,
                    ).with_editing(true),
                ),
                ..old(self)@.snapshot()
            }),
            !valid_item(old(self)@.vault, ci as int, ti as int, gi as int, ii as int) ==> final(self)@
                == old(self)@,
    {
        if !self.has_item(ci, ti, gi, ii) {
            return;
        }
        self.snapshot();
        let mut it = self.item_copy(ci, ti, gi, ii);
        it.set_editing(true);
        self.put_item(ci, ti, gi, ii, it);
    }

    /// "Update": closes the item's editor; a template first gets parameters
    /// for the placeholders it names.
    pub fn finish_edit(&mut self, ci: usize, ti: usize, gi: usize, ii: usize)
        ensures
            valid_item(old(self)@.vault, ci as int, ti as int, gi as int, ii as int) ==> final(self)@
                == (AppModel {
                vault: set_item(
                    old(self)@.vault,
                    ci as int,
                    ti as int,
                    gi as int,
                    ii as int,
                    synced(
                        item_at(old(self)@.vault, ci as int, ti as int, gi as int, ii as int),
                    ).with_editing(false),
                ),
                dirty_frames: 1,
                ..old(self)@
            }),
            !valid_item(old(self)@.vault, ci as int, ti as int, gi as int, ii as int) ==> final(self)@
                == old(self)@,
    {
        if !self.has_item(ci, ti, gi, ii) {
            return;
        }
        let mut it = self.item_copy(ci, ti, gi, ii);
        sync_item_params(&mut it);
        it.set_editing(false);
        self.put_item(ci, ti, gi, ii, it);
        self.dirty_frames = 1;
    }

    /// "Detect params": gives a template item a parameter for each
    /// placeholder name it lacks.
    pub fn sync_replace_params(&mut self, ci: usize, ti: usize, gi: usize, ii: usize)
        ensures
            valid_item(old(self)@.vault, ci as int, ti as int, gi as int, ii as int) ==> final(self)@
                == (AppModel {
                vault: set_item(
                    old(self)@.vault,
                    ci as int,
                    ti as int,
                    gi as int,
                    ii as int,
                    synced(item_at(old(self)@.vault, ci as int, ti as int, gi as int, ii as int)),
                ),
                ..old(self)@
            }),
            !valid_item(old(self)@.vault, ci as int, ti as int, gi as int, ii as int) ==> final(self)@
                == old(self)@,
    {
        if !self.has_item(ci, ti, gi, ii) {
            return;
        }
        let mut it = self.item_copy(ci, ti, gi, ii);
        sync_item_params(&mut it);
        self.put_item(ci, ti, gi, ii, it);
    }

    /// Applies an edit to the item at a valid address and marks the vault dirty.
    fn edit_item(&mut self, ci: usize, ti: usize, gi: usize, ii: usize, it: VaultItem)
        requires
            valid_item(old(self)@.vault, ci as int, ti as int, gi as int, ii as int),
        ensures
            final(self)@ == (AppModel {
                vault: set_item(old(self)@.vault, ci as int, ti as int, gi as int, ii as int, it@),
                dirty_frames: 1,
                ..old(self)@
            }),
    {
        self.put_item(ci, ti, gi, ii, it);
        self.dirty_frames = 1;
    }

    /// Renames the item at (ci, ti, gi, ii).
    pub fn set_item_label(&mut self, ci: usize, ti: usize, gi: usize, ii: usize, label: String)
        ensures
            valid_item(old(self)@.vault, ci as int, ti as int, gi as int, ii as int) ==> final(self)@
                == (AppModel {
                vault: set_item(
                    old(self)@.vault,
                    ci as int,
                    ti as int,
                    gi as int,
                    ii as int,
                    item_at(
                        old(self)@.vault,
                        ci as int,
                        ti as int,
                        gi as int,
                        ii as int,
                    ).with_label(label@),
                ),
                dirty_frames: 1,
                ..old(self)@
            }),
            !valid_item(old(self)@.vault, ci as int, ti as int, gi as int, ii as int) ==> final(self)@
                == old(self)@,
    {
        if !self.has_item(ci, ti, gi, ii) {
            return;
        }
        let mut it = self.item_copy(ci, ti, gi, ii);
        it.set_label(label);
        self.edit_item(ci, ti, gi, ii, it);
    }

    /// Renames the key caption of the key/value item at (ci, ti, gi, ii).
    pub fn set_key_label(&mut self, ci: usize, ti: usize, gi: usize, ii: usize, label: String)
        ensures
            valid_item(old(self)@.vault, ci as int, ti as int, gi as int, ii as int) ==> final(self)@
                == (AppModel {
                vault: set_item(
                    old(self)@.vault,
                    ci as int,
                    ti as int,
                    gi as int,
                    ii as int,
                    with_key_label(
                        item_at(old(self)@.vault, ci as int, ti as int, gi as int, ii as int),
                        label@,
                    ),
                ),
                dirty_frames: 1,
                ..old(self)@
            }),
            !valid_item(old(self)@.vault, ci as int, ti as int, gi as int, ii as int) ==> final(self)@
                == old(self)@,
    {
        if !self.has_item(ci, ti, gi, ii) {
            return;
        }
        let mut it = self.item_copy(ci, ti, gi, ii);
        if let VaultItem::KeyValue { key_label, .. } = &mut it {
            *key_label = label;
        }
        self.edit_item(ci, ti, gi, ii, it);
    }

    /// Renames the value caption of the key/value item at (ci, ti, gi, ii).
    pub fn set_value_label(&mut self, ci: usize, ti: usize, gi: usize, ii: usize, label: String)
        ensures
            valid_item(old(self)@.vault, ci as int, ti as int, gi as int, ii as int) ==> final(self)@
                == (AppModel {
                vault: set_item(
                    old(self)@.vault,
                    ci as int,
                    ti as int,
                    gi as int,
                    ii as int,
                    with_value_label(
                        item_at(old(self)@.vault, ci as int, ti as int, gi as int, ii as int),
                        label@,
                    ),
                ),
                dirty_frames: 1,
                ..old(self)@
            }),
            !valid_item(old(self)@.vault, ci as int, ti as int, gi as int, ii as int) ==> final(self)@
                == old(self)@,
    {
        if !self.has_item(ci, ti, gi, ii) {
            return;
        }
        let mut it = self.item_copy(ci, ti, gi, ii);
        if let VaultItem::KeyValue { value_label, .. } = &mut it {
            *value_label = label;
        }
        self.edit_item(ci, ti, gi, ii, it);
    }

    /// Writes what the user typed into field `field` of the item at
    /// (ci, ti, gi, ii); an item of a kind without that field is left as it is.
    pub fn set_item_text(
        &mut self,
        ci: usize,
        ti: usize,
        gi: usize,
        ii: usize,
        field: TextField,
        text: String,
    )
        ensures
            valid_item(old(self)@.vault, ci as int, ti as int, gi as int, ii as int) ==> final(self)@
                == (AppModel {
                vault: set_item(
                    old(self)@.vault,
                    ci as int,
                    ti as int,
                    gi as int,
                    ii as int,
                    with_text(
                        item_at(old(self)@.vault, ci as int, ti as int, gi as int, ii as int),
                        field,
                        text@,
                    ),
                ),
                dirty_frames: 1,
                ..old(self)@
            }),
            !valid_item(old(self)@.vault, ci as int, ti as int, gi as int, ii as int) ==> final(self)@
                == old(self)@,
    {
        if !self.has_item(ci, ti, gi, ii) {
            return;
        }
        let mut it = self.item_copy(ci, ti, gi, ii);
        match field {
            TextField::Value => {
                if let VaultItem::Text { value, .. } = &mut it {
                    *value = text;
                } else if let VaultItem::KeyValue { value, .. } = &mut it {
                    *value = text;
                }
            },
            TextField::Key => {
                if let VaultItem::KeyValue { key, .. } = &mut it {
                    *key = text;
                }
            },
            TextField::Template => {
                if let VaultItem::ReplaceText { template, .. } = &mut it {
                    *template = text;
                }
            },
            TextField::Body => {
                if let VaultItem::Note { body, .. } = &mut it {
                    *body = text;
                }
            },
        }
        self.edit_item(ci, ti, gi, ii, it);
    }

    /// Sets check box `flag` of the item at (ci, ti, gi, ii) to `on`; an item
    /// of a kind without that box is left as it is.
    pub fn set_item_flag(&mut self, ci: usize, ti: usize, gi: usize, ii: usize, flag: FlagField, on: bool)
        ensures
            valid_item(old(self)@.vault, ci as int, ti as int, gi as int, ii as int) ==> final(self)@
                == (AppModel {
                vault: set_item(
                    old(self)@.vault,
                    ci as int,
                    ti as int,
                    gi as int,
                    ii as int,
                    with_flag(
                        item_at(old(self)@.vault, ci as int, ti as int, gi as int, ii as int),
                        flag,
                        on,
                    ),
                ),
                dirty_frames: 1,
                ..old(self)@
            }),
            !valid_item(old(self)@.vault, ci as int, ti as int, gi as int, ii as int) ==> final(self)@
                == old(self)@,
    {
        if !self.has_item(ci, ti, gi, ii) {
            return;
        }
        let mut it = self.item_copy(ci, ti, gi, ii);
        match flag {
            FlagField::Hidden => {
                if let VaultItem::Text { hidden, .. } = &mut it {
                    *hidden = on;
                } else if let VaultItem::ReplaceText { hidden, .. } = &mut it {
                    *hidden = on;
                }
            },
            FlagField::HideKey => {
                if let VaultItem::KeyValue { hide_key, .. } = &mut it {
                    *hide_key = on;
                }
            },
            FlagField::HideValue => {
                if let VaultItem::KeyValue { hide_value, .. } = &mut it {
                    *hide_value = on;
                }
            },
        }
        self.edit_item(ci, ti, gi, ii, it);
    }

    /// "+ Param": adds an empty parameter to the template item at (ci, ti, gi, ii).
    pub fn add_param(&mut self, ci: usize, ti: usize, gi: usize, ii: usize)
        ensures
            valid_item(old(self)@.vault, ci as int, ti as int, gi as int, ii as int) ==> final(self)@
                == (AppModel {
                vault: set_item(
                    old(self)@.vault,
                    ci as int,
                    ti as int,
                    gi as int,
                    ii as int,
                    with_params(
                        item_at(old(self)@.vault, ci as int, ti as int, gi as int, ii as int),
                        params_of(
                            item_at(old(self)@.vault, ci as int, ti as int, gi as int, ii as int),
                        ).push(ParamModel { name: Seq::empty(), value: Seq::empty() }),
                    ),
                ),
                dirty_frames: 1,
                ..old(self)@
            }),
            !valid_item(old(self)@.vault, ci as int, ti as int, gi as int, ii as int) ==> final(self)@
                == old(self)@,
    {
        if !self.has_item(ci, ti, gi, ii) {
            return;
        }
        let mut it = self.item_copy(ci, ti, gi, ii);
        if let VaultItem::ReplaceText { params, .. } = &mut it {
            let ghost before = params_model(params@);
            params.push(Param { name: String::new(), value: String::new() });
            assert(params_model(params@) =~= before.push(
                ParamModel { name: Seq::empty(), value: Seq::empty() },
            ));
        }
        self.edit_item(ci, ti, gi, ii, it);
    }

    /// Deletes parameter `pi` of the template item at (ci, ti, gi, ii), if it exists.
    pub fn delete_param(&mut self, ci: usize, ti: usize, gi: usize, ii: usize, pi: usize)
        ensures
            valid_item(old(self)@.vault, ci as int, ti as int, gi as int, ii as int) ==> final(self)@
                == (AppModel {
                vault: set_item(
                    old(self)@.vault,
                    ci as int,
                    ti as int,
                    gi as int,
                    ii as int,
                    if pi < params_of(
                        item_at(old(self)@.vault, ci as int, ti as int, gi as int, ii as int),
                    ).len() {
                        with_params(
                            item_at(old(self)@.vault, ci as int, ti as int, gi as int, ii as int),
                            params_of(
                                item_at(old(self)@.vault, ci as int, ti as int, gi as int, ii as int),
                            ).remove(pi as int),
                        )
                    } else {
                        item_at(old(self)@.vault, ci as int, ti as int, gi as int, ii as int)
                    },
                ),
                dirty_frames: 1,
                ..old(self)@
            }),
            !valid_item(old(self)@.vault, ci as int, ti as int, gi as int, ii as int) ==> final(self)@
                == old(self)@,
    {
        if !self.has_item(ci, ti, gi, ii) {
            return;
        }
        let mut it = self.item_copy(ci, ti, gi, ii);
        if let VaultItem::ReplaceText { params, .. } = &mut it {
            if pi < params.len() {
                let ghost before = params_model(params@);
                params.remove(pi);
                assert(params_model(params@) =~= before.remove(pi as int));
            }
        }
        self.edit_item(ci, ti, gi, ii, it);
    }

    /// Sets name and value of parameter `pi` of the template item at
    /// (ci, ti, gi, ii), if it exists.
    pub fn set_param(
        &mut self,
        ci: usize,
        ti: usize,
        gi: usize,
        ii: usize,
        pi: usize,
        name: String,
        value: String,
    )
        ensures
            valid_item(old(self)@.vault, ci as int, ti as int, gi as int, ii as int) ==> final(self)@
                == (AppModel {
                vault: set_item(
                    old(self)@.vault,
                    ci as int,
                    ti as int,
                    gi as int,
                    ii as int,
                    if pi < params_of(
                        item_at(old(self)@.vault, ci as int, ti as int, gi as int, ii as int),
                    ).len() {
                        with_params(
                            item_at(old(self)@.vault, ci as int, ti as int, gi as int, ii as int),
                            params_of(
                                item_at(old(self)@.vault, ci as int, ti as int, gi as int, ii as int),
                            ).update(pi as int, ParamModel { name: name@, value: value@ }),
                        )
                    } else {
                        item_at(old(self)@.vault, ci as int, ti as int, gi as int, ii as int)
                    },
                ),
                dirty_frames: 1,
                ..old(self)@
            }),
            !valid_item(old(self)@.vault, ci as int, ti as int, gi as int, ii as int) ==> final(self)@
                == old(self)@,
    {
        if !self.has_item(ci, ti, gi, ii) {
            return;
        }
        let mut it = self.item_copy(ci, ti, gi, ii);
        if let VaultItem::ReplaceText { params, .. } = &mut it {
            if pi < params.len() {
                let ghost before = params_model(params@);
                params[pi] = Param { name, value };
                assert(params_model(params@) =~= before.update(
                    pi as int,
                    ParamModel { name: name@, value: value@ },
                ));
            }
        }
        self.edit_item(ci, ti, gi, ii, it);
    }
}

/// Gives a template item a parameter for each placeholder name it lacks.
fn sync_item_params(it: &mut VaultItem)
    ensures
        final(it)@ == synced(old(it)@),
{
    if let VaultItem::ReplaceText { template, params, .. } = it {
        sync_params(template.as_str(), params);
    }
}


// ---------------------------------------------------------------------------
// Adding, renaming, moving
// ---------------------------------------------------------------------------

/// The kinds of item the "+ Add..." menu offers.
#[derive(PartialEq, Eq, Structural, Clone, Copy, Debug)]
pub enum ItemKind {
    Text,
    KeyValue,
    ReplaceText,
    Note,
}

/// Whether `it` is a new, empty item of kind `k`, open for editing, as the
/// item constructors make them.
pub open spec fn is_new_item(k: ItemKind, it: ItemModel) -> bool {
    match k {
        ItemKind::Text => it matches ItemModel::Text { label, value, editing, hidden, .. }
            && label == "New text"@ && value.len() == 0 && editing && !hidden,
        ItemKind::KeyValue => it matches ItemModel::KeyValue {
            label,
            key_label,
            value_label,
            key,
            value,
            editing,
            hide_key,
            hide_value,
            ..
        } && label == "New entry"@ && key_label == "Key"@ && value_label == "Value"@ && key.len()
            == 0 && value.len() == 0 && editing && !hide_key && !hide_value,
        ItemKind::ReplaceText => it matches ItemModel::ReplaceText {
            label,
            template,
            params,
            editing,
            hidden,
            ..
        } && label == "New template"@ && template.len() == 0 && params.len() == 0 && editing
            && !hidden,
        ItemKind::Note => it matches ItemModel::Note { label, body, editing, .. } && label
            == "New note"@ && body.len() == 0 && editing,
    }
}

/// `s` with the element at `from` taken out and put back in at `to`.
pub open spec fn moved<T>(s: Seq<T>, from: int, to: int) -> Seq<T> {
    s.remove(from).insert(to, s[from])
}

/// Whether a move from `from` to `to` changes anything in a list of `n`.
pub open spec fn move_applies(n: nat, from: usize, to: usize) -> bool {
    from < n && to < n && from != to
}

/// Moves element `from` of `v` to position `to`.
fn move_in_vec<T>(v: &mut Vec<T>, from: usize, to: usize)
    requires
        from < old(v)@.len(),
        to < old(v)@.len(),
    ensures
        final(v)@ == moved(old(v)@, from as int, to as int),
{
    let x = v.remove(from);
    v.insert(to, x);
}

proof fn lemma_collections_moved(cs: Seq<Collection>, from: int, to: int)
    requires
        0 <= from < cs.len(),
        0 <= to < cs.len(),
    ensures
        collections_model(moved(cs, from, to)) == moved(collections_model(cs), from, to),
{
    assert(collections_model(moved(cs, from, to)) =~= moved(collections_model(cs), from, to));
}

proof fn lemma_tabs_moved(ts: Seq<Tab>, from: int, to: int)
    requires
        0 <= from < ts.len(),
        0 <= to < ts.len(),
    ensures
        tabs_model(moved(ts, from, to)) == moved(tabs_model(ts), from, to),
{
    assert(tabs_model(moved(ts, from, to)) =~= moved(tabs_model(ts), from, to));
}

proof fn lemma_groups_moved(gs: Seq<Group>, from: int, to: int)
    requires
        0 <= from < gs.len(),
        0 <= to < gs.len(),
    ensures
        groups_model(moved(gs, from, to)) == moved(groups_model(gs), from, to),
{
    assert(groups_model(moved(gs, from, to)) =~= moved(groups_model(gs), from, to));
}

proof fn lemma_items_moved(is: Seq<VaultItem>, from: int, to: int)
    requires
        0 <= from < is.len(),
        0 <= to < is.len(),
    ensures
        items_model(moved(is, from, to)) == moved(items_model(is), from, to),
{
    assert(items_model(moved(is, from, to)) =~= moved(items_model(is), from, to));
}

/// Moving an element and moving it back restores the list; a move keeps the
/// list's elements, only their order changes.
pub proof fn law_move_is_reversible<T>(s: Seq<T>, from: int, to: int)
    requires
        0 <= from < s.len(),
        0 <= to < s.len(),
    ensures
        moved(moved(s, from, to), to, from) == s,
        moved(s, from, to).len() == s.len(),
        moved(s, from, to)[to] == s[from],
        moved(s, from, to).to_multiset() == s.to_multiset(),
{
    let m = moved(s, from, to);
    assert(m[to] == s[from]);
    assert(m.remove(to) =~= s.remove(from));
    assert(moved(m, to, from) =~= s);
    vstd::seq_lib::lemma_multiset_commutative(s.remove(from), seq![s[from]]);
    assert(s.remove(from).insert(to, s[from]) =~= s.remove(from).subrange(0, to) + seq![s[from]]
        + s.remove(from).subrange(to, s.len() - 1));
    broadcast use vstd::seq_lib::group_to_multiset_ensures;
    assert(s =~= s.subrange(0, from) + seq![s[from]] + s.subrange(from + 1, s.len() as int));
    assert(s.remove(from) =~= s.subrange(0, from) + s.subrange(from + 1, s.len() as int));
    vstd::seq_lib::lemma_multiset_commutative(s.subrange(0, from) + seq![s[from]], s.subrange(from + 1, s.len() as int));
    vstd::seq_lib::lemma_multiset_commutative(s.subrange(0, from), seq![s[from]]);
    vstd::seq_lib::lemma_multiset_commutative(s.subrange(0, from), s.subrange(from + 1, s.len() as int));
    let r = s.remove(from);
    assert(r =~= r.subrange(0, to) + r.subrange(to, r.len() as int));
    vstd::seq_lib::lemma_multiset_commutative(r.subrange(0, to) + seq![s[from]], r.subrange(to, r.len() as int));
    vstd::seq_lib::lemma_multiset_commutative(r.subrange(0, to), seq![s[from]]);
    vstd::seq_lib::lemma_multiset_commutative(r.subrange(0, to), r.subrange(to, r.len() as int));
}

impl App {
    fn put_group(&mut self, ci: usize, ti: usize, gi: usize, g: Group)
        requires
            valid_group(old(self)@.vault, ci as int, ti as int, gi as int),
        ensures
            final(self)@ == (AppModel {
                vault: set_group(old(self)@.vault, ci as int, ti as int, gi as int, g@),
                ..old(self)@
            }),
    {
        proof {
            self.lemma_views();
        }
        let ghost cs0 = self.vault.collections@;
        let ghost c0 = cs0[ci as int];
        let ghost t0 = c0.tabs@[ti as int];
        self.vault.collections[ci].tabs[ti].groups[gi] = g;
        proof {
            let cs1 = self.vault.collections@;
            let c1 = cs1[ci as int];
            let t1 = c1.tabs@[ti as int];
            lemma_groups_update(t0.groups@, gi as int, t1.groups@[gi as int]);
            assert(t1.groups@ == t0.groups@.update(gi as int, t1.groups@[gi as int]));
            lemma_tabs_update(c0.tabs@, ti as int, t1);
            assert(c1.tabs@ == c0.tabs@.update(ti as int, t1));
            lemma_collections_update(cs0, ci as int, c1);
            assert(cs1 == cs0.update(ci as int, c1));
        }
    }

    fn put_tab(&mut self, ci: usize, ti: usize, t: Tab)
        requires
            valid_tab(old(self)@.vault, ci as int, ti as int),
        ensures
            final(self)@ == (AppModel {
                vault: set_tab(old(self)@.vault, ci as int, ti as int, t@),
                ..old(self)@
            }),
    {
        proof {
            self.lemma_views();
        }
        let ghost cs0 = self.vault.collections@;
        let ghost c0 = cs0[ci as int];
        self.vault.collections[ci].tabs[ti] = t;
        proof {
            let cs1 = self.vault.collections@;
            let c1 = cs1[ci as int];
            lemma_tabs_update(c0.tabs@, ti as int, c1.tabs@[ti as int]);
            assert(c1.tabs@ == c0.tabs@.update(ti as int, c1.tabs@[ti as int]));
            lemma_collections_update(cs0, ci as int, c1);
            assert(cs1 == cs0.update(ci as int, c1));
        }
    }

    fn put_collection(&mut self, ci: usize, c: Collection)
        requires
            valid_collection(old(self)@.vault, ci as int),
        ensures
            final(self)@ == (AppModel {
                vault: set_collection(old(self)@.vault, ci as int, c@),
                ..old(self)@
            }),
    {
        let ghost cs0 = self.vault.collections@;
        self.vault.collections[ci] = c;
        proof {
            let cs1 = self.vault.collections@;
            lemma_collections_update(cs0, ci as int, cs1[ci as int]);
            assert(cs1 == cs0.update(ci as int, cs1[ci as int]));
        }
    }

    fn group_copy(&self, ci: usize, ti: usize, gi: usize) -> (g: Group)
        requires
            valid_group(self@.vault, ci as int, ti as int, gi as int),
        ensures
            g@ == group_at(self@.vault, ci as int, ti as int, gi as int),
    {
        proof {
            self.lemma_views();
        }
        self.vault.collections[ci].tabs[ti].groups[gi].clone()
    }

    fn tab_copy(&self, ci: usize, ti: usize) -> (t: Tab)
        requires
            valid_tab(self@.vault, ci as int, ti as int),
        ensures
            t@ == tab_at(self@.vault, ci as int, ti as int),
    {
        proof {
            self.lemma_views();
        }
        self.vault.collections[ci].tabs[ti].clone()
    }

    fn collection_copy(&self, ci: usize) -> (c: Collection)
        requires
            valid_collection(self@.vault, ci as int),
        ensures
            c@ == self@.vault.collections[ci as int],
    {
        proof {
            self.lemma_views();
        }
        self.vault.collections[ci].clone()
    }

    /// Whether (ci, ti, gi) addresses a group.
    pub fn has_group(&self, ci: usize, ti: usize, gi: usize) -> (r: bool)
        ensures
            r == valid_group(self@.vault, ci as int, ti as int, gi as int),
    {
        proof {
            self.lemma_views();
        }
        ci < self.vault.collections.len() && ti < self.vault.collections[ci].tabs.len() && gi
            < self.vault.collections[ci].tabs[ti].groups.len()
    }

    /// Whether (ci, ti) addresses a tab.
    pub fn has_tab(&self, ci: usize, ti: usize) -> (r: bool)
        ensures
            r == valid_tab(self@.vault, ci as int, ti as int),
    {
        proof {
            self.lemma_views();
        }
        ci < self.vault.collections.len() && ti < self.vault.collections[ci].tabs.len()
    }

    /// Renames collection `ci`.
    pub fn rename_collection(&mut self, ci: usize, name: String)
        ensures
            valid_collection(old(self)@.vault, ci as int) ==> final(self)@ == (AppModel {
                vault: set_collection(
                    old(self)@.vault,
                    ci as int,
                    CollectionModel { name: name@, ..old(self)@.vault.collections[ci as int] },
                ),
                dirty_frames: 1,
                ..old(self)@
            }),
            !valid_collection(old(self)@.vault, ci as int) ==> final(self)@ == old(self)@,
    {
        if ci >= self.vault.collections.len() {
            return;
        }
        let mut c = self.collection_copy(ci);
        c.name = name;
        self.put_collection(ci, c);
        self.dirty_frames = 1;
    }

    /// Renames tab `ti` of collection `ci`.
    pub fn rename_tab(&mut self, ci: usize, ti: usize, name: String)
        ensures
            valid_tab(old(self)@.vault, ci as int, ti as int) ==> final(self)@ == (AppModel {
                vault: set_tab(
                    old(self)@.vault,
                    ci as int,
                    ti as int,
                    TabModel { name: name@, ..tab_at(old(self)@.vault, ci as int, ti as int) },
                ),
                dirty_frames: 1,
                ..old(self)@
            }),
            !valid_tab(old(self)@.vault, ci as int, ti as int) ==> final(self)@ == old(self)@,
    {
        if !self.has_tab(ci, ti) {
            return;
        }
        let mut t = self.tab_copy(ci, ti);
        t.name = name;
        self.put_tab(ci, ti, t);
        self.dirty_frames = 1;
    }

    /// Renames group `gi` of tab `ti` of collection `ci`.
    pub fn rename_group(&mut self, ci: usize, ti: usize, gi: usize, name: String)
        ensures
            valid_group(old(self)@.vault, ci as int, ti as int, gi as int) ==> final(self)@
                == (AppModel {
                vault: set_group(
                    old(self)@.vault,
                    ci as int,
                    ti as int,
                    gi as int,
                    GroupModel {
                        name: name@,
                        ..group_at(old(self)@.vault, ci as int, ti as int, gi as int)
                    },
                ),
                dirty_frames: 1,
                ..old(self)@
            }),
            !valid_group(old(self)@.vault, ci as int, ti as int, gi as int) ==> final(self)@
                == old(self)@,
    {
        if !self.has_group(ci, ti, gi) {
            return;
        }
        let mut g = self.group_copy(ci, ti, gi);
        g.name = name;
        self.put_group(ci, ti, gi, g);
        self.dirty_frames = 1;
    }

    /// Changes a group's colour tag, after a snapshot.
    pub fn set_group_color(&mut self, ci: usize, ti: usize, gi: usize, color: [u8; 3])
        ensures
            valid_group(old(self)@.vault, ci as int, ti as int, gi as int) ==> final(self)@
                == (AppModel {
                vault: set_group(
                    old(self)@.vault,
                    ci as int,
                    ti as int,
                    gi as int,
                    GroupModel {
                        color: color@,
                        ..group_at(old(self)@.vault, ci as int, ti as int, gi as int)
                    },
                ),
                dirty_frames: 1,
                ..old(self)@.snapshot()
            }),
            !valid_group(old(self)@.vault, ci as int, ti as int, gi as int) ==> final(self)@
                == old(self)@,
    {
        if !self.has_group(ci, ti, gi) {
            return;
        }
        self.snapshot();
        let mut g = self.group_copy(ci, ti, gi);
        g.color = color;
        self.put_group(ci, ti, gi, g);
        self.dirty_frames = 1;
    }

    /// "+ Add...": after a snapshot, appends a new item of kind `kind` to
    /// group `gi` of tab `ti` of collection `ci`.
    pub fn add_item(&mut self, ci: usize, ti: usize, gi: usize, kind: ItemKind)
        ensures
            valid_group(old(self)@.vault, ci as int, ti as int, gi as int) ==> {
                let g = group_at(old(self)@.vault, ci as int, ti as int, gi as int);
                let g2 = group_at(final(self)@.vault, ci as int, ti as int, gi as int);
                &&& g2.items.len() == g.items.len() + 1
                &&& is_new_item(kind, g2.items.last())
                &&& is_uuid_v4(g2.items.last().id())
                &&& final(self)@ == (AppModel {
                    vault: set_group(
                        old(self)@.vault,
                        ci as int,
                        ti as int,
                        gi as int,
                        GroupModel { items: g.items.push(g2.items.last()), ..g },
                    ),
                    dirty_frames: 1,
                    ..old(self)@.snapshot()
                })
            },
            !valid_group(old(self)@.vault, ci as int, ti as int, gi as int) ==> final(self)@
                == old(self)@,
    {
        if !self.has_group(ci, ti, gi) {
            return;
        }
        self.snapshot();
        let it = match kind {
            ItemKind::Text => VaultItem::new_text(),
            ItemKind::KeyValue => VaultItem::new_kv(),
            ItemKind::ReplaceText => VaultItem::new_replace(),
            ItemKind::Note => VaultItem::new_note(),
        };
        let ghost itm = it@;
        let mut g = self.group_copy(ci, ti, gi);
        let ghost before = items_model(g.items@);
        g.items.push(it);
        assert(items_model(g.items@) =~= before.push(itm));
        self.put_group(ci, ti, gi, g);
        self.dirty_frames = 1;
    }

    /// "+ Add Group": after a snapshot, appends an empty group named
    /// "Group N" (N = new number of groups) to tab `ti` of collection `ci`.
    pub fn add_group(&mut self, ci: usize, ti: usize)
        ensures
            valid_tab(old(self)@.vault, ci as int, ti as int) ==> {
                let t = tab_at(old(self)@.vault, ci as int, ti as int);
                let t2 = tab_at(final(self)@.vault, ci as int, ti as int);
                let g = t2.groups.last();
                &&& t2.groups.len() == t.groups.len() + 1
                &&& g.name == "Group "@ + decimal(t.groups.len() + 1)
                &&& g.items.len() == 0
                &&& g.color == default_group_color_spec()
                &&& is_uuid_v4(g.id)
                &&& final(self)@ == (AppModel {
                    vault: set_tab(
                        old(self)@.vault,
                        ci as int,
                        ti as int,
                        TabModel { groups: t.groups.push(g), ..t },
                    ),
                    dirty_frames: 1,
                    ..old(self)@.snapshot()
                })
            },
            !valid_tab(old(self)@.vault, ci as int, ti as int) ==> final(self)@ == old(self)@,
    {
        if !self.has_tab(ci, ti) {
            return;
        }
        self.snapshot();
        let mut t = self.tab_copy(ci, ti);
        let n = t.groups.len();
        let g = Group::new(numbered("Group ", n as u128 + 1));
        let ghost gm = g@;
        let ghost before = groups_model(t.groups@);
        t.groups.push(g);
        assert(groups_model(t.groups@) =~= before.push(gm));
        self.put_tab(ci, ti, t);
        self.dirty_frames = 1;
    }

    /// "+ Tab": after a snapshot, appends an empty tab named "Tab N"
    /// (N = new number of tabs) to collection `ci` and makes it active.
    pub fn add_tab(&mut self, ci: usize)
        ensures
            valid_collection(old(self)@.vault, ci as int) ==> {
                let c = old(self)@.vault.collections[ci as int];
                let c2 = final(self)@.vault.collections[ci as int];
                let t = c2.tabs.last();
                &&& c2.tabs.len() == c.tabs.len() + 1
                &&& t.name == "Tab "@ + decimal(c.tabs.len() + 1)
                &&& t.groups.len() == 0
                &&& is_uuid_v4(t.id)
                &&& final(self)@ == (AppModel {
                    vault: set_collection(
                        old(self)@.vault,
                        ci as int,
                        CollectionModel { tabs: c.tabs.push(t), ..c },
                    ),
                    active_tab: Some(t.id),
                    dirty_frames: 1,
                    ..old(self)@.snapshot()
                })
            },
            !valid_collection(old(self)@.vault, ci as int) ==> final(self)@ == old(self)@,
    {
        if ci >= self.vault.collections.len() {
            return;
        }
        self.snapshot();
        let mut c = self.collection_copy(ci);
        let n = c.tabs.len();
        let t = Tab::new(numbered("Tab ", n as u128 + 1));
        let ghost tm = t@;
        self.active_tab_id = Some(t.id);
        let ghost before = tabs_model(c.tabs@);
        c.tabs.push(t);
        assert(tabs_model(c.tabs@) =~= before.push(tm));
        self.put_collection(ci, c);
        self.dirty_frames = 1;
    }

    /// "+ Add": after a snapshot, appends a collection named "Collection N"
    /// (N = new number of collections) with one empty tab, and makes both active.
    pub fn add_collection(&mut self)
        ensures
            ({
                let cs = old(self)@.vault.collections;
                let c = final(self)@.vault.collections.last();
                &&& final(self)@.vault.collections.len() == cs.len() + 1
                &&& c.name == "Collection "@ + decimal(cs.len() + 1)
                &&& c.tabs.len() == 1
                &&& c.tabs[0].name == "Tab 1"@
                &&& c.tabs[0].groups.len() == 0
                &&& is_uuid_v4(c.id)
                &&& is_uuid_v4(c.tabs[0].id)
                &&& final(self)@ == (AppModel {
                    vault: VaultModel { collections: cs.push(c) },
                    active_collection: Some(c.id),
                    active_tab: Some(c.tabs[0].id),
                    dirty_frames: 1,
                    ..old(self)@.snapshot()
                })
            }),
    {
        self.snapshot();
        let n = self.vault.collections.len();
        let c = Collection::new(numbered("Collection ", n as u128 + 1));
        let ghost cm = c@;
        self.active_collection_id = Some(c.id);
        self.active_tab_id = Some(c.tabs[0].id);
        assert(cm.tabs[0] == c.tabs@[0]@);
        let ghost before = collections_model(self.vault.collections@);
        self.vault.collections.push(c);
        assert(collections_model(self.vault.collections@) =~= before.push(cm));
        self.dirty_frames = 1;
    }

    /// Moves collection `from` to position `to` (drag and drop).
    pub fn move_collection(&mut self, from: usize, to: usize)
        ensures
            move_applies(old(self)@.vault.collections.len(), from, to) ==> final(self)@ == (
            AppModel {
                vault: VaultModel {
                    collections: moved(old(self)@.vault.collections, from as int, to as int),
                },
                dirty_frames: 1,
                ..old(self)@
            }),
            !move_applies(old(self)@.vault.collections.len(), from, to) ==> final(self)@ == old(
                self,
            )@,
    {
        let n = self.vault.collections.len();
        if from < n && to < n && from != to {
            let ghost cs0 = self.vault.collections@;
            move_in_vec(&mut self.vault.collections, from, to);
            proof {
                lemma_collections_moved(cs0, from as int, to as int);
            }
            self.dirty_frames = 1;
        }
    }

    /// Moves tab `from` of collection `ci` to position `to`.
    pub fn move_tab(&mut self, ci: usize, from: usize, to: usize)
        ensures
            valid_collection(old(self)@.vault, ci as int) && move_applies(
                old(self)@.vault.collections[ci as int].tabs.len(),
                from,
                to,
            ) ==> final(self)@ == (AppModel {
                vault: set_collection(
                    old(self)@.vault,
                    ci as int,
                    CollectionModel {
                        tabs: moved(
                            old(self)@.vault.collections[ci as int].tabs,
                            from as int,
                            to as int,
                        ),
                        ..old(self)@.vault.collections[ci as int]
                    },
                ),
                dirty_frames: 1,
                ..old(self)@
            }),
            !(valid_collection(old(self)@.vault, ci as int) && move_applies(
                old(self)@.vault.collections[ci as int].tabs.len(),
                from,
                to,
            )) ==> final(self)@ == old(self)@,
    {
        if ci >= self.vault.collections.len() {
            return;
        }
        let mut c = self.collection_copy(ci);
        let n = c.tabs.len();
        if from < n && to < n && from != to {
            let ghost ts0 = c.tabs@;
            move_in_vec(&mut c.tabs, from, to);
            proof {
                lemma_tabs_moved(ts0, from as int, to as int);
            }
            self.put_collection(ci, c);
            self.dirty_frames = 1;
        }
    }

    /// Moves group `from` of tab (ci, ti) to position `to`.
    pub fn move_group(&mut self, ci: usize, ti: usize, from: usize, to: usize)
        ensures
            valid_tab(old(self)@.vault, ci as int, ti as int) && move_applies(
                tab_at(old(self)@.vault, ci as int, ti as int).groups.len(),
                from,
                to,
            ) ==> final(self)@ == (AppModel {
                vault: set_tab(
                    old(self)@.vault,
                    ci as int,
                    ti as int,
                    TabModel {
                        groups: moved(
                            tab_at(old(self)@.vault, ci as int, ti as int).groups,
                            from as int,
                            to as int,
                        ),
                        ..tab_at(old(self)@.vault, ci as int, ti as int)
                    },
                ),
                dirty_frames: 1,
                ..old(self)@
            }),
            !(valid_tab(old(self)@.vault, ci as int, ti as int) && move_applies(
                tab_at(old(self)@.vault, ci as int, ti as int).groups.len(),
                from,
                to,
            )) ==> final(self)@ == old(self)@,
    {
        if !self.has_tab(ci, ti) {
            return;
        }
        let mut t = self.tab_copy(ci, ti);
        let n = t.groups.len();
        if from < n && to < n && from != to {
            let ghost gs0 = t.groups@;
            move_in_vec(&mut t.groups, from, to);
            proof {
                lemma_groups_moved(gs0, from as int, to as int);
            }
            self.put_tab(ci, ti, t);
            self.dirty_frames = 1;
        }
    }

    /// Moves item `from` of group (ci, ti, gi) to position `to`.
    pub fn move_item(&mut self, ci: usize, ti: usize, gi: usize, from: usize, to: usize)
        ensures
            valid_group(old(self)@.vault, ci as int, ti as int, gi as int) && move_applies(
                group_at(old(self)@.vault, ci as int, ti as int, gi as int).items.len(),
                from,
                to,
            ) ==> final(self)@ == (AppModel {
                vault: set_group(
                    old(self)@.vault,
                    ci as int,
                    ti as int,
                    gi as int,
                    GroupModel {
                        items: moved(
                            group_at(old(self)@.vault, ci as int, ti as int, gi as int).items,
                            from as int,
                            to as int,
                        ),
                        ..group_at(old(self)@.vault, ci as int, ti as int, gi as int)
                    },
                ),
                dirty_frames: 1,
                ..old(self)@
            }),
            !(valid_group(old(self)@.vault, ci as int, ti as int, gi as int) && move_applies(
                group_at(old(self)@.vault, ci as int, ti as int, gi as int).items.len(),
                from,
                to,
            )) ==> final(self)@ == old(self)@,
    {
        if !self.has_group(ci, ti, gi) {
            return;
        }
        let mut g = self.group_copy(ci, ti, gi);
        let n = g.items.len();
        if from < n && to < n && from != to {
            let ghost is0 = g.items@;
            move_in_vec(&mut g.items, from, to);
            proof {
                lemma_items_moved(is0, from as int, to as int);
            }
            self.put_group(ci, ti, gi, g);
            self.dirty_frames = 1;
        }
    }

    /// Makes collection `id` active, with its first tab.
    pub fn select_collection(&mut self, id: u128)
        ensures
            final(self)@ == (AppModel {
                active_collection: Some(id),
                active_tab: first_tab_of(old(self)@.vault, Some(id)),
                ..old(self)@
            }),
    {
        let cids = collection_id_list(&self.vault.collections);
        proof {
            lemma_position_bounds(cids@, id);
            self.lemma_views();
        }
        let tab = match find_position(&cids, id) {
            Some(ci) => if self.vault.collections[ci].tabs.len() > 0 {
                Some(self.vault.collections[ci].tabs[0].id)
            } else {
                None
            },
            None => None,
        };
        self.active_collection_id = Some(id);
        self.active_tab_id = tab;
    }

    /// Makes tab `id` active.
    pub fn select_tab(&mut self, id: u128)
        ensures
            final(self)@ == (AppModel { active_tab: Some(id), ..old(self)@ }),
    {
        self.active_tab_id = Some(id);
    }
}


// ---------------------------------------------------------------------------
// Deleting
// ---------------------------------------------------------------------------

/// Keeps the records whose id is not `id`.
pub open spec fn keep_collection(id: u128) -> spec_fn(CollectionModel) -> bool {
    |x: CollectionModel| x.id != id
}

fn filter_collections(v: &Vec<Collection>, id: u128) -> (r: Vec<Collection>)
    ensures
        collections_model(r@) == collections_model(v@).filter(keep_collection(id)),
{
    let mut r: Vec<Collection> = Vec::new();
    let mut i: usize = 0;
    while i < v.len()
        invariant
            0 <= i <= v@.len(),
            collections_model(r@) == collections_model(v@.take(i as int)).filter(keep_collection(id)),
        decreases v.len() - i,
    {
        let ghost before = collections_model(r@);
        assert(collections_model(v@.take(i + 1)) =~= collections_model(v@.take(i as int)).push(v@[i as int]@));
        proof {
            collections_model(v@.take(i as int)).lemma_filter_push(v@[i as int]@, keep_collection(id));
        }
        if v[i].id != id {
            r.push(v[i].clone());
            assert(collections_model(r@) =~= before.push(v@[i as int]@));
        }
        i = i + 1;
    }
    assert(v@.take(v@.len() as int) =~= v@);
    r
}

/// Keeps the records whose id is not `id`.
pub open spec fn keep_tab(id: u128) -> spec_fn(TabModel) -> bool {
    |x: TabModel| x.id != id
}

fn filter_tabs(v: &Vec<Tab>, id: u128) -> (r: Vec<Tab>)
    ensures
        tabs_model(r@) == tabs_model(v@).filter(keep_tab(id)),
{
    let mut r: Vec<Tab> = Vec::new();
    let mut i: usize = 0;
    while i < v.len()
        invariant
            0 <= i <= v@.len(),
            tabs_model(r@) == tabs_model(v@.take(i as int)).filter(keep_tab(id)),
        decreases v.len() - i,
    {
        let ghost before = tabs_model(r@);
        assert(tabs_model(v@.take(i + 1)) =~= tabs_model(v@.take(i as int)).push(v@[i as int]@));
        proof {
            tabs_model(v@.take(i as int)).lemma_filter_push(v@[i as int]@, keep_tab(id));
        }
        if v[i].id != id {
            r.push(v[i].clone());
            assert(tabs_model(r@) =~= before.push(v@[i as int]@));
        }
        i = i + 1;
    }
    assert(v@.take(v@.len() as int) =~= v@);
    r
}

/// Keeps the records whose id is not `id`.
pub open spec fn keep_group(id: u128) -> spec_fn(GroupModel) -> bool {
    |x: GroupModel| x.id != id
}

fn filter_groups(v: &Vec<Group>, id: u128) -> (r: Vec<Group>)
    ensures
        groups_model(r@) == groups_model(v@).filter(keep_group(id)),
{
    let mut r: Vec<Group> = Vec::new();
    let mut i: usize = 0;
    while i < v.len()
        invariant
            0 <= i <= v@.len(),
            groups_model(r@) == groups_model(v@.take(i as int)).filter(keep_group(id)),
        decreases v.len() - i,
    {
        let ghost before = groups_model(r@);
        assert(groups_model(v@.take(i + 1)) =~= groups_model(v@.take(i as int)).push(v@[i as int]@));
        proof {
            groups_model(v@.take(i as int)).lemma_filter_push(v@[i as int]@, keep_group(id));
        }
        if v[i].id != id {
            r.push(v[i].clone());
            assert(groups_model(r@) =~= before.push(v@[i as int]@));
        }
        i = i + 1;
    }
    assert(v@.take(v@.len() as int) =~= v@);
    r
}

/// Keeps the records whose id is not `id`.
pub open spec fn keep_item(id: u128) -> spec_fn(ItemModel) -> bool {
    |x: ItemModel| x.id() != id
}

fn filter_vaultitems(v: &Vec<VaultItem>, id: u128) -> (r: Vec<VaultItem>)
    ensures
        items_model(r@) == items_model(v@).filter(keep_item(id)),
{
    let mut r: Vec<VaultItem> = Vec::new();
    let mut i: usize = 0;
    while i < v.len()
        invariant
            0 <= i <= v@.len(),
            items_model(r@) == items_model(v@.take(i as int)).filter(keep_item(id)),
        decreases v.len() - i,
    {
        let ghost before = items_model(r@);
        assert(items_model(v@.take(i + 1)) =~= items_model(v@.take(i as int)).push(v@[i as int]@));
        proof {
            items_model(v@.take(i as int)).lemma_filter_push(v@[i as int]@, keep_item(id));
        }
        if v[i].id() != id {
            r.push(v[i].clone());
            assert(items_model(r@) =~= before.push(v@[i as int]@));
        }
        i = i + 1;
    }
    assert(v@.take(v@.len() as int) =~= v@);
    r
}

/// What a confirmed dialog does.
#[derive(PartialEq, Eq, Structural, Clone, Copy, Debug)]
pub enum ConfirmAction {
    DeleteCollection(u128),
    DeleteTab { collection: u128, tab: u128 },
    DeleteGroup { collection: u128, tab: u128, group: u128 },
    DeleteItem { collection: u128, tab: u128, group: u128, item: u128 },
    Restore,
}

/// A question to put to the user before acting.
pub struct Confirm {
    pub title: String,
    pub message: String,
    pub action: ConfirmAction,
}

/// The indices of tab `tid` in collection `cid`.
pub open spec fn tab_index(v: VaultModel, cid: u128, tid: u128) -> Option<(int, int)> {
    match collection_index(v, cid) {
        Some(ci) => match position(tab_ids(v.collections[ci].tabs), tid) {
            Some(ti) => Some((ci, ti)),
            None => None,
        },
        None => None,
    }
}

/// The indices of group `gid` in tab `tid` of collection `cid`.
pub open spec fn group_index(v: VaultModel, cid: u128, tid: u128, gid: u128) -> Option<
    (int, int, int),
> {
    match tab_index(v, cid, tid) {
        Some((ci, ti)) => match position(group_ids(tab_at(v, ci, ti).groups), gid) {
            Some(gi) => Some((ci, ti, gi)),
            None => None,
        },
        None => None,
    }
}

/// The indices of item `iid` in group `gid` of tab `tid` of collection `cid`.
pub open spec fn item_index(v: VaultModel, cid: u128, tid: u128, gid: u128, iid: u128) -> Option<
    (int, int, int, int),
> {
    match group_index(v, cid, tid, gid) {
        Some((ci, ti, gi)) => match position(item_ids(group_at(v, ci, ti, gi).items), iid) {
            Some(ii) => Some((ci, ti, gi, ii)),
            None => None,
        },
        None => None,
    }
}

/// The state after deleting every collection with id `id`; if it was active,
/// the first remaining collection and its first tab become active.
pub open spec fn delete_collection_step(m: AppModel, id: u128) -> AppModel {
    let s = m.snapshot();
    let v = VaultModel { collections: m.vault.collections.filter(keep_collection(id)) };
    if m.active_collection == Some(id) {
        AppModel {
            vault: v,
            active_collection: first_collection_id(v),
            active_tab: if v.collections.len() > 0 {
                first_tab_id(v.collections[0])
            } else {
                None
            },
            dirty_frames: 1,
            ..s
        }
    } else {
        AppModel { vault: v, dirty_frames: 1, ..s }
    }
}

/// The state after deleting tab `tid` of collection `cid`; if it was the
/// active tab, the collection's first remaining tab becomes active.
pub open spec fn delete_tab_step(m: AppModel, cid: u128, tid: u128) -> AppModel {
    let s = m.snapshot();
    match collection_index(m.vault, cid) {
        Some(ci) => {
            let c = m.vault.collections[ci];
            let c2 = CollectionModel { tabs: c.tabs.filter(keep_tab(tid)), ..c };
            AppModel {
                vault: set_collection(m.vault, ci, c2),
                active_tab: if m.active_tab == Some(tid) {
                    first_tab_id(c2)
                } else {
                    m.active_tab
                },
                dirty_frames: 1,
                ..s
            }
        },
        None => AppModel { dirty_frames: 1, ..s },
    }
}

/// The state after deleting group `gid` of tab `tid` of collection `cid`.
pub open spec fn delete_group_step(m: AppModel, cid: u128, tid: u128, gid: u128) -> AppModel {
    let s = m.snapshot();
    match tab_index(m.vault, cid, tid) {
        Some((ci, ti)) => {
            let t = tab_at(m.vault, ci, ti);
            AppModel {
                vault: set_tab(m.vault, ci, ti, TabModel { groups: t.groups.filter(keep_group(gid)), ..t }),
                dirty_frames: 1,
                ..s
            }
        },
        None => AppModel { dirty_frames: 1, ..s },
    }
}

/// The state after deleting item `iid` of group `gid` of tab `tid` of collection `cid`.
pub open spec fn delete_item_step(m: AppModel, cid: u128, tid: u128, gid: u128, iid: u128) -> AppModel {
    let s = m.snapshot();
    match group_index(m.vault, cid, tid, gid) {
        Some((ci, ti, gi)) => {
            let g = group_at(m.vault, ci, ti, gi);
            AppModel {
                vault: set_group(
                    m.vault,
                    ci,
                    ti,
                    gi,
                    GroupModel { items: g.items.filter(keep_item(iid)), ..g },
                ),
                dirty_frames: 1,
                ..s
            }
        },
        None => AppModel { dirty_frames: 1, ..s },
    }
}

/// The state after restoring the pending backup: its vault replaces the
/// current one and its first collection and tab become active.
pub open spec fn restore_step(m: AppModel) -> AppModel {
    match m.pending {
        Some(v) => AppModel {
            vault: v,
            active_collection: first_collection_id(v),
            active_tab: if v.collections.len() > 0 {
                first_tab_id(v.collections[0])
            } else {
                None
            },
            pending: None,
            dirty_frames: 1,
            toast: Some("Backup restored"@),
            ..m
        },
        None => m,
    }
}

/// The state after the user confirmed `action`.
pub open spec fn confirmed_step(m: AppModel, action: ConfirmAction) -> AppModel {
    match action {
        ConfirmAction::DeleteCollection(id) => delete_collection_step(m, id),
        ConfirmAction::DeleteTab { collection, tab } => delete_tab_step(m, collection, tab),
        ConfirmAction::DeleteGroup { collection, tab, group } => delete_group_step(
            m,
            collection,
            tab,
            group,
        ),
        ConfirmAction::DeleteItem { collection, tab, group, item } => delete_item_step(
            m,
            collection,
            tab,
            group,
            item,
        ),
        ConfirmAction::Restore => restore_step(m.snapshot()),
    }
}

impl App {
    fn find_collection(&self, cid: u128) -> (r: Option<usize>)
        ensures
            match collection_index(self@.vault, cid) {
                Some(ci) => r matches Some(x) && x as int == ci,
                None => r is None,
            },
            r matches Some(ci) ==> ci < self@.vault.collections.len(),
    {
        let cids = collection_id_list(&self.vault.collections);
        proof {
            lemma_position_bounds(cids@, cid);
        }
        find_position(&cids, cid)
    }

    fn find_tab(&self, cid: u128, tid: u128) -> (r: Option<(usize, usize)>)
        ensures
            match tab_index(self@.vault, cid, tid) {
                Some((ci, ti)) => r matches Some((x, y)) && x as int == ci && y as int == ti,
                None => r is None,
            },
            r matches Some((ci, ti)) ==> valid_tab(self@.vault, ci as int, ti as int),
    {
        proof {
            self.lemma_views();
        }
        match self.find_collection(cid) {
            Some(ci) => {
                let tids = tab_id_list(&self.vault.collections[ci].tabs);
                proof {
                    lemma_position_bounds(tids@, tid);
                    assert(tids@ == tab_ids(self@.vault.collections[ci as int].tabs));
                }
                match find_position(&tids, tid) {
                    Some(ti) => Some((ci, ti)),
                    None => None,
                }
            },
            None => None,
        }
    }

    fn find_group(&self, cid: u128, tid: u128, gid: u128) -> (r: Option<(usize, usize, usize)>)
        ensures
            match group_index(self@.vault, cid, tid, gid) {
                Some((ci, ti, gi)) => r matches Some((x, y, z)) && x as int == ci && y as int == ti
                    && z as int == gi,
                None => r is None,
            },
            r matches Some((ci, ti, gi)) ==> valid_group(self@.vault, ci as int, ti as int, gi as int),
    {
        proof {
            self.lemma_views();
        }
        match self.find_tab(cid, tid) {
            Some((ci, ti)) => {
                let gids = group_id_list(&self.vault.collections[ci].tabs[ti].groups);
                proof {
                    lemma_position_bounds(gids@, gid);
                    assert(gids@ == group_ids(tab_at(self@.vault, ci as int, ti as int).groups));
                }
                match find_position(&gids, gid) {
                    Some(gi) => Some((ci, ti, gi)),
                    None => None,
                }
            },
            None => None,
        }
    }

    fn find_item(&self, cid: u128, tid: u128, gid: u128, iid: u128) -> (r: Option<(usize, usize, usize, usize)>)
        ensures
            match item_index(self@.vault, cid, tid, gid, iid) {
                Some((ci, ti, gi, ii)) => r matches Some((x, y, z, w)) && x as int == ci && y as int
                    == ti && z as int == gi && w as int == ii,
                None => r is None,
            },
            r matches Some((ci, ti, gi, ii)) ==> valid_item(
                self@.vault,
                ci as int,
                ti as int,
                gi as int,
                ii as int,
            ),
    {
        proof {
            self.lemma_views();
        }
        match self.find_group(cid, tid, gid) {
            Some((ci, ti, gi)) => {
                let iids = item_id_list(&self.vault.collections[ci].tabs[ti].groups[gi].items);
                proof {
                    lemma_position_bounds(iids@, iid);
                    assert(iids@ == item_ids(group_at(self@.vault, ci as int, ti as int, gi as int).items));
                }
                match find_position(&iids, iid) {
                    Some(ii) => Some((ci, ti, gi, ii)),
                    None => None,
                }
            },
            None => None,
        }
    }

    /// Carries out a confirmed action, recording a snapshot first.
    pub fn run_confirmed_action(&mut self, action: ConfirmAction)
        ensures
            final(self)@ == confirmed_step(old(self)@, action),
    {
        let ghost m = self@;
        match action {
            ConfirmAction::DeleteCollection(id) => {
                self.snapshot();
                let kept = filter_collections(&self.vault.collections, id);
                self.vault.collections = kept;
                if self.active_collection_id == Some(id) {
                    proof {
                        self.lemma_views();
                    }
                    if self.vault.collections.len() > 0 {
                        self.active_collection_id = Some(self.vault.collections[0].id);
                        self.active_tab_id = if self.vault.collections[0].tabs.len() > 0 {
                            Some(self.vault.collections[0].tabs[0].id)
                        } else {
                            None
                        };
                    } else {
                        self.active_collection_id = None;
                        self.active_tab_id = None;
                    }
                }
                self.dirty_frames = 1;
            },
            ConfirmAction::DeleteTab { collection, tab } => {
                self.snapshot();
                if let Some(ci) = self.find_collection(collection) {
                    let mut c = self.collection_copy(ci);
                    c.tabs = filter_tabs(&c.tabs, tab);
                    if self.active_tab_id == Some(tab) {
                        self.active_tab_id = if c.tabs.len() > 0 {
                            Some(c.tabs[0].id)
                        } else {
                            None
                        };
                    }
                    proof {
                        if c.tabs@.len() > 0 {
                            assert(c@.tabs[0] == c.tabs@[0]@);
                        }
                    }
                    self.put_collection(ci, c);
                }
                self.dirty_frames = 1;
            },
            ConfirmAction::DeleteGroup { collection, tab, group } => {
                self.snapshot();
                if let Some((ci, ti)) = self.find_tab(collection, tab) {
                    let mut t = self.tab_copy(ci, ti);
                    t.groups = filter_groups(&t.groups, group);
                    self.put_tab(ci, ti, t);
                }
                self.dirty_frames = 1;
            },
            ConfirmAction::DeleteItem { collection, tab, group, item } => {
                self.snapshot();
                if let Some((ci, ti, gi)) = self.find_group(collection, tab, group) {
                    let mut g = self.group_copy(ci, ti, gi);
                    g.items = filter_vaultitems(&g.items, item);
                    self.put_group(ci, ti, gi, g);
                }
                self.dirty_frames = 1;
            },
            ConfirmAction::Restore => {
                self.snapshot();
                self.apply_restore();
            },
        }
    }

    /// Replaces the vault with the pending backup, if there is one.
    pub fn apply_restore(&mut self)
        ensures
            final(self)@ == restore_step(old(self)@),
    {
        if let Some(v) = self.pending_restore.take() {
            self.vault = v;
            proof {
                self.lemma_views();
            }
            if self.vault.collections.len() > 0 {
                self.active_collection_id = Some(self.vault.collections[0].id);
                self.active_tab_id = if self.vault.collections[0].tabs.len() > 0 {
                    Some(self.vault.collections[0].tabs[0].id)
                } else {
                    None
                };
            } else {
                self.active_collection_id = None;
                self.active_tab_id = None;
            }
            self.dirty_frames = 1;
            self.toast = Some(String::from_str("Backup restored"));
        }
    }

    /// "Cancel" on a confirmation: forgets a pending backup.
    pub fn cancel_confirm(&mut self)
        ensures
            final(self)@ == (AppModel { pending: None, ..old(self)@ }),
    {
        self.pending_restore = None;
    }
}


// ---------------------------------------------------------------------------
// Delete requests: delete at once when nothing is stored, else ask
// ---------------------------------------------------------------------------

/// `prefix`, then `name`, then `suffix`.
fn quoted(prefix: &str, name: &String, suffix: &str) -> (r: String)
    ensures
        r@ == prefix@ + name@ + suffix@,
{
    let mut r = String::from_str(prefix);
    r.append(name.as_str());
    r.append(suffix);
    r
}

/// The question asked before deleting a collection that holds data.
pub open spec fn collection_question(name: Seq<char>, c: Confirm, id: u128) -> bool {
    &&& c.title@ == "Delete collection?"@
    &&& c.message@ == "Collection \""@ + name
        + "\" still contains data. Deleting will remove all of its tabs, groups, and items. Continue?"@
    &&& c.action == ConfirmAction::DeleteCollection(id)
}

/// The question asked before deleting a tab that holds data.
pub open spec fn tab_question(name: Seq<char>, c: Confirm, cid: u128, tid: u128) -> bool {
    &&& c.title@ == "Delete tab?"@
    &&& c.message@ == "Tab \""@ + name
        + "\" still contains data. Deleting will remove all of its groups and items. Continue?"@
    &&& c.action == ConfirmAction::DeleteTab { collection: cid, tab: tid }
}

/// The question asked before deleting a group that holds data.
pub open spec fn group_question(name: Seq<char>, c: Confirm, cid: u128, tid: u128, gid: u128) -> bool {
    &&& c.title@ == "Delete group?"@
    &&& c.message@ == "Group \""@ + name
        + "\" still contains items. Deleting will remove all of its items. Continue?"@
    &&& c.action == ConfirmAction::DeleteGroup { collection: cid, tab: tid, group: gid }
}

/// The question asked before deleting an item that holds data.
pub open spec fn item_question(
    label: Seq<char>,
    c: Confirm,
    cid: u128,
    tid: u128,
    gid: u128,
    iid: u128,
) -> bool {
    &&& c.title@ == "Delete item?"@
    &&& c.message@ == "\""@ + label + "\" still has content stored. Delete it anyway?"@
    &&& c.action == ConfirmAction::DeleteItem { collection: cid, tab: tid, group: gid, item: iid }
}

impl App {
    /// The delete button of a collection: a collection with no content is
    /// deleted at once; for one with content the question to ask is returned
    /// and nothing changes; an unknown id does nothing.
    pub fn request_delete_collection(&mut self, id: u128) -> (r: Option<Confirm>)
        ensures
            match collection_index(old(self)@.vault, id) {
                None => r is None && final(self)@ == old(self)@,
                Some(ci) => if old(self)@.vault.collections[ci].has_content() {
                    r matches Some(c) && collection_question(
                        old(self)@.vault.collections[ci].name,
                        c,
                        id,
                    ) && final(self)@ == old(self)@
                } else {
                    r is None && final(self)@ == confirmed_step(
                        old(self)@,
                        ConfirmAction::DeleteCollection(id),
                    )
                },
            },
    {
        proof {
            self.lemma_views();
        }
        let ci = match self.find_collection(id) {
            Some(ci) => ci,
            None => {
                return None;
            },
        };
        if !self.vault.collections[ci].has_content() {
            self.run_confirmed_action(ConfirmAction::DeleteCollection(id));
            return None;
        }
        let message = quoted(
            "Collection \"",
            &self.vault.collections[ci].name,
            "\" still contains data. Deleting will remove all of its tabs, groups, and items. Continue?",
        );
        Some(
            Confirm {
                title: String::from_str("Delete collection?"),
                message,
                action: ConfirmAction::DeleteCollection(id),
            },
        )
    }

    /// The close button of a tab: a tab with no content (or one that is not
    /// found) is deleted at once; for one with content the question to ask is
    /// returned and nothing changes.
    pub fn request_delete_tab(&mut self, collection: u128, tab: u128) -> (r: Option<Confirm>)
        ensures
            match tab_index(old(self)@.vault, collection, tab) {
                Some((ci, ti)) if tab_at(old(self)@.vault, ci, ti).has_content() => r matches Some(
                    c,
                ) && tab_question(tab_at(old(self)@.vault, ci, ti).name, c, collection, tab)
                    && final(self)@ == old(self)@,
                _ => r is None && final(self)@ == confirmed_step(
                    old(self)@,
                    ConfirmAction::DeleteTab { collection, tab },
                ),
            },
    {
        proof {
            self.lemma_views();
        }
        if let Some((ci, ti)) = self.find_tab(collection, tab) {
            if self.vault.collections[ci].tabs[ti].has_content() {
                let message = quoted(
                    "Tab \"",
                    &self.vault.collections[ci].tabs[ti].name,
                    "\" still contains data. Deleting will remove all of its groups and items. Continue?",
                );
                return Some(
                    Confirm {
                        title: String::from_str("Delete tab?"),
                        message,
                        action: ConfirmAction::DeleteTab { collection, tab },
                    },
                );
            }
        }
        self.run_confirmed_action(ConfirmAction::DeleteTab { collection, tab });
        None
    }

    /// The delete button of a group: a group with no content is deleted at
    /// once; for one with content the question to ask is returned and nothing
    /// changes; an unknown group does nothing.
    pub fn request_delete_group(&mut self, collection: u128, tab: u128, group: u128) -> (r: Option<
        Confirm,
    >)
        ensures
            match group_index(old(self)@.vault, collection, tab, group) {
                None => r is None && final(self)@ == old(self)@,
                Some((ci, ti, gi)) => if group_at(old(self)@.vault, ci, ti, gi).has_content() {
                    r matches Some(c) && group_question(
                        group_at(old(self)@.vault, ci, ti, gi).name,
                        c,
                        collection,
                        tab,
                        group,
                    ) && final(self)@ == old(self)@
                } else {
                    r is None && final(self)@ == confirmed_step(
                        old(self)@,
                        ConfirmAction::DeleteGroup { collection, tab, group },
                    )
                },
            },
    {
        proof {
            self.lemma_views();
        }
        let (ci, ti, gi) = match self.find_group(collection, tab, group) {
            Some(x) => x,
            None => {
                return None;
            },
        };
        if !self.vault.collections[ci].tabs[ti].groups[gi].has_content() {
            self.run_confirmed_action(ConfirmAction::DeleteGroup { collection, tab, group });
            return None;
        }
        let message = quoted(
            "Group \"",
            &self.vault.collections[ci].tabs[ti].groups[gi].name,
            "\" still contains items. Deleting will remove all of its items. Continue?",
        );
        Some(
            Confirm {
                title: String::from_str("Delete group?"),
                message,
                action: ConfirmAction::DeleteGroup { collection, tab, group },
            },
        )
    }

    /// The delete button of an item: an item with no content is deleted at
    /// once; for one with content the question to ask is returned and nothing
    /// changes; an unknown item does nothing.
    pub fn request_delete_item(&mut self, collection: u128, tab: u128, group: u128, item: u128) -> (r:
        Option<Confirm>)
        ensures
            match item_index(old(self)@.vault, collection, tab, group, item) {
                None => r is None && final(self)@ == old(self)@,
                Some((ci, ti, gi, ii)) => if item_at(
                    old(self)@.vault,
                    ci,
                    ti,
                    gi,
                    ii,
                ).has_content() {
                    r matches Some(c) && item_question(
                        item_at(old(self)@.vault, ci, ti, gi, ii).label(),
                        c,
                        collection,
                        tab,
                        group,
                        item,
                    ) && final(self)@ == old(self)@
                } else {
                    r is None && final(self)@ == confirmed_step(
                        old(self)@,
                        ConfirmAction::DeleteItem { collection, tab, group, item },
                    )
                },
            },
    {
        proof {
            self.lemma_views();
        }
        let (ci, ti, gi, ii) = match self.find_item(collection, tab, group, item) {
            Some(x) => x,
            None => {
                return None;
            },
        };
        if !self.vault.collections[ci].tabs[ti].groups[gi].items[ii].has_content() {
            self.run_confirmed_action(ConfirmAction::DeleteItem { collection, tab, group, item });
            return None;
        }
        let message = quoted(
            "\"",
            self.vault.collections[ci].tabs[ti].groups[gi].items[ii].label(),
            "\" still has content stored. Delete it anyway?",
        );
        Some(
            Confirm {
                title: String::from_str("Delete item?"),
                message,
                action: ConfirmAction::DeleteItem { collection, tab, group, item },
            },
        )
    }
}


// ---------------------------------------------------------------------------
// Drag and drop
// ---------------------------------------------------------------------------

/// What is being dragged.
#[derive(PartialEq, Eq, Structural, Clone, Copy, Debug)]
pub enum DragKind {
    Collection,
    Tab,
    Group,
    Item,
}

/// A drag in progress: its kind, the id of the dragged record, and for an
/// item the group it belongs to (items only move within their group).
#[derive(PartialEq, Eq, Structural, Clone, Copy, Debug)]
pub struct DragState {
    pub kind: DragKind,
    pub src_id: u128,
    pub group_id: Option<u128>,
}

/// The index of the dragged record in its list: collections of the vault,
/// tabs of the active collection, groups of the active tab, items of the
/// given group of the active tab.
pub open spec fn resolve_spec(m: AppModel, kind: DragKind, id: u128, group_id: Option<u128>) -> Option<int> {
    match kind {
        DragKind::Collection => collection_index(m.vault, id),
        DragKind::Tab => match m.active_collection {
            Some(cid) => match collection_index(m.vault, cid) {
                Some(ci) => position(tab_ids(m.vault.collections[ci].tabs), id),
                None => None,
            },
            None => None,
        },
        DragKind::Group => match active_tab_position(m) {
            Some((ci, ti)) => position(group_ids(tab_at(m.vault, ci as int, ti as int).groups), id),
            None => None,
        },
        DragKind::Item => match active_tab_position(m) {
            Some((ci, ti)) => match group_id {
                Some(gid) => match position(
                    group_ids(tab_at(m.vault, ci as int, ti as int).groups),
                    gid,
                ) {
                    Some(gi) => position(
                        item_ids(group_at(m.vault, ci as int, ti as int, gi).items),
                        id,
                    ),
                    None => None,
                },
                None => None,
            },
            None => None,
        },
    }
}

impl App {
    /// The index of the dragged record in its list.
    pub fn resolve_index(&self, kind: DragKind, id: u128, group_id: Option<u128>) -> (r: Option<
        usize,
    >)
        ensures
            match resolve_spec(self@, kind, id, group_id) {
                Some(i) => r matches Some(j) && j as int == i,
                None => r is None,
            },
    {
        proof {
            self.lemma_views();
        }
        match kind {
            DragKind::Collection => self.find_collection(id),
            DragKind::Tab => {
                let ci = match self.active_collection_idx() {
                    Some(ci) => ci,
                    None => {
                        return None;
                    },
                };
                let tids = tab_id_list(&self.vault.collections[ci].tabs);
                proof {
                    assert(tids@ == tab_ids(self@.vault.collections[ci as int].tabs));
                }
                find_position(&tids, id)
            },
            DragKind::Group => {
                let (ci, ti) = match self.active_tab_idx() {
                    Some(x) => x,
                    None => {
                        return None;
                    },
                };
                let gids = group_id_list(&self.vault.collections[ci].tabs[ti].groups);
                proof {
                    assert(gids@ == group_ids(tab_at(self@.vault, ci as int, ti as int).groups));
                }
                find_position(&gids, id)
            },
            DragKind::Item => {
                let (ci, ti) = match self.active_tab_idx() {
                    Some(x) => x,
                    None => {
                        return None;
                    },
                };
                let gid = match group_id {
                    Some(g) => g,
                    None => {
                        return None;
                    },
                };
                let gids = group_id_list(&self.vault.collections[ci].tabs[ti].groups);
                proof {
                    assert(gids@ == group_ids(tab_at(self@.vault, ci as int, ti as int).groups));
                    lemma_position_bounds(gids@, gid);
                }
                let gi = match find_position(&gids, gid) {
                    Some(gi) => gi,
                    None => {
                        return None;
                    },
                };
                let iids = item_id_list(&self.vault.collections[ci].tabs[ti].groups[gi].items);
                proof {
                    assert(iids@ == item_ids(group_at(self@.vault, ci as int, ti as int, gi as int).items));
                }
                find_position(&iids, id)
            },
        }
    }

    /// A drag released over row `row_id` (at index `to`) of a list of kind
    /// `kind`.  A drop onto a list of another kind, another group, or onto the
    /// dragged row itself does nothing; otherwise, when the dragged record is
    /// found, a snapshot is recorded and the move (from, to) is returned for
    /// the caller to apply.
    pub fn drop_on(
        &mut self,
        drag: DragState,
        kind: DragKind,
        row_id: u128,
        group_id: Option<u128>,
        to: usize,
    ) -> (r: Option<(usize, usize)>)
        ensures
            (drag.kind != kind || drag.group_id != group_id || drag.src_id == row_id) ==> r is None
                && final(self)@ == old(self)@,
            !(drag.kind != kind || drag.group_id != group_id || drag.src_id == row_id) ==> match resolve_spec(
                old(self)@,
                drag.kind,
                drag.src_id,
                group_id,
            ) {
                Some(from) => r matches Some((f, t)) && f as int == from && t == to && final(self)@
                    == old(self)@.snapshot(),
                None => r is None && final(self)@ == old(self)@,
            },
    {
        if drag.kind != kind || drag.group_id != group_id || drag.src_id == row_id {
            return None;
        }
        match self.resolve_index(drag.kind, drag.src_id, group_id) {
            Some(from) => {
                self.snapshot();
                Some((from, to))
            },
            None => None,
        }
    }
}

// ---------------------------------------------------------------------------
// Import and restore
// ---------------------------------------------------------------------------

impl App {
    /// Imports a collection export: the collection gets fresh ids, is
    /// appended and becomes active with its first tab.  A backup is the wrong
    /// kind of file: `false`, and nothing changes.
    pub fn apply_import(&mut self, payload: ExportPayload) -> (imported: bool)
        ensures
            match payload {
                ExportPayload::Collection { collection, .. } => {
                    let c = final(self)@.vault.collections.last();
                    &&& imported
                    &&& collection@.same_but_ids(c)
                    &&& c.all_ids_v4()
                    &&& final(self)@ == (AppModel {
                        vault: VaultModel { collections: old(self)@.vault.collections.push(c) },
                        active_collection: Some(c.id),
                        active_tab: first_tab_id(c),
                        dirty_frames: 1,
                        toast: Some("Collection imported"@),
                        ..old(self)@
                    })
                },
                ExportPayload::Backup { .. } => !imported && final(self)@ == old(self)@,
            },
    {
        match payload {
            ExportPayload::Collection { collection, .. } => {
                let mut c = collection;
                rekey_collection(&mut c);
                let ghost cm = c@;
                self.active_collection_id = Some(c.id);
                self.active_tab_id = if c.tabs.len() > 0 {
                    Some(c.tabs[0].id)
                } else {
                    None
                };
                proof {
                    if c.tabs@.len() > 0 {
                        assert(cm.tabs[0] == c.tabs@[0]@);
                    }
                }
                let ghost before = collections_model(self.vault.collections@);
                self.vault.collections.push(c);
                assert(collections_model(self.vault.collections@) =~= before.push(cm));
                self.dirty_frames = 1;
                self.toast = Some(String::from_str("Collection imported"));
                true
            },
            ExportPayload::Backup { .. } => false,
        }
    }

    /// Reads a backup for restoring: its vault waits for confirmation and the
    /// question to ask is returned.  A collection export is the wrong kind of
    /// file: `None`, and nothing changes.
    pub fn confirm_restore(&mut self, payload: ExportPayload) -> (r: Option<Confirm>)
        ensures
            match payload {
                ExportPayload::Backup { vault, .. } => r matches Some(c) && c.title@
                    == "Replace all data?"@ && c.message@
                    == "Restoring will REPLACE all current data with the backup contents ("@
                    + decimal(vault@.collections.len())
                    + " collection(s)). This cannot be undone. Continue?"@ && c.action
                    == ConfirmAction::Restore && final(self)@ == (AppModel {
                    pending: Some(vault@),
                    ..old(self)@
                }),
                ExportPayload::Collection { .. } => r is None && final(self)@ == old(self)@,
            },
    {
        match payload {
            ExportPayload::Backup { vault, .. } => {
                let n = vault.collections.len();
                let mut message = numbered(
                    "Restoring will REPLACE all current data with the backup contents (",
                    n as u128,
                );
                message.append(" collection(s)). This cannot be undone. Continue?");
                self.pending_restore = Some(vault);
                Some(
                    Confirm {
                        title: String::from_str("Replace all data?"),
                        message,
                        action: ConfirmAction::Restore,
                    },
                )
            },
            ExportPayload::Collection { .. } => None,
        }
    }
}

/// Whatever was confirmed can be undone: every confirmed action records a
/// snapshot of the vault first, and undo brings that vault back, a restored
/// backup included.
pub proof fn law_confirmed_actions_can_be_undone(m: AppModel, action: ConfirmAction)
    ensures
        confirmed_step(m, action).undo_step().vault == m.vault,
{
    let after = confirmed_step(m, action);
    assert(after.undo == m.snapshot().undo);
    law_undo_restores_snapshot(m, after);
}

// ---------------------------------------------------------------------------
// Password dialog
// ---------------------------------------------------------------------------

/// Whether the password dialog may be confirmed: when it asks for the
/// password twice (`confirming`), only while both entries are the same.
pub fn password_entry_accepted(confirming: bool, buf: &str, confirm: &str) -> (r: bool)
    ensures
        r == !(confirming && buf@ != confirm@),
{
    if !confirming {
        return true;
    }
    let a = chars_of(buf);
    let b = chars_of(confirm);
    if a.len() != b.len() {
        return false;
    }
    let mut i: usize = 0;
    while i < a.len()
        invariant
            0 <= i <= a@.len(),
            confirming,
            a@ == buf@,
            b@ == confirm@,
            a@.len() == b@.len(),
            forall|j: int| 0 <= j < i ==> a@[j] == b@[j],
        decreases a.len() - i,
    {
        if a[i] != b[i] {
            assert(buf@[i as int] != confirm@[i as int]);
            return false;
        }
        i = i + 1;
    }
    assert(buf@ =~= confirm@);
    true
}

// ---------------------------------------------------------------------------
// Laws of deleting, of finding a dragged record, and of editing an item
// ---------------------------------------------------------------------------

/// Filtering keeps everything the predicate accepts.
proof fn lemma_filter_all<A>(s: Seq<A>, pred: spec_fn(A) -> bool)
    requires
        forall|j: int| 0 <= j < s.len() ==> #[trigger] pred(s[j]),
    ensures
        s.filter(pred) == s,
    decreases s.len(),
{
    reveal(Seq::filter);
    if s.len() > 0 {
        let d = s.drop_last();
        assert forall|j: int| 0 <= j < d.len() implies #[trigger] pred(d[j]) by {
            assert(d[j] == s[j]);
        }
        lemma_filter_all(d, pred);
        assert(pred(s[s.len() - 1]));
        assert(d.push(s.last()) =~= s);
    }
}

/// What filtering keeps: only what the predicate accepts, all of it, and in
/// order; when it refuses exactly one element, the rest.
proof fn lemma_filter_keeps<A>(s: Seq<A>, pred: spec_fn(A) -> bool)
    ensures
        forall|k: int|
            0 <= k < s.filter(pred).len() ==> pred(#[trigger] s.filter(pred)[k]) && s.contains(
                s.filter(pred)[k],
            ),
        forall|j: int| 0 <= j < s.len() && pred(s[j]) ==> s.filter(pred).contains(#[trigger] s[j]),
        (forall|j: int| 0 <= j < s.len() ==> #[trigger] pred(s[j])) ==> s.filter(pred) == s,
        forall|p: int|
            0 <= p < s.len() && !pred(#[trigger] s[p]) && (forall|q: int|
                0 <= q < s.len() && q != p ==> pred(s[q])) ==> s.filter(pred) == s.remove(p),
{
    let r = s.filter(pred);
    assert forall|k: int| 0 <= k < r.len() implies pred(#[trigger] r[k]) && s.contains(r[k]) by {
        s.lemma_filter_pred(pred, k);
        assert(r.contains(r[k]));
        s.lemma_filter_contains_rev(pred, r[k]);
    }
    assert forall|j: int| 0 <= j < s.len() && pred(s[j]) implies r.contains(#[trigger] s[j]) by {
        s.lemma_filter_contains(pred, j);
    }
    if forall|j: int| 0 <= j < s.len() ==> #[trigger] pred(s[j]) {
        lemma_filter_all(s, pred);
    }
    assert forall|p: int|
        0 <= p < s.len() && !pred(#[trigger] s[p]) && (forall|q: int|
            0 <= q < s.len() && q != p ==> pred(s[q])) implies r == s.remove(p) by {
        let a = s.take(p);
        let b = s.skip(p + 1);
        let one = seq![s[p]];
        assert(s =~= a + one + b);
        Seq::filter_distributes_over_add(a + one, b, pred);
        Seq::filter_distributes_over_add(a, one, pred);
        assert forall|j: int| 0 <= j < a.len() implies #[trigger] pred(a[j]) by {
            assert(a[j] == s[j]);
        }
        assert forall|j: int| 0 <= j < b.len() implies #[trigger] pred(b[j]) by {
            assert(b[j] == s[p + 1 + j]);
        }
        lemma_filter_all(a, pred);
        lemma_filter_all(b, pred);
        reveal(Seq::filter);
        assert(one.drop_last() =~= Seq::<A>::empty());
        assert(one.drop_last().filter(pred) =~= Seq::<A>::empty());
        assert(one.last() == s[p]);
        assert(one.filter(pred) =~= Seq::<A>::empty());
        assert(s.remove(p) =~= a + b);
        assert(r =~= a + b);
    }
}

/// The first index holding `id` is where `position` finds it.
proof fn lemma_position_first(ids: Seq<u128>, id: u128, i: int)
    requires
        0 <= i < ids.len(),
        ids[i] == id,
        forall|j: int| 0 <= j < i ==> #[trigger] ids[j] != id,
    ensures
        position(ids, id) == Some(i),
    decreases i,
{
    if i > 0 {
        let d = ids.drop_first();
        assert(ids[0] != id);
        assert forall|j: int| 0 <= j < i - 1 implies #[trigger] d[j] != id by {
            assert(d[j] == ids[j + 1]);
        }
        lemma_position_first(d, id, i - 1);
    }
}

/// Deleting item `iid` of a group takes out of that group the items with
/// that id and nothing else: every item left has another id and was there
/// before, every item with another id stays, in order (when exactly one item
/// has the id, the group loses just that one; when none has it, nothing
/// changes), and the rest of the vault is as it was.
pub proof fn law_delete_item_removes_only_that_item(
    m: AppModel,
    cid: u128,
    tid: u128,
    gid: u128,
    iid: u128,
    ci: int,
    ti: int,
    gi: int,
)
    requires
        group_index(m.vault, cid, tid, gid) == Some((ci, ti, gi)),
    ensures
        ({
            let before = group_at(m.vault, ci, ti, gi);
            let kept = group_at(delete_item_step(m, cid, tid, gid, iid).vault, ci, ti, gi).items;
            &&& delete_item_step(m, cid, tid, gid, iid).vault == set_group(
                m.vault,
                ci,
                ti,
                gi,
                GroupModel { items: kept, ..before },
            )
            &&& forall|k: int|
                0 <= k < kept.len() ==> (#[trigger] kept[k]).id() != iid && before.items.contains(
                    kept[k],
                )
            &&& forall|j: int|
                0 <= j < before.items.len() && (#[trigger] before.items[j]).id() != iid
                    ==> kept.contains(before.items[j])
            &&& (forall|j: int|
                0 <= j < before.items.len() ==> (#[trigger] before.items[j]).id() != iid) ==> kept
                == before.items
            &&& forall|p: int|
                0 <= p < before.items.len() && (#[trigger] before.items[p]).id() == iid && (forall|
                    q: int,
                |
                    0 <= q < before.items.len() && q != p ==> before.items[q].id() != iid) ==> kept
                    == before.items.remove(p)
        }),
{
    let v = m.vault;
    lemma_position_bounds(collection_ids(v.collections), cid);
    lemma_position_bounds(tab_ids(v.collections[ci].tabs), tid);
    lemma_position_bounds(group_ids(tab_at(v, ci, ti).groups), gid);
    let before = group_at(v, ci, ti, gi);
    let f = before.items.filter(keep_item(iid));
    assert(group_at(delete_item_step(m, cid, tid, gid, iid).vault, ci, ti, gi).items == f);
    lemma_filter_keeps(before.items, keep_item(iid));
}

/// Deleting group `gid` of a tab takes out of that tab the groups with that
/// id and nothing else, keeping the others in order.
pub proof fn law_delete_group_removes_only_that_group(
    m: AppModel,
    cid: u128,
    tid: u128,
    gid: u128,
    ci: int,
    ti: int,
)
    requires
        tab_index(m.vault, cid, tid) == Some((ci, ti)),
    ensures
        ({
            let before = tab_at(m.vault, ci, ti);
            let kept = tab_at(delete_group_step(m, cid, tid, gid).vault, ci, ti).groups;
            &&& delete_group_step(m, cid, tid, gid).vault == set_tab(
                m.vault,
                ci,
                ti,
                TabModel { groups: kept, ..before },
            )
            &&& forall|k: int|
                0 <= k < kept.len() ==> (#[trigger] kept[k]).id != gid && before.groups.contains(
                    kept[k],
                )
            &&& forall|j: int|
                0 <= j < before.groups.len() && (#[trigger] before.groups[j]).id != gid
                    ==> kept.contains(before.groups[j])
            &&& (forall|j: int|
                0 <= j < before.groups.len() ==> (#[trigger] before.groups[j]).id != gid) ==> kept
                == before.groups
            &&& forall|p: int|
                0 <= p < before.groups.len() && (#[trigger] before.groups[p]).id == gid && (forall|
                    q: int,
                |
                    0 <= q < before.groups.len() && q != p ==> before.groups[q].id != gid) ==> kept
                    == before.groups.remove(p)
        }),
{
    let v = m.vault;
    lemma_position_bounds(collection_ids(v.collections), cid);
    lemma_position_bounds(tab_ids(v.collections[ci].tabs), tid);
    let before = tab_at(v, ci, ti);
    let f = before.groups.filter(keep_group(gid));
    assert(tab_at(delete_group_step(m, cid, tid, gid).vault, ci, ti).groups == f);
    lemma_filter_keeps(before.groups, keep_group(gid));
}

/// Deleting tab `tid` of a collection takes out of that collection the tabs
/// with that id and nothing else, keeping the others in order.
pub proof fn law_delete_tab_removes_only_that_tab(m: AppModel, cid: u128, tid: u128, ci: int)
    requires
        collection_index(m.vault, cid) == Some(ci),
    ensures
        ({
            let before = m.vault.collections[ci];
            let kept = delete_tab_step(m, cid, tid).vault.collections[ci].tabs;
            &&& delete_tab_step(m, cid, tid).vault == set_collection(
                m.vault,
                ci,
                CollectionModel { tabs: kept, ..before },
            )
            &&& forall|k: int|
                0 <= k < kept.len() ==> (#[trigger] kept[k]).id != tid && before.tabs.contains(
                    kept[k],
                )
            &&& forall|j: int|
                0 <= j < before.tabs.len() && (#[trigger] before.tabs[j]).id != tid
                    ==> kept.contains(before.tabs[j])
            &&& (forall|j: int|
                0 <= j < before.tabs.len() ==> (#[trigger] before.tabs[j]).id != tid) ==> kept
                == before.tabs
            &&& forall|p: int|
                0 <= p < before.tabs.len() && (#[trigger] before.tabs[p]).id == tid && (forall|
                    q: int,
                |
                    0 <= q < before.tabs.len() && q != p ==> before.tabs[q].id != tid) ==> kept
                    == before.tabs.remove(p)
        }),
{
    let v = m.vault;
    lemma_position_bounds(collection_ids(v.collections), cid);
    let before = v.collections[ci];
    assert(delete_tab_step(m, cid, tid).vault.collections[ci].tabs == before.tabs.filter(
        keep_tab(tid),
    ));
    lemma_filter_keeps(before.tabs, keep_tab(tid));
}

/// Deleting collection `id` takes out of the vault the collections with that
/// id and nothing else, keeping the others in order.
pub proof fn law_delete_collection_removes_only_that_collection(m: AppModel, id: u128)
    ensures
        ({
            let before = m.vault.collections;
            let kept = delete_collection_step(m, id).vault.collections;
            &&& forall|k: int|
                0 <= k < kept.len() ==> (#[trigger] kept[k]).id != id && before.contains(kept[k])
            &&& forall|j: int|
                0 <= j < before.len() && (#[trigger] before[j]).id != id ==> kept.contains(
                    before[j],
                )
            &&& (forall|j: int| 0 <= j < before.len() ==> (#[trigger] before[j]).id != id) ==> kept
                == before
            &&& forall|p: int|
                0 <= p < before.len() && (#[trigger] before[p]).id == id && (forall|q: int|
                    0 <= q < before.len() && q != p ==> before[q].id != id) ==> kept
                    == before.remove(p)
        }),
{
    lemma_filter_keeps(m.vault.collections, keep_collection(id));
}

/// Dragging a collection finds it among the vault's collections: at the
/// first index holding its id, or nowhere when none has it.
pub proof fn law_collection_drag_resolves(m: AppModel, id: u128, group_id: Option<u128>, ci: int)
    ensures
        (0 <= ci < m.vault.collections.len() && m.vault.collections[ci].id == id && forall|c: int|
            0 <= c < ci ==> (#[trigger] m.vault.collections[c]).id != id) ==> resolve_spec(
            m,
            DragKind::Collection,
            id,
            group_id,
        ) == Some(ci),
        (forall|c: int|
            0 <= c < m.vault.collections.len() ==> (#[trigger] m.vault.collections[c]).id != id)
            ==> resolve_spec(m, DragKind::Collection, id, group_id) is None,
{
    let cids = collection_ids(m.vault.collections);
    if 0 <= ci < m.vault.collections.len() && m.vault.collections[ci].id == id && forall|c: int|
        0 <= c < ci ==> (#[trigger] m.vault.collections[c]).id != id {
        assert forall|c: int| 0 <= c < ci implies #[trigger] cids[c] != id by {
            assert(cids[c] == m.vault.collections[c].id);
        }
        lemma_position_first(cids, id, ci);
    }
    lemma_position_bounds(cids, id);
    if let Some(i) = position(cids, id) {
        assert(cids[i] == m.vault.collections[i].id);
    }
}

/// Dragging a tab looks for it among the tabs of the active collection (the
/// first collection with the active id, at `ci`): the drag resolves to the
/// first index of that collection's tabs holding the dragged id, or to
/// nothing when that collection has no such tab.
pub proof fn law_tab_drag_resolves_in_active_collection(
    m: AppModel,
    id: u128,
    group_id: Option<u128>,
    ci: int,
    ti: int,
)
    requires
        0 <= ci < m.vault.collections.len(),
        m.active_collection == Some(m.vault.collections[ci].id),
        forall|c: int|
            0 <= c < ci ==> (#[trigger] m.vault.collections[c]).id != m.vault.collections[ci].id,
    ensures
        ({
            let tabs = m.vault.collections[ci].tabs;
            &&& (0 <= ti < tabs.len() && tabs[ti].id == id && forall|j: int|
                0 <= j < ti ==> (#[trigger] tabs[j]).id != id) ==> resolve_spec(
                m,
                DragKind::Tab,
                id,
                group_id,
            ) == Some(ti)
            &&& (forall|j: int| 0 <= j < tabs.len() ==> (#[trigger] tabs[j]).id != id)
                ==> resolve_spec(m, DragKind::Tab, id, group_id) is None
        }),
{
    let cs = m.vault.collections;
    let cids = collection_ids(cs);
    assert forall|c: int| 0 <= c < ci implies #[trigger] cids[c] != cs[ci].id by {
        assert(cids[c] == cs[c].id);
    }
    lemma_position_first(cids, cs[ci].id, ci);
    let tabs = cs[ci].tabs;
    let tids = tab_ids(tabs);
    if 0 <= ti < tabs.len() && tabs[ti].id == id && forall|j: int|
        0 <= j < ti ==> (#[trigger] tabs[j]).id != id {
        assert forall|j: int| 0 <= j < ti implies #[trigger] tids[j] != id by {
            assert(tids[j] == tabs[j].id);
        }
        lemma_position_first(tids, id, ti);
    }
    lemma_position_bounds(tids, id);
    if let Some(i) = position(tids, id) {
        assert(tids[i] == tabs[i].id);
    }
}

/// Dragging a group looks for it among the groups of the active tab (the
/// first tab with the active tab's id, at `ti`, in the active collection, at
/// `ci`): the drag resolves to the first index there holding the dragged id,
/// or to nothing when that tab has no such group.
pub proof fn law_group_drag_resolves_in_active_tab(
    m: AppModel,
    id: u128,
    group_id: Option<u128>,
    ci: int,
    ti: int,
    gi: int,
)
    requires
        0 <= ci < m.vault.collections.len(),
        m.active_collection == Some(m.vault.collections[ci].id),
        forall|c: int|
            0 <= c < ci ==> (#[trigger] m.vault.collections[c]).id != m.vault.collections[ci].id,
        0 <= ti < m.vault.collections[ci].tabs.len(),
        m.vault.collections.len() <= usize::MAX,
        m.vault.collections[ci].tabs.len() <= usize::MAX,
        m.active_tab == Some(m.vault.collections[ci].tabs[ti].id),
        forall|j: int|
            0 <= j < ti ==> (#[trigger] m.vault.collections[ci].tabs[j]).id
                != m.vault.collections[ci].tabs[ti].id,
    ensures
        ({
            let groups = m.vault.collections[ci].tabs[ti].groups;
            &&& (0 <= gi < groups.len() && groups[gi].id == id && forall|j: int|
                0 <= j < gi ==> (#[trigger] groups[j]).id != id) ==> resolve_spec(
                m,
                DragKind::Group,
                id,
                group_id,
            ) == Some(gi)
            &&& (forall|j: int| 0 <= j < groups.len() ==> (#[trigger] groups[j]).id != id)
                ==> resolve_spec(m, DragKind::Group, id, group_id) is None
        }),
{
    lemma_active_tab_at(m, ci, ti);
    let groups = m.vault.collections[ci].tabs[ti].groups;
    let gids = group_ids(groups);
    if 0 <= gi < groups.len() && groups[gi].id == id && forall|j: int|
        0 <= j < gi ==> (#[trigger] groups[j]).id != id {
        assert forall|j: int| 0 <= j < gi implies #[trigger] gids[j] != id by {
            assert(gids[j] == groups[j].id);
        }
        lemma_position_first(gids, id, gi);
    }
    lemma_position_bounds(gids, id);
    if let Some(i) = position(gids, id) {
        assert(gids[i] == groups[i].id);
    }
}

/// The active tab's position is (ci, ti) when those are the first indices
/// holding the active ids.
proof fn lemma_active_tab_at(m: AppModel, ci: int, ti: int)
    requires
        0 <= ci < m.vault.collections.len(),
        m.active_collection == Some(m.vault.collections[ci].id),
        forall|c: int|
            0 <= c < ci ==> (#[trigger] m.vault.collections[c]).id != m.vault.collections[ci].id,
        0 <= ti < m.vault.collections[ci].tabs.len(),
        m.vault.collections.len() <= usize::MAX,
        m.vault.collections[ci].tabs.len() <= usize::MAX,
        m.active_tab == Some(m.vault.collections[ci].tabs[ti].id),
        forall|j: int|
            0 <= j < ti ==> (#[trigger] m.vault.collections[ci].tabs[j]).id
                != m.vault.collections[ci].tabs[ti].id,
    ensures
        active_tab_position(m) == Some((ci as usize, ti as usize)),
        ci as usize as int == ci,
        ti as usize as int == ti,
{
    let cs = m.vault.collections;
    let cids = collection_ids(cs);
    assert forall|c: int| 0 <= c < ci implies #[trigger] cids[c] != cs[ci].id by {
        assert(cids[c] == cs[c].id);
    }
    lemma_position_first(cids, cs[ci].id, ci);
    let tabs = cs[ci].tabs;
    let tids = tab_ids(tabs);
    assert forall|j: int| 0 <= j < ti implies #[trigger] tids[j] != tabs[ti].id by {
        assert(tids[j] == tabs[j].id);
    }
    lemma_position_first(tids, tabs[ti].id, ti);
}

/// Dragging an item looks for it among the items of its group (the first
/// group with the given group id, at `gi`) in the active tab: the drag
/// resolves to the first index there holding the dragged id, or to nothing
/// when that group has no such item.
pub proof fn law_item_drag_resolves_in_its_group(
    m: AppModel,
    id: u128,
    ci: int,
    ti: int,
    gi: int,
    ii: int,
)
    requires
        0 <= ci < m.vault.collections.len(),
        m.active_collection == Some(m.vault.collections[ci].id),
        forall|c: int|
            0 <= c < ci ==> (#[trigger] m.vault.collections[c]).id != m.vault.collections[ci].id,
        0 <= ti < m.vault.collections[ci].tabs.len(),
        m.vault.collections.len() <= usize::MAX,
        m.vault.collections[ci].tabs.len() <= usize::MAX,
        m.active_tab == Some(m.vault.collections[ci].tabs[ti].id),
        forall|j: int|
            0 <= j < ti ==> (#[trigger] m.vault.collections[ci].tabs[j]).id
                != m.vault.collections[ci].tabs[ti].id,
        0 <= gi < m.vault.collections[ci].tabs[ti].groups.len(),
        forall|j: int|
            0 <= j < gi ==> (#[trigger] m.vault.collections[ci].tabs[ti].groups[j]).id
                != m.vault.collections[ci].tabs[ti].groups[gi].id,
    ensures
        ({
            let g = m.vault.collections[ci].tabs[ti].groups[gi];
            &&& (0 <= ii < g.items.len() && g.items[ii].id() == id && forall|j: int|
                0 <= j < ii ==> (#[trigger] g.items[j]).id() != id) ==> resolve_spec(
                m,
                DragKind::Item,
                id,
                Some(g.id),
            ) == Some(ii)
            &&& (forall|j: int| 0 <= j < g.items.len() ==> (#[trigger] g.items[j]).id() != id)
                ==> resolve_spec(m, DragKind::Item, id, Some(g.id)) is None
        }),
{
    lemma_active_tab_at(m, ci, ti);
    let groups = m.vault.collections[ci].tabs[ti].groups;
    let g = groups[gi];
    let gids = group_ids(groups);
    assert forall|j: int| 0 <= j < gi implies #[trigger] gids[j] != g.id by {
        assert(gids[j] == groups[j].id);
    }
    lemma_position_first(gids, g.id, gi);
    let iids = item_ids(g.items);
    if 0 <= ii < g.items.len() && g.items[ii].id() == id && forall|j: int|
        0 <= j < ii ==> (#[trigger] g.items[j]).id() != id {
        assert forall|j: int| 0 <= j < ii implies #[trigger] iids[j] != id by {
            assert(iids[j] == g.items[j].id());
        }
        lemma_position_first(iids, id, ii);
    }
    lemma_position_bounds(iids, id);
    if let Some(i) = position(iids, id) {
        assert(iids[i] == g.items[i].id());
    }
}

/// What the editor of a text item changes: its value, and its "Hide" box.  Typing writes the text into
/// that field and ticking a box sets that flag, every other field kept; a
/// field or box the kind does not have leaves the item as it is.
pub proof fn law_edit_text_item(id: u128, label: Seq<char>, value: Seq<char>, editing: bool, hidden: bool, s: Seq<char>, on: bool)
    ensures
        ({
            let it = (ItemModel::Text { id, label, value, editing, hidden });
            &&& with_text(it, TextField::Value, s) == (ItemModel::Text { id, label, value: s, editing, hidden })
            &&& with_text(it, TextField::Key, s) == it
            &&& with_text(it, TextField::Template, s) == it
            &&& with_text(it, TextField::Body, s) == it
            &&& with_flag(it, FlagField::Hidden, on) == (ItemModel::Text { id, label, value, editing, hidden: on })
            &&& with_flag(it, FlagField::HideKey, on) == it
            &&& with_flag(it, FlagField::HideValue, on) == it
        }),
{
}

/// What the editor of a key/value item changes: its key and its value, and its "Hide key" and "Hide value" boxes.  Typing writes the text into
/// that field and ticking a box sets that flag, every other field kept; a
/// field or box the kind does not have leaves the item as it is.
pub proof fn law_edit_key_value_item(id: u128, label: Seq<char>, key_label: Seq<char>, value_label: Seq<char>, key: Seq<char>, value: Seq<char>, editing: bool, hide_key: bool, hide_value: bool, s: Seq<char>, on: bool)
    ensures
        ({
            let it = (ItemModel::KeyValue { id, label, key_label, value_label, key, value, editing, hide_key, hide_value });
            &&& with_text(it, TextField::Value, s) == (ItemModel::KeyValue { id, label, key_label, value_label, key, value: s, editing, hide_key, hide_value })
            &&& with_text(it, TextField::Key, s) == (ItemModel::KeyValue { id, label, key_label, value_label, key: s, value, editing, hide_key, hide_value })
            &&& with_text(it, TextField::Template, s) == it
            &&& with_text(it, TextField::Body, s) == it
            &&& with_flag(it, FlagField::Hidden, on) == it
            &&& with_flag(it, FlagField::HideKey, on) == (ItemModel::KeyValue { id, label, key_label, value_label, key, value, editing, hide_key: on, hide_value })
            &&& with_flag(it, FlagField::HideValue, on) == (ItemModel::KeyValue { id, label, key_label, value_label, key, value, editing, hide_key, hide_value: on })
        }),
{
}

/// What the editor of a template item changes: its template, and its "Hide" box.  Typing writes the text into
/// that field and ticking a box sets that flag, every other field kept; a
/// field or box the kind does not have leaves the item as it is.
pub proof fn law_edit_template_item(id: u128, label: Seq<char>, template: Seq<char>, params: Seq<ParamModel>, editing: bool, hidden: bool, s: Seq<char>, on: bool)
    ensures
        ({
            let it = (ItemModel::ReplaceText { id, label, template, params, editing, hidden });
            &&& with_text(it, TextField::Value, s) == it
            &&& with_text(it, TextField::Key, s) == it
            &&& with_text(it, TextField::Template, s) == (ItemModel::ReplaceText { id, label, template: s, params, editing, hidden })
            &&& with_text(it, TextField::Body, s) == it
            &&& with_flag(it, FlagField::Hidden, on) == (ItemModel::ReplaceText { id, label, template, params, editing, hidden: on })
            &&& with_flag(it, FlagField::HideKey, on) == it
            &&& with_flag(it, FlagField::HideValue, on) == it
        }),
{
}

/// What the editor of a note changes: its body; it has no check box.  Typing writes the text into
/// that field and ticking a box sets that flag, every other field kept; a
/// field or box the kind does not have leaves the item as it is.
pub proof fn law_edit_note(id: u128, label: Seq<char>, body: Seq<char>, editing: bool, s: Seq<char>, on: bool)
    ensures
        ({
            let it = (ItemModel::Note { id, label, body, editing });
            &&& with_text(it, TextField::Value, s) == it
            &&& with_text(it, TextField::Key, s) == it
            &&& with_text(it, TextField::Template, s) == it
            &&& with_text(it, TextField::Body, s) == (ItemModel::Note { id, label, body: s, editing })
            &&& with_flag(it, FlagField::Hidden, on) == it
            &&& with_flag(it, FlagField::HideKey, on) == it
            &&& with_flag(it, FlagField::HideValue, on) == it
        }),
{
}

} // verus!
