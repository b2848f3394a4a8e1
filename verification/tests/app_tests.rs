use keyvault::app::{password_entry_accepted, App, FlagField, TextField, ConfirmAction, DragKind, DragState, ItemKind, UNDO_CAP};
use keyvault::model::{Collection, Vault, VaultItem};
use keyvault::portable::ExportPayload;

fn fresh() -> App {
    App::new(Vault::default())
}

#[test]
fn new_app_creates_default_collection() {
    let app = fresh();
    assert_eq!(app.vault.collections.len(), 1);
    assert_eq!(app.vault.collections[0].name, "Default");
    assert_eq!(app.active_collection_id, Some(app.vault.collections[0].id));
    assert_eq!(app.active_tab_id, Some(app.vault.collections[0].tabs[0].id));
    assert!(!app.can_undo() && !app.can_redo() && !app.is_dirty());
}

#[test]
fn new_app_keeps_loaded_vault() {
    let mut v = Vault::default();
    v.collections.push(Collection::new("A".to_string()));
    v.collections.push(Collection::new("B".to_string()));
    let app = App::new(v);
    assert_eq!(app.vault.collections.len(), 2);
    assert_eq!(app.vault.collections[0].name, "A");
}

#[test]
fn add_collection_is_numbered_active_and_undoable() {
    let mut app = fresh();
    app.add_collection();
    assert_eq!(app.vault.collections.len(), 2);
    assert_eq!(app.vault.collections[1].name, "Collection 2");
    assert_eq!(app.active_collection_id, Some(app.vault.collections[1].id));
    assert_eq!(app.active_tab_id, Some(app.vault.collections[1].tabs[0].id));
    assert!(app.is_dirty());
    assert!(app.undo());
    assert_eq!(app.vault.collections.len(), 1);
    assert_eq!(app.active_collection_id, Some(app.vault.collections[0].id));
    assert_eq!(app.take_toast().unwrap(), "Undo");
    assert!(app.redo());
    assert_eq!(app.vault.collections.len(), 2);
    assert_eq!(app.take_toast().unwrap(), "Redo");
    assert!(!app.redo());
}

#[test]
fn tabs_groups_items_are_numbered() {
    let mut app = fresh();
    app.add_tab(0);
    assert_eq!(app.vault.collections[0].tabs[1].name, "Tab 2");
    assert_eq!(app.active_tab_id, Some(app.vault.collections[0].tabs[1].id));
    app.add_group(0, 1);
    app.add_group(0, 1);
    assert_eq!(app.vault.collections[0].tabs[1].groups[1].name, "Group 2");
    app.add_item(0, 1, 0, ItemKind::KeyValue);
    assert!(matches!(app.vault.collections[0].tabs[1].groups[0].items[0], VaultItem::KeyValue { .. }));
    app.add_tab(5);
    assert_eq!(app.vault.collections[0].tabs.len(), 2);
}

#[test]
fn history_keeps_at_most_cap_snapshots() {
    let mut app = fresh();
    for _ in 0..(UNDO_CAP + 5) {
        app.add_group(0, 0);
    }
    let mut undone = 0;
    while app.undo() {
        undone += 1;
    }
    assert_eq!(undone, UNDO_CAP);
    assert_eq!(app.vault.collections[0].tabs[0].groups.len(), 5);
}

#[test]
fn snapshot_clears_redo() {
    let mut app = fresh();
    app.add_group(0, 0);
    assert!(app.undo());
    assert!(app.can_redo());
    app.add_tab(0);
    assert!(!app.can_redo());
}

#[test]
fn empty_item_is_deleted_without_asking() {
    let mut app = fresh();
    app.add_group(0, 0);
    app.add_item(0, 0, 0, ItemKind::Text);
    let c = app.vault.collections[0].id;
    let t = app.vault.collections[0].tabs[0].id;
    let g = app.vault.collections[0].tabs[0].groups[0].id;
    let i = app.vault.collections[0].tabs[0].groups[0].items[0].id();
    assert!(app.request_delete_item(c, t, g, i).is_none());
    assert!(app.vault.collections[0].tabs[0].groups[0].items.is_empty());
    assert!(app.undo());
    assert_eq!(app.vault.collections[0].tabs[0].groups[0].items.len(), 1);
}

#[test]
fn item_with_content_asks_first() {
    let mut app = fresh();
    app.add_group(0, 0);
    app.add_item(0, 0, 0, ItemKind::Text);
    let i = app.vault.collections[0].tabs[0].groups[0].items[0].id();
    app.update_item(
        0,
        0,
        0,
        0,
        VaultItem::Text { id: i, label: "pw".into(), value: "secret".into(), editing: true, hidden: false },
    );
    let c = app.vault.collections[0].id;
    let t = app.vault.collections[0].tabs[0].id;
    let g = app.vault.collections[0].tabs[0].groups[0].id;
    let confirm = app.request_delete_item(c, t, g, i).unwrap();
    assert_eq!(confirm.title, "Delete item?");
    assert_eq!(confirm.message, "\"pw\" still has content stored. Delete it anyway?");
    assert_eq!(confirm.action, ConfirmAction::DeleteItem { collection: c, tab: t, group: g, item: i });
    assert_eq!(app.vault.collections[0].tabs[0].groups[0].items.len(), 1);
    let group_q = app.request_delete_group(c, t, g).unwrap();
    assert_eq!(group_q.message, "Group \"Group 1\" still contains items. Deleting will remove all of its items. Continue?");
    let tab_q = app.request_delete_tab(c, t).unwrap();
    assert_eq!(tab_q.title, "Delete tab?");
    let coll_q = app.request_delete_collection(c).unwrap();
    assert_eq!(
        coll_q.message,
        "Collection \"Default\" still contains data. Deleting will remove all of its tabs, groups, and items. Continue?"
    );
    app.run_confirmed_action(confirm.action);
    assert!(app.vault.collections[0].tabs[0].groups[0].items.is_empty());
}

#[test]
fn deleting_active_collection_activates_first() {
    let mut app = fresh();
    app.add_collection();
    let second = app.vault.collections[1].id;
    assert!(app.request_delete_collection(second).is_none());
    assert_eq!(app.vault.collections.len(), 1);
    assert_eq!(app.active_collection_id, Some(app.vault.collections[0].id));
    let only = app.vault.collections[0].id;
    app.run_confirmed_action(ConfirmAction::DeleteCollection(only));
    assert!(app.vault.collections.is_empty());
    assert_eq!(app.active_collection_id, None);
    assert_eq!(app.active_tab_id, None);
}

#[test]
fn deleting_active_tab_activates_first_tab() {
    let mut app = fresh();
    app.add_tab(0);
    let c = app.vault.collections[0].id;
    let t2 = app.vault.collections[0].tabs[1].id;
    assert!(app.request_delete_tab(c, t2).is_none());
    assert_eq!(app.vault.collections[0].tabs.len(), 1);
    assert_eq!(app.active_tab_id, Some(app.vault.collections[0].tabs[0].id));
}

#[test]
fn drag_and_drop_moves_rows() {
    let mut app = fresh();
    app.add_collection();
    app.add_collection();
    let ids: Vec<u128> = app.vault.collections.iter().map(|c| c.id).collect();
    let drag = DragState { kind: DragKind::Collection, src_id: ids[2], group_id: None };
    assert_eq!(app.drop_on(drag, DragKind::Tab, ids[0], None, 0), None);
    assert_eq!(app.drop_on(drag, DragKind::Collection, ids[2], None, 2), None);
    let (from, to) = app.drop_on(drag, DragKind::Collection, ids[0], None, 0).unwrap();
    assert_eq!((from, to), (2, 0));
    app.move_collection(from, to);
    let after: Vec<u128> = app.vault.collections.iter().map(|c| c.id).collect();
    assert_eq!(after, vec![ids[2], ids[0], ids[1]]);
    assert!(app.undo());
    let back: Vec<u128> = app.vault.collections.iter().map(|c| c.id).collect();
    assert_eq!(back, ids);
}

#[test]
fn item_drag_stays_in_its_group() {
    let mut app = fresh();
    app.add_group(0, 0);
    app.add_item(0, 0, 0, ItemKind::Text);
    app.add_item(0, 0, 0, ItemKind::Note);
    let g = app.vault.collections[0].tabs[0].groups[0].id;
    let a = app.vault.collections[0].tabs[0].groups[0].items[0].id();
    let b = app.vault.collections[0].tabs[0].groups[0].items[1].id();
    let drag = DragState { kind: DragKind::Item, src_id: b, group_id: Some(g) };
    assert_eq!(app.drop_on(drag, DragKind::Item, a, Some(g + 1), 0), None);
    assert_eq!(app.resolve_index(DragKind::Item, b, Some(g)), Some(1));
    let (from, to) = app.drop_on(drag, DragKind::Item, a, Some(g), 0).unwrap();
    app.move_item(0, 0, 0, from, to);
    assert_eq!(app.vault.collections[0].tabs[0].groups[0].items[0].id(), b);
}

#[test]
fn save_waits_for_quiet_frames() {
    let mut app = fresh();
    assert!(!app.maybe_save());
    app.mark_dirty();
    let mut frames = 0;
    while !app.maybe_save() {
        frames += 1;
        assert!(frames < 100);
    }
    assert_eq!(frames, 29);
    assert!(!app.is_dirty());
    app.mark_dirty();
    assert!(app.flush_save());
    assert!(!app.flush_save());
}

#[test]
fn import_adds_rekeyed_collection() {
    let mut app = fresh();
    let c = Collection::new("Shared".to_string());
    let old_id = c.id;
    assert!(app.apply_import(ExportPayload::collection(c)));
    assert_eq!(app.vault.collections.len(), 2);
    assert_eq!(app.vault.collections[1].name, "Shared");
    assert_ne!(app.vault.collections[1].id, old_id);
    assert_eq!(app.active_collection_id, Some(app.vault.collections[1].id));
    assert_eq!(app.take_toast().unwrap(), "Collection imported");
    assert!(!app.apply_import(ExportPayload::backup(Vault::default())));
    assert_eq!(app.vault.collections.len(), 2);
}

#[test]
fn restore_replaces_vault_and_can_be_undone() {
    let mut app = fresh();
    let mut backup = Vault::default();
    backup.collections.push(Collection::new("B1".to_string()));
    backup.collections.push(Collection::new("B2".to_string()));
    assert!(app.confirm_restore(ExportPayload::collection(Collection::new("x".to_string()))).is_none());
    let q = app.confirm_restore(ExportPayload::backup(backup)).unwrap();
    assert_eq!(q.title, "Replace all data?");
    assert_eq!(
        q.message,
        "Restoring will REPLACE all current data with the backup contents (2 collection(s)). This cannot be undone. Continue?"
    );
    assert_eq!(app.vault.collections[0].name, "Default");
    app.run_confirmed_action(q.action);
    assert_eq!(app.vault.collections.len(), 2);
    assert_eq!(app.vault.collections[0].name, "B1");
    assert_eq!(app.active_collection_id, Some(app.vault.collections[0].id));
    assert_eq!(app.take_toast().unwrap(), "Backup restored");
    assert!(app.undo());
    assert_eq!(app.vault.collections[0].name, "Default");
}

#[test]
fn cancelled_restore_is_forgotten() {
    let mut app = fresh();
    let mut backup = Vault::default();
    backup.collections.push(Collection::new("B".to_string()));
    assert!(app.confirm_restore(ExportPayload::backup(backup)).is_some());
    app.cancel_confirm();
    app.apply_restore();
    assert_eq!(app.vault.collections[0].name, "Default");
}

#[test]
fn editing_a_template_detects_params_on_update() {
    let mut app = fresh();
    app.add_group(0, 0);
    app.add_item(0, 0, 0, ItemKind::ReplaceText);
    let id = app.vault.collections[0].tabs[0].groups[0].items[0].id();
    app.update_item(
        0,
        0,
        0,
        0,
        VaultItem::ReplaceText {
            id,
            label: "url".into(),
            template: "http://{{host}}/{{path}}".into(),
            params: Vec::new(),
            editing: true,
            hidden: false,
        },
    );
    app.finish_edit(0, 0, 0, 0);
    match &app.vault.collections[0].tabs[0].groups[0].items[0] {
        VaultItem::ReplaceText { params, editing, .. } => {
            assert!(!editing);
            let names: Vec<&str> = params.iter().map(|p| p.name.as_str()).collect();
            assert_eq!(names, vec!["host", "path"]);
        }
        _ => panic!("wrong kind"),
    }
    app.set_param(0, 0, 0, 0, 0, "host".into(), "example.org".into());
    app.add_param(0, 0, 0, 0);
    app.delete_param(0, 0, 0, 0, 2);
    app.start_edit(0, 0, 0, 0);
    match &app.vault.collections[0].tabs[0].groups[0].items[0] {
        VaultItem::ReplaceText { params, editing, .. } => {
            assert!(*editing);
            assert_eq!(params.len(), 2);
            assert_eq!(params[0].value, "example.org");
        }
        _ => panic!("wrong kind"),
    }
}

#[test]
fn renames_and_colors() {
    let mut app = fresh();
    app.add_group(0, 0);
    app.add_item(0, 0, 0, ItemKind::KeyValue);
    app.rename_collection(0, "Home".into());
    app.rename_tab(0, 0, "Main".into());
    app.rename_group(0, 0, 0, "Servers".into());
    app.set_item_label(0, 0, 0, 0, "db".into());
    app.set_key_label(0, 0, 0, 0, "User".into());
    app.set_value_label(0, 0, 0, 0, "Password".into());
    app.set_group_color(0, 0, 0, [1, 2, 3]);
    let c = &app.vault.collections[0];
    assert_eq!(c.name, "Home");
    assert_eq!(c.tabs[0].name, "Main");
    assert_eq!(c.tabs[0].groups[0].name, "Servers");
    assert_eq!(c.tabs[0].groups[0].color, [1, 2, 3]);
    match &c.tabs[0].groups[0].items[0] {
        VaultItem::KeyValue { label, key_label, value_label, .. } => {
            assert_eq!(label, "db");
            assert_eq!(key_label, "User");
            assert_eq!(value_label, "Password");
        }
        _ => panic!("wrong kind"),
    }
    assert!(app.undo());
    assert_eq!(app.vault.collections[0].tabs[0].groups[0].color, [180, 180, 180]);
}

#[test]
fn selection_and_repair() {
    let mut app = fresh();
    app.add_collection();
    let first = app.vault.collections[0].id;
    app.select_collection(first);
    assert_eq!(app.active_tab_id, Some(app.vault.collections[0].tabs[0].id));
    app.select_tab(12345);
    assert_eq!(app.active_tab_idx(), None);
    app.repair_active_ids();
    assert_eq!(app.active_tab_idx(), Some((0, 0)));
    app.select_collection(99);
    assert_eq!(app.active_tab_id, None);
    app.repair_active_ids();
    assert_eq!(app.active_collection_idx(), Some(0));
    assert_eq!(app.active_tab_idx(), Some((0, 0)));
}

#[test]
fn moving_back_restores_order() {
    let mut app = fresh();
    app.add_group(0, 0);
    for _ in 0..3 {
        app.add_item(0, 0, 0, ItemKind::Note);
    }
    let ids = |a: &App| -> Vec<u128> { a.vault.collections[0].tabs[0].groups[0].items.iter().map(|i| i.id()).collect() };
    let before = ids(&app);
    app.move_item(0, 0, 0, 0, 2);
    assert_eq!(ids(&app), vec![before[1], before[2], before[0]]);
    app.move_item(0, 0, 0, 2, 0);
    assert_eq!(ids(&app), before);
    app.move_item(0, 0, 0, 1, 1);
    app.move_item(0, 0, 0, 0, 7);
    assert_eq!(ids(&app), before);
}

#[test]
fn password_dialog_needs_matching_entries_when_confirming() {
    assert!(password_entry_accepted(false, "a", "b"));
    assert!(password_entry_accepted(true, "secret", "secret"));
    assert!(!password_entry_accepted(true, "secret", "secreT"));
    assert!(!password_entry_accepted(true, "secret", "secre"));
    assert!(password_entry_accepted(true, "", ""));
}

#[test]
fn item_fields_are_set_where_the_kind_has_them() {
    let mut app = fresh();
    app.add_group(0, 0);
    app.add_item(0, 0, 0, ItemKind::KeyValue);
    app.set_item_text(0, 0, 0, 0, TextField::Key, "user".to_string());
    app.set_item_text(0, 0, 0, 0, TextField::Value, "pass".to_string());
    app.set_item_text(0, 0, 0, 0, TextField::Body, "ignored".to_string());
    app.set_item_flag(0, 0, 0, 0, FlagField::HideValue, true);
    app.set_item_flag(0, 0, 0, 0, FlagField::Hidden, true);
    match &app.vault.collections[0].tabs[0].groups[0].items[0] {
        VaultItem::KeyValue { key, value, hide_key, hide_value, .. } => {
            assert_eq!(key, "user");
            assert_eq!(value, "pass");
            assert!(!*hide_key);
            assert!(*hide_value);
        }
        _ => panic!("kind changed"),
    }
    app.add_item(0, 0, 0, ItemKind::Note);
    app.set_item_text(0, 0, 0, 1, TextField::Body, "# notes".to_string());
    match &app.vault.collections[0].tabs[0].groups[0].items[1] {
        VaultItem::Note { body, .. } => assert_eq!(body, "# notes"),
        _ => panic!("kind changed"),
    }
    let before = app.vault.collections.len();
    app.set_item_text(5, 0, 0, 0, TextField::Value, "x".to_string());
    assert_eq!(app.vault.collections.len(), before);
}

#[test]
fn added_records_get_version_4_ids() {
    let v4 = |id: u128| (id >> 76) & 0xf == 4 && (id >> 62) & 0x3 == 2;
    let mut app = fresh();
    assert!(v4(app.vault.collections[0].id));
    app.add_collection();
    let c = app.vault.collections.len() - 1;
    assert!(v4(app.vault.collections[c].id));
    assert!(v4(app.vault.collections[c].tabs[0].id));
    app.add_tab(0);
    assert!(v4(app.vault.collections[0].tabs[1].id));
    app.add_group(0, 0);
    assert!(v4(app.vault.collections[0].tabs[0].groups[0].id));
    app.add_item(0, 0, 0, ItemKind::Text);
    assert!(v4(app.vault.collections[0].tabs[0].groups[0].items[0].id()));
}
