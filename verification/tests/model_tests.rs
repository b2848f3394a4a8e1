use keyvault::model::{Collection, Group, Param, Tab, VaultItem, default_group_color};

#[test]
fn new_collection_has_one_empty_tab() {
    let c = Collection::new("Work".to_string());
    assert_eq!(c.name, "Work");
    assert_eq!(c.tabs.len(), 1);
    assert_eq!(c.tabs[0].name, "Tab 1");
    assert!(c.tabs[0].groups.is_empty());
    assert!(!c.has_content());
}

#[test]
fn fresh_ids_are_version_4() {
    let a = Tab::new("a".to_string());
    let b = Tab::new("b".to_string());
    assert_ne!(a.id, b.id);
    assert_eq!((a.id >> 76) & 0xf, 4);
    assert_eq!((a.id >> 62) & 0x3, 2);
}

#[test]
fn new_group_is_grey() {
    let g = Group::new("G".to_string());
    assert_eq!(g.color, [180, 180, 180]);
    assert_eq!(default_group_color(), [180, 180, 180]);
    assert!(!g.has_content());
}

#[test]
fn new_items_are_empty_and_editing() {
    match VaultItem::new_text() {
        VaultItem::Text { label, value, editing, hidden, .. } => {
            assert_eq!(label, "New text");
            assert!(value.is_empty() && editing && !hidden);
        }
        _ => panic!("wrong kind"),
    }
    match VaultItem::new_kv() {
        VaultItem::KeyValue { label, key_label, value_label, editing, .. } => {
            assert_eq!(label, "New entry");
            assert_eq!(key_label, "Key");
            assert_eq!(value_label, "Value");
            assert!(editing);
        }
        _ => panic!("wrong kind"),
    }
    match VaultItem::new_replace() {
        VaultItem::ReplaceText { label, params, .. } => {
            assert_eq!(label, "New template");
            assert!(params.is_empty());
        }
        _ => panic!("wrong kind"),
    }
    match VaultItem::new_note() {
        VaultItem::Note { label, body, .. } => {
            assert_eq!(label, "New note");
            assert!(body.is_empty());
        }
        _ => panic!("wrong kind"),
    }
    assert!(!VaultItem::new_text().has_content());
}

#[test]
fn has_content_per_kind() {
    let text = VaultItem::Text { id: 1, label: "l".into(), value: "v".into(), editing: false, hidden: false };
    assert!(text.has_content());
    assert_eq!(text.id(), 1);
    let kv = VaultItem::KeyValue {
        id: 2,
        label: "l".into(),
        key_label: "Key".into(),
        value_label: "Value".into(),
        key: String::new(),
        value: "x".into(),
        editing: false,
        hide_key: false,
        hide_value: false,
    };
    assert!(kv.has_content());
    let tmpl = VaultItem::ReplaceText {
        id: 3,
        label: "l".into(),
        template: String::new(),
        params: vec![Param { name: "a".into(), value: String::new() }],
        editing: false,
        hidden: false,
    };
    assert!(!tmpl.has_content());
    let tmpl2 = VaultItem::ReplaceText {
        id: 4,
        label: "l".into(),
        template: String::new(),
        params: vec![Param { name: "a".into(), value: "b".into() }],
        editing: false,
        hidden: false,
    };
    assert!(tmpl2.has_content());
    let note = VaultItem::Note { id: 5, label: "l".into(), body: String::new(), editing: false };
    assert!(!note.has_content());
}

#[test]
fn content_propagates_up() {
    let mut c = Collection::new("C".to_string());
    let mut g = Group::new("G".to_string());
    g.items.push(VaultItem::Note { id: 9, label: "n".into(), body: "# hi".into(), editing: false });
    c.tabs[0].groups.push(g);
    assert!(c.tabs[0].groups[0].has_content());
    assert!(c.tabs[0].has_content());
    assert!(c.has_content());
}

#[test]
fn new_records_get_version_4_ids() {
    let v4 = |id: u128| (id >> 76) & 0xf == 4 && (id >> 62) & 0x3 == 2;
    let c = Collection::new("C".to_string());
    assert!(v4(c.id));
    assert!(v4(c.tabs[0].id));
    assert!(v4(Tab::new("T".to_string()).id));
    assert!(v4(Group::new("G".to_string()).id));
    assert!(v4(VaultItem::new_text().id()));
    assert!(v4(VaultItem::new_kv().id()));
    assert!(v4(VaultItem::new_replace().id()));
    assert!(v4(VaultItem::new_note().id()));
}
