use keyvault::error::{ErrorKind, VaultError};
use keyvault::model::{Collection, Group, Param, Vault, VaultItem};
use keyvault::portable::{export_bytes, export_file_name, import_bytes, rekey_collection, ExportPayload};

#[test]
fn export_without_password_is_plain_json() {
    let json = b"{\"type\":\"kv-collection\"}";
    let out = export_bytes(json, "").ok().unwrap();
    assert_eq!(out, json.to_vec());
    let back = import_bytes(&out, "").ok().unwrap();
    assert_eq!(back, json.to_vec());
}

#[test]
fn export_with_password_round_trips() {
    let json = b"{\"type\":\"kv-backup\",\"version\":1}";
    let out = export_bytes(json, "s3cret").ok().unwrap();
    assert_ne!(out, json.to_vec());
    let back = import_bytes(&out, "s3cret").ok().unwrap();
    assert_eq!(back, json.to_vec());
}

#[test]
fn encrypted_import_needs_password() {
    let out = export_bytes(b"{}", "pw").ok().unwrap();
    match import_bytes(&out, "") {
        Err(e) => {
            assert!(matches!(e, VaultError::PasswordRequired));
            assert_eq!(e.message(), "File is encrypted; password required");
        }
        Ok(_) => panic!("encrypted file opened without password"),
    }
}

#[test]
fn rekey_changes_ids_only() {
    let mut c = Collection::new("Imported".to_string());
    let mut g = Group::new("G".to_string());
    g.items.push(VaultItem::Text { id: 7, label: "t".into(), value: "v".into(), editing: false, hidden: true });
    g.items.push(VaultItem::ReplaceText {
        id: 8,
        label: "r".into(),
        template: "{{a}}".into(),
        params: vec![Param { name: "a".into(), value: "1".into() }],
        editing: false,
        hidden: false,
    });
    c.tabs[0].groups.push(g);
    let (cid, tid, gid) = (c.id, c.tabs[0].id, c.tabs[0].groups[0].id);
    rekey_collection(&mut c);
    assert_ne!(c.id, cid);
    assert_ne!(c.tabs[0].id, tid);
    assert_ne!(c.tabs[0].groups[0].id, gid);
    assert_ne!(c.tabs[0].groups[0].items[0].id(), 7);
    assert_ne!(c.tabs[0].groups[0].items[1].id(), 8);
    assert_eq!(c.name, "Imported");
    assert_eq!(c.tabs[0].groups[0].name, "G");
    match &c.tabs[0].groups[0].items[0] {
        VaultItem::Text { label, value, hidden, .. } => {
            assert_eq!(label, "t");
            assert_eq!(value, "v");
            assert!(*hidden);
        }
        _ => panic!("kind changed"),
    }
    match &c.tabs[0].groups[0].items[1] {
        VaultItem::ReplaceText { template, params, .. } => {
            assert_eq!(template, "{{a}}");
            assert_eq!(params[0].value, "1");
        }
        _ => panic!("kind changed"),
    }
}

#[test]
fn rekeyed_ids_are_version_4_uuids() {
    let mut c = Collection::new("Imported".to_string());
    c.id = 1;
    c.tabs[0].id = 2;
    let mut g = Group::new("G".to_string());
    g.id = 3;
    g.items.push(VaultItem::Text { id: 4, label: "t".into(), value: "v".into(), editing: false, hidden: false });
    c.tabs[0].groups.push(g);
    rekey_collection(&mut c);
    let v4 = |id: u128| (id >> 76) & 0xf == 4 && (id >> 62) & 0x3 == 2;
    assert!(v4(c.id));
    assert!(v4(c.tabs[0].id));
    assert!(v4(c.tabs[0].groups[0].id));
    assert!(v4(c.tabs[0].groups[0].items[0].id()));
}

#[test]
fn export_file_names() {
    assert_eq!(export_file_name("My/Keys"), "My_Keys.kv");
    assert_eq!(export_file_name(""), "collection.kv");
    assert_eq!(export_file_name("  spaced  "), "spaced.kv");
}

#[test]
fn payload_constructors_carry_version_one() {
    match ExportPayload::collection(Collection::new("c".to_string())) {
        ExportPayload::Collection { version, collection } => {
            assert_eq!(version, 1);
            assert_eq!(collection.name, "c");
        }
        _ => panic!("wrong payload"),
    }
    match ExportPayload::backup(Vault::default()) {
        ExportPayload::Backup { version, vault } => {
            assert_eq!(version, 1);
            assert!(vault.collections.is_empty());
        }
        _ => panic!("wrong payload"),
    }
}

#[test]
fn plain_file_with_password_is_not_encrypted() {
    let json = b"{\"type\":\"kv-collection\"}";
    match import_bytes(json, "pw") {
        Err(e) => {
            assert!(matches!(e, VaultError::NotEncrypted));
            assert_eq!(e.kind(), ErrorKind::InvalidData);
            assert_eq!(e.message(), "not a KeyVault encrypted file");
        }
        Ok(_) => panic!("a plain file must not be read with a password"),
    }
}
