# KeyVault

A desktop vault for texts, key/value pairs, `{{name}}` templates and markdown
notes, organised in collections, tabs and groups, with exports and backups
that can be encrypted with a password (Argon2id + AES-256-GCM).

The library (`src/`) is verified with Verus; `app/` is the window, the files
and the JSON around it.

## Layout

- `src/model.rs` — the data model (vault, collections, tabs, groups, items,
  parameters), its mathematical views, constructors and content predicates.
- `src/text.rs` — Unicode whitespace and trimming, masking of secrets,
  file-name sanitising, decimal numbers.
- `src/template.rs` — the `{{name}}` placeholder language, extracting
  parameter names, formatting, detecting missing parameters.
- `src/crypto.rs` — the encrypted file layout, key derivation, encryption and
  decryption.
- `src/portable.rs` — what an export or backup file holds, what is written for
  it and how it is read back, re-keying imported collections.
- `src/app.rs` — the application state: active selection, undo/redo history,
  save debouncing, and what each user action does to the vault.
- `src/error.rs` — the library's errors.
- `tests/` — tests on concrete values.
- `app/` — `main`, the egui window, loading and saving the vault, export and
  backup files, and the serde shapes of the JSON documents.

## Contracts and laws

Every public function states what it returns or changes over the views in
`model.rs` and the state model `AppModel`.  Laws that relate several calls
are public proof functions named `law_*`: undo restores the last snapshot,
redo and undo revert each other, the history stays bounded, the active
selection always points at something that exists, every confirmed action can
be undone, moves are reversible, formatting without parameters is the
identity, detected parameter names are distinct, non-empty and complete,
detecting parameters is idempotent, masked text shows only its layout,
sanitised file names are safe, and re-keying keeps content.
