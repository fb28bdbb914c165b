use passbox::accounts::Account;
use passbox::collections::Collection;
use passbox::cryptography::{decrypt, encrypt, CryptoError};
use passbox::manager::{Action, Manager};

fn record_fields(a: &Account) -> Vec<String> {
    vec![
        String::from_utf8(a.id.clone()).unwrap(),
        String::from_utf8(a.name.clone()).unwrap(),
        String::from_utf8(a.email.clone()).unwrap(),
        String::from_utf8(a.username.clone()).unwrap(),
        String::from_utf8(a.hints.clone()).unwrap(),
        String::from_utf8(a.password.clone()).unwrap(),
    ]
}

fn serialize_records(accounts: &[Account]) -> Vec<u8> {
    let rows: Vec<Vec<String>> = accounts.iter().map(record_fields).collect();
    serde_json::to_vec(&rows).unwrap()
}

fn deserialize_records(bytes: &[u8]) -> Vec<Account> {
    let rows: Vec<Vec<String>> = serde_json::from_slice(bytes).unwrap();
    rows.into_iter()
        .map(|r| Account {
            id: r[0].clone().into_bytes(),
            name: r[1].clone().into_bytes(),
            email: r[2].clone().into_bytes(),
            username: r[3].clone().into_bytes(),
            hints: r[4].clone().into_bytes(),
            password: r[5].clone().into_bytes(),
        })
        .collect()
}

#[test]
fn fresh_collection_has_unique_salt_and_id() {
    let c1 = Collection::new(b"one".to_vec(), b"one.enc".to_vec());
    let c2 = Collection::new(b"two".to_vec(), b"two.enc".to_vec());
    assert_eq!(c1.salt.len(), 32);
    assert_eq!(c2.salt.len(), 32);
    assert_ne!(c1.salt, c2.salt);
    assert_eq!(c1.id.len(), 36);
    assert_ne!(c1.id, c2.id);
    assert_eq!(c1.name, b"one".to_vec());
    assert_eq!(c1.file_path, b"one.enc".to_vec());
}

#[test]
fn fresh_account_keeps_fields() {
    let a = Account::new(
        b"Mail".to_vec(),
        b"a@b.com".to_vec(),
        b"a".to_vec(),
        b"".to_vec(),
        b"p1".to_vec(),
    );
    assert_eq!(a.name, b"Mail".to_vec());
    assert_eq!(a.email, b"a@b.com".to_vec());
    assert_eq!(a.username, b"a".to_vec());
    assert_eq!(a.hints, b"".to_vec());
    assert_eq!(a.password, b"p1".to_vec());
    assert_eq!(a.id.len(), 36);
}

#[test]
fn scrubbed_account_holds_nothing() {
    let mut a = Account::new(
        b"Mail".to_vec(),
        b"a@b.com".to_vec(),
        b"a".to_vec(),
        b"hint".to_vec(),
        b"p1".to_vec(),
    );
    a.scrub();
    assert!(a.id.is_empty());
    assert!(a.name.is_empty());
    assert!(a.email.is_empty());
    assert!(a.username.is_empty());
    assert!(a.hints.is_empty());
    assert!(a.password.is_empty());
}

#[test]
fn new_collection_then_exit_persists_registry_only() {
    let mut mgr = Manager::new();
    mgr.load_collections(vec![]);
    mgr.add_collection(Collection::new(b"Work".to_vec(), b"work.enc".to_vec()));
    let exit = mgr.save_and_exit();
    assert!(exit.registry_dirty);
    assert_eq!(exit.collections.len(), 1);
    assert_eq!(exit.collections[0].name, b"Work".to_vec());
    assert!(exit.store.is_none());
}

#[test]
fn clean_exit_persists_nothing() {
    let mut mgr = Manager::new();
    mgr.load_collections(vec![Collection::new(b"Work".to_vec(), b"work.enc".to_vec())]);
    let exit = mgr.save_and_exit();
    assert!(!exit.registry_dirty);
    assert!(exit.store.is_none());
}

#[test]
fn edits_flush_exactly_once_on_going_back() {
    let mut mgr = Manager::new();
    mgr.load_collections(vec![Collection::new(b"Work".to_vec(), b"work.enc".to_vec())]);
    mgr.select_collection(0);
    mgr.load_accounts(
        vec![Account::new(
            b"Mail".to_vec(),
            b"a@b.com".to_vec(),
            b"a".to_vec(),
            b"".to_vec(),
            b"p1".to_vec(),
        )],
        b"correct-horse".to_vec(),
    );
    mgr.select_account(0);
    // Two edits set the dirty flag; nothing is written yet.
    mgr.edit_account(
        b"Mail".to_vec(),
        b"a@b.com".to_vec(),
        b"a".to_vec(),
        b"".to_vec(),
        b"p2".to_vec(),
    );
    mgr.select_account(0);
    mgr.edit_account(
        b"Mail".to_vec(),
        b"a@b.com".to_vec(),
        b"a".to_vec(),
        b"".to_vec(),
        b"p3".to_vec(),
    );
    // Going back to the collection list flushes once.
    let flush = mgr.unselect_collection();
    let task = flush.expect("dirty store must flush");
    assert_eq!(task.accounts.len(), 1);
    assert_eq!(task.accounts[0].password, b"p3".to_vec());
    // The session kept no copy of the secrets it handed out.
    assert!(mgr.password.is_empty());
    assert!(mgr.salt.is_empty());
    assert!(mgr.accounts.is_none());
    // Exiting afterwards has nothing further to write for the store.
    let exit = mgr.save_and_exit();
    assert!(exit.store.is_none());
}

#[test]
fn stepping_back_from_a_record_flushes_nothing() {
    let mut mgr = Manager::new();
    mgr.load_collections(vec![Collection::new(b"Work".to_vec(), b"work.enc".to_vec())]);
    mgr.select_collection(0);
    mgr.load_accounts(vec![], b"pw".to_vec());
    mgr.add_account(Account::new(
        b"Mail".to_vec(),
        b"a@b.com".to_vec(),
        b"a".to_vec(),
        b"".to_vec(),
        b"p1".to_vec(),
    ));
    mgr.select_account(0);
    // Deselecting a record alone triggers no write: the store stays
    // open and dirty, the changes pending.
    mgr.unselect_account();
    assert!(mgr.selected_acc_index.is_none());
    assert!(mgr.update_accounts);
    assert!(mgr.accounts.is_some());
    // The pending write is handed out at the go-back-to-root.
    let task = mgr.unselect_collection().expect("dirty store flushes at go-back");
    assert_eq!(task.coll_index, 0);
    assert_eq!(task.accounts.len(), 1);
    assert_eq!(task.password, b"pw".to_vec());
    assert_eq!(task.salt.len(), 32);
}

#[test]
fn deleting_a_collection_removes_entry_and_names_the_file() {
    let mut mgr = Manager::new();
    mgr.load_collections(vec![
        Collection::new(b"Work".to_vec(), b"work.enc".to_vec()),
        Collection::new(b"Home".to_vec(), b"home.enc".to_vec()),
    ]);
    mgr.select_collection(0);
    let path = mgr.delete_collection(true).expect("path of the file to remove");
    assert_eq!(path, b"work.enc".to_vec());
    assert_eq!(mgr.collections.len(), 1);
    assert_eq!(mgr.collections[0].name, b"Home".to_vec());
    assert!(mgr.selected_coll_index.is_none());
    assert!(mgr.update_collections);
    // A later registry listing no longer holds the deleted collection.
    let exit = mgr.save_and_exit();
    assert!(exit.registry_dirty);
    assert!(exit.collections.iter().all(|c| c.name != b"Work".to_vec()));
}

#[test]
fn unconfirmed_delete_changes_nothing() {
    let mut mgr = Manager::new();
    mgr.load_collections(vec![Collection::new(b"Work".to_vec(), b"work.enc".to_vec())]);
    mgr.select_collection(0);
    assert!(mgr.delete_collection(false).is_none());
    assert_eq!(mgr.collections.len(), 1);
    assert_eq!(mgr.selected_coll_index, Some(0));
    assert!(!mgr.update_collections);
}

#[test]
fn deleting_a_record_defers_the_write() {
    let mut mgr = Manager::new();
    mgr.load_collections(vec![Collection::new(b"Work".to_vec(), b"work.enc".to_vec())]);
    mgr.select_collection(0);
    mgr.load_accounts(
        vec![
            Account::new(b"A".to_vec(), b"".to_vec(), b"".to_vec(), b"".to_vec(), b"pa".to_vec()),
            Account::new(b"B".to_vec(), b"".to_vec(), b"".to_vec(), b"".to_vec(), b"pb".to_vec()),
        ],
        b"pw".to_vec(),
    );
    mgr.select_account(0);
    // Deletion removes the record, deselects it and marks the store
    // dirty; nothing is written yet.
    mgr.delete_account(true);
    assert!(mgr.selected_acc_index.is_none());
    assert!(mgr.update_accounts);
    assert_eq!(mgr.accounts.as_ref().unwrap().len(), 1);
    assert_eq!(mgr.accounts.as_ref().unwrap()[0].name, b"B".to_vec());
    // The shrunk list is flushed once, at exit.
    let exit = mgr.save_and_exit();
    let task = exit.store.expect("dirty store flushes at exit");
    assert_eq!(task.accounts.len(), 1);
    assert_eq!(task.accounts[0].name, b"B".to_vec());
}

#[test]
fn password_is_masked_until_toggled() {
    let mut mgr = Manager::new();
    mgr.load_collections(vec![Collection::new(b"Work".to_vec(), b"work.enc".to_vec())]);
    mgr.select_collection(0);
    mgr.load_accounts(
        vec![Account::new(
            b"Mail".to_vec(),
            b"a@b.com".to_vec(),
            b"a".to_vec(),
            b"hint".to_vec(),
            b"p1p1".to_vec(),
        )],
        b"pw".to_vec(),
    );
    mgr.select_account(0);
    let (name, email, username, hints, shown) = mgr.print_account_info();
    assert_eq!(name, &b"Mail".to_vec());
    assert_eq!(email, &b"a@b.com".to_vec());
    assert_eq!(username, &b"a".to_vec());
    assert_eq!(hints, &b"hint".to_vec());
    assert_eq!(shown, b"****".to_vec());
    mgr.toggle_password_view();
    let (_, _, _, _, shown) = mgr.print_account_info();
    assert_eq!(shown, b"p1p1".to_vec());
    assert_eq!(mgr.copy_to_clipboard(), b"p1p1".to_vec());
}

#[test]
fn menu_follows_the_navigation_state() {
    let mut mgr = Manager::new();
    mgr.load_collections(vec![Collection::new(b"Work".to_vec(), b"work.enc".to_vec())]);
    assert_eq!(
        mgr.available_actions(),
        vec![Action::CollectionSelection(0), Action::NewCollection, Action::Exit]
    );
    assert_eq!(mgr.cancel_action(), Action::Exit);
    mgr.select_collection(0);
    assert_eq!(
        mgr.available_actions(),
        vec![
            Action::LoadAccounts,
            Action::EditCollection,
            Action::DeleteCollection,
            Action::GoBackToCollections,
            Action::Exit
        ]
    );
    assert_eq!(mgr.cancel_action(), Action::GoBackToCollections);
    mgr.load_accounts(
        vec![Account::new(
            b"Mail".to_vec(),
            b"".to_vec(),
            b"".to_vec(),
            b"".to_vec(),
            b"p".to_vec(),
        )],
        b"pw".to_vec(),
    );
    assert_eq!(
        mgr.available_actions(),
        vec![
            Action::AccountSelection(0),
            Action::NewAccount,
            Action::EditCollection,
            Action::DeleteCollection,
            Action::GoBackToCollections,
            Action::Exit
        ]
    );
    mgr.select_account(0);
    assert_eq!(
        mgr.available_actions(),
        vec![
            Action::TogglePasswordView,
            Action::CopyToClipboard,
            Action::EditAccount,
            Action::DeleteAccount,
            Action::GoBackToAccounts,
            Action::Exit
        ]
    );
    assert_eq!(mgr.cancel_action(), Action::GoBackToAccounts);
}

#[test]
fn editing_a_collection_keeps_id_and_salt() {
    let mut mgr = Manager::new();
    let c = Collection::new(b"Work".to_vec(), b"work.enc".to_vec());
    let id = c.id.clone();
    let salt = c.salt.clone();
    mgr.load_collections(vec![c]);
    mgr.select_collection(0);
    mgr.edit_collection(b"Job".to_vec(), b"job.enc".to_vec());
    assert_eq!(mgr.collections[0].name, b"Job".to_vec());
    assert_eq!(mgr.collections[0].file_path, b"job.enc".to_vec());
    assert_eq!(mgr.collections[0].id, id);
    assert_eq!(mgr.collections[0].salt, salt);
    assert!(mgr.update_collections);
}

#[test]
fn end_to_end_create_save_reopen() {
    // A fresh registry path and the passphrase "correct-horse".
    let mut registry: Vec<Collection> = vec![];
    let mut mgr = Manager::new();
    let passphrase = b"correct-horse".to_vec();

    // Create collection "Work"; its encrypted file starts as the sealed
    // empty record list (first use of the store).
    mgr.load_collections(std::mem::take(&mut registry));
    mgr.add_collection(Collection::new(b"Work".to_vec(), b"work.enc".to_vec()));
    mgr.select_collection(0);
    let salt = mgr.collections[0].salt.clone();
    let mut encrypted_file =
        encrypt(&serialize_records(&[]), &passphrase, &salt).expect("first save");
    mgr.load_accounts(vec![], passphrase.clone());

    // Add the credential and go back: the flush rewrites the file.
    mgr.add_account(Account::new(
        b"Mail".to_vec(),
        b"a@b.com".to_vec(),
        b"a".to_vec(),
        b"".to_vec(),
        b"p1".to_vec(),
    ));
    let task = mgr.unselect_collection().expect("flush on going back");
    encrypted_file =
        encrypt(&serialize_records(&task.accounts), &task.password, &task.salt).expect("flush");
    let exit = mgr.save_and_exit();
    assert!(exit.registry_dirty);
    registry = exit.collections;

    // Re-open with the right passphrase: exactly the one record added.
    let mut mgr = Manager::new();
    mgr.load_collections(std::mem::take(&mut registry));
    mgr.select_collection(0);
    let plain = decrypt(&encrypted_file, &passphrase, &salt).expect("right passphrase");
    let records = deserialize_records(&plain);
    assert_eq!(records.len(), 1);
    assert_eq!(records[0].name, b"Mail".to_vec());
    assert_eq!(records[0].email, b"a@b.com".to_vec());
    assert_eq!(records[0].username, b"a".to_vec());
    assert_eq!(records[0].hints, b"".to_vec());
    assert_eq!(records[0].password, b"p1".to_vec());

    // Re-open with a wrong passphrase: rejected, retry is possible, no
    // data comes back.
    let wrong = decrypt(&encrypted_file, &b"wrong".to_vec(), &salt);
    assert_eq!(wrong, Err(CryptoError::Authentication));
    let retry = decrypt(&encrypted_file, &passphrase, &salt).expect("retry succeeds");
    assert_eq!(deserialize_records(&retry).len(), 1);
}
