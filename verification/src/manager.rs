use vstd::prelude::*;

use crate::accounts::{scrub_accounts, Account};
use crate::collections::Collection;
use crate::util::{copy_bytes, mask_bytes, wipe_bytes};

verus! {

/// One menu entry the session can offer; the caller renders and picks.
#[derive(Clone, Copy, Debug, PartialEq, Eq, Structural)]
pub enum Action {
    CollectionSelection(usize),
    AccountSelection(usize),
    LoadAccounts,
    NewCollection,
    NewAccount,
    EditCollection,
    EditAccount,
    DeleteCollection,
    DeleteAccount,
    GoBackToCollections,
    GoBackToAccounts,
    TogglePasswordView,
    CopyToClipboard,
    Exit,
}

/// A deferred write of one collection's credential file: the records to
/// serialize and encrypt, the passphrase and salt to encrypt under, and
/// which registry entry's file to overwrite. Handed out by the session
/// at a flush point; the holder must wipe the secrets once written.
pub struct StoreFlush {
    pub coll_index: usize,
    pub accounts: Vec<Account>,
    pub password: Vec<u8>,
    pub salt: Vec<u8>,
}

/// What is left to persist when the session ends: the registry entries,
/// whether they have unsaved changes, and the open store's deferred
/// write if it has any.
pub struct ExitFlush {
    pub registry_dirty: bool,
    pub collections: Vec<Collection>,
    pub store: Option<StoreFlush>,
}

/// The navigation state machine over the registry and the currently
/// open credential store. Mutations only set dirty flags; writes are
/// batched at the transitions that leave a level, and every secret is
/// wiped when the state that held it is left.
pub struct Manager {
    pub collections: Vec<Collection>,
    pub accounts: Option<Vec<Account>>,
    pub selected_coll_index: Option<usize>,
    pub selected_acc_index: Option<usize>,
    pub password: Vec<u8>,
    pub salt: Vec<u8>,
    pub update_collections: bool,
    pub update_accounts: bool,
    pub show_password: bool,
}

impl Manager {
    /// The state machine's invariant: selections are in range, the
    /// cached salt is the selected collection's, an open store exists
    /// only under a selected collection, secrets are gone when nothing
    /// is selected, and a dirty store flag implies an open store.
    pub open spec fn wf(&self) -> bool {
        &&& forall|i: int|
            0 <= i < self.collections@.len() ==> (#[trigger] self.collections@[i]).wf()
        &&& self.password@.len() <= 0xFFFF_FFFF
        &&& match self.selected_coll_index {
            Some(i) => i < self.collections@.len() && self.salt@ == self.collections@[
                i as int
            ].salt@,
            None => {
                &&& self.accounts is None
                &&& self.selected_acc_index is None
                &&& self.salt@.len() == 0
                &&& self.password@.len() == 0
            },
        }
        &&& match self.selected_acc_index {
            Some(j) => self.accounts matches Some(v) && j < v@.len(),
            None => true,
        }
        &&& self.accounts is None ==> !self.update_accounts
    }

    /// A fresh session: nothing loaded, nothing selected, nothing dirty.
    pub fn new() -> (r: Manager)
        ensures
            r.wf(),
            r.collections@.len() == 0,
            r.accounts is None,
            r.selected_coll_index is None,
            r.selected_acc_index is None,
            r.password@.len() == 0,
            r.salt@.len() == 0,
            !r.update_collections,
            !r.update_accounts,
            !r.show_password,
    {
        Manager {
            collections: Vec::new(),
            accounts: None,
            selected_coll_index: None,
            selected_acc_index: None,
            password: Vec::new(),
            salt: Vec::new(),
            update_collections: false,
            update_accounts: false,
            show_password: false,
        }
    }

    /// Install the registry entries read from the registry file.
    pub fn load_collections(&mut self, collections: Vec<Collection>)
        requires
            old(self).wf(),
            old(self).selected_coll_index is None,
            forall|i: int| 0 <= i < collections@.len() ==> (#[trigger] collections@[i]).wf(),
        ensures
            final(self).wf(),
            final(self).collections@ == collections@,
            final(self).accounts is None,
            final(self).selected_coll_index is None,
            final(self).selected_acc_index is None,
            final(self).password@ == old(self).password@,
            final(self).salt@ == old(self).salt@,
            final(self).update_collections == old(self).update_collections,
            final(self).update_accounts == old(self).update_accounts,
            final(self).show_password == old(self).show_password,
    {
        self.collections = collections;
    }

    /// The selected collection's display fields: name and file path.
    pub fn print_collection_info(&self) -> (r: (&Vec<u8>, &Vec<u8>))
        requires
            self.wf(),
            self.selected_coll_index is Some,
        ensures
            r.0@ == self.collections@[self.selected_coll_index->Some_0 as int].name@,
            r.1@ == self.collections@[self.selected_coll_index->Some_0 as int].file_path@,
    {
        let i = self.selected_coll_index.unwrap();
        let c = &self.collections[i];
        (&c.name, &c.file_path)
    }

    /// Enter a collection: remember its index and cache its salt for
    /// key derivation.
    pub fn select_collection(&mut self, index: usize)
        requires
            old(self).wf(),
            old(self).selected_coll_index is None,
            index < old(self).collections@.len(),
        ensures
            final(self).wf(),
            final(self).selected_coll_index == Some(index),
            final(self).salt@ == old(self).collections@[index as int].salt@,
            final(self).collections@ == old(self).collections@,
            final(self).accounts is None,
            final(self).selected_acc_index is None,
            final(self).password@ == old(self).password@,
            final(self).update_collections == old(self).update_collections,
            final(self).update_accounts == old(self).update_accounts,
            final(self).show_password == old(self).show_password,
    {
        self.selected_coll_index = Some(index);
        let s = copy_bytes(&self.collections[index].salt);
        self.salt = s;
    }

    /// Leave the current collection: hand out a deferred write exactly
    /// when the open store has unsaved changes, then discard and wipe
    /// every secret the collection level held.
    pub fn unselect_collection(&mut self) -> (r: Option<StoreFlush>)
        requires
            old(self).wf(),
        ensures
            final(self).wf(),
            r is Some <==> old(self).update_accounts && old(self).accounts is Some,
            r matches Some(f) ==> {
                &&& old(self).selected_coll_index matches Some(i) && f.coll_index == i
                &&& f.coll_index < old(self).collections@.len()
                &&& f.accounts@ == old(self).accounts->Some_0@
                &&& f.password@ == old(self).password@
                &&& f.password@.len() <= 0xFFFF_FFFF
                &&& f.salt@ == old(self).salt@
                &&& f.salt@.len() == 32
            },
            final(self).collections@ == old(self).collections@,
            final(self).accounts is None,
            final(self).selected_coll_index is None,
            final(self).selected_acc_index is None,
            final(self).password@.len() == 0,
            final(self).salt@.len() == 0,
            !final(self).update_accounts,
            !final(self).show_password,
            final(self).update_collections == old(self).update_collections,
    {
        let accs_opt = self.accounts.take();
        let mut r: Option<StoreFlush> = None;
        match accs_opt {
            Some(mut accs) => {
                if self.update_accounts {
                    let i = self.selected_coll_index.unwrap();
                    let mut password: Vec<u8> = Vec::new();
                    core::mem::swap(&mut password, &mut self.password);
                    let mut salt: Vec<u8> = Vec::new();
                    core::mem::swap(&mut salt, &mut self.salt);
                    r = Some(StoreFlush { coll_index: i, accounts: accs, password, salt });
                } else {
                    scrub_accounts(&mut accs);
                    wipe_bytes(&mut self.password);
                    wipe_bytes(&mut self.salt);
                }
            },
            None => {
                wipe_bytes(&mut self.password);
                wipe_bytes(&mut self.salt);
            },
        }
        self.selected_acc_index = None;
        self.selected_coll_index = None;
        self.show_password = false;
        self.update_accounts = false;
        r
    }

    /// End the session: report whether the registry has unsaved changes,
    /// hand the registry entries back for that write, hand out the open
    /// store's deferred write if it is dirty, and wipe all secrets.
    pub fn save_and_exit(&mut self) -> (r: ExitFlush)
        requires
            old(self).wf(),
        ensures
            final(self).wf(),
            r.registry_dirty == old(self).update_collections,
            r.collections@ == old(self).collections@,
            r.store is Some <==> old(self).update_accounts && old(self).accounts is Some,
            r.store matches Some(f) ==> {
                &&& old(self).selected_coll_index matches Some(i) && f.coll_index == i
                &&& f.coll_index < r.collections@.len()
                &&& f.accounts@ == old(self).accounts->Some_0@
                &&& f.password@ == old(self).password@
                &&& f.password@.len() <= 0xFFFF_FFFF
                &&& f.salt@ == old(self).salt@
                &&& f.salt@.len() == 32
            },
            final(self).collections@.len() == 0,
            final(self).accounts is None,
            final(self).selected_coll_index is None,
            final(self).selected_acc_index is None,
            final(self).password@.len() == 0,
            final(self).salt@.len() == 0,
            !final(self).update_collections,
            !final(self).update_accounts,
            !final(self).show_password,
    {
        let store = self.unselect_collection();
        let registry_dirty = self.update_collections;
        let mut collections: Vec<Collection> = Vec::new();
        core::mem::swap(&mut collections, &mut self.collections);
        self.update_collections = false;
        ExitFlush { registry_dirty, collections, store }
    }

    /// Register a new collection; the registry becomes dirty, but the
    /// write is deferred to the next flush point.
    pub fn add_collection(&mut self, c: Collection)
        requires
            old(self).wf(),
            c.wf(),
        ensures
            final(self).wf(),
            final(self).collections@ == old(self).collections@.push(c),
            final(self).update_collections,
            final(self).accounts == old(self).accounts,
            final(self).selected_coll_index == old(self).selected_coll_index,
            final(self).selected_acc_index == old(self).selected_acc_index,
            final(self).password@ == old(self).password@,
            final(self).salt@ == old(self).salt@,
            final(self).update_accounts == old(self).update_accounts,
            final(self).show_password == old(self).show_password,
    {
        self.collections.push(c);
        self.update_collections = true;
    }

    /// Rename the selected collection or move its file path; identifier
    /// and salt never change.
    pub fn edit_collection(&mut self, name: Vec<u8>, file_path: Vec<u8>)
        requires
            old(self).wf(),
            old(self).selected_coll_index is Some,
        ensures
            final(self).wf(),
            final(self).collections@.len() == old(self).collections@.len(),
            ({
                let i = old(self).selected_coll_index->Some_0 as int;
                &&& final(self).collections@[i].name@ == name@
                &&& final(self).collections@[i].file_path@ == file_path@
                &&& final(self).collections@[i].id@ == old(self).collections@[i].id@
                &&& final(self).collections@[i].salt@ == old(self).collections@[i].salt@
                &&& forall|j: int|
                    0 <= j < old(self).collections@.len() && j != i ==> final(self).collections@[j] == old(self).collections@[j]
            }),
            final(self).update_collections,
            final(self).accounts == old(self).accounts,
            final(self).selected_coll_index == old(self).selected_coll_index,
            final(self).selected_acc_index == old(self).selected_acc_index,
            final(self).password@ == old(self).password@,
            final(self).salt@ == old(self).salt@,
            final(self).update_accounts == old(self).update_accounts,
            final(self).show_password == old(self).show_password,
    {
        let i = self.selected_coll_index.unwrap();
        let c = self.collections.remove(i);
        let edited = Collection { id: c.id, name, file_path, salt: c.salt };
        self.collections.insert(i, edited);
        self.update_collections = true;
        proof {
            let gi = old(self).selected_coll_index->Some_0 as int;
            assert(self.collections@ =~= old(self).collections@.update(gi, self.collections@[gi]));
        }
    }

    /// Delete the selected collection if confirmed: its registry entry
    /// goes, its decrypted records are wiped unsaved (the backing file
    /// is being destroyed with them), and the path of the file to
    /// remove is handed back.
    pub fn delete_collection(&mut self, confirmed: bool) -> (r: Option<Vec<u8>>)
        requires
            old(self).wf(),
            old(self).selected_coll_index is Some,
        ensures
            final(self).wf(),
            !confirmed ==> r is None && *final(self) == *old(self),
            confirmed ==> {
                let i = old(self).selected_coll_index->Some_0 as int;
                &&& r matches Some(p) && p@ == old(self).collections@[i].file_path@
                &&& final(self).collections@ == old(self).collections@.remove(i)
                &&& final(self).update_collections
                &&& final(self).accounts is None
                &&& final(self).selected_coll_index is None
                &&& final(self).selected_acc_index is None
                &&& final(self).password@.len() == 0
                &&& final(self).salt@.len() == 0
                &&& !final(self).update_accounts
                &&& !final(self).show_password
            },
    {
        if !confirmed {
            return None;
        }
        let i = self.selected_coll_index.unwrap();
        let c = self.collections.remove(i);
        let accs_opt = self.accounts.take();
        match accs_opt {
            Some(mut accs) => {
                scrub_accounts(&mut accs);
            },
            None => {},
        }
        wipe_bytes(&mut self.password);
        wipe_bytes(&mut self.salt);
        self.selected_acc_index = None;
        self.selected_coll_index = None;
        self.show_password = false;
        self.update_accounts = false;
        self.update_collections = true;
        Some(c.file_path)
    }

    /// Install the decrypted credential list and the passphrase that
    /// opened it, kept for re-encryption at the next flush without
    /// prompting again.
    pub fn load_accounts(&mut self, accounts: Vec<Account>, password: Vec<u8>)
        requires
            old(self).wf(),
            old(self).selected_coll_index is Some,
            old(self).accounts is None,
            password@.len() <= 0xFFFF_FFFF,
        ensures
            final(self).wf(),
            final(self).accounts matches Some(v) && v@ == accounts@,
            final(self).password@ == password@,
            final(self).collections@ == old(self).collections@,
            final(self).selected_coll_index == old(self).selected_coll_index,
            final(self).selected_acc_index is None,
            final(self).salt@ == old(self).salt@,
            final(self).update_collections == old(self).update_collections,
            final(self).update_accounts == old(self).update_accounts,
            final(self).show_password == old(self).show_password,
    {
        wipe_bytes(&mut self.password);
        self.accounts = Some(accounts);
        self.password = password;
    }

    /// The selected record's display fields; the password comes back
    /// as itself only when visibility is toggled on, otherwise as a
    /// mask of the same length.
    pub fn print_account_info(&self) -> (r: (&Vec<u8>, &Vec<u8>, &Vec<u8>, &Vec<u8>, Vec<u8>))
        requires
            self.wf(),
            self.selected_acc_index is Some,
        ensures
            ({
                let a = self.accounts->Some_0@[self.selected_acc_index->Some_0 as int];
                &&& r.0@ == a.name@
                &&& r.1@ == a.email@
                &&& r.2@ == a.username@
                &&& r.3@ == a.hints@
                &&& self.show_password ==> r.4@ == a.password@
                &&& !self.show_password ==> r.4@ == Seq::new(a.password@.len(), |i: int| 42u8)
            }),
    {
        let j = self.selected_acc_index.unwrap();
        let accs = match &self.accounts {
            Some(v) => v,
            None => {
                proof {
                    assert(false);
                }
                unreached()
            },
        };
        let a = &accs[j];
        let shown = if self.show_password {
            copy_bytes(&a.password)
        } else {
            mask_bytes(a.password.len())
        };
        (&a.name, &a.email, &a.username, &a.hints, shown)
    }

    /// Flip whether the selected record's password is displayed.
    pub fn toggle_password_view(&mut self)
        requires
            old(self).wf(),
        ensures
            final(self).wf(),
            final(self).show_password == !old(self).show_password,
            final(self).collections@ == old(self).collections@,
            final(self).accounts == old(self).accounts,
            final(self).selected_coll_index == old(self).selected_coll_index,
            final(self).selected_acc_index == old(self).selected_acc_index,
            final(self).password@ == old(self).password@,
            final(self).salt@ == old(self).salt@,
            final(self).update_collections == old(self).update_collections,
            final(self).update_accounts == old(self).update_accounts,
    {
        self.show_password = !self.show_password;
    }

    /// Select one record of the open store.
    pub fn select_account(&mut self, index: usize)
        requires
            old(self).wf(),
            old(self).accounts matches Some(v) && index < v@.len(),
        ensures
            final(self).wf(),
            final(self).selected_acc_index == Some(index),
            final(self).collections@ == old(self).collections@,
            final(self).accounts == old(self).accounts,
            final(self).selected_coll_index == old(self).selected_coll_index,
            final(self).password@ == old(self).password@,
            final(self).salt@ == old(self).salt@,
            final(self).update_collections == old(self).update_collections,
            final(self).update_accounts == old(self).update_accounts,
            final(self).show_password == old(self).show_password,
    {
        self.selected_acc_index = Some(index);
    }

    /// Step back from a record to the record list and hide the password
    /// again. Deselecting alone flushes nothing: unsaved changes stay
    /// pending, and are written at the next go-back-to-root, collection
    /// deletion, or exit.
    pub fn unselect_account(&mut self)
        requires
            old(self).wf(),
        ensures
            final(self).wf(),
            final(self).selected_acc_index is None,
            !final(self).show_password,
            final(self).collections@ == old(self).collections@,
            final(self).accounts == old(self).accounts,
            final(self).selected_coll_index == old(self).selected_coll_index,
            final(self).password@ == old(self).password@,
            final(self).salt@ == old(self).salt@,
            final(self).update_collections == old(self).update_collections,
            final(self).update_accounts == old(self).update_accounts,
    {
        self.selected_acc_index = None;
        self.show_password = false;
    }

    /// Append a new record to the open store; the store becomes dirty,
    /// the write is deferred.
    pub fn add_account(&mut self, a: Account)
        requires
            old(self).wf(),
            old(self).accounts is Some,
        ensures
            final(self).wf(),
            final(self).accounts matches Some(v) && v@ == old(self).accounts->Some_0@.push(a),
            final(self).update_accounts,
            final(self).collections@ == old(self).collections@,
            final(self).selected_coll_index == old(self).selected_coll_index,
            final(self).selected_acc_index == old(self).selected_acc_index,
            final(self).password@ == old(self).password@,
            final(self).salt@ == old(self).salt@,
            final(self).update_collections == old(self).update_collections,
            final(self).show_password == old(self).show_password,
    {
        let mut v = match self.accounts.take() {
            Some(v) => v,
            None => {
                proof {
                    assert(false);
                }
                unreached()
            },
        };
        v.push(a);
        self.accounts = Some(v);
        self.update_accounts = true;
    }

    /// Replace the selected record's fields; its identifier is kept and
    /// the old field contents are wiped. The store becomes dirty.
    pub fn edit_account(
        &mut self,
        name: Vec<u8>,
        email: Vec<u8>,
        username: Vec<u8>,
        hints: Vec<u8>,
        password: Vec<u8>,
    )
        requires
            old(self).wf(),
            old(self).selected_acc_index is Some,
        ensures
            final(self).wf(),
            final(self).accounts is Some,
            final(self).accounts->Some_0@.len() == old(self).accounts->Some_0@.len(),
            ({
                let j = old(self).selected_acc_index->Some_0 as int;
                &&& final(self).accounts->Some_0@[j].id@ == old(self).accounts->Some_0@[j].id@
                &&& final(self).accounts->Some_0@[j].name@ == name@
                &&& final(self).accounts->Some_0@[j].email@ == email@
                &&& final(self).accounts->Some_0@[j].username@ == username@
                &&& final(self).accounts->Some_0@[j].hints@ == hints@
                &&& final(self).accounts->Some_0@[j].password@ == password@
                &&& forall|k: int|
                    0 <= k < old(self).accounts->Some_0@.len() && k != j ==> final(self).accounts->Some_0@[k] == old(self).accounts->Some_0@[k]
            }),
            final(self).update_accounts,
            final(self).collections@ == old(self).collections@,
            final(self).selected_coll_index == old(self).selected_coll_index,
            final(self).selected_acc_index == old(self).selected_acc_index,
            final(self).password@ == old(self).password@,
            final(self).salt@ == old(self).salt@,
            final(self).update_collections == old(self).update_collections,
            final(self).show_password == old(self).show_password,
    {
        let j = self.selected_acc_index.unwrap();
        let mut v = match self.accounts.take() {
            Some(v) => v,
            None => {
                proof {
                    assert(false);
                }
                unreached()
            },
        };
        let mut old_a = v.remove(j);
        wipe_bytes(&mut old_a.name);
        wipe_bytes(&mut old_a.email);
        wipe_bytes(&mut old_a.username);
        wipe_bytes(&mut old_a.hints);
        wipe_bytes(&mut old_a.password);
        let edited = Account { id: old_a.id, name, email, username, hints, password };
        v.insert(j, edited);
        self.accounts = Some(v);
        self.update_accounts = true;
        proof {
            let gj = old(self).selected_acc_index->Some_0 as int;
            assert(self.accounts->Some_0@ =~= old(self).accounts->Some_0@.update(
                gj,
                self.accounts->Some_0@[gj],
            ));
        }
    }

    /// Delete the selected record if confirmed: it is wiped and removed,
    /// the record is deselected, and the store is only marked dirty —
    /// the write stays deferred to the next go-back-to-root, collection
    /// deletion, or exit.
    pub fn delete_account(&mut self, confirmed: bool)
        requires
            old(self).wf(),
            old(self).selected_acc_index is Some,
        ensures
            final(self).wf(),
            !confirmed ==> *final(self) == *old(self),
            confirmed ==> {
                let j = old(self).selected_acc_index->Some_0 as int;
                &&& final(self).accounts matches Some(v) && v@ == old(self).accounts->Some_0@.remove(j)
                &&& final(self).update_accounts
                &&& final(self).selected_acc_index is None
                &&& !final(self).show_password
                &&& final(self).collections@ == old(self).collections@
                &&& final(self).selected_coll_index == old(self).selected_coll_index
                &&& final(self).password@ == old(self).password@
                &&& final(self).salt@ == old(self).salt@
                &&& final(self).update_collections == old(self).update_collections
            },
    {
        if !confirmed {
            return ;
        }
        let j = self.selected_acc_index.unwrap();
        let mut v = match self.accounts.take() {
            Some(v) => v,
            None => {
                proof {
                    assert(false);
                }
                unreached()
            },
        };
        let mut removed = v.remove(j);
        removed.scrub();
        self.accounts = Some(v);
        self.selected_acc_index = None;
        self.show_password = false;
        self.update_accounts = true;
    }

    /// An owned copy of the selected record's password, for export to
    /// the clipboard.
    pub fn copy_to_clipboard(&self) -> (r: Vec<u8>)
        requires
            self.wf(),
            self.selected_acc_index is Some,
        ensures
            r@ == self.accounts->Some_0@[self.selected_acc_index->Some_0 as int].password@,
    {
        let j = self.selected_acc_index.unwrap();
        let accs = match &self.accounts {
            Some(v) => v,
            None => {
                proof {
                    assert(false);
                }
                unreached()
            },
        };
        copy_bytes(&accs[j].password)
    }

    /// The menu the current state offers, in the order it is shown:
    /// at the root, one entry per collection, then creation; inside a
    /// collection, either the load action (store still closed) or one
    /// entry per record and creation, then the collection actions and
    /// the way back; on a record, the record actions and the way back.
    /// Exit is always last.
    pub fn available_actions(&self) -> (r: Vec<Action>)
        requires
            self.wf(),
        ensures
            self.selected_coll_index is None ==> {
                let n = self.collections@.len() as int;
                &&& r@.len() == n + 2
                &&& forall|i: int|
                    0 <= i < n ==> r@[i] == Action::CollectionSelection(i as usize)
                &&& r@[n] == Action::NewCollection
                &&& r@[n + 1] == Action::Exit
            },
            self.selected_coll_index is Some && self.selected_acc_index is Some ==> r@ == seq![
                Action::TogglePasswordView,
                Action::CopyToClipboard,
                Action::EditAccount,
                Action::DeleteAccount,
                Action::GoBackToAccounts,
                Action::Exit,
            ],
            self.selected_coll_index is Some && self.selected_acc_index is None && self.accounts
                is None ==> r@ == seq![
                Action::LoadAccounts,
                Action::EditCollection,
                Action::DeleteCollection,
                Action::GoBackToCollections,
                Action::Exit,
            ],
            self.selected_coll_index is Some && self.selected_acc_index is None && self.accounts
                is Some ==> {
                let n = self.accounts->Some_0@.len() as int;
                &&& r@.len() == n + 5
                &&& forall|i: int| 0 <= i < n ==> r@[i] == Action::AccountSelection(i as usize)
                &&& r@[n] == Action::NewAccount
                &&& r@[n + 1] == Action::EditCollection
                &&& r@[n + 2] == Action::DeleteCollection
                &&& r@[n + 3] == Action::GoBackToCollections
                &&& r@[n + 4] == Action::Exit
            },
    {
        let mut options: Vec<Action> = Vec::new();
        if self.selected_coll_index.is_some() {
            if self.selected_acc_index.is_some() {
                options.push(Action::TogglePasswordView);
                options.push(Action::CopyToClipboard);
                options.push(Action::EditAccount);
                options.push(Action::DeleteAccount);
                options.push(Action::GoBackToAccounts);
                options.push(Action::Exit);
                proof {
                    assert(options@ =~= seq![
                        Action::TogglePasswordView,
                        Action::CopyToClipboard,
                        Action::EditAccount,
                        Action::DeleteAccount,
                        Action::GoBackToAccounts,
                        Action::Exit,
                    ]);
                }
            } else {
                match &self.accounts {
                    Some(v) => {
                        let n = v.len();
                        let mut i: usize = 0;
                        while i < n
                            invariant
                                i <= n,
                                n == v@.len(),
                                options@.len() == i,
                                forall|k: int|
                                    0 <= k < i ==> options@[k] == Action::AccountSelection(
                                        k as usize,
                                    ),
                            decreases n - i,
                        {
                            options.push(Action::AccountSelection(i));
                            i = i + 1;
                        }
                        options.push(Action::NewAccount);
                    },
                    None => {
                        options.push(Action::LoadAccounts);
                    },
                }
                options.push(Action::EditCollection);
                options.push(Action::DeleteCollection);
                options.push(Action::GoBackToCollections);
                options.push(Action::Exit);
                proof {
                    if self.accounts is None {
                        assert(options@ =~= seq![
                            Action::LoadAccounts,
                            Action::EditCollection,
                            Action::DeleteCollection,
                            Action::GoBackToCollections,
                            Action::Exit,
                        ]);
                    }
                }
            }
        } else {
            let n = self.collections.len();
            let mut i: usize = 0;
            while i < n
                invariant
                    i <= n,
                    n == self.collections@.len(),
                    options@.len() == i,
                    forall|k: int|
                        0 <= k < i ==> options@[k] == Action::CollectionSelection(k as usize),
                decreases n - i,
            {
                options.push(Action::CollectionSelection(i));
                i = i + 1;
            }
            options.push(Action::NewCollection);
            options.push(Action::Exit);
        }
        options
    }

    /// Where a canceled prompt leads: one level back, or out at the
    /// root. Cancellation is navigation, never an error.
    pub fn cancel_action(&self) -> (r: Action)
        ensures
            self.selected_coll_index is None ==> r == Action::Exit,
            self.selected_coll_index is Some && self.selected_acc_index is Some ==> r
                == Action::GoBackToAccounts,
            self.selected_coll_index is Some && self.selected_acc_index is None ==> r
                == Action::GoBackToCollections,
    {
        if self.selected_coll_index.is_none() {
            Action::Exit
        } else if self.selected_acc_index.is_some() {
            Action::GoBackToAccounts
        } else {
            Action::GoBackToCollections
        }
    }
}

} // verus!
