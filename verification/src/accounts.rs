use vstd::prelude::*;

use crate::util::{fresh_id, wipe_bytes};

verus! {

/// One credential record. Every field is an opaque UTF-8 byte string;
/// rendering and serialization live outside the library. The identifier
/// is generated once at creation and never changes; the password is the
/// secret the store exists for.
pub struct Account {
    pub id: Vec<u8>,
    pub name: Vec<u8>,
    pub email: Vec<u8>,
    pub username: Vec<u8>,
    pub hints: Vec<u8>,
    pub password: Vec<u8>,
}

/// The mathematical value of a credential record: its fields as byte
/// sequences.
pub struct AccountData {
    pub id: Seq<u8>,
    pub name: Seq<u8>,
    pub email: Seq<u8>,
    pub username: Seq<u8>,
    pub hints: Seq<u8>,
    pub password: Seq<u8>,
}

impl View for Account {
    type V = AccountData;

    open spec fn view(&self) -> AccountData {
        AccountData {
            id: self.id@,
            name: self.name@,
            email: self.email@,
            username: self.username@,
            hints: self.hints@,
            password: self.password@,
        }
    }
}

impl Account {
    /// A new record with the given fields and a fresh random identifier.
    pub fn new(
        name: Vec<u8>,
        email: Vec<u8>,
        username: Vec<u8>,
        hints: Vec<u8>,
        password: Vec<u8>,
    ) -> (r: Account)
        ensures
            r.id@.len() == 36,
            r.name@ == name@,
            r.email@ == email@,
            r.username@ == username@,
            r.hints@ == hints@,
            r.password@ == password@,
    {
        Account { id: fresh_id(), name, email, username, hints, password }
    }

    /// Overwrite every field, the password above all, before the record
    /// is let go.
    pub fn scrub(&mut self)
        ensures
            final(self).id@.len() == 0,
            final(self).name@.len() == 0,
            final(self).email@.len() == 0,
            final(self).username@.len() == 0,
            final(self).hints@.len() == 0,
            final(self).password@.len() == 0,
    {
        wipe_bytes(&mut self.id);
        wipe_bytes(&mut self.name);
        wipe_bytes(&mut self.email);
        wipe_bytes(&mut self.username);
        wipe_bytes(&mut self.hints);
        wipe_bytes(&mut self.password);
    }
}

/// Scrub every record, then drop the list's contents.
pub fn scrub_accounts(v: &mut Vec<Account>)
    ensures
        final(v)@.len() == 0,
{
    while v.len() > 0
        decreases v@.len(),
    {
        let mut a = match v.pop() {
            Some(a) => a,
            None => {
                return ;
            },
        };
        a.scrub();
    }
}

} // verus!
