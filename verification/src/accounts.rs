//! The accounts table held in memory, behaving as the statements of
//! [`crate::auth`] ask the relational store to: ids given in rising order,
//! usernames unique, a delete by id. It says what those statements mean, and
//! stands in for the store where there is none.

use crate::auth::{credential_views, delete_means, insert_means, login_of};
use crate::auth::{AuthError, CredentialView, Fault, User};
use crate::hashing::accepts;
use vstd::prelude::*;

verus! {

/// The table as a value: its rows in the order they were stored, and the id
/// that the next row gets.
pub struct AccountsView {
    pub rows: Seq<CredentialView>,
    pub next_id: int,
}

impl AccountsView {
    /// Some row has the username.
    pub open spec fn taken(self, username: Seq<char>) -> bool {
        exists|i: int| 0 <= i < self.rows.len() && (#[trigger] self.rows[i]).username == username
    }

    /// Some row has the id.
    pub open spec fn holds(self, id: int) -> bool {
        exists|i: int| 0 <= i < self.rows.len() && (#[trigger] self.rows[i]).id == id
    }

    /// No two rows share a username or an id, and every id is one that was
    /// given out.
    pub open spec fn wf(self) -> bool {
        &&& 1 <= self.next_id <= i32::MAX
        &&& forall|i: int| 0 <= i < self.rows.len() ==> 1 <= (#[trigger] self.rows[i]).id < self.next_id
        &&& forall|i: int, j: int|
            0 <= i < j < self.rows.len() ==> (#[trigger] self.rows[i]).id != (
            #[trigger] self.rows[j]).id
        &&& forall|i: int, j: int|
            0 <= i < j < self.rows.len() ==> (#[trigger] self.rows[i]).username != (
            #[trigger] self.rows[j]).username
    }

    /// The row at `i` is the first with the username.
    pub open spec fn first_named_at(self, i: int, username: Seq<char>) -> bool {
        &&& 0 <= i < self.rows.len()
        &&& self.rows[i].username == username
        &&& forall|j: int| 0 <= j < i ==> (#[trigger] self.rows[j]).username != username
    }

    /// The row at `i` is the first with the id.
    pub open spec fn first_with_id_at(self, i: int, id: int) -> bool {
        &&& 0 <= i < self.rows.len()
        &&& self.rows[i].id == id
        &&& forall|j: int| 0 <= j < i ==> (#[trigger] self.rows[j]).id != id
    }

    /// The account of a username, if there is one.
    pub open spec fn account(self, username: Seq<char>) -> Option<CredentialView> {
        if exists|i: int| self.first_named_at(i, username) {
            Some(self.rows[choose|i: int| self.first_named_at(i, username)])
        } else {
            None
        }
    }

    /// How many rows have the username.
    pub open spec fn count(self, username: Seq<char>) -> nat {
        rows_named(self.rows, username)
    }

    /// The table with one more row, which gets the id `next_id`.
    pub open spec fn with_row(
        self,
        username: Seq<char>,
        password_hash: Seq<char>,
        salt: Seq<char>,
    ) -> AccountsView {
        AccountsView {
            rows: self.rows.push(
                CredentialView { id: self.next_id, username, password_hash, salt },
            ),
            next_id: self.next_id + 1,
        }
    }

    /// The store's answer to an insert under the username.
    pub open spec fn insert_outcome(self, username: Seq<char>) -> Result<(), Fault> {
        if self.taken(username) {
            Err(Fault::UniqueViolation)
        } else if self.next_id >= i32::MAX {
            Err(Fault::Other)
        } else {
            Ok(())
        }
    }

    /// The table after an insert: one row more where the insert went
    /// through, unchanged where it did not.
    pub open spec fn after_insert(
        self,
        username: Seq<char>,
        password_hash: Seq<char>,
        salt: Seq<char>,
    ) -> AccountsView {
        if self.insert_outcome(username) is Ok {
            self.with_row(username, password_hash, salt)
        } else {
            self
        }
    }

    /// The number of rows that a delete by the id removes.
    pub open spec fn affected(self, id: int) -> u64 {
        if self.holds(id) {
            1
        } else {
            0
        }
    }

    /// The table after a delete by the id: without the first row that has it.
    pub open spec fn after_delete(self, id: int) -> AccountsView {
        if exists|i: int| self.first_with_id_at(i, id) {
            AccountsView {
                rows: self.rows.remove(choose|i: int| self.first_with_id_at(i, id)),
                ..self
            }
        } else {
            self
        }
    }
}

/// How many of the rows have the username.
pub open spec fn rows_named(rows: Seq<CredentialView>, username: Seq<char>) -> nat
    decreases rows.len(),
{
    if rows.len() == 0 {
        0
    } else {
        rows_named(rows.drop_last(), username) + if rows.last().username == username {
            1nat
        } else {
            0nat
        }
    }
}

/// The accounts table in memory.
pub struct Accounts {
    rows: Vec<User>,
    next_id: i32,
}

impl View for Accounts {
    type V = AccountsView;

    closed spec fn view(&self) -> AccountsView {
        AccountsView { rows: credential_views(self.rows@), next_id: self.next_id as int }
    }
}

impl Accounts {
    /// The table is well formed.
    pub open spec fn wf(&self) -> bool {
        self@.wf()
    }

    /// An empty table, whose first row will get the id 1.
    pub fn new() -> (table: Self)
        ensures
            table.wf(),
            table@ == (AccountsView { rows: Seq::empty(), next_id: 1 }),
    {
        let table = Accounts { rows: Vec::new(), next_id: 1 };
        assert(table@.rows =~= Seq::empty());
        table
    }

    /// Stores an account under the next id. A taken username is refused by
    /// the unique constraint, and the table stays as it is; so it does where
    /// the ids have run out.
    pub fn insert(&mut self, username: &str, password_hash: &str, salt: &str) -> (done: Result<
        (),
        Fault,
    >)
        requires
            old(self).wf(),
        ensures
            final(self).wf(),
            done == old(self)@.insert_outcome(username@),
            final(self)@ == old(self)@.after_insert(username@, password_hash@, salt@),
    {
        let name = username.to_owned();
        let mut i: usize = 0;
        while i < self.rows.len()
            invariant
                i <= self.rows.len(),
                name@ == username@,
                self.wf(),
                *self == *old(self),
                forall|j: int| 0 <= j < i ==> (#[trigger] self@.rows[j]).username != username@,
            decreases self.rows.len() - i,
        {
            if self.rows[i].username == name {
                assert(self@.rows[i as int].username == username@);
                return Err(Fault::UniqueViolation);
            }
            i += 1;
        }
        if self.next_id == i32::MAX {
            return Err(Fault::Other);
        }
        let id = self.next_id;
        self.rows.push(
            User { id, username: name, password_hash: password_hash.to_owned(), salt: salt.to_owned() },
        );
        self.next_id = self.next_id + 1;
        proof {
            let before = old(self)@;
            assert(self@.rows =~= before.with_row(username@, password_hash@, salt@).rows);
            assert forall|a: int, b: int| 0 <= a < b < self@.rows.len() implies (
            #[trigger] self@.rows[a]).id != (#[trigger] self@.rows[b]).id by {
                assert(self@.rows[a] == before.rows[a]);
                if b < before.rows.len() {
                    assert(self@.rows[b] == before.rows[b]);
                }
            }
        }
        Ok(())
    }

    /// The account of a username; `None` where there is none.
    pub fn find(&self, username: &str) -> (found: Option<User>)
        ensures
            found is Some <==> self@.account(username@) is Some,
            found matches Some(row) ==> self@.account(username@) == Some(row@),
    {
        let name = username.to_owned();
        let mut i: usize = 0;
        while i < self.rows.len()
            invariant
                i <= self.rows.len(),
                name@ == username@,
                forall|j: int| 0 <= j < i ==> (#[trigger] self@.rows[j]).username != username@,
            decreases self.rows.len() - i,
        {
            if self.rows[i].username == name {
                assert(self@.first_named_at(i as int, username@));
                return Some(self.rows[i].clone());
            }
            i += 1;
        }
        None
    }

    /// Every account, in the order they were stored, hash and salt included.
    pub fn all(&self) -> (rows: Vec<User>)
        ensures
            credential_views(rows@) == self@.rows,
    {
        let mut rows: Vec<User> = Vec::new();
        let mut i: usize = 0;
        while i < self.rows.len()
            invariant
                i <= self.rows.len(),
                rows.len() == i,
                forall|k: int| 0 <= k < i ==> (#[trigger] rows[k])@ == self.rows[k]@,
            decreases self.rows.len() - i,
        {
            rows.push(self.rows[i].clone());
            i += 1;
        }
        rows
    }

    /// Removes the account with the id and returns the number of rows
    /// removed: one, or none where no account has the id.
    pub fn delete(&mut self, id: i32) -> (affected: u64)
        requires
            old(self).wf(),
        ensures
            final(self).wf(),
            affected == old(self)@.affected(id as int),
            final(self)@ == old(self)@.after_delete(id as int),
    {
        let mut i: usize = 0;
        while i < self.rows.len()
            invariant
                i <= self.rows.len(),
                self.wf(),
                *self == *old(self),
                forall|j: int| 0 <= j < i ==> (#[trigger] self@.rows[j]).id != id as int,
            decreases self.rows.len() - i,
        {
            if self.rows[i].id == id {
                let ghost before = self@;
                assert(before.first_with_id_at(i as int, id as int));
                proof {
                    let c = choose|c: int| before.first_with_id_at(c, id as int);
                    if c < i {
                        assert(before.rows[c].id != id as int);
                    }
                    if i < c {
                        assert(before.rows[i as int].id != id as int);
                    }
                }
                self.rows.remove(i);
                proof {
                    assert(self@.rows =~= before.rows.remove(i as int));
                    assert forall|a: int| 0 <= a < self@.rows.len() implies 1 <= (
                    #[trigger] self@.rows[a]).id < self@.next_id by {
                        if a < i {
                            assert(self@.rows[a] == before.rows[a]);
                        } else {
                            assert(self@.rows[a] == before.rows[a + 1]);
                        }
                    }
                    assert forall|a: int, b: int| 0 <= a < b < self@.rows.len() implies (
                    #[trigger] self@.rows[a]).id != (#[trigger] self@.rows[b]).id && self@.rows[a].username
                        != self@.rows[b].username by {
                        let a0 = if a < i { a } else { a + 1 };
                        let b0 = if b < i { b } else { b + 1 };
                        assert(self@.rows[a] == before.rows[a0]);
                        assert(self@.rows[b] == before.rows[b0]);
                    }
                }
                return 1;
            }
            i += 1;
        }
        0
    }
}

/// A username stored once is taken: a second insert under it is refused as a
/// duplicate and changes nothing, and one row has the username.
pub proof fn lemma_second_registration_is_refused(
    table: AccountsView,
    username: Seq<char>,
    first_hash: Seq<char>,
    first_salt: Seq<char>,
    second_hash: Seq<char>,
    second_salt: Seq<char>,
)
    requires
        table.wf(),
        table.insert_outcome(username) is Ok,
    ensures
        ({
            let once = table.after_insert(username, first_hash, first_salt);
            &&& once.wf()
            &&& insert_means(once.insert_outcome(username)) == Err::<(), AuthError>(
                AuthError::DuplicateUsername,
            )
            &&& once.after_insert(username, second_hash, second_salt) == once
            &&& once.count(username) == 1
        }),
{
    let once = table.with_row(username, first_hash, first_salt);
    assert(once.rows[table.rows.len() as int].username == username);
    assert(once.rows.drop_last() =~= table.rows);
    lemma_unknown_name_counts_zero(table.rows, username);
    assert forall|a: int, b: int| 0 <= a < b < once.rows.len() implies (#[trigger] once.rows[a]).id
        != (#[trigger] once.rows[b]).id && once.rows[a].username != once.rows[b].username by {
        assert(once.rows[a] == table.rows[a]);
        if b < table.rows.len() {
            assert(once.rows[b] == table.rows[b]);
        }
    }
}

/// A login yields an id exactly where a row has the username, that id, and a
/// hash for which the password is accepted.
pub proof fn lemma_login_iff_account_and_password(
    table: AccountsView,
    username: Seq<char>,
    password: Seq<char>,
    id: int,
)
    requires
        table.wf(),
    ensures
        login_of(table.account(username), password) == Some(id) <==> exists|i: int|
            0 <= i < table.rows.len() && (#[trigger] table.rows[i]).username == username
                && table.rows[i].id == id && accepts(password, table.rows[i].password_hash),
{
    if exists|i: int|
        0 <= i < table.rows.len() && (#[trigger] table.rows[i]).username == username
            && table.rows[i].id == id && accepts(password, table.rows[i].password_hash) {
        let i = choose|i: int|
            0 <= i < table.rows.len() && (#[trigger] table.rows[i]).username == username
                && table.rows[i].id == id && accepts(password, table.rows[i].password_hash);
        assert(table.first_named_at(i, username));
        let c = choose|c: int| table.first_named_at(c, username);
        assert(c == i);
    }
    if login_of(table.account(username), password) == Some(id) {
        let c = choose|c: int| table.first_named_at(c, username);
        assert(table.rows[c].username == username);
    }
}

/// A password for which the stored hash was made logs in: after a
/// registration that went through, a login under the username with a
/// password accepted for the stored hash yields the new account's id.
pub proof fn lemma_registered_password_logs_in(
    table: AccountsView,
    username: Seq<char>,
    password: Seq<char>,
    password_hash: Seq<char>,
    salt: Seq<char>,
)
    requires
        table.wf(),
        table.insert_outcome(username) is Ok,
        accepts(password, password_hash),
    ensures
        login_of(
            table.after_insert(username, password_hash, salt).account(username),
            password,
        ) == Some(table.next_id),
{
    let after = table.with_row(username, password_hash, salt);
    let last = table.rows.len() as int;
    assert(after.rows[last].username == username);
    assert forall|j: int| 0 <= j < last implies (#[trigger] after.rows[j]).username != username by {
        assert(after.rows[j] == table.rows[j]);
    }
    assert(after.first_named_at(last, username));
    let c = choose|c: int| after.first_named_at(c, username);
    if c < last {
        assert(after.rows[c].username != username);
    }
}

/// A delete by an id that no account has removes nothing, and is reported as
/// not found.
pub proof fn lemma_delete_of_unknown_id(table: AccountsView, id: int)
    requires
        !table.holds(id),
    ensures
        delete_means(Ok(table.affected(id))) == Err::<(), AuthError>(AuthError::NotFound),
        table.after_delete(id) == table,
{
    if exists|i: int| table.first_with_id_at(i, id) {
        let i = choose|i: int| table.first_with_id_at(i, id);
        assert(table.rows[i].id == id);
    }
}

/// A delete by an id that an account has succeeds, and afterwards no account
/// has the id.
pub proof fn lemma_delete_of_known_id(table: AccountsView, id: int)
    requires
        table.wf(),
        table.holds(id),
    ensures
        delete_means(Ok(table.affected(id))) is Ok,
        !table.after_delete(id).holds(id),
{
    let w = choose|w: int| 0 <= w < table.rows.len() && (#[trigger] table.rows[w]).id == id;
    assert(table.first_with_id_at(w, id)) by {
        assert forall|j: int| 0 <= j < w implies (#[trigger] table.rows[j]).id != id by {
            assert(table.rows[j].id != table.rows[w].id);
        }
    }
    let i = choose|i: int| table.first_with_id_at(i, id);
    let after = table.after_delete(id);
    assert(after.rows == table.rows.remove(i));
    if after.holds(id) {
        let a = choose|a: int| 0 <= a < after.rows.len() && (#[trigger] after.rows[a]).id == id;
        let a0 = if a < i { a } else { a + 1 };
        assert(after.rows[a] == table.rows[a0]);
        if a0 < i {
            assert(table.rows[a0].id != table.rows[i].id);
        } else {
            assert(table.rows[i].id != table.rows[a0].id);
        }
    }
}

proof fn lemma_unknown_name_counts_zero(rows: Seq<CredentialView>, username: Seq<char>)
    requires
        forall|i: int| 0 <= i < rows.len() ==> (#[trigger] rows[i]).username != username,
    ensures
        rows_named(rows, username) == 0,
    decreases rows.len(),
{
    if rows.len() > 0 {
        assert forall|i: int| 0 <= i < rows.drop_last().len() implies (
        #[trigger] rows.drop_last()[i]).username != username by {
            assert(rows.drop_last()[i] == rows[i]);
        }
        lemma_unknown_name_counts_zero(rows.drop_last(), username);
        assert(rows.last() == rows[rows.len() - 1]);
    }
}

} // verus!
