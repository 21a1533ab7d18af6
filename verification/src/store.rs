//! The account table.
//!
//! The table holds at most one account per username and keeps its rows in
//! ascending order of username. Reading goes through shared access
//! (`find_by_username`, `list_page`), writing through exclusive access
//! (`insert`): nothing that only reads can change a row.

use vstd::prelude::*;
use crate::account::{Account, User};
use crate::text::{chars_equal, chars_of, chars_precede, precedes};
use crate::text::{
    lemma_precedes_asymmetric, lemma_precedes_irreflexive, lemma_precedes_total,
    lemma_precedes_transitive,
};

verus! {

/// Why the table refused an operation.
#[derive(Clone, Copy, Debug, PartialEq, Eq, Structural)]
pub enum StoreError {
    /// A row with the same username is already there.
    Conflict,
    /// The storage underneath failed.
    IoError,
}

/// What an insert came to, told by the number of rows that the storage
/// reports as written.
pub open spec fn written_of(rows_affected: u64) -> Result<(), StoreError> {
    if rows_affected == 1 {
        Ok(())
    } else {
        Err(StoreError::IoError)
    }
}

/// Reads the number of rows that the storage reports as written: one row
/// is the account that was to be inserted, and any other number means that
/// the storage failed.
pub fn written(rows_affected: u64) -> (done: Result<(), StoreError>)
    ensures
        done == written_of(rows_affected),
{
    if rows_affected == 1 {
        Ok(())
    } else {
        Err(StoreError::IoError)
    }
}

/// The accounts that a list of stored rows stands for.
pub open spec fn accounts(users: Seq<User>) -> Seq<Account> {
    users.map_values(|u: User| u@)
}

/// Whether the usernames of `rows` strictly ascend. No name then occurs twice.
pub open spec fn ascending(rows: Seq<Account>) -> bool {
    forall|i: int, j: int|
        0 <= i < j < rows.len() ==> precedes(#[trigger] rows[i].username, #[trigger] rows[j].username)
}

/// Whether every row of `rows` is a well-formed account.
pub open spec fn all_well_formed(rows: Seq<Account>) -> bool {
    forall|i: int| 0 <= i < rows.len() ==> (#[trigger] rows[i]).well_formed()
}

/// Whether some row of `rows` carries the username `name`.
pub open spec fn holds(rows: Seq<Account>, name: Seq<char>) -> bool {
    exists|i: int| 0 <= i < rows.len() && (#[trigger] rows[i]).username == name
}

/// The first row at or after position `from` that carries the username `name`.
pub open spec fn lookup_from(rows: Seq<Account>, name: Seq<char>, from: int) -> Option<Account>
    decreases rows.len() - from,
{
    if from < 0 || from >= rows.len() {
        None
    } else if rows[from].username == name {
        Some(rows[from])
    } else {
        lookup_from(rows, name, from + 1)
    }
}

/// The row that carries the username `name`, if there is one.
pub open spec fn lookup(rows: Seq<Account>, name: Seq<char>) -> Option<Account> {
    lookup_from(rows, name, 0)
}

/// The first position at or after `from` whose username does not come
/// before `name`, or the length of `rows` if there is none.
pub open spec fn slot_from(rows: Seq<Account>, name: Seq<char>, from: int) -> int
    decreases rows.len() - from,
{
    if from < 0 || from >= rows.len() || !precedes(rows[from].username, name) {
        from
    } else {
        slot_from(rows, name, from + 1)
    }
}

/// Where an account named `name` belongs among `rows`.
pub open spec fn slot(rows: Seq<Account>, name: Seq<char>) -> int {
    slot_from(rows, name, 0)
}

/// The table `rows` with `account` put in its place.
pub open spec fn with_account(rows: Seq<Account>, account: Account) -> Seq<Account> {
    rows.insert(slot(rows, account.username), account)
}

/// The first `limit` rows of `rows`, or all of them if there are fewer.
pub open spec fn page(rows: Seq<Account>, limit: nat) -> Seq<Account> {
    if limit <= rows.len() {
        rows.take(limit as int)
    } else {
        rows
    }
}

/// The slot lies within the table, everything before it comes before `name`,
/// and the row at the slot does not.
pub proof fn lemma_slot_bounds(rows: Seq<Account>, name: Seq<char>, from: int)
    requires
        0 <= from <= rows.len(),
    ensures
        from <= slot_from(rows, name, from) <= rows.len(),
        forall|k: int|
            from <= k < slot_from(rows, name, from) ==> precedes(
                (#[trigger] rows[k]).username,
                name,
            ),
        slot_from(rows, name, from) < rows.len() ==> !precedes(
            rows[slot_from(rows, name, from)].username,
            name,
        ),
    decreases rows.len() - from,
{
    if from < rows.len() && precedes(rows[from].username, name) {
        lemma_slot_bounds(rows, name, from + 1);
    }
}

/// A search finds a row exactly when some row at or after `from` carries the
/// name, and the row it finds carries it.
pub proof fn lemma_lookup_from_holds(rows: Seq<Account>, name: Seq<char>, from: int)
    requires
        0 <= from <= rows.len(),
    ensures
        lookup_from(rows, name, from).is_some() == (exists|i: int|
            from <= i < rows.len() && (#[trigger] rows[i]).username == name),
        lookup_from(rows, name, from) matches Some(row) ==> row.username == name
            && rows.contains(row),
    decreases rows.len() - from,
{
    if from < rows.len() && rows[from].username != name {
        lemma_lookup_from_holds(rows, name, from + 1);
    }
}

/// A search finds a row exactly when the table holds the name.
pub proof fn lemma_lookup_holds(rows: Seq<Account>, name: Seq<char>)
    ensures
        lookup(rows, name).is_some() == holds(rows, name),
        lookup(rows, name) matches Some(row) ==> row.username == name && rows.contains(row),
{
    lemma_lookup_from_holds(rows, name, 0);
}

/// Putting an account whose name is new into an ascending table gives an
/// ascending table again, one row longer, which holds the names it held
/// before and the new one, and no others.
pub proof fn lemma_with_account(rows: Seq<Account>, account: Account)
    requires
        ascending(rows),
        !holds(rows, account.username),
    ensures
        ascending(with_account(rows, account)),
        with_account(rows, account).len() == rows.len() + 1,
        forall|name: Seq<char>|
            holds(with_account(rows, account), name) == (name == account.username || holds(
                rows,
                name,
            )),
{
    let name = account.username;
    let at = slot(rows, name);
    let after = with_account(rows, account);
    lemma_slot_bounds(rows, name, 0);
    assert forall|k: int| at <= k < rows.len() implies precedes(
        name,
        (#[trigger] rows[k]).username,
    ) by {
        lemma_precedes_total(rows[k].username, name);
        if precedes(rows[k].username, name) {
            if k > at {
                lemma_precedes_transitive(rows[at].username, rows[k].username, name);
            }
        }
    }
    assert forall|other: Seq<char>| holds(after, other) == (other == name || holds(
        rows,
        other,
    )) by {
        if holds(after, other) {
            let i = choose|i: int| 0 <= i < after.len() && (#[trigger] after[i]).username == other;
            if i > at {
                assert(rows[i - 1].username == other);
            }
        }
        if other == name {
            assert(after[at].username == other);
        }
        if holds(rows, other) {
            let i = choose|i: int| 0 <= i < rows.len() && (#[trigger] rows[i]).username == other;
            if i < at {
                assert(after[i].username == other);
            } else {
                assert(after[i + 1].username == other);
            }
        }
    }
}

/// In an ascending table a name is carried by one row at most, so a search
/// for the name of a row finds that very row.
pub proof fn lemma_lookup_finds_row(rows: Seq<Account>, at: int)
    requires
        ascending(rows),
        0 <= at < rows.len(),
    ensures
        lookup(rows, rows[at].username) == Some(rows[at]),
{
    let name = rows[at].username;
    lemma_lookup_from_holds(rows, name, 0);
    lemma_precedes_irreflexive(name);
}

/// An account that was put into the table is found again under its
/// username, field for field as it went in, and every account that was
/// there before is still found as it was.
pub proof fn lemma_round_trip(rows: Seq<Account>, account: Account)
    requires
        ascending(rows),
        !holds(rows, account.username),
    ensures
        lookup(with_account(rows, account), account.username) == Some(account),
        forall|name: Seq<char>|
            name != account.username ==> lookup(with_account(rows, account), name) == lookup(
                rows,
                name,
            ),
{
    let after = with_account(rows, account);
    let at = slot(rows, account.username);
    lemma_slot_bounds(rows, account.username, 0);
    lemma_with_account(rows, account);
    lemma_lookup_finds_row(after, at);
    assert forall|name: Seq<char>| name != account.username implies lookup(after, name)
        == lookup(rows, name) by {
        lemma_lookup_holds(rows, name);
        lemma_lookup_holds(after, name);
        if holds(rows, name) {
            let i = choose|i: int| 0 <= i < rows.len() && (#[trigger] rows[i]).username == name;
            lemma_lookup_finds_row(rows, i);
            if i < at {
                lemma_lookup_finds_row(after, i);
            } else {
                lemma_lookup_finds_row(after, i + 1);
            }
        }
    }
}

/// A page of an ascending table is ascending, is no longer than the limit
/// nor than the table, and is the whole table where the limit allows.
pub proof fn lemma_page(rows: Seq<Account>, limit: nat)
    requires
        ascending(rows),
    ensures
        ascending(page(rows, limit)),
        page(rows, limit).len() <= limit,
        page(rows, limit).len() <= rows.len(),
        rows.len() <= limit ==> page(rows, limit) == rows,
        forall|i: int| 0 <= i < page(rows, limit).len() ==> page(rows, limit)[i] == rows[i],
{
}

/// The account table.
#[derive(Debug)]
pub struct AccountStore {
    rows: Vec<User>,
}

impl View for AccountStore {
    type V = Seq<Account>;

    closed spec fn view(&self) -> Seq<Account> {
        accounts(self.rows@)
    }
}

impl AccountStore {
    #[verifier::type_invariant]
    closed spec fn inv(&self) -> bool {
        ascending(self@) && all_well_formed(self@)
    }

    /// An empty table.
    pub fn new() -> (store: AccountStore)
        ensures
            store@ == Seq::<Account>::empty(),
    {
        let store = AccountStore { rows: Vec::new() };
        store
    }

    /// The number of accounts. The rows of a table always ascend, and each
    /// is a well-formed account.
    pub fn len(&self) -> (count: usize)
        ensures
            count == self@.len(),
            ascending(self@),
            all_well_formed(self@),
    {
        proof {
            use_type_invariant(self);
        }
        self.rows.len()
    }

    /// The username of the row at position `at`.
    fn name_at(&self, at: usize) -> (name: Vec<char>)
        requires
            at < self@.len(),
        ensures
            name@ == self@[at as int].username,
    {
        chars_of(self.rows[at].username())
    }

    /// Looks up the account with the username `name`.
    pub fn find_by_username(&self, name: &str) -> (found: Option<User>)
        ensures
            found.is_some() == holds(self@, name@),
            match found {
                Some(user) => lookup(self@, name@) == Some(user@),
                None => lookup(self@, name@).is_none(),
            },
    {
        let wanted = chars_of(name);
        let mut i: usize = 0;
        proof {
            lemma_lookup_holds(self@, name@);
        }
        while i < self.rows.len()
            invariant
                i <= self.rows.len(),
                wanted@ == name@,
                self@ == accounts(self.rows@),
                lookup(self@, name@) == lookup_from(self@, name@, i as int),
            decreases self.rows.len() - i,
        {
            let here = self.name_at(i);
            if chars_equal(&here, &wanted) {
                return Some(self.rows[i].clone());
            }
            i = i + 1;
        }
        None
    }

    /// Adds `account` unless its username is taken.
    ///
    /// Where the table holds no account of that name, the account goes in at
    /// its place in the order and nothing else changes. Where it holds one,
    /// the table stays as it was and the answer is a conflict.
    pub fn insert(&mut self, account: User) -> (done: Result<(), StoreError>)
        ensures
            holds(old(self)@, account@.username) ==> done == Err::<(), StoreError>(
                StoreError::Conflict,
            ) && final(self)@ == old(self)@,
            !holds(old(self)@, account@.username) ==> done == Ok::<(), StoreError>(())
                && final(self)@ == with_account(old(self)@, account@),
    {
        proof {
            use_type_invariant(&*self);
        }
        let name = chars_of(account.username());
        let mut i: usize = 0;
        let mut placed = false;
        while !placed && i < self.rows.len()
            invariant
                i <= self.rows.len(),
                name@ == account@.username,
                self@ == accounts(self.rows@),
                slot(self@, name@) == slot_from(self@, name@, i as int),
                placed ==> i < self.rows.len() && !precedes(self@[i as int].username, name@),
            decreases self.rows.len() - i + if placed { 0int } else { 1int },
        {
            let here = self.name_at(i);
            if chars_precede(&here, &name) {
                i = i + 1;
            } else {
                placed = true;
            }
        }
        let taken = placed && {
            let here = self.name_at(i);
            chars_equal(&here, &name)
        };
        proof {
            let rows = self@;
            lemma_slot_bounds(rows, name@, 0);
            if !taken && holds(rows, name@) {
                let k = choose|k: int| 0 <= k < rows.len() && (#[trigger] rows[k]).username == name@;
                lemma_precedes_irreflexive(name@);
                if k > i {
                    lemma_precedes_total(rows[i as int].username, name@);
                    lemma_precedes_asymmetric(rows[i as int].username, name@);
                }
            }
        }
        if taken {
            return Err(StoreError::Conflict);
        }
        proof {
            lemma_with_account(self@, account@);
            assert(accounts(self.rows@.insert(i as int, account)) =~= with_account(
                self@,
                account@,
            ));
        }
        // The rows are taken out while the new one goes in, so that the table
        // is in order whenever it can be seen.
        let mut rows: Vec<User> = Vec::new();
        core::mem::swap(&mut self.rows, &mut rows);
        rows.insert(i, account);
        self.rows = rows;
        Ok(())
    }

    /// Lists the first `limit` accounts in ascending order of username, or
    /// all of them where there are fewer.
    pub fn list_page(&self, limit: u32) -> (listed: Result<Vec<User>, StoreError>)
        ensures
            listed matches Ok(users) && accounts(users@) == page(self@, limit as nat),
            listed matches Ok(users) && ascending(accounts(users@)) && users@.len() <= limit,
    {
        proof {
            use_type_invariant(self);
            lemma_page(self@, limit as nat);
        }
        let mut users: Vec<User> = Vec::new();
        let mut i: usize = 0;
        while i < self.rows.len() && i < limit as usize
            invariant
                i <= self.rows.len(),
                i <= limit,
                self@ == accounts(self.rows@),
                accounts(users@) == self@.take(i as int),
            decreases self.rows.len() - i,
        {
            let user = self.rows[i].clone();
            proof {
                assert(accounts(users@.push(user)) =~= self@.take(i + 1)) by {
                    assert(self@.take(i + 1) =~= self@.take(i as int).push(self@[i as int]));
                }
            }
            users.push(user);
            i = i + 1;
        }
        Ok(users)
    }
}

} // verus!
