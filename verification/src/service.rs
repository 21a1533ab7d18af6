//! The registry as a service: registration and listing over the account table.

use vstd::prelude::*;
use crate::account::{Account, User, ROLE_USER};
use crate::clock::now_rfc3339;
use crate::json::JsonValue;
use crate::protocol::{
    advance, candidate, location_of, steps_left, Action, Ending, Event, Lookup, Outcome, Phase,
    Signal, Stage, Task,
};
use crate::reply::{
    fault, fault_of, refusal, refusal_of, registration_answer, registration_reply, told_reply,
    Answer, ContentType, PayloadFault, Reply,
};
use crate::store::{
    accounts, all_well_formed, ascending, holds, lemma_lookup_holds, lemma_round_trip,
    lemma_with_account, lookup, page, with_account, AccountStore, StoreError,
};
use crate::username::{validation, Rejection};

verus! {

/// The number of accounts that a listing shows unless told otherwise.
pub const DEFAULT_PER_PAGE: u32 = 32;

/// The key under which a request body carries the username.
pub const USERNAME_KEY: &'static str = "username";

/// The kinds of error that the service tells apart.
#[derive(Clone, Copy, Debug, PartialEq, Eq, Structural)]
pub enum ErrorKind {
    /// The submitted value has the wrong type or shape.
    MalformedPayload,
    /// The submitted text breaks the rules for usernames.
    InvalidFormat,
    /// The name is taken.
    Duplicate,
    /// The table failed, answered too late, or something unexpected happened.
    Internal,
}

/// The kind of error that a registration ended with, if it ended with one.
pub open spec fn error_of(ending: Ending) -> Option<ErrorKind> {
    match ending {
        Ending::Inserted { location } => None,
        Ending::RejectedDuplicate => Some(ErrorKind::Duplicate),
        Ending::RejectedInvalid(Rejection::MalformedPayload) => Some(ErrorKind::MalformedPayload),
        Ending::RejectedInvalid(Rejection::InvalidFormat) => Some(ErrorKind::InvalidFormat),
        Ending::Failed => Some(ErrorKind::Internal),
    }
}

/// Returns the kind of error that a registration ended with, if it ended
/// with one. A duplicate is a duplicate whichever step found it.
pub fn error_kind(outcome: &Outcome) -> (kind: Option<ErrorKind>)
    ensures
        kind == error_of(outcome@),
{
    match outcome {
        Outcome::Inserted { location } => None,
        Outcome::RejectedDuplicate => Some(ErrorKind::Duplicate),
        Outcome::RejectedInvalid(Rejection::MalformedPayload) => Some(
            ErrorKind::MalformedPayload,
        ),
        Outcome::RejectedInvalid(Rejection::InvalidFormat) => Some(ErrorKind::InvalidFormat),
        Outcome::Failed => Some(ErrorKind::Internal),
    }
}

/// What a registration comes to on the table `rows`, and the table after it.
///
/// A rejected username and a taken name leave the table as it was. A valid
/// and free name adds one ordinary account, created and last seen at `now`.
pub open spec fn registered(
    rows: Seq<Account>,
    checked: Result<Seq<char>, Rejection>,
    now: Seq<char>,
) -> (Ending, Seq<Account>) {
    match checked {
        Err(reason) => (Ending::RejectedInvalid(reason), rows),
        Ok(name) => if holds(rows, name) {
            (Ending::RejectedDuplicate, rows)
        } else {
            (
                Ending::Inserted { location: location_of(name) },
                with_account(rows, Account::fresh(name, ROLE_USER, now)),
            )
        },
    }
}

/// Registering keeps the table in order: its rows still ascend and are
/// still well formed, a rejected or duplicate registration changes nothing,
/// and a successful one adds exactly the new name.
pub proof fn lemma_registered_table(
    rows: Seq<Account>,
    checked: Result<Seq<char>, Rejection>,
    now: Seq<char>,
)
    requires
        ascending(rows),
        all_well_formed(rows),
    ensures
        ascending(registered(rows, checked, now).1),
        all_well_formed(registered(rows, checked, now).1),
        !(registered(rows, checked, now).0 is Inserted) ==> registered(rows, checked, now).1
            == rows,
        registered(rows, checked, now).0 is Inserted ==> (forall|name: Seq<char>|
            holds(registered(rows, checked, now).1, name) == (checked == Ok::<
                Seq<char>,
                Rejection,
            >(name) || holds(rows, name))),
{
    if let Ok(name) = checked {
        if !holds(rows, name) {
            let account = Account::fresh(name, ROLE_USER, now);
            lemma_with_account(rows, account);
            crate::store::lemma_slot_bounds(rows, name, 0);
        }
    }
}

/// Registering one name twice in a row creates the account the first time,
/// if the name was free, and is a duplicate the second time, which leaves
/// the table as the first left it.
pub proof fn lemma_second_registration_is_duplicate(
    rows: Seq<Account>,
    name: Seq<char>,
    first: Seq<char>,
    second: Seq<char>,
)
    requires
        ascending(rows),
    ensures
        ({
            let once = registered(rows, Ok(name), first);
            let twice = registered(once.1, Ok(name), second);
            &&& !holds(rows, name) ==> once.0 == Ending::Inserted { location: location_of(name) }
            &&& holds(rows, name) ==> once.0 == Ending::RejectedDuplicate
            &&& twice == (Ending::RejectedDuplicate, once.1)
        }),
{
    if !holds(rows, name) {
        lemma_with_account(rows, Account::fresh(name, ROLE_USER, first));
    }
}

/// An account that registration has created is found under its username
/// exactly as it was created, and the accounts that were there before are
/// found as they were.
pub proof fn lemma_registered_account_is_found(rows: Seq<Account>, name: Seq<char>, now: Seq<char>)
    requires
        ascending(rows),
        !holds(rows, name),
    ensures
        lookup(registered(rows, Ok(name), now).1, name) == Some(
            Account::fresh(name, ROLE_USER, now),
        ),
        forall|other: Seq<char>|
            other != name ==> lookup(registered(rows, Ok(name), now).1, other) == lookup(
                rows,
                other,
            ),
{
    lemma_round_trip(rows, Account::fresh(name, ROLE_USER, now));
}

/// What the table answers to `task`, and the table after it.
///
/// A search changes nothing. An insert adds the account where the name is
/// free and is refused as a conflict where it is taken. Where nothing is
/// asked for, nothing changes and no answer comes.
pub open spec fn served(rows: Seq<Account>, task: Task) -> (Seq<Account>, Signal) {
    match task {
        Task::Find(name) => (
            rows,
            match lookup(rows, name) {
                Some(account) => Signal::Found(account),
                None => Signal::NotFound,
            },
        ),
        Task::Insert(account) => if holds(rows, account.username) {
            (rows, Signal::Stored(Err(StoreError::Conflict)))
        } else {
            (with_account(rows, account), Signal::Stored(Ok(())))
        },
        Task::Stop => (rows, Signal::TimedOut),
    }
}

/// Has the table do what a registration asks for, and reports the answer
/// as the event that the registration waits for.
pub fn serve(store: &mut AccountStore, action: Action) -> (event: Event<'static>)
    ensures
        (final(store)@, event@) == served(old(store)@, action@),
{
    match action {
        Action::Find(name) => match store.find_by_username(name.as_str()) {
            Some(user) => Event::LookedUp(Lookup::Found(user)),
            None => Event::LookedUp(Lookup::NotFound),
        },
        Action::Insert(user) => Event::Stored(store.insert(user)),
        Action::Stop => Event::TimedOut,
    }
}

/// Whether a registration that began on the table `before` is where the
/// protocol puts it: it has asked for what its phase calls for, and the
/// table has changed only if the registration is over.
pub open spec fn on_course(
    before: Seq<Account>,
    checked: Result<Seq<char>, Rejection>,
    now: Seq<char>,
    rows: Seq<Account>,
    phase: Phase,
    task: Task,
) -> bool {
    match phase {
        Phase::Received => false,
        Phase::Validated(account) => {
            &&& checked == Ok::<Seq<char>, Rejection>(account.username)
            &&& account == Account::fresh(account.username, ROLE_USER, now)
            &&& task == Task::Find(account.username)
            &&& rows == before
        },
        Phase::Checked(account) => {
            &&& checked == Ok::<Seq<char>, Rejection>(account.username)
            &&& account == Account::fresh(account.username, ROLE_USER, now)
            &&& task == Task::Insert(account)
            &&& rows == before
            &&& !holds(before, account.username)
        },
        Phase::Finished(ending) => {
            &&& task == Task::Stop
            &&& (ending, rows) == registered(before, checked, now)
        },
    }
}

/// The verdict on the username that a request body carries.
pub open spec fn submitted(body: JsonValue) -> Result<Seq<char>, Rejection> {
    match body.member(USERNAME_KEY@) {
        Some(value) => validation(Some(&value)),
        None => validation(None),
    }
}

/// The reply to a submission on the table `rows`, and the table after it.
pub open spec fn posted(
    rows: Seq<Account>,
    submission: Result<JsonValue, PayloadFault>,
    now: Seq<char>,
) -> (Answer, Seq<Account>) {
    match submission {
        Ok(body) => (
            registration_answer(registered(rows, submitted(body), now).0),
            registered(rows, submitted(body), now).1,
        ),
        Err(cause) => (
            Answer::plain(fault_of(cause).0, ContentType::TextPlain, fault_of(cause).1),
            rows,
        ),
    }
}

/// Checks a submitted value and creates the account that registration would
/// insert for it, stamped with the moment of the call. A value that is
/// turned down gives the status and the reason to reply with.
pub fn username_check(json_value: Option<&JsonValue>) -> (checked: Result<User, (u16, String)>)
    ensures
        match validation(json_value) {
            Ok(name) => checked matches Ok(user) && user@.username == name && user@.role
                == ROLE_USER && user@.last_seen_at == user@.created_at && user@.well_formed(),
            Err(reason) => checked matches Err(told) && (told.0, told.1@) == refusal_of(reason),
        },
{
    match candidate(json_value, now_rfc3339()) {
        Ok(user) => Ok(user),
        Err(reason) => Err(refusal(reason)),
    }
}

/// Turns what the table answered to a listing into what the service
/// answers: the accounts as they came, or an internal error whatever the
/// table's reason was.
pub fn listed(rows: Result<Vec<User>, StoreError>) -> (shown: Result<Vec<User>, ErrorKind>)
    ensures
        match rows {
            Ok(users) => shown == Ok::<Vec<User>, ErrorKind>(users),
            Err(_) => shown == Err::<Vec<User>, ErrorKind>(ErrorKind::Internal),
        },
{
    match rows {
        Ok(users) => Ok(users),
        Err(_) => Err(ErrorKind::Internal),
    }
}

/// The state of the service: the account table and the size of a listing.
#[derive(Debug)]
pub struct AppState {
    accounts: AccountStore,
    per_page: u32,
}

impl AppState {
    /// The accounts in the table, in ascending order of username.
    pub closed spec fn accounts(&self) -> Seq<Account> {
        self.accounts@
    }

    /// The number of accounts that a listing shows at most.
    pub closed spec fn page_size(&self) -> u32 {
        self.per_page
    }

    /// A service with an empty table that lists thirty-two accounts at most.
    pub fn new() -> (state: AppState)
        ensures
            state.accounts() == Seq::<Account>::empty(),
            state.page_size() == DEFAULT_PER_PAGE,
    {
        AppState { accounts: AccountStore::new(), per_page: DEFAULT_PER_PAGE }
    }

    /// A service with an empty table that lists `per_page` accounts at most.
    pub fn with_per_page(per_page: u32) -> (state: AppState)
        ensures
            state.accounts() == Seq::<Account>::empty(),
            state.page_size() == per_page,
    {
        AppState { accounts: AccountStore::new(), per_page }
    }

    /// The number of accounts that a listing shows at most.
    pub fn per_page(&self) -> (limit: u32)
        ensures
            limit == self.page_size(),
    {
        self.per_page
    }

    /// The account table, for reading. Its rows always ascend, and each is
    /// a well-formed account.
    pub fn store(&self) -> (table: &AccountStore)
        ensures
            table@ == self.accounts(),
            ascending(self.accounts()),
            all_well_formed(self.accounts()),
    {
        // The table tells its order along with its length.
        let _count: usize = self.accounts.len();
        &self.accounts
    }

    /// Adds `account` to the table unless its username is taken: the write
    /// path of the table, with the table's own contract.
    pub fn insert(&mut self, account: User) -> (done: Result<(), StoreError>)
        ensures
            holds(old(self).accounts(), account@.username) ==> done == Err::<(), StoreError>(
                StoreError::Conflict,
            ) && final(self).accounts() == old(self).accounts(),
            !holds(old(self).accounts(), account@.username) ==> done == Ok::<(), StoreError>(())
                && final(self).accounts() == with_account(old(self).accounts(), account@),
            final(self).page_size() == old(self).page_size(),
    {
        self.accounts.insert(account)
    }

    /// Registers the submitted username at the moment `now`.
    ///
    /// The registration is run through the protocol against the table: the
    /// table is searched, and where it knows no such account the new one is
    /// inserted.
    pub fn register_at(&mut self, raw: Option<&JsonValue>, now: String) -> (outcome: Outcome)
        ensures
            (outcome@, final(self).accounts()) == registered(
                old(self).accounts(),
                validation(raw),
                now@,
            ),
            final(self).page_size() == old(self).page_size(),
    {
        let ghost before = self.accounts();
        let ghost moment = now@;
        let first = advance(Stage::Received, Event::Submitted { raw, now });
        let mut stage = first.0;
        let mut action = first.1;
        while !action.is_stop()
            invariant
                self.page_size() == old(self).page_size(),
                on_course(before, validation(raw), moment, self.accounts(), stage@, action@),
            decreases steps_left(stage@),
        {
            proof {
                if let Task::Find(name) = action@ {
                    lemma_lookup_holds(self.accounts(), name);
                }
            }
            let event = serve(&mut self.accounts, action);
            let next = advance(stage, event);
            stage = next.0;
            action = next.1;
        }
        match stage {
            Stage::Finished(outcome) => outcome,
            _ => Outcome::Failed,
        }
    }

    /// Registers the submitted username at the moment of the call.
    pub fn register(&mut self, raw: Option<&JsonValue>) -> (outcome: Outcome)
        ensures
            exists|now: Seq<char>|
                (outcome@, final(self).accounts()) == #[trigger] registered(
                    old(self).accounts(),
                    validation(raw),
                    now,
                ),
            final(self).page_size() == old(self).page_size(),
    {
        self.register_at(raw, now_rfc3339())
    }

    /// Lists the accounts: the first page in ascending order of username,
    /// whole or not at all.
    pub fn list(&self) -> (shown: Result<Vec<User>, ErrorKind>)
        ensures
            shown matches Ok(users) && accounts(users@) == page(
                self.accounts(),
                self.page_size() as nat,
            ),
            shown matches Ok(users) && ascending(accounts(users@)) && users@.len()
                <= self.page_size(),
    {
        listed(self.accounts.list_page(self.per_page))
    }

    /// Serves a submission at the moment `now`: a body that did not arrive
    /// is answered with its fault, and a body that did is registered under
    /// the username it carries.
    pub fn post_user_at(&mut self, submission: Result<JsonValue, PayloadFault>, now: String) -> (reply:
        Reply)
        ensures
            (reply@, final(self).accounts()) == posted(old(self).accounts(), submission, now@),
            final(self).page_size() == old(self).page_size(),
    {
        match submission {
            Ok(body) => {
                let outcome = self.register_at(body.get(USERNAME_KEY), now);
                registration_reply(outcome)
            },
            Err(cause) => told_reply(fault(cause)),
        }
    }

    /// Serves a submission at the moment of the call.
    pub fn post_user(&mut self, submission: Result<JsonValue, PayloadFault>) -> (reply: Reply)
        ensures
            exists|now: Seq<char>|
                (reply@, final(self).accounts()) == #[trigger] posted(
                    old(self).accounts(),
                    submission,
                    now,
                ),
            final(self).page_size() == old(self).page_size(),
    {
        self.post_user_at(submission, now_rfc3339())
    }
}

} // verus!
