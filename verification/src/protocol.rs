//! The registration protocol.
//!
//! A registration is validated, then the table is searched for an account
//! of the same name, then the new account is inserted. The search is
//! advisory: two registrations of one name may both find nothing. The insert
//! is what decides, and a conflict there ends the registration as a
//! duplicate, exactly as a match at the search does.
//!
//! The protocol is written as a machine that never touches the table itself.
//! It is told what happened (`Event`) and says what to do next (`Action`), so
//! that the same decisions serve every kind of storage.

use vstd::prelude::*;
use vstd::string::StringExecFns;
use crate::account::{Account, User, ROLE_USER};
use crate::clock::now_rfc3339;
use crate::json::JsonValue;
use crate::store::StoreError;
use crate::username::{valid_username, validate, validation, Rejection};

verus! {

/// The address under which the service is reached.
pub const ROOT: &'static str = "http://localhost:3000/";

/// The reference under which the account `name` is found.
pub open spec fn location_of(name: Seq<char>) -> Seq<char> {
    ROOT@ + "/user/"@ + name
}

/// Builds the reference under which the account `name` is found.
pub fn location(name: &str) -> (reference: String)
    ensures
        reference@ == location_of(name@),
{
    let mut reference = String::from_str(ROOT);
    reference.append("/user/");
    reference.append(name);
    reference
}

/// How a registration ended.
#[derive(Debug)]
pub enum Outcome {
    /// The account was created; `location` is the reference to it.
    Inserted { location: String },
    /// An account of that name exists, whether the search or the insert found it.
    RejectedDuplicate,
    /// The submitted username was turned down.
    RejectedInvalid(Rejection),
    /// The table could not be read or written, or answered too late, or
    /// something happened out of turn.
    Failed,
}

/// An `Outcome` as plain mathematical data.
pub enum Ending {
    Inserted { location: Seq<char> },
    RejectedDuplicate,
    RejectedInvalid(Rejection),
    Failed,
}

impl View for Outcome {
    type V = Ending;

    open spec fn view(&self) -> Ending {
        match *self {
            Outcome::Inserted { location } => Ending::Inserted { location: location@ },
            Outcome::RejectedDuplicate => Ending::RejectedDuplicate,
            Outcome::RejectedInvalid(reason) => Ending::RejectedInvalid(reason),
            Outcome::Failed => Ending::Failed,
        }
    }
}

/// How far a registration has come.
#[derive(Debug)]
pub enum Stage {
    /// Nothing has been looked at yet.
    Received,
    /// The username is valid; the table is being asked for an account of that name.
    Validated(User),
    /// The table knew no such account; the new account is being inserted.
    Checked(User),
    /// The registration is over.
    Finished(Outcome),
}

/// A `Stage` as plain mathematical data.
pub enum Phase {
    Received,
    Validated(Account),
    Checked(Account),
    Finished(Ending),
}

impl View for Stage {
    type V = Phase;

    open spec fn view(&self) -> Phase {
        match *self {
            Stage::Received => Phase::Received,
            Stage::Validated(user) => Phase::Validated(user@),
            Stage::Checked(user) => Phase::Checked(user@),
            Stage::Finished(outcome) => Phase::Finished(outcome@),
        }
    }
}

/// What a search of the table came to. No row and a failed search are
/// different answers.
#[derive(Debug)]
pub enum Lookup {
    /// There is an account of that name.
    Found(User),
    /// There is none.
    NotFound,
    /// The table could not be read.
    StoreFailure,
}

/// What a registration is told.
#[derive(Debug)]
pub enum Event<'a> {
    /// A value was submitted as the username, at the moment `now`.
    Submitted { raw: Option<&'a JsonValue>, now: String },
    /// The search of the table came back.
    LookedUp(Lookup),
    /// The insert came back.
    Stored(Result<(), StoreError>),
    /// The table did not answer in time.
    TimedOut,
}

impl<'a> Event<'a> {
    /// The event that `raw` was submitted as the username, at the moment of
    /// the call.
    pub fn submitted(raw: Option<&'a JsonValue>) -> (event: Event<'a>)
        ensures
            event@ matches Signal::Submitted { checked, .. } && checked == validation(raw),
    {
        Event::Submitted { raw, now: now_rfc3339() }
    }
}

/// An `Event` as plain mathematical data.
pub enum Signal {
    Submitted { checked: Result<Seq<char>, Rejection>, now: Seq<char> },
    Found(Account),
    NotFound,
    ReadFailed,
    Stored(Result<(), StoreError>),
    TimedOut,
}

impl<'a> View for Event<'a> {
    type V = Signal;

    open spec fn view(&self) -> Signal {
        match *self {
            Event::Submitted { raw, now } => Signal::Submitted {
                checked: validation(raw),
                now: now@,
            },
            Event::LookedUp(Lookup::Found(user)) => Signal::Found(user@),
            Event::LookedUp(Lookup::NotFound) => Signal::NotFound,
            Event::LookedUp(Lookup::StoreFailure) => Signal::ReadFailed,
            Event::Stored(done) => Signal::Stored(done),
            Event::TimedOut => Signal::TimedOut,
        }
    }
}

/// What a registration asks for next.
#[derive(Debug)]
pub enum Action {
    /// Search the table for this username, on the read path.
    Find(String),
    /// Insert this account, on the write path.
    Insert(User),
    /// Nothing more: the registration is over.
    Stop,
}

impl Action {
    /// Whether nothing more is asked for.
    pub fn is_stop(&self) -> (over: bool)
        ensures
            over == (self@ is Stop),
    {
        match self {
            Action::Stop => true,
            _ => false,
        }
    }
}

/// An `Action` as plain mathematical data.
pub enum Task {
    Find(Seq<char>),
    Insert(Account),
    Stop,
}

impl View for Action {
    type V = Task;

    open spec fn view(&self) -> Task {
        match *self {
            Action::Find(name) => Task::Find(name@),
            Action::Insert(user) => Task::Insert(user@),
            Action::Stop => Task::Stop,
        }
    }
}

/// The protocol: where a registration stands after `signal` reached it in
/// `phase`, and what it asks for.
///
/// A registration that is over stays as it ended. A signal that does not
/// answer what the registration last asked for ends it as failed.
pub open spec fn transition(phase: Phase, signal: Signal) -> (Phase, Task) {
    match phase {
        Phase::Received => match signal {
            Signal::Submitted { checked: Ok(name), now } => {
                let account = Account::fresh(name, ROLE_USER, now);
                (Phase::Validated(account), Task::Find(name))
            },
            Signal::Submitted { checked: Err(reason), now } => (
                Phase::Finished(Ending::RejectedInvalid(reason)),
                Task::Stop,
            ),
            _ => (Phase::Finished(Ending::Failed), Task::Stop),
        },
        Phase::Validated(account) => match signal {
            Signal::Found(_) => (Phase::Finished(Ending::RejectedDuplicate), Task::Stop),
            Signal::NotFound => (Phase::Checked(account), Task::Insert(account)),
            _ => (Phase::Finished(Ending::Failed), Task::Stop),
        },
        Phase::Checked(account) => match signal {
            Signal::Stored(Ok(_)) => (
                Phase::Finished(Ending::Inserted { location: location_of(account.username) }),
                Task::Stop,
            ),
            Signal::Stored(Err(StoreError::Conflict)) => (
                Phase::Finished(Ending::RejectedDuplicate),
                Task::Stop,
            ),
            _ => (Phase::Finished(Ending::Failed), Task::Stop),
        },
        Phase::Finished(ending) => (Phase::Finished(ending), Task::Stop),
    }
}

/// How many more answers a registration in `phase` can take before it is over.
pub open spec fn steps_left(phase: Phase) -> nat {
    match phase {
        Phase::Received => 3,
        Phase::Validated(_) => 2,
        Phase::Checked(_) => 1,
        Phase::Finished(_) => 0,
    }
}

/// Every answer brings a registration closer to its end, which it reaches
/// after three answers at most. It asks for a search only while validated
/// and for an insert only while checked, and once it is over it asks for
/// nothing and stays as it ended.
pub proof fn lemma_transition_progress(phase: Phase, signal: Signal)
    ensures
        !(phase is Finished) ==> steps_left(transition(phase, signal).0) < steps_left(phase),
        phase is Finished ==> transition(phase, signal) == (phase, Task::Stop),
        transition(phase, signal).1 is Stop <==> transition(phase, signal).0 is Finished,
        transition(phase, signal).1 is Find <==> transition(phase, signal).0 is Validated,
        transition(phase, signal).1 is Insert <==> transition(phase, signal).0 is Checked,
{
}

/// An insert is asked for in one case only: the registration is validated
/// and the search has come back without a match. A search that failed, an
/// answer that came too late and an answer out of turn end the registration
/// as failed, and nothing is inserted.
pub proof fn lemma_insert_only_after_clear_search(phase: Phase, signal: Signal)
    ensures
        transition(phase, signal).1 is Insert <==> (phase is Validated && signal is NotFound),
        phase matches Phase::Validated(account) ==> (signal is NotFound ==> transition(
            phase,
            signal,
        ).1 == Task::Insert(account)),
        (phase is Validated || phase is Checked) && (signal is ReadFailed || signal is TimedOut)
            ==> transition(phase, signal) == (Phase::Finished(Ending::Failed), Task::Stop),
{
}

/// A duplicate is one outcome, whichever step found it: a match at the
/// search and a conflict at the insert end the registration alike.
pub proof fn lemma_duplicate_either_way(account: Account, found: Account)
    ensures
        transition(Phase::Validated(account), Signal::Found(found)) == (
            Phase::Finished(Ending::RejectedDuplicate),
            Task::Stop,
        ),
        transition(Phase::Checked(account), Signal::Stored(Err(StoreError::Conflict))) == (
            Phase::Finished(Ending::RejectedDuplicate),
            Task::Stop,
        ),
{
}

/// Where a new registration stands after the signals of `signals`, taken in
/// order, and what it asks for.
pub open spec fn after(signals: Seq<Signal>) -> (Phase, Task)
    decreases signals.len(),
{
    if signals.len() == 0 {
        (Phase::Received, Task::Stop)
    } else {
        transition(after(signals.drop_last()).0, signals.last())
    }
}

/// Whether every submission among `signals` that passed validation carries
/// a valid username, as every checked submission does.
pub open spec fn faithful(signals: Seq<Signal>) -> bool {
    forall|i: int|
        0 <= i < signals.len() ==> ((#[trigger] signals[i]) matches Signal::Submitted {
            checked: Ok(name),
            ..
        } ==> valid_username(name))
}

/// Whether `account` is one that registration creates: an ordinary account
/// with a valid username, last seen when it was created.
pub open spec fn ordinary(account: Account) -> bool {
    &&& valid_username(account.username)
    &&& account.role == ROLE_USER
    &&& account.last_seen_at == account.created_at
    &&& account.well_formed()
}

/// Whatever a registration is told, the account it asks to insert is an
/// ordinary one with a valid username: no registration creates an
/// administrator or a moderator.
pub proof fn lemma_only_ordinary_accounts(signals: Seq<Signal>)
    requires
        faithful(signals),
    ensures
        match after(signals) {
            (Phase::Validated(account), task) => ordinary(account) && task == Task::Find(
                account.username,
            ),
            (Phase::Checked(account), task) => ordinary(account) && task == Task::Insert(account),
            (Phase::Finished(_), task) => task == Task::Stop,
            (Phase::Received, task) => task == Task::Stop,
        },
    decreases signals.len(),
{
    if signals.len() > 0 {
        lemma_only_ordinary_accounts(signals.drop_last());
    }
}

/// Checks a submitted value and creates the account that registration would
/// insert for it at the moment `now`: an ordinary account, last seen when it
/// was created.
pub fn candidate(raw: Option<&JsonValue>, now: String) -> (made: Result<User, Rejection>)
    ensures
        match validation(raw) {
            Ok(name) => made matches Ok(user) && user@ == Account::fresh(
                name,
                ROLE_USER,
                now@,
            ),
            Err(reason) => made matches Err(r) && r == reason,
        },
{
    match validate(raw) {
        Ok(name) => Ok(User::stamped(name, ROLE_USER, now)),
        Err(reason) => Err(reason),
    }
}

/// Moves a registration on by one event.
pub fn advance(stage: Stage, event: Event<'_>) -> (next: (Stage, Action))
    ensures
        (next.0@, next.1@) == transition(stage@, event@),
{
    match stage {
        Stage::Received => match event {
            Event::Submitted { raw, now } => {
                match candidate(raw, now) {
                    Ok(user) => {
                        let name = user.username().to_owned();
                        (Stage::Validated(user), Action::Find(name))
                    },
                    Err(reason) => (
                        Stage::Finished(Outcome::RejectedInvalid(reason)),
                        Action::Stop,
                    ),
                }
            },
            _ => (Stage::Finished(Outcome::Failed), Action::Stop),
        },
        Stage::Validated(user) => match event {
            Event::LookedUp(Lookup::Found(_)) => (
                Stage::Finished(Outcome::RejectedDuplicate),
                Action::Stop,
            ),
            Event::LookedUp(Lookup::NotFound) => {
                let account = user.clone();
                (Stage::Checked(user), Action::Insert(account))
            },
            _ => (Stage::Finished(Outcome::Failed), Action::Stop),
        },
        Stage::Checked(user) => match event {
            Event::Stored(Ok(_)) => {
                let reference = location(user.username());
                (Stage::Finished(Outcome::Inserted { location: reference }), Action::Stop)
            },
            Event::Stored(Err(StoreError::Conflict)) => (
                Stage::Finished(Outcome::RejectedDuplicate),
                Action::Stop,
            ),
            _ => (Stage::Finished(Outcome::Failed), Action::Stop),
        },
        Stage::Finished(outcome) => (Stage::Finished(outcome), Action::Stop),
    }
}

} // verus!
