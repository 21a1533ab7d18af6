//! Accounts.
//!
//! An account is a username, the moment it was created, the moment it was last
//! seen, and a role tag. Moments are kept as sortable text and compared in
//! dictionary order.

use vstd::prelude::*;
use crate::clock::now_rfc3339;
use crate::text::{at_most, chars_of, chars_equal, chars_precede};

verus! {

/// Role tag of an administrator.
pub const ROLE_ADMIN: u32 = 0;

/// Role tag of a moderator.
pub const ROLE_MOD: u32 = 1;

/// Role tag of an ordinary account, the only one that registration hands out.
pub const ROLE_USER: u32 = 2;

/// Whether `role` is one of the three role tags.
pub open spec fn valid_role(role: u32) -> bool {
    role == ROLE_ADMIN || role == ROLE_MOD || role == ROLE_USER
}

/// The three roles.
#[derive(Clone, Copy, Debug, PartialEq, Eq, Structural)]
pub enum Role {
    Admin,
    Mod,
    User,
}

impl Role {
    /// The tag that stands for this role.
    pub open spec fn tag(self) -> u32 {
        match self {
            Role::Admin => ROLE_ADMIN,
            Role::Mod => ROLE_MOD,
            Role::User => ROLE_USER,
        }
    }

    /// Returns the tag that stands for this role.
    pub fn code(self) -> (code: u32)
        ensures
            code == self.tag(),
            valid_role(code),
    {
        match self {
            Role::Admin => ROLE_ADMIN,
            Role::Mod => ROLE_MOD,
            Role::User => ROLE_USER,
        }
    }

    /// Returns the role that `code` stands for, if it stands for one.
    pub fn from_code(code: u32) -> (role: Option<Role>)
        ensures
            role.is_some() == valid_role(code),
            role matches Some(r) ==> r.tag() == code,
    {
        if code == ROLE_ADMIN {
            Some(Role::Admin)
        } else if code == ROLE_MOD {
            Some(Role::Mod)
        } else if code == ROLE_USER {
            Some(Role::User)
        } else {
            None
        }
    }
}

/// What an account is, as plain mathematical data.
pub struct Account {
    pub username: Seq<char>,
    pub created_at: Seq<char>,
    pub last_seen_at: Seq<char>,
    pub role: u32,
}

impl Account {
    /// An account carries one of the three role tags and was not last seen
    /// before it was created.
    pub open spec fn well_formed(self) -> bool {
        &&& valid_role(self.role)
        &&& at_most(self.created_at, self.last_seen_at)
    }

    /// The account that registration creates for `username` at the moment `now`.
    pub open spec fn fresh(username: Seq<char>, role: u32, now: Seq<char>) -> Account {
        Account { username, created_at: now, last_seen_at: now, role }
    }
}

/// A stored account. Its username and creation time never change.
#[derive(Debug)]
pub struct User {
    username: String,
    last_online: String,
    created: String,
    role: u32,
}

impl View for User {
    type V = Account;

    closed spec fn view(&self) -> Account {
        Account {
            username: self.username@,
            created_at: self.created@,
            last_seen_at: self.last_online@,
            role: self.role,
        }
    }
}

impl User {
    #[verifier::type_invariant]
    closed spec fn inv(&self) -> bool {
        self@.well_formed()
    }

    /// Creates the account `username` with the tag `role`, created and last
    /// seen at the moment of the call.
    pub fn new(username: String, role: u32) -> (user: User)
        requires
            valid_role(role),
        ensures
            user@.username == username@,
            user@.role == role,
            user@.last_seen_at == user@.created_at,
            user@.well_formed(),
    {
        let now = now_rfc3339();
        User::stamped(username, role, now)
    }

    /// Creates the account `username` with the tag `role`, created and last
    /// seen at the moment `now`.
    pub fn stamped(username: String, role: u32, now: String) -> (user: User)
        requires
            valid_role(role),
        ensures
            user@ == Account::fresh(username@, role, now@),
            user@.well_formed(),
    {
        let seen = now.clone();
        User { username, last_online: seen, created: now, role }
    }

    /// Puts an account together from its four parts, as when a stored row is
    /// read back. There is no such account where `role` is not a role tag or
    /// `last_online` comes before `created`.
    pub fn from_parts(username: String, last_online: String, created: String, role: u32) -> (user:
        Option<User>)
        ensures
            user.is_some() == (Account {
                username: username@,
                created_at: created@,
                last_seen_at: last_online@,
                role,
            }).well_formed(),
            user matches Some(u) ==> u@ == (Account {
                username: username@,
                created_at: created@,
                last_seen_at: last_online@,
                role,
            }),
    {
        if role > ROLE_USER {
            return None;
        }
        let from = chars_of(created.as_str());
        let to = chars_of(last_online.as_str());
        if chars_equal(&from, &to) || chars_precede(&from, &to) {
            Some(User { username, last_online, created, role })
        } else {
            None
        }
    }

    /// Changes the role tag and nothing else.
    pub fn set_role(&mut self, role: u32)
        requires
            valid_role(role),
        ensures
            final(self)@ == (Account { role, ..old(self)@ }),
            final(self)@.well_formed(),
    {
        proof {
            use_type_invariant(&*self);
        }
        self.role = role;
    }

    /// The username. Every account that exists is well formed.
    pub fn username(&self) -> (name: &str)
        ensures
            name@ == self@.username,
            self@.well_formed(),
    {
        proof {
            use_type_invariant(self);
        }
        self.username.as_str()
    }

    /// The moment the account was last seen.
    pub fn last_online(&self) -> (moment: &str)
        ensures
            moment@ == self@.last_seen_at,
    {
        self.last_online.as_str()
    }

    /// The moment the account was created.
    pub fn created(&self) -> (moment: &str)
        ensures
            moment@ == self@.created_at,
    {
        self.created.as_str()
    }

    /// The role tag.
    pub fn role(&self) -> (role: u32)
        ensures
            role == self@.role,
            valid_role(role),
    {
        proof {
            use_type_invariant(self);
        }
        self.role
    }
}

impl Clone for User {
    fn clone(&self) -> (copy: User)
        ensures
            copy@ == self@,
    {
        proof {
            use_type_invariant(self);
        }
        User {
            username: self.username.clone(),
            last_online: self.last_online.clone(),
            created: self.created.clone(),
            role: self.role,
        }
    }
}

} // verus!
