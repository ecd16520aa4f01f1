use vstd::prelude::*;

verus! {

/// An account row: the unique username, the pre-computed password hash and
/// salt, and the public identifier of the account's security key (empty when
/// no security key is bound).
pub struct User {
    pub name: String,
    pub public_key: String,
    pub password_hash: String,
    pub salt: String,
}

/// The mathematical image of an account row.
#[verifier::ext_equal]
pub ghost struct AccountView {
    pub name: Seq<char>,
    pub public_key: Seq<char>,
    pub password_hash: Seq<char>,
    pub salt: Seq<char>,
}

impl View for User {
    type V = AccountView;

    open spec fn view(&self) -> AccountView {
        AccountView {
            name: self.name@,
            public_key: self.public_key@,
            password_hash: self.password_hash@,
            salt: self.salt@,
        }
    }
}

impl User {
    /// A field-for-field copy of the row.
    pub fn duplicate(&self) -> (r: User)
        ensures
            r@ == self@,
    {
        User {
            name: self.name.clone(),
            public_key: self.public_key.clone(),
            password_hash: self.password_hash.clone(),
            salt: self.salt.clone(),
        }
    }
}

/// A stored login-audit row: the username and the persisted absolute
/// timestamp in epoch seconds, or `None` when the persisted text was not a
/// readable timestamp.
pub struct LoginRow {
    pub username: String,
    pub time: Option<u64>,
}

/// The mathematical image of a stored login-audit row.
#[verifier::ext_equal]
pub ghost struct LoginRecView {
    pub username: Seq<char>,
    pub time: Option<u64>,
}

impl View for LoginRow {
    type V = LoginRecView;

    open spec fn view(&self) -> LoginRecView {
        LoginRecView { username: self.username@, time: self.time }
    }
}

/// A login record as reported to callers: the username and the login time
/// expressed on the caller's monotonic clock.
pub struct UserLogin {
    pub username: String,
    pub time: u64,
}

/// The mathematical image of a reported login record.
#[verifier::ext_equal]
pub ghost struct LoginOutView {
    pub username: Seq<char>,
    pub time: u64,
}

impl View for UserLogin {
    type V = LoginOutView;

    open spec fn view(&self) -> LoginOutView {
        LoginOutView { username: self.username@, time: self.time }
    }
}

/// A time-bounded ban: the username it is associated with, and the absolute
/// epoch-second times at which the ban began and at which it expires.
pub struct BannedIPs {
    pub username: String,
    pub banned_on: u64,
    pub expiration: u64,
}

/// The mathematical image of a time-bounded ban row.
#[verifier::ext_equal]
pub ghost struct IpBanView {
    pub username: Seq<char>,
    pub banned_on: u64,
    pub expiration: u64,
}

impl View for BannedIPs {
    type V = IpBanView;

    open spec fn view(&self) -> IpBanView {
        IpBanView { username: self.username@, banned_on: self.banned_on, expiration: self.expiration }
    }
}

impl BannedIPs {
    /// A field-for-field copy of the row.
    pub fn duplicate(&self) -> (r: BannedIPs)
        ensures
            r@ == self@,
    {
        BannedIPs {
            username: self.username.clone(),
            banned_on: self.banned_on,
            expiration: self.expiration,
        }
    }
}

} // verus!
