//! The mathematical model of the store: spec predicates over the views of
//! the four tables. Every contract of the store speaks in these terms.

use vstd::prelude::*;
use crate::records::{AccountView, BannedIPs, IpBanView, LoginRecView, LoginRow, User};
use crate::timestamp::parse_epoch_spec;

verus! {

/// The image of one fetched account row, in the column order of the
/// account tables: username, password hash, salt, public key.
pub open spec fn account_of_row(r: (String, String, String, String)) -> AccountView {
    AccountView { name: r.0@, password_hash: r.1@, salt: r.2@, public_key: r.3@ }
}

/// The image of a sequence of fetched account rows.
pub open spec fn account_rows_view(rows: Seq<(String, String, String, String)>) -> Seq<
    AccountView,
> {
    Seq::new(rows.len(), |i: int| account_of_row(rows[i]))
}

/// The image of one fetched login row: the username and the parsed
/// persisted timestamp (`None` when the text was not a readable numeral).
pub open spec fn login_rec_of_row(r: (String, String)) -> LoginRecView {
    LoginRecView { username: r.0@, time: parse_epoch_spec(r.1@) }
}

/// A fetched time-bounded ban row is readable: both persisted timestamps
/// parse, and the ban begins no later than it expires.
pub open spec fn ip_row_ok(r: (String, String, String)) -> bool {
    &&& parse_epoch_spec(r.1@) is Some
    &&& parse_epoch_spec(r.2@) is Some
    &&& parse_epoch_spec(r.1@)->Some_0 <= parse_epoch_spec(r.2@)->Some_0
}

/// The image of one readable time-bounded ban row.
pub open spec fn ip_ban_of_row(r: (String, String, String)) -> IpBanView {
    IpBanView {
        username: r.0@,
        banned_on: parse_epoch_spec(r.1@)->Some_0,
        expiration: parse_epoch_spec(r.2@)->Some_0,
    }
}

/// The image of a sequence of fetched time-bounded ban rows.
pub open spec fn ip_rows_view(rows: Seq<(String, String, String)>) -> Seq<IpBanView> {
    Seq::new(rows.len(), |i: int| ip_ban_of_row(rows[i]))
}

/// The image of a sequence of account rows.
pub open spec fn accounts_view(v: Seq<User>) -> Seq<AccountView> {
    Seq::new(v.len(), |i: int| v[i]@)
}

/// The image of a sequence of stored login rows.
pub open spec fn logins_view(v: Seq<LoginRow>) -> Seq<LoginRecView> {
    Seq::new(v.len(), |i: int| v[i]@)
}

/// The image of a sequence of time-bounded ban rows.
pub open spec fn ip_bans_view(v: Seq<BannedIPs>) -> Seq<IpBanView> {
    Seq::new(v.len(), |i: int| v[i]@)
}

/// Some row of `s` carries the username `name`.
pub open spec fn has_user(s: Seq<AccountView>, name: Seq<char>) -> bool {
    exists|i: int| 0 <= i < s.len() && s[i].name == name
}

/// The index of the row carrying `name`; meaningful only when `has_user`
/// holds, and unique under `unique_names`.
pub open spec fn user_index(s: Seq<AccountView>, name: Seq<char>) -> int {
    choose|i: int| 0 <= i < s.len() && s[i].name == name
}

/// The row carrying `name`; meaningful only when `has_user` holds.
pub open spec fn user_of(s: Seq<AccountView>, name: Seq<char>) -> AccountView {
    s[user_index(s, name)]
}

/// No two rows of `s` carry the same username.
pub open spec fn unique_names(s: Seq<AccountView>) -> bool {
    forall|i: int, j: int| 0 <= i < j < s.len() ==> s[i].name != s[j].name
}

/// Some row matches both the username and the password hash.
pub open spec fn credentials_match(s: Seq<AccountView>, name: Seq<char>, pw: Seq<char>) -> bool {
    exists|i: int| 0 <= i < s.len() && s[i].name == name && s[i].password_hash == pw
}

/// The index of the row matching both factors; meaningful only when
/// `credentials_match` holds.
pub open spec fn credentials_index(s: Seq<AccountView>, name: Seq<char>, pw: Seq<char>) -> int {
    choose|i: int| 0 <= i < s.len() && s[i].name == name && s[i].password_hash == pw
}

/// Some row matches username, password hash and security key at once.
pub open spec fn tfa_matches(
    s: Seq<AccountView>,
    name: Seq<char>,
    pw: Seq<char>,
    key: Seq<char>,
) -> bool {
    exists|i: int|
        0 <= i < s.len() && s[i].name == name && s[i].password_hash == pw
            && s[i].public_key == key
}

/// How many rows of `s` carry the security key `key`.
pub open spec fn key_count(s: Seq<AccountView>, key: Seq<char>) -> nat
    decreases s.len(),
{
    if s.len() == 0 {
        0
    } else {
        key_count(s.drop_last(), key) + (if s.last().public_key == key {
            1nat
        } else {
            0nat
        })
    }
}

/// A security-key-only login succeeds iff the key is non-empty and exactly
/// one account carries it.
pub open spec fn key_login_spec(s: Seq<AccountView>, key: Seq<char>) -> bool {
    key.len() > 0 && key_count(s, key) == 1
}

/// A time-bounded ban is active at `now` iff its row exists and `now` lies
/// strictly before the expiration; expired rows stay queryable but inactive.
pub open spec fn ip_banned_spec(s: Seq<IpBanView>, name: Seq<char>, now: u64) -> bool {
    exists|i: int| 0 <= i < s.len() && s[i].username == name && now < s[i].expiration
}

/// Every time-bounded ban begins no later than it expires.
pub open spec fn ip_bans_ordered(s: Seq<IpBanView>) -> bool {
    forall|i: int| 0 <= i < s.len() ==> s[i].banned_on <= s[i].expiration
}

/// The ordering key of a stored login row: its persisted timestamp, with
/// rows whose timestamp was unreadable sorting last — they are reported
/// at "now", the latest reportable point.
pub open spec fn login_key(r: LoginRecView) -> u64 {
    crate::timestamp::stored_key(r.time)
}

/// Login rows stand oldest-to-newest by their persisted timestamp.
pub open spec fn logins_sorted(s: Seq<LoginRecView>) -> bool {
    forall|i: int, j: int| 0 <= i <= j < s.len() ==> login_key(s[i]) <= login_key(s[j])
}

/// Where a login row with ordering key `k` is placed among `s`: directly
/// after the rows whose key is at most `k`, keeping arrival order among
/// equal keys.
pub open spec fn insert_pos(s: Seq<LoginRecView>, k: u64) -> int
    decreases s.len(),
{
    if s.len() == 0 {
        0
    } else if login_key(s[0]) <= k {
        1 + insert_pos(s.drop_first(), k)
    } else {
        0
    }
}

/// The store image built from fetched login rows: each row in turn placed
/// at its ordering position.
pub open spec fn build_logins_spec(rows: Seq<(String, String)>) -> Seq<LoginRecView>
    decreases rows.len(),
{
    if rows.len() == 0 {
        Seq::empty()
    } else {
        let prev = build_logins_spec(rows.drop_last());
        let rv = login_rec_of_row(rows.last());
        prev.insert(insert_pos(prev, login_key(rv)), rv)
    }
}

/// The stored security key of a new account: the given key, or the empty
/// key when no security key is bound.
pub open spec fn key_view(k: Option<&str>) -> Seq<char> {
    match k {
        Some(s) => s@,
        None => Seq::empty(),
    }
}

/// Appending a row with a fresh username keeps usernames unique.
pub proof fn lemma_unique_push(s: Seq<AccountView>, u: AccountView)
    requires
        unique_names(s),
        !has_user(s, u.name),
    ensures
        unique_names(s.push(u)),
{
    assert forall|a: int, b: int| 0 <= a < b < s.push(u).len() implies s.push(u)[a].name != s.push(
        u,
    )[b].name by {
        if b < s.len() {
            assert(s.push(u)[a] == s[a]);
            assert(s.push(u)[b] == s[b]);
        } else {
            assert(s.push(u)[b] == u);
            assert(s.push(u)[a] == s[a]);
            if s[a].name == u.name {
                assert(has_user(s, u.name));
                assert(false);
            }
        }
    }
}

/// Removing a row keeps usernames unique.
pub proof fn lemma_unique_remove(s: Seq<AccountView>, i: int)
    requires
        unique_names(s),
        0 <= i < s.len(),
    ensures
        unique_names(s.remove(i)),
{
    s.remove_ensures(i);
    assert forall|a: int, b: int| 0 <= a < b < s.remove(i).len() implies s.remove(i)[a].name != s.remove(
        i,
    )[b].name by {
        let a0: int = if a < i { a } else { a + 1 };
        let b0: int = if b < i { b } else { b + 1 };
        assert(s.remove(i)[a] == s[a0]);
        assert(s.remove(i)[b] == s[b0]);
    }
}

/// The mathematical image of the whole store.
#[verifier::ext_equal]
pub ghost struct StoreView {
    pub users: Seq<AccountView>,
    pub bans: Seq<AccountView>,
    pub logins: Seq<LoginRecView>,
    pub ip_bans: Seq<IpBanView>,
}

/// Well-formedness of a store image: usernames are unique among accounts
/// and among ban rows, login rows stand in timestamp order, and every
/// time-bounded ban begins no later than it expires.
pub open spec fn view_wf(v: StoreView) -> bool {
    &&& unique_names(v.users)
    &&& unique_names(v.bans)
    &&& logins_sorted(v.logins)
    &&& ip_bans_ordered(v.ip_bans)
}

} // verus!
