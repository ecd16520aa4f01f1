//! The store facade: the single entry point owning the storage handle.
//!
//! The facade keeps the authoritative image of the four tables in memory,
//! verified against [`StoreView`](crate::model::StoreView), and mirrors
//! every mutation to the durable SQLite store through the trusted wrappers
//! of [`storage`](crate::storage). Reads are answered from the image, so a
//! verification query compares all of its factors against one consistent
//! state in a single atomic lookup, and no partial match ever escapes.
//!
//! Callers that run concurrently must serialize access through a
//! mutual-exclusion guard held around each whole call; every method already
//! treats its check-then-act sequence as one operation on `&mut self`.

use vstd::prelude::*;
use crate::errors::AuthError;
use crate::model::{
    account_rows_view, accounts_view, build_logins_spec, credentials_match, has_user, insert_pos,
    ip_banned_spec, ip_bans_ordered, ip_bans_view, ip_row_ok, ip_rows_view, key_count,
    key_login_spec, login_key, login_rec_of_row, logins_sorted, logins_view, tfa_matches,
    unique_names, user_index, user_of, view_wf, StoreView,
};
use crate::records::{AccountView, BannedIPs, IpBanView, LoginRecView, LoginRow, User, UserLogin};
use crate::strutil::str_eq;
use crate::timestamp::{
    convert_to_monotonic, lemma_reconcile_monotone, parse_epoch_seconds, predates_origin,
    reconcile_ok, reconcile_spec,
};
use crate::storage;

verus! {

/// Finds the row carrying `name`, if any.
pub fn find_by_name(v: &Vec<User>, name: &str) -> (r: Option<usize>)
    ensures
        match r {
            Some(i) => i < v@.len() && accounts_view(v@)[i as int].name == name@,
            None => true,
        },
        r is Some <==> has_user(accounts_view(v@), name@),
{
    let mut i: usize = 0;
    while i < v.len()
        invariant
            i <= v@.len(),
            forall|j: int| 0 <= j < i ==> accounts_view(v@)[j].name != name@,
        decreases v@.len() - i,
    {
        if str_eq(v[i].name.as_str(), name) {
            assert(accounts_view(v@)[i as int].name == name@);
            return Some(i);
        }
        i = i + 1;
    }
    assert(!has_user(accounts_view(v@), name@));
    None
}

/// Finds the row matching both the username and the password hash, if any.
pub fn find_credentials(v: &Vec<User>, name: &str, pw: &str) -> (r: Option<usize>)
    ensures
        match r {
            Some(i) => i < v@.len() && accounts_view(v@)[i as int].name == name@
                && accounts_view(v@)[i as int].password_hash == pw@,
            None => true,
        },
        r is Some <==> credentials_match(accounts_view(v@), name@, pw@),
{
    let mut i: usize = 0;
    while i < v.len()
        invariant
            i <= v@.len(),
            forall|j: int| 0 <= j < i
                ==> !(accounts_view(v@)[j].name == name@ && accounts_view(v@)[j].password_hash
                == pw@),
        decreases v@.len() - i,
    {
        if str_eq(v[i].name.as_str(), name) && str_eq(v[i].password_hash.as_str(), pw) {
            assert(accounts_view(v@)[i as int].name == name@);
            return Some(i);
        }
        i = i + 1;
    }
    assert(!credentials_match(accounts_view(v@), name@, pw@));
    None
}

/// True iff some row matches username, password hash and security key at
/// once; the three factors are compared against one row in one pass.
pub fn match_tfa(v: &Vec<User>, name: &str, pw: &str, key: &str) -> (r: bool)
    ensures
        r == tfa_matches(accounts_view(v@), name@, pw@, key@),
{
    let mut i: usize = 0;
    while i < v.len()
        invariant
            i <= v@.len(),
            forall|j: int| 0 <= j < i
                ==> !(accounts_view(v@)[j].name == name@ && accounts_view(v@)[j].password_hash
                == pw@ && accounts_view(v@)[j].public_key == key@),
        decreases v@.len() - i,
    {
        if str_eq(v[i].name.as_str(), name) && str_eq(v[i].password_hash.as_str(), pw) && str_eq(
            v[i].public_key.as_str(),
            key,
        ) {
            assert(accounts_view(v@)[i as int].name == name@);
            return true;
        }
        i = i + 1;
    }
    assert(!tfa_matches(accounts_view(v@), name@, pw@, key@));
    false
}

/// True iff the key is non-empty and exactly one row carries it.
pub fn match_security_key(v: &Vec<User>, key: &str) -> (r: bool)
    ensures
        r == key_login_spec(accounts_view(v@), key@),
{
    if key.unicode_len() == 0 {
        return false;
    }
    let ghost s = accounts_view(v@);
    let mut count: u64 = 0;
    let mut i: usize = 0;
    while i < v.len()
        invariant
            i <= v@.len(),
            s == accounts_view(v@),
            count <= i,
            count == key_count(s.take(i as int), key@),
        decreases v@.len() - i,
    {
        proof {
            assert(s.take(i + 1).drop_last() =~= s.take(i as int));
            assert(s.take(i + 1).last() == s[i as int]);
        }
        if str_eq(v[i].public_key.as_str(), key) {
            assert(s[i as int].public_key == key@);
            count = count + 1;
        }
        i = i + 1;
    }
    proof {
        assert(s.take(v@.len() as int) =~= s);
    }
    count == 1
}

/// True iff a ban row for `name` is active at `now`: present, with `now`
/// strictly before its expiration.
pub fn match_ip_ban(v: &Vec<BannedIPs>, name: &str, now: u64) -> (r: bool)
    ensures
        r == ip_banned_spec(ip_bans_view(v@), name@, now),
{
    let mut i: usize = 0;
    while i < v.len()
        invariant
            i <= v@.len(),
            forall|j: int| 0 <= j < i
                ==> !(ip_bans_view(v@)[j].username == name@ && now < ip_bans_view(v@)[j].expiration),
        decreases v@.len() - i,
    {
        if now < v[i].expiration && str_eq(v[i].username.as_str(), name) {
            assert(ip_bans_view(v@)[i as int].username == name@);
            return true;
        }
        i = i + 1;
    }
    assert(!ip_banned_spec(ip_bans_view(v@), name@, now));
    false
}

/// The ordering key of a stored login row.
pub fn login_key_exec(r: &LoginRow) -> (k: u64)
    ensures
        k == login_key(r@),
{
    match r.time {
        Some(t) => t,
        None => u64::MAX,
    }
}

/// The scan of `insert_login_sorted` stops exactly at `insert_pos`.
proof fn lemma_insert_pos_at(s: Seq<LoginRecView>, k: u64, i: int)
    requires
        0 <= i <= s.len(),
        forall|j: int| 0 <= j < i ==> login_key(s[j]) <= k,
        i < s.len() ==> login_key(s[i]) > k,
    ensures
        insert_pos(s, k) == i,
    decreases s.len(),
{
    if s.len() > 0 && i > 0 {
        lemma_insert_pos_at(s.drop_first(), k, i - 1);
    }
}

/// Places a login row directly after the stored rows whose ordering key is
/// at most its own, so that a store sorted oldest-to-newest stays sorted
/// and rows with equal timestamps keep their arrival order.
pub fn insert_login_sorted(v: &mut Vec<LoginRow>, row: LoginRow)
    ensures
        logins_view(final(v)@) == logins_view(old(v)@).insert(
            insert_pos(logins_view(old(v)@), login_key(row@)),
            row@,
        ),
        logins_sorted(logins_view(old(v)@)) ==> logins_sorted(logins_view(final(v)@)),
{
    let k = login_key_exec(&row);
    let mut i: usize = 0;
    while i < v.len() && login_key_exec(&v[i]) <= k
        invariant
            v@ == old(v)@,
            i <= v@.len(),
            k == login_key(row@),
            forall|j: int| 0 <= j < i ==> login_key(logins_view(v@)[j]) <= k,
        decreases v@.len() - i,
    {
        i = i + 1;
    }
    proof {
        lemma_insert_pos_at(logins_view(v@), k, i as int);
    }
    let ghost s = logins_view(old(v)@);
    let ghost pos = i as int;
    v.insert(i, row);
    proof {
        s.insert_ensures(pos, row@);
        assert(logins_view(v@) =~= s.insert(pos, row@));
        if logins_sorted(s) {
            let t = s.insert(pos, row@);
            assert forall|a: int, b: int| 0 <= a <= b < t.len() implies login_key(t[a])
                <= login_key(t[b]) by {
                if a < pos && b < pos {
                    assert(t[a] == s[a] && t[b] == s[b]);
                } else if a < pos && b == pos {
                    assert(t[a] == s[a] && login_key(s[a]) <= k);
                } else if a < pos && b > pos {
                    assert(t[a] == s[a] && t[b] == s[b - 1]);
                } else if a == pos && b == pos {
                } else if a == pos && b > pos {
                    assert(t[b] == s[b - 1] && pos <= b - 1 < s.len());
                    assert(login_key(s[pos]) > k);
                    assert(login_key(s[b - 1]) >= login_key(s[pos]));
                } else {
                    assert(t[a] == s[a - 1] && t[b] == s[b - 1]);
                }
            }
        }
    }
}

/// Builds the in-memory account image from fetched rows, refusing a
/// corrupt table in which two rows share a username.
pub fn build_accounts(rows: &Vec<(String, String, String, String)>) -> (r: Result<
    Vec<User>,
    AuthError,
>)
    ensures
        match r {
            Ok(v) => accounts_view(v@) == account_rows_view(rows@) && unique_names(
                account_rows_view(rows@),
            ),
            Err(e) => e == AuthError::StorageUnavailable && !unique_names(
                account_rows_view(rows@),
            ),
        },
{
    let mut out: Vec<User> = Vec::new();
    let mut i: usize = 0;
    while i < rows.len()
        invariant
            i <= rows@.len(),
            out@.len() == i,
            forall|j: int| 0 <= j < i ==> accounts_view(out@)[j] == account_rows_view(rows@)[j],
            unique_names(accounts_view(out@)),
        decreases rows@.len() - i,
    {
        if find_by_name(&out, rows[i].0.as_str()).is_some() {
            proof {
                let j = choose|j: int|
                    0 <= j < out@.len() && accounts_view(out@)[j].name == rows@[i as int].0@;
                assert(account_rows_view(rows@)[j].name == account_rows_view(rows@)[i as int].name);
                assert(!unique_names(account_rows_view(rows@)));
            }
            return Err(AuthError::StorageUnavailable);
        }
        let ghost prev = out@;
        let ghost nm = rows@[i as int].0@;
        assert(!has_user(accounts_view(prev), nm));
        let u = User {
            name: rows[i].0.clone(),
            password_hash: rows[i].1.clone(),
            salt: rows[i].2.clone(),
            public_key: rows[i].3.clone(),
        };
        out.push(u);
        proof {
            assert forall|a: int, b: int|
                0 <= a < b < accounts_view(out@).len() implies accounts_view(out@)[a].name
                != accounts_view(out@)[b].name by {
                if b < prev.len() {
                    assert(accounts_view(out@)[a] == accounts_view(prev)[a]);
                    assert(accounts_view(out@)[b] == accounts_view(prev)[b]);
                } else {
                    assert(accounts_view(out@)[b].name == nm);
                    assert(accounts_view(out@)[a] == accounts_view(prev)[a]);
                    if accounts_view(prev)[a].name == nm {
                        assert(has_user(accounts_view(prev), nm));
                        assert(false);
                    }
                }
            }
        }
        i = i + 1;
    }
    proof {
        assert(accounts_view(out@) =~= account_rows_view(rows@));
    }
    Ok(out)
}

/// Builds the in-memory login image from fetched rows: each persisted
/// timestamp is parsed, and every row is placed at its ordering position,
/// so the image stands oldest-to-newest.
pub fn build_logins(rows: &Vec<(String, String)>) -> (r: Vec<LoginRow>)
    ensures
        logins_view(r@) == build_logins_spec(rows@),
        logins_sorted(logins_view(r@)),
{
    let mut out: Vec<LoginRow> = Vec::new();
    proof {
        assert(logins_view(out@) =~= build_logins_spec(rows@.take(0)));
    }
    let mut i: usize = 0;
    while i < rows.len()
        invariant
            i <= rows@.len(),
            logins_view(out@) == build_logins_spec(rows@.take(i as int)),
            logins_sorted(logins_view(out@)),
        decreases rows@.len() - i,
    {
        let row = LoginRow {
            username: rows[i].0.clone(),
            time: parse_epoch_seconds(rows[i].1.as_str()),
        };
        assert(row@ == login_rec_of_row(rows@[i as int]));
        insert_login_sorted(&mut out, row);
        proof {
            assert(rows@.take(i + 1).drop_last() =~= rows@.take(i as int));
            assert(rows@.take(i + 1).last() == rows@[i as int]);
        }
        i = i + 1;
    }
    proof {
        assert(rows@.take(rows@.len() as int) =~= rows@);
    }
    out
}

/// Builds the in-memory image of the time-bounded bans from fetched rows,
/// refusing a corrupt table in which a timestamp is unreadable or a ban
/// begins after it expires.
pub fn build_ip_bans(rows: &Vec<(String, String, String)>) -> (r: Result<Vec<BannedIPs>, AuthError>)
    ensures
        match r {
            Ok(v) => ip_bans_view(v@) == ip_rows_view(rows@) && ip_bans_ordered(
                ip_rows_view(rows@),
            ),
            Err(e) => e == AuthError::StorageUnavailable && exists|i: int|
                0 <= i < rows@.len() && !ip_row_ok(rows@[i]),
        },
{
    let mut out: Vec<BannedIPs> = Vec::new();
    let mut i: usize = 0;
    while i < rows.len()
        invariant
            i <= rows@.len(),
            out@.len() == i,
            forall|j: int| 0 <= j < i ==> ip_row_ok(rows@[j]),
            forall|j: int| 0 <= j < i ==> ip_bans_view(out@)[j] == ip_rows_view(rows@)[j],
        decreases rows@.len() - i,
    {
        let banned_on = match parse_epoch_seconds(rows[i].1.as_str()) {
            Some(t) => t,
            None => {
                return Err(AuthError::StorageUnavailable);
            },
        };
        let expiration = match parse_epoch_seconds(rows[i].2.as_str()) {
            Some(t) => t,
            None => {
                return Err(AuthError::StorageUnavailable);
            },
        };
        if banned_on > expiration {
            return Err(AuthError::StorageUnavailable);
        }
        out.push(BannedIPs { username: rows[i].0.clone(), banned_on, expiration });
        i = i + 1;
    }
    proof {
        assert(ip_bans_view(out@) =~= ip_rows_view(rows@));
        assert forall|j: int| 0 <= j < ip_rows_view(rows@).len() implies ip_rows_view(rows@)[j].banned_on
            <= ip_rows_view(rows@)[j].expiration by {
            assert(ip_row_ok(rows@[j]));
        }
    }
    Ok(out)
}

/// A field-for-field copy of a sequence of account rows.
pub fn clone_accounts(v: &Vec<User>) -> (r: Vec<User>)
    ensures
        accounts_view(r@) == accounts_view(v@),
{
    let mut out: Vec<User> = Vec::new();
    let mut i: usize = 0;
    while i < v.len()
        invariant
            i <= v@.len(),
            out@.len() == i,
            forall|j: int| 0 <= j < i ==> accounts_view(out@)[j] == accounts_view(v@)[j],
        decreases v@.len() - i,
    {
        out.push(v[i].duplicate());
        i = i + 1;
    }
    proof {
        assert(accounts_view(out@) =~= accounts_view(v@));
    }
    out
}

/// A field-for-field copy of a sequence of time-bounded ban rows.
pub fn clone_ip_bans(v: &Vec<BannedIPs>) -> (r: Vec<BannedIPs>)
    ensures
        ip_bans_view(r@) == ip_bans_view(v@),
{
    let mut out: Vec<BannedIPs> = Vec::new();
    let mut i: usize = 0;
    while i < v.len()
        invariant
            i <= v@.len(),
            out@.len() == i,
            forall|j: int| 0 <= j < i ==> ip_bans_view(out@)[j] == ip_bans_view(v@)[j],
        decreases v@.len() - i,
    {
        out.push(v[i].duplicate());
        i = i + 1;
    }
    proof {
        assert(ip_bans_view(out@) =~= ip_bans_view(v@));
    }
    out
}

/// The store facade. It owns the storage handle and the authoritative
/// in-memory image of the four tables; every mutation is mirrored to the
/// durable store before the image is changed, and any storage fault leaves
/// the image as it was and surfaces as `StorageUnavailable`.
pub struct Db {
    conn: rusqlite::Connection,
    accounts: Vec<User>,
    bans: Vec<User>,
    logins: Vec<LoginRow>,
    ip_bans: Vec<BannedIPs>,
}

impl View for Db {
    type V = StoreView;

    closed spec fn view(&self) -> StoreView {
        StoreView {
            users: accounts_view(self.accounts@),
            bans: accounts_view(self.bans@),
            logins: logins_view(self.logins@),
            ip_bans: ip_bans_view(self.ip_bans@),
        }
    }
}

impl Db {
    /// The store invariant: the image is well-formed.
    pub open spec fn wf(&self) -> bool {
        view_wf(self@)
    }

    /// Opens (creating it as needed) the durable store at `db_path`,
    /// ensures the schema exists, and loads the authoritative image of the
    /// four tables. Any storage or corruption failure surfaces as
    /// `StorageUnavailable` and is fatal at startup: the store must not be
    /// used over a partially initialized schema.
    pub fn init(db_path: &str) -> (r: Result<Db, AuthError>)
        ensures
            r matches Ok(db) ==> db.wf(),
            r is Err ==> r == Err::<Db, AuthError>(AuthError::StorageUnavailable),
    {
        let conn = match storage::open_connection(db_path) {
            Ok(c) => c,
            Err(_) => {
                return Err(AuthError::StorageUnavailable);
            },
        };
        let schema =
            "CREATE TABLE IF NOT EXISTS users (username TEXT NOT NULL, password_hash TEXT NOT NULL, password_salt TEXT NOT NULL, public_key TEXT NOT NULL);
             CREATE TABLE IF NOT EXISTS bans (username TEXT NOT NULL, password_hash TEXT NOT NULL, password_salt TEXT NOT NULL, public_key TEXT NOT NULL);
             CREATE TABLE IF NOT EXISTS user_logins (username TEXT NOT NULL, login_time TEXT NOT NULL);
             CREATE TABLE IF NOT EXISTS ip_bans (username TEXT NOT NULL, banned_on TEXT NOT NULL, expires_on TEXT NOT NULL);";
        if storage::exec_batch(&conn, schema).is_err() {
            return Err(AuthError::StorageUnavailable);
        }
        let user_rows = match storage::query_rows4(
            &conn,
            "SELECT username, password_hash, password_salt, public_key FROM users",
        ) {
            Ok(v) => v,
            Err(_) => {
                return Err(AuthError::StorageUnavailable);
            },
        };
        let ban_rows = match storage::query_rows4(
            &conn,
            "SELECT username, password_hash, password_salt, public_key FROM bans",
        ) {
            Ok(v) => v,
            Err(_) => {
                return Err(AuthError::StorageUnavailable);
            },
        };
        let login_rows = match storage::query_rows2(
            &conn,
            "SELECT username, login_time FROM user_logins",
        ) {
            Ok(v) => v,
            Err(_) => {
                return Err(AuthError::StorageUnavailable);
            },
        };
        let ip_rows = match storage::query_rows3(
            &conn,
            "SELECT username, banned_on, expires_on FROM ip_bans",
        ) {
            Ok(v) => v,
            Err(_) => {
                return Err(AuthError::StorageUnavailable);
            },
        };
        let accounts = match build_accounts(&user_rows) {
            Ok(v) => v,
            Err(e) => {
                return Err(e);
            },
        };
        let bans = match build_accounts(&ban_rows) {
            Ok(v) => v,
            Err(e) => {
                return Err(e);
            },
        };
        let logins = build_logins(&login_rows);
        let ip_bans = match build_ip_bans(&ip_rows) {
            Ok(v) => v,
            Err(e) => {
                return Err(e);
            },
        };
        let db = Db { conn, accounts, bans, logins, ip_bans };
        Ok(db)
    }

    /// True iff an account row for `username` exists; never an error, the
    /// image being in memory.
    pub fn user_exists(&self, username: &str) -> (r: Result<bool, AuthError>)
        ensures
            r == Ok::<bool, AuthError>(has_user(self@.users, username@)),
    {
        Ok(find_by_name(&self.accounts, username).is_some())
    }

    /// The salt supplied when `username` was created; `NotFound` when no
    /// such account exists.
    pub fn ret_salt(&self, username: &str) -> (r: Result<String, AuthError>)
        requires
            self.wf(),
        ensures
            has_user(self@.users, username@) ==> (r matches Ok(s) && s@ == user_of(
                self@.users,
                username@,
            ).salt),
            !has_user(self@.users, username@) ==> r == Err::<String, AuthError>(
                AuthError::NotFound,
            ),
    {
        match find_by_name(&self.accounts, username) {
            Some(i) => {
                proof {
                    let k = user_index(self@.users, username@);
                    assert(0 <= k < self@.users.len() && self@.users[k].name == username@);
                    if k != i as int {
                        assert(self@.users[k].name != self@.users[i as int].name);
                        assert(false);
                    }
                }
                Ok(self.accounts[i].salt.clone())
            },
            None => Err(AuthError::NotFound),
        }
    }

    /// Security-key-only login: true iff the key is non-empty and exactly
    /// one account carries it; a missing or unknown key is `false`, never
    /// an error.
    pub fn login_security_key(&self, key: &str) -> (r: Result<bool, AuthError>)
        ensures
            r == Ok::<bool, AuthError>(key_login_spec(self@.users, key@)),
    {
        Ok(match_security_key(&self.accounts, key))
    }

    /// Two-factor login: true iff one account row matches username,
    /// password hash and security key simultaneously; any single mismatch
    /// is `false`, never an error.
    pub fn login_user_password_tfa(&self, username: &str, password: &str, security_key: &str) -> (r:
        Result<bool, AuthError>)
        ensures
            r == Ok::<bool, AuthError>(
                tfa_matches(self@.users, username@, password@, security_key@),
            ),
    {
        Ok(match_tfa(&self.accounts, username, password, security_key))
    }

    /// Username and password login: true iff one account row matches both
    /// factors.
    pub fn login_user_password(&self, username: &str, password: &str) -> (r: Result<
        bool,
        AuthError,
    >)
        ensures
            r == Ok::<bool, AuthError>(credentials_match(self@.users, username@, password@)),
    {
        Ok(find_credentials(&self.accounts, username, password).is_some())
    }

    /// Every account row, as stored.
    pub fn get_all_users(&self) -> (r: Result<Vec<User>, AuthError>)
        ensures
            r matches Ok(v) && accounts_view(v@) == self@.users,
    {
        Ok(clone_accounts(&self.accounts))
    }

    /// Every banned account row, as stored.
    pub fn get_banned_users(&self) -> (r: Result<Vec<User>, AuthError>)
        ensures
            r matches Ok(v) && accounts_view(v@) == self@.bans,
    {
        Ok(clone_accounts(&self.bans))
    }

    /// The login audit records, oldest-to-newest by stored timestamp, each
    /// reconciled onto the caller's monotonic clock: a record of absolute
    /// age `a` is reported at `now_mono - a`, and a record whose timestamp
    /// is unreadable or out of range is reported at `now_mono` itself,
    /// after every readable record. The reported times are themselves
    /// oldest-to-newest, except for records older than the monotonic
    /// clock's origin, which can only degrade to "now".
    pub fn get_user_logins(&self, now_wall: u64, now_mono: u64) -> (r: Result<
        Vec<UserLogin>,
        AuthError,
    >)
        ensures
            r matches Ok(v) && v@.len() == self@.logins.len() && (forall|i: int|
                0 <= i < v@.len() ==> v@[i]@.username == self@.logins[i].username && v@[i]@.time
                    == reconcile_spec(self@.logins[i].time, now_wall, now_mono)) && ((
            logins_sorted(self@.logins) && (forall|k: int|
                0 <= k < self@.logins.len() ==> !predates_origin(
                    #[trigger] self@.logins[k].time,
                    now_wall,
                    now_mono,
                ))) ==> (forall|i: int, j: int|
                0 <= i <= j < v@.len() ==> #[trigger] v@[i]@.time <= #[trigger] v@[j]@.time)),
    {
        let mut out: Vec<UserLogin> = Vec::new();
        let mut i: usize = 0;
        while i < self.logins.len()
            invariant
                i <= self.logins@.len(),
                out@.len() == i,
                forall|j: int|
                    0 <= j < i ==> out@[j]@.username == logins_view(self.logins@)[j].username
                        && out@[j]@.time == reconcile_spec(
                        logins_view(self.logins@)[j].time,
                        now_wall,
                        now_mono,
                    ),
            decreases self.logins@.len() - i,
        {
            let converted = convert_to_monotonic(self.logins[i].time, now_wall, now_mono);
            out.push(UserLogin { username: self.logins[i].username.clone(), time: converted.0 });
            i = i + 1;
        }
        proof {
            if logins_sorted(self@.logins) && (forall|k: int|
                0 <= k < self@.logins.len() ==> !predates_origin(
                    #[trigger] self@.logins[k].time,
                    now_wall,
                    now_mono,
                )) {
                assert forall|a: int, b: int| 0 <= a <= b < out@.len() implies #[trigger] out@[a]@.time
                    <= #[trigger] out@[b]@.time by {
                    assert(login_key(self@.logins[a]) <= login_key(self@.logins[b]));
                    assert(!predates_origin(self@.logins[a].time, now_wall, now_mono));
                    assert(!predates_origin(self@.logins[b].time, now_wall, now_mono));
                    lemma_reconcile_monotone(
                        self@.logins[a].time,
                        self@.logins[b].time,
                        now_wall,
                        now_mono,
                    );
                }
            }
        }
        Ok(out)
    }

    /// Which login records' timestamps were reconciled faithfully, in the
    /// same order as `get_user_logins`: `false` marks a record whose
    /// conversion degraded to "now" (its stored timestamp was unreadable,
    /// lay in the wall clock's future, or predated the monotonic clock's
    /// origin), so the transport layer can report the degradation
    /// explicitly instead of guessing.
    pub fn get_login_conversion_flags(&self, now_wall: u64, now_mono: u64) -> (r: Vec<bool>)
        ensures
            r@.len() == self@.logins.len(),
            forall|i: int|
                0 <= i < r@.len() ==> r@[i] == reconcile_ok(
                    self@.logins[i].time,
                    now_wall,
                    now_mono,
                ),
    {
        let mut out: Vec<bool> = Vec::new();
        let mut i: usize = 0;
        while i < self.logins.len()
            invariant
                i <= self.logins@.len(),
                out@.len() == i,
                forall|j: int|
                    0 <= j < i ==> out@[j] == reconcile_ok(
                        logins_view(self.logins@)[j].time,
                        now_wall,
                        now_mono,
                    ),
            decreases self.logins@.len() - i,
        {
            let converted = convert_to_monotonic(self.logins[i].time, now_wall, now_mono);
            out.push(converted.1);
            i = i + 1;
        }
        out
    }

    /// Every time-bounded ban row, active or expired, with its absolute
    /// times.
    pub fn get_banned_ips(&self) -> (r: Result<Vec<BannedIPs>, AuthError>)
        ensures
            r matches Ok(v) && ip_bans_view(v@) == self@.ip_bans,
    {
        Ok(clone_ip_bans(&self.ip_bans))
    }

    /// True iff a time-bounded ban for `username` is active at `now`: its
    /// row exists and `now` lies strictly before its expiration.
    pub fn is_ip_banned(&self, username: &str, now: u64) -> (r: Result<bool, AuthError>)
        ensures
            r == Ok::<bool, AuthError>(ip_banned_spec(self@.ip_bans, username@, now)),
    {
        Ok(match_ip_ban(&self.ip_bans, username, now))
    }

    /// Applies the outcome of the mirrored account insert: on success the
    /// row joins the image, otherwise the image is unchanged and the
    /// storage fault is reported.
    fn finish_insert_account(&mut self, u: User, stored: bool) -> (r: Result<(), AuthError>)
        requires
            old(self).wf(),
            !has_user(old(self)@.users, u@.name),
        ensures
            final(self).wf(),
            stored ==> r == Ok::<(), AuthError>(()) && final(self)@ == (StoreView {
                users: old(self)@.users.push(u@),
                ..old(self)@
            }),
            !stored ==> r == Err::<(), AuthError>(AuthError::StorageUnavailable) && final(self)@
                == old(self)@,
    {
        if stored {
            proof {
                crate::model::lemma_unique_push(self@.users, u@);
            }
            let ghost pre = self@;
            self.accounts.push(u);
            proof {
                assert(accounts_view(self.accounts@) =~= pre.users.push(u@));
                assert(self@ =~= (StoreView { users: pre.users.push(u@), ..pre }));
            }
            Ok(())
        } else {
            Err(AuthError::StorageUnavailable)
        }
    }

    /// Applies the outcome of the mirrored account delete: on success the
    /// row leaves the image, otherwise the image is unchanged and the
    /// storage fault is reported.
    fn finish_remove_account(&mut self, i: usize, stored: bool) -> (r: Result<bool, AuthError>)
        requires
            old(self).wf(),
            i < old(self)@.users.len(),
        ensures
            final(self).wf(),
            stored ==> r == Ok::<bool, AuthError>(true) && final(self)@ == (StoreView {
                users: old(self)@.users.remove(i as int),
                ..old(self)@
            }),
            !stored ==> r == Err::<bool, AuthError>(AuthError::StorageUnavailable) && final(self)@
                == old(self)@,
    {
        if stored {
            proof {
                crate::model::lemma_unique_remove(self@.users, i as int);
            }
            let ghost pre = self@;
            self.accounts.remove(i);
            proof {
                assert(accounts_view(self.accounts@) =~= pre.users.remove(i as int));
                assert(self@ =~= (StoreView { users: pre.users.remove(i as int), ..pre }));
            }
            Ok(true)
        } else {
            Err(AuthError::StorageUnavailable)
        }
    }

    /// Applies the outcome of the mirrored ban insert.
    fn finish_insert_ban(&mut self, u: User, stored: bool) -> (r: Result<(), AuthError>)
        requires
            old(self).wf(),
            !has_user(old(self)@.bans, u@.name),
        ensures
            final(self).wf(),
            stored ==> r == Ok::<(), AuthError>(()) && final(self)@ == (StoreView {
                bans: old(self)@.bans.push(u@),
                ..old(self)@
            }),
            !stored ==> r == Err::<(), AuthError>(AuthError::StorageUnavailable) && final(self)@
                == old(self)@,
    {
        if stored {
            proof {
                crate::model::lemma_unique_push(self@.bans, u@);
            }
            let ghost pre = self@;
            self.bans.push(u);
            proof {
                assert(accounts_view(self.bans@) =~= pre.bans.push(u@));
                assert(self@ =~= (StoreView { bans: pre.bans.push(u@), ..pre }));
            }
            Ok(())
        } else {
            Err(AuthError::StorageUnavailable)
        }
    }

    /// Applies the outcome of the mirrored ban delete.
    fn finish_remove_ban(&mut self, i: usize, stored: bool) -> (r: Result<bool, AuthError>)
        requires
            old(self).wf(),
            i < old(self)@.bans.len(),
        ensures
            final(self).wf(),
            stored ==> r == Ok::<bool, AuthError>(true) && final(self)@ == (StoreView {
                bans: old(self)@.bans.remove(i as int),
                ..old(self)@
            }),
            !stored ==> r == Err::<bool, AuthError>(AuthError::StorageUnavailable) && final(self)@
                == old(self)@,
    {
        if stored {
            proof {
                crate::model::lemma_unique_remove(self@.bans, i as int);
            }
            let ghost pre = self@;
            self.bans.remove(i);
            proof {
                assert(accounts_view(self.bans@) =~= pre.bans.remove(i as int));
                assert(self@ =~= (StoreView { bans: pre.bans.remove(i as int), ..pre }));
            }
            Ok(true)
        } else {
            Err(AuthError::StorageUnavailable)
        }
    }

    /// Applies the outcome of the mirrored time-bounded ban insert.
    fn finish_push_ip_ban(&mut self, b: BannedIPs, stored: bool) -> (r: Result<(), AuthError>)
        requires
            old(self).wf(),
            b.banned_on <= b.expiration,
        ensures
            final(self).wf(),
            stored ==> r == Ok::<(), AuthError>(()) && final(self)@ == (StoreView {
                ip_bans: old(self)@.ip_bans.push(b@),
                ..old(self)@
            }),
            !stored ==> r == Err::<(), AuthError>(AuthError::StorageUnavailable) && final(self)@
                == old(self)@,
    {
        if stored {
            let ghost pre = self@;
            let ghost bv = b@;
            self.ip_bans.push(b);
            proof {
                assert(ip_bans_view(self.ip_bans@) =~= pre.ip_bans.push(bv));
                assert(self@ =~= (StoreView { ip_bans: pre.ip_bans.push(bv), ..pre }));
                assert forall|j: int| 0 <= j < self@.ip_bans.len() implies self@.ip_bans[j].banned_on
                    <= self@.ip_bans[j].expiration by {
                    if j < pre.ip_bans.len() {
                        assert(self@.ip_bans[j] == pre.ip_bans[j]);
                    }
                }
            }
            Ok(())
        } else {
            Err(AuthError::StorageUnavailable)
        }
    }

    /// Applies the outcome of the mirrored login-audit insert: on success
    /// the row is placed at its timestamp position in the image.
    fn finish_record_login(&mut self, row: LoginRow, stored: bool) -> (r: Result<(), AuthError>)
        requires
            old(self).wf(),
        ensures
            final(self).wf(),
            stored ==> r == Ok::<(), AuthError>(()) && final(self)@ == (StoreView {
                logins: old(self)@.logins.insert(
                    insert_pos(old(self)@.logins, login_key(row@)),
                    row@,
                ),
                ..old(self)@
            }),
            !stored ==> r == Err::<(), AuthError>(AuthError::StorageUnavailable) && final(self)@
                == old(self)@,
    {
        if stored {
            let ghost pre = self@;
            let ghost rv = row@;
            insert_login_sorted(&mut self.logins, row);
            proof {
                assert(self@ =~= (StoreView {
                    logins: pre.logins.insert(insert_pos(pre.logins, login_key(rv)), rv),
                    ..pre
                }));
            }
            Ok(())
        } else {
            Err(AuthError::StorageUnavailable)
        }
    }

    /// Creates an account: refused with `AlreadyExists` when a row for
    /// `username` is already present, for any credentials; otherwise the
    /// row is written to the durable store and joins the image. The
    /// existence check and the insert form one operation on `&mut self`,
    /// so serialized callers cannot both observe "absent" and both insert.
    pub fn create_account(
        &mut self,
        username: &str,
        password_hash: &str,
        salt: &str,
        public_key: Option<&str>,
    ) -> (r: Result<(), AuthError>)
        requires
            old(self).wf(),
        ensures
            final(self).wf(),
            (r == Err::<(), AuthError>(AuthError::AlreadyExists)) <==> has_user(
                old(self)@.users,
                username@,
            ),
            r is Err ==> final(self)@ == old(self)@ && (r == Err::<(), AuthError>(
                AuthError::AlreadyExists,
            ) || r == Err::<(), AuthError>(AuthError::StorageUnavailable)),
            r is Ok ==> final(self)@ == (StoreView {
                users: old(self)@.users.push(
                    AccountView {
                        name: username@,
                        password_hash: password_hash@,
                        salt: salt@,
                        public_key: crate::model::key_view(public_key),
                    },
                ),
                ..old(self)@
            }),
    {
        if find_by_name(&self.accounts, username).is_some() {
            return Err(AuthError::AlreadyExists);
        }
        let key = match public_key {
            Some(k) => String::from_str(k),
            None => String::new(),
        };
        let u = User {
            name: String::from_str(username),
            password_hash: String::from_str(password_hash),
            salt: String::from_str(salt),
            public_key: key,
        };
        let res = storage::exec_sql4(
            &self.conn,
            "INSERT INTO users (username, password_hash, password_salt, public_key) VALUES (?1, ?2, ?3, ?4)",
            username,
            password_hash,
            salt,
            u.public_key.as_str(),
        );
        let stored = res.is_ok();
        self.finish_insert_account(u, stored)
    }

    /// Deletes the account matching both `username` and `password_hash`:
    /// `NotFound` when no row matches both; otherwise the row is removed
    /// from the durable store and the image, and `true` reports that a row
    /// was indeed removed.
    pub fn delete_account(&mut self, username: &str, password_hash: &str) -> (r: Result<
        bool,
        AuthError,
    >)
        requires
            old(self).wf(),
        ensures
            final(self).wf(),
            (r == Err::<bool, AuthError>(AuthError::NotFound)) <==> !credentials_match(
                old(self)@.users,
                username@,
                password_hash@,
            ),
            r is Err ==> final(self)@ == old(self)@ && (r == Err::<bool, AuthError>(
                AuthError::NotFound,
            ) || r == Err::<bool, AuthError>(AuthError::StorageUnavailable)),
            r is Ok ==> r == Ok::<bool, AuthError>(true) && final(self)@ == (StoreView {
                users: old(self)@.users.remove(
                    crate::model::credentials_index(old(self)@.users, username@, password_hash@),
                ),
                ..old(self)@
            }),
    {
        let i = match find_credentials(&self.accounts, username, password_hash) {
            Some(i) => i,
            None => {
                return Err(AuthError::NotFound);
            },
        };
        proof {
            let k = crate::model::credentials_index(self@.users, username@, password_hash@);
            assert(0 <= k < self@.users.len() && self@.users[k].name == username@);
            if k != i as int {
                assert(self@.users[k].name != self@.users[i as int].name);
                assert(false);
            }
        }
        let res = storage::exec_sql2(
            &self.conn,
            "DELETE FROM users WHERE username = ?1 AND password_hash = ?2",
            username,
            password_hash,
        );
        let stored = res.is_ok();
        self.finish_remove_account(i, stored)
    }

    /// Bans an account: `NotFound` when no account row for `username`
    /// exists — a nonexistent account cannot be banned; banning an already
    /// banned account succeeds and changes nothing; otherwise a copy of
    /// the account row is written to the ban table and joins the image.
    pub fn ban_account(&mut self, username: &str) -> (r: Result<(), AuthError>)
        requires
            old(self).wf(),
        ensures
            final(self).wf(),
            (r == Err::<(), AuthError>(AuthError::NotFound)) <==> !has_user(
                old(self)@.users,
                username@,
            ),
            r is Err ==> final(self)@ == old(self)@ && (r == Err::<(), AuthError>(
                AuthError::NotFound,
            ) || r == Err::<(), AuthError>(AuthError::StorageUnavailable)),
            r is Ok && has_user(old(self)@.bans, username@) ==> final(self)@ == old(self)@,
            r is Ok && !has_user(old(self)@.bans, username@) ==> final(self)@ == (StoreView {
                bans: old(self)@.bans.push(user_of(old(self)@.users, username@)),
                ..old(self)@
            }),
    {
        let i = match find_by_name(&self.accounts, username) {
            Some(i) => i,
            None => {
                return Err(AuthError::NotFound);
            },
        };
        if find_by_name(&self.bans, username).is_some() {
            return Ok(());
        }
        let u = self.accounts[i].duplicate();
        proof {
            let k = user_index(self@.users, username@);
            assert(0 <= k < self@.users.len() && self@.users[k].name == username@);
            if k != i as int {
                assert(self@.users[k].name != self@.users[i as int].name);
                assert(false);
            }
            assert(u@ == user_of(self@.users, username@));
        }
        let res = storage::exec_sql4(
            &self.conn,
            "INSERT INTO bans (username, password_hash, password_salt, public_key) VALUES (?1, ?2, ?3, ?4)",
            u.name.as_str(),
            u.password_hash.as_str(),
            u.salt.as_str(),
            u.public_key.as_str(),
        );
        let stored = res.is_ok();
        self.finish_insert_ban(u, stored)
    }

    /// Lifts an account ban: `NotFound` when no account row for `username`
    /// exists; otherwise `Ok(b)` where `b` reports whether a ban row was
    /// indeed removed — `false` means the account was not banned.
    pub fn remove_account_ban(&mut self, username: &str) -> (r: Result<bool, AuthError>)
        requires
            old(self).wf(),
        ensures
            final(self).wf(),
            (r == Err::<bool, AuthError>(AuthError::NotFound)) <==> !has_user(
                old(self)@.users,
                username@,
            ),
            r is Err ==> final(self)@ == old(self)@ && (r == Err::<bool, AuthError>(
                AuthError::NotFound,
            ) || r == Err::<bool, AuthError>(AuthError::StorageUnavailable)),
            r is Ok ==> r == Ok::<bool, AuthError>(has_user(old(self)@.bans, username@)),
            r == Ok::<bool, AuthError>(false) ==> final(self)@ == old(self)@,
            r == Ok::<bool, AuthError>(true) ==> final(self)@ == (StoreView {
                bans: old(self)@.bans.remove(user_index(old(self)@.bans, username@)),
                ..old(self)@
            }),
    {
        if find_by_name(&self.accounts, username).is_none() {
            return Err(AuthError::NotFound);
        }
        let i = match find_by_name(&self.bans, username) {
            Some(i) => i,
            None => {
                return Ok(false);
            },
        };
        proof {
            let k = user_index(self@.bans, username@);
            assert(0 <= k < self@.bans.len() && self@.bans[k].name == username@);
            if k != i as int {
                assert(self@.bans[k].name != self@.bans[i as int].name);
                assert(false);
            }
        }
        let res = storage::exec_sql1(
            &self.conn,
            "DELETE FROM bans WHERE username = ?1",
            username,
        );
        let stored = res.is_ok();
        self.finish_remove_ban(i, stored)
    }

    /// Records a time-bounded ban for `username`: `InvalidInput` unless
    /// `expiration` lies strictly after `banned_on`; otherwise the row is
    /// written to the durable store and joins the image.
    pub fn ip_ban(&mut self, username: &str, banned_on: u64, expiration: u64) -> (r: Result<
        (),
        AuthError,
    >)
        requires
            old(self).wf(),
        ensures
            final(self).wf(),
            (r == Err::<(), AuthError>(AuthError::InvalidInput)) <==> expiration <= banned_on,
            r is Err ==> final(self)@ == old(self)@ && (r == Err::<(), AuthError>(
                AuthError::InvalidInput,
            ) || r == Err::<(), AuthError>(AuthError::StorageUnavailable)),
            r is Ok ==> final(self)@ == (StoreView {
                ip_bans: old(self)@.ip_bans.push(
                    IpBanView { username: username@, banned_on, expiration },
                ),
                ..old(self)@
            }),
    {
        if expiration <= banned_on {
            return Err(AuthError::InvalidInput);
        }
        let res = storage::exec_sql_time2(
            &self.conn,
            "INSERT INTO ip_bans (username, banned_on, expires_on) VALUES (?1, ?2, ?3)",
            username,
            banned_on,
            expiration,
        );
        let stored = res.is_ok();
        let b = BannedIPs { username: String::from_str(username), banned_on, expiration };
        self.finish_push_ip_ban(b, stored)
    }

    /// Appends a login-audit record: the row is written to the durable
    /// store with its absolute timestamp, and placed at its timestamp
    /// position in the image, so the audit log stays oldest-to-newest.
    pub fn record_login(&mut self, username: &str, time: u64) -> (r: Result<(), AuthError>)
        requires
            old(self).wf(),
        ensures
            final(self).wf(),
            r is Err ==> r == Err::<(), AuthError>(AuthError::StorageUnavailable) && final(self)@
                == old(self)@,
            r is Ok ==> final(self)@ == (StoreView {
                logins: old(self)@.logins.insert(
                    insert_pos(old(self)@.logins, time),
                    (LoginRecView { username: username@, time: Some(time) }),
                ),
                ..old(self)@
            }),
    {
        let res = storage::exec_sql_time1(
            &self.conn,
            "INSERT INTO user_logins (username, login_time) VALUES (?1, ?2)",
            username,
            time,
        );
        let stored = res.is_ok();
        let row = LoginRow { username: String::from_str(username), time: Some(time) };
        assert(login_key(row@) == time);
        self.finish_record_login(row, stored)
    }
}

} // verus!
