//! The store's laws: properties that relate several operations, stated
//! over the same spec functions and views that the operations' contracts
//! use, and proved once for all inputs.

use vstd::prelude::*;
use crate::model::{
    credentials_match, has_user, ip_banned_spec, tfa_matches, unique_names, user_index, user_of,
};
use crate::records::{AccountView, IpBanView};

verus! {

/// Uniqueness: a successful creation leaves its username present, so by
/// `create_account`'s contract — which refuses a present username with
/// `AlreadyExists`, if and only if — creating the same account twice in
/// sequence yields success and then `AlreadyExists`.
pub proof fn lemma_create_then_create(users: Seq<AccountView>, u: AccountView)
    requires
        !has_user(users, u.name),
    ensures
        has_user(users.push(u), u.name),
{
    assert(users.push(u)[users.len() as int] == u);
}

/// The outcome of one serialized `create_account` attempt, as its
/// contract classifies it: success, refusal with `AlreadyExists`, or a
/// storage fault.
pub enum CreateOutcome {
    Success,
    Refused,
    Fault,
}

/// One serialized `create_account` attempt for `name`, exactly as the
/// operation's contract constrains it: success appends a row carrying
/// `name` and is possible only while `name` is absent; a refusal happens
/// exactly when `name` is present and changes nothing; a storage fault
/// can happen only while `name` is absent and changes nothing.
pub open spec fn create_step(
    s: Seq<AccountView>,
    name: Seq<char>,
    o: CreateOutcome,
    s2: Seq<AccountView>,
) -> bool {
    match o {
        CreateOutcome::Success => !has_user(s, name) && (exists|u: AccountView|
            u.name == name && s2 == s.push(u)),
        CreateOutcome::Refused => has_user(s, name) && s2 == s,
        CreateOutcome::Fault => !has_user(s, name) && s2 == s,
    }
}

/// A serialized chain of `create_account` attempts for one username:
/// `states` holds the account table before and after each attempt, and
/// every consecutive pair is related by `create_step`.
pub open spec fn create_chain(
    states: Seq<Seq<AccountView>>,
    name: Seq<char>,
    outs: Seq<CreateOutcome>,
) -> bool {
    &&& states.len() == outs.len() + 1
    &&& forall|k: int|
        0 <= k < outs.len() ==> create_step(states[k], name, outs[k], states[k + 1])
}

/// Along a chain of creation attempts, a username once present stays
/// present: success only appends, and the other outcomes change nothing.
pub proof fn lemma_chain_preserves_presence(
    states: Seq<Seq<AccountView>>,
    name: Seq<char>,
    outs: Seq<CreateOutcome>,
    k1: int,
    k2: int,
)
    requires
        create_chain(states, name, outs),
        0 <= k1 <= k2 < states.len(),
        has_user(states[k1], name),
    ensures
        has_user(states[k2], name),
    decreases k2 - k1,
{
    if k1 < k2 {
        let s = states[k1];
        let s2 = states[k1 + 1];
        assert(create_step(s, name, outs[k1], s2));
        match outs[k1] {
            CreateOutcome::Success => {
                let u = choose|u: AccountView| u.name == name && s2 == s.push(u);
                let i = choose|i: int| 0 <= i < s.len() && s[i].name == name;
                assert(s.push(u)[i] == s[i]);
            },
            CreateOutcome::Refused => {},
            CreateOutcome::Fault => {},
        }
        lemma_chain_preserves_presence(states, name, outs, k1 + 1, k2);
    }
}

/// The concurrent creation race, serialized by the store's single-writer
/// discipline: of any number of `create_account` attempts for one
/// username run one after another against a store that does not yet hold
/// it, no two attempts succeed; and unless a storage fault intervenes,
/// the very first attempt succeeds — exactly one success, all other
/// attempts refused with `AlreadyExists`.
pub proof fn lemma_creation_race(
    states: Seq<Seq<AccountView>>,
    name: Seq<char>,
    outs: Seq<CreateOutcome>,
)
    requires
        create_chain(states, name, outs),
        !has_user(states[0], name),
    ensures
        forall|j: int, k: int| #![trigger outs[j], outs[k]]
            (0 <= j < k < outs.len() && (outs[j] matches CreateOutcome::Success)) ==> !(outs[k]
                matches CreateOutcome::Success),
        (outs.len() > 0 && !(outs[0] matches CreateOutcome::Fault)) ==> (outs[0]
            matches CreateOutcome::Success),
{
    assert forall|j: int, k: int| #![trigger outs[j], outs[k]]
        0 <= j < k < outs.len() && (outs[j] matches CreateOutcome::Success) implies !(outs[k]
        matches CreateOutcome::Success) by {
        assert(create_step(states[j], name, outs[j], states[j + 1]));
        let u = choose|u: AccountView| u.name == name && states[j + 1] == states[j].push(u);
        assert(states[j].push(u)[states[j].len() as int] == u);
        assert(has_user(states[j + 1], name));
        lemma_chain_preserves_presence(states, name, outs, j + 1, k);
        assert(create_step(states[k], name, outs[k], states[k + 1]));
    }
    if outs.len() > 0 && !(outs[0] matches CreateOutcome::Fault) {
        assert(create_step(states[0], name, outs[0], states[1]));
    }
}

/// Two-factor AND semantics: a successful triple pins the unique row of
/// its username, so changing the password hash or the security key to any
/// other value, or the username to one that no account carries, makes the
/// lookup fail — and by `login_user_password_tfa`'s contract that failure
/// is `false`, never an error.
pub proof fn lemma_tfa_and_semantics(
    users: Seq<AccountView>,
    name: Seq<char>,
    pw: Seq<char>,
    key: Seq<char>,
    other_name: Seq<char>,
    other_pw: Seq<char>,
    other_key: Seq<char>,
)
    requires
        unique_names(users),
        tfa_matches(users, name, pw, key),
        other_pw != pw,
        other_key != key,
        !has_user(users, other_name),
    ensures
        !tfa_matches(users, name, other_pw, key),
        !tfa_matches(users, name, pw, other_key),
        !tfa_matches(users, other_name, pw, key),
{
    let i = choose|i: int|
        0 <= i < users.len() && users[i].name == name && users[i].password_hash == pw
            && users[i].public_key == key;
    if tfa_matches(users, name, other_pw, key) {
        let j = choose|j: int|
            0 <= j < users.len() && users[j].name == name && users[j].password_hash == other_pw
                && users[j].public_key == key;
        if i != j {
            assert(users[i].name != users[j].name);
        }
        assert(false);
    }
    if tfa_matches(users, name, pw, other_key) {
        let j = choose|j: int|
            0 <= j < users.len() && users[j].name == name && users[j].password_hash == pw
                && users[j].public_key == other_key;
        if i != j {
            assert(users[i].name != users[j].name);
        }
        assert(false);
    }
    if tfa_matches(users, other_name, pw, key) {
        let j = choose|j: int|
            0 <= j < users.len() && users[j].name == other_name && users[j].password_hash == pw
                && users[j].public_key == key;
        assert(has_user(users, other_name));
        assert(false);
    }
}

/// Ban expiration window: when every time-bounded ban row of a username
/// carries the window from `t0` to `t1`, the ban is active at exactly the
/// times before `t1` — in particular at every `now` with `t0 <= now < t1`
/// — and inactive from `t1` on.
pub proof fn lemma_ip_ban_window(
    bans: Seq<IpBanView>,
    name: Seq<char>,
    t0: u64,
    t1: u64,
    now: u64,
)
    requires
        exists|i: int| 0 <= i < bans.len() && bans[i].username == name,
        forall|i: int|
            0 <= i < bans.len() && bans[i].username == name ==> bans[i].banned_on == t0
                && bans[i].expiration == t1,
    ensures
        now < t1 ==> ip_banned_spec(bans, name, now),
        now >= t1 ==> !ip_banned_spec(bans, name, now),
{
    let i = choose|i: int| 0 <= i < bans.len() && bans[i].username == name;
    assert(bans[i].expiration == t1);
    if now >= t1 && ip_banned_spec(bans, name, now) {
        let j = choose|j: int|
            0 <= j < bans.len() && bans[j].username == name && now < bans[j].expiration;
        assert(bans[j].expiration == t1);
        assert(false);
    }
}

/// Deletion requires existence: a username with no account row matches no
/// credential pair, so by `delete_account`'s contract the deletion of a
/// nonexistent username is refused with `NotFound`, never a false success.
pub proof fn lemma_delete_requires_existence(
    users: Seq<AccountView>,
    name: Seq<char>,
    pw: Seq<char>,
)
    requires
        !has_user(users, name),
    ensures
        !credentials_match(users, name, pw),
{
    if credentials_match(users, name, pw) {
        let i = choose|i: int|
            0 <= i < users.len() && users[i].name == name && users[i].password_hash == pw;
        assert(has_user(users, name));
        assert(false);
    }
}

/// Salt round trip: the row created for a fresh username is the unique
/// row of that username, so by `ret_salt`'s contract the salt read back
/// is exactly the salt supplied at creation.
pub proof fn lemma_salt_round_trip(users: Seq<AccountView>, u: AccountView)
    requires
        unique_names(users),
        !has_user(users, u.name),
    ensures
        has_user(users.push(u), u.name),
        user_of(users.push(u), u.name) == u,
{
    assert(users.push(u)[users.len() as int] == u);
    let k = user_index(users.push(u), u.name);
    assert(0 <= k < users.push(u).len() && users.push(u)[k].name == u.name);
    if k != users.len() as int {
        assert(users.push(u)[k] == users[k]);
        assert(has_user(users, u.name));
        assert(false);
    }
}

} // verus!
