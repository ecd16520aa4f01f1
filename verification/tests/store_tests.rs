use cryptiom_auth::db::Db;
use cryptiom_auth::errors::AuthError;

fn fresh() -> Db {
    Db::init(":memory:").expect("an in-memory store always opens")
}

#[test]
fn create_twice_yields_success_then_already_exists() {
    let mut db = fresh();
    assert_eq!(db.create_account("alice", "h1", "s1", None), Ok(()));
    assert_eq!(
        db.create_account("alice", "h2", "s2", None),
        Err(AuthError::AlreadyExists)
    );
}

#[test]
fn serialized_creation_race_has_exactly_one_success() {
    let mut db = fresh();
    let mut successes = 0;
    let mut refusals = 0;
    for _ in 0..5 {
        match db.create_account("bob", "h", "s", None) {
            Ok(()) => successes += 1,
            Err(AuthError::AlreadyExists) => refusals += 1,
            Err(e) => panic!("unexpected error: {:?}", e),
        }
    }
    assert_eq!(successes, 1);
    assert_eq!(refusals, 4);
}

#[test]
fn two_factor_login_needs_all_three_factors() {
    let mut db = fresh();
    db.create_account("carol", "hash", "salt", Some("key")).unwrap();
    assert_eq!(db.login_user_password_tfa("carol", "hash", "key"), Ok(true));
    assert_eq!(db.login_user_password_tfa("carol", "wrong", "key"), Ok(false));
    assert_eq!(db.login_user_password_tfa("carol", "hash", "wrong"), Ok(false));
    assert_eq!(db.login_user_password_tfa("nobody", "hash", "key"), Ok(false));
}

#[test]
fn password_login_matches_one_row() {
    let mut db = fresh();
    db.create_account("dave", "hash", "salt", None).unwrap();
    assert_eq!(db.login_user_password("dave", "hash"), Ok(true));
    assert_eq!(db.login_user_password("dave", "other"), Ok(false));
    assert_eq!(db.login_user_password("erin", "hash"), Ok(false));
}

#[test]
fn security_key_login_needs_a_unique_nonempty_key() {
    let mut db = fresh();
    db.create_account("erin", "h1", "s1", Some("unique-key")).unwrap();
    db.create_account("frank", "h2", "s2", Some("shared-key")).unwrap();
    db.create_account("grace", "h3", "s3", Some("shared-key")).unwrap();
    db.create_account("heidi", "h4", "s4", None).unwrap();
    assert_eq!(db.login_security_key("unique-key"), Ok(true));
    // Two accounts carry the key: not exactly one row.
    assert_eq!(db.login_security_key("shared-key"), Ok(false));
    // An empty key never logs in, even though accounts store empty keys.
    assert_eq!(db.login_security_key(""), Ok(false));
    assert_eq!(db.login_security_key("unknown"), Ok(false));
}

#[test]
fn ip_ban_is_active_exactly_before_expiration() {
    let mut db = fresh();
    assert_eq!(db.ip_ban("ivan", 100, 200), Ok(()));
    assert_eq!(db.is_ip_banned("ivan", 100), Ok(true));
    assert_eq!(db.is_ip_banned("ivan", 150), Ok(true));
    assert_eq!(db.is_ip_banned("ivan", 199), Ok(true));
    // Active means strictly before the expiration, from any earlier time.
    assert_eq!(db.is_ip_banned("ivan", 50), Ok(true));
    assert_eq!(db.is_ip_banned("ivan", 200), Ok(false));
    assert_eq!(db.is_ip_banned("ivan", 250), Ok(false));
    assert_eq!(db.is_ip_banned("judy", 150), Ok(false));
}

#[test]
fn expired_ban_rows_stay_queryable() {
    let mut db = fresh();
    db.ip_ban("ivan", 100, 200).unwrap();
    let rows = db.get_banned_ips().unwrap();
    assert_eq!(rows.len(), 1);
    assert_eq!(rows[0].username, "ivan");
    assert_eq!(rows[0].banned_on, 100);
    assert_eq!(rows[0].expiration, 200);
    assert_eq!(db.is_ip_banned("ivan", 1_000), Ok(false));
}

#[test]
fn ip_ban_rejects_an_empty_or_inverted_window() {
    let mut db = fresh();
    assert_eq!(db.ip_ban("ivan", 200, 200), Err(AuthError::InvalidInput));
    assert_eq!(db.ip_ban("ivan", 200, 100), Err(AuthError::InvalidInput));
    assert_eq!(db.get_banned_ips().unwrap().len(), 0);
}

#[test]
fn delete_of_a_nonexistent_account_is_not_found() {
    let mut db = fresh();
    assert_eq!(db.delete_account("nobody", "hash"), Err(AuthError::NotFound));
}

#[test]
fn delete_needs_the_matching_password_hash() {
    let mut db = fresh();
    db.create_account("kim", "hash", "salt", None).unwrap();
    assert_eq!(db.delete_account("kim", "wrong"), Err(AuthError::NotFound));
    assert_eq!(db.user_exists("kim"), Ok(true));
    assert_eq!(db.delete_account("kim", "hash"), Ok(true));
    assert_eq!(db.user_exists("kim"), Ok(false));
    assert_eq!(db.create_account("kim", "hash2", "salt2", None), Ok(()));
}

#[test]
fn salt_round_trip_returns_the_created_salt() {
    let mut db = fresh();
    db.create_account("lena", "hash", "grain-of-salt", None).unwrap();
    assert_eq!(db.ret_salt("lena"), Ok("grain-of-salt".to_string()));
    assert_eq!(db.ret_salt("nobody"), Err(AuthError::NotFound));
}

#[test]
fn account_bans_follow_existence_and_report_removal() {
    let mut db = fresh();
    assert_eq!(db.ban_account("nobody"), Err(AuthError::NotFound));
    assert_eq!(db.remove_account_ban("nobody"), Err(AuthError::NotFound));
    db.create_account("mallory", "hash", "salt", None).unwrap();
    assert_eq!(db.remove_account_ban("mallory"), Ok(false));
    assert_eq!(db.ban_account("mallory"), Ok(()));
    let banned = db.get_banned_users().unwrap();
    assert_eq!(banned.len(), 1);
    assert_eq!(banned[0].name, "mallory");
    assert_eq!(banned[0].password_hash, "hash");
    // Banning again changes nothing.
    assert_eq!(db.ban_account("mallory"), Ok(()));
    assert_eq!(db.get_banned_users().unwrap().len(), 1);
    assert_eq!(db.remove_account_ban("mallory"), Ok(true));
    assert_eq!(db.remove_account_ban("mallory"), Ok(false));
    assert_eq!(db.get_banned_users().unwrap().len(), 0);
}

#[test]
fn login_records_come_back_oldest_to_newest_and_reconciled() {
    let mut db = fresh();
    db.record_login("alice", 300).unwrap();
    db.record_login("bob", 100).unwrap();
    db.record_login("carol", 200).unwrap();
    let now_wall: u64 = 1_000;
    let now_mono: u64 = 90_000;
    let logins = db.get_user_logins(now_wall, now_mono).unwrap();
    assert_eq!(logins.len(), 3);
    assert_eq!(logins[0].username, "bob");
    assert_eq!(logins[1].username, "carol");
    assert_eq!(logins[2].username, "alice");
    assert_eq!(logins[0].time, now_mono - (now_wall - 100));
    assert_eq!(logins[1].time, now_mono - (now_wall - 200));
    assert_eq!(logins[2].time, now_mono - (now_wall - 300));
}

#[test]
fn future_login_timestamps_degrade_to_now() {
    let mut db = fresh();
    db.record_login("alice", 5_000).unwrap();
    let logins = db.get_user_logins(1_000, 90_000).unwrap();
    assert_eq!(logins.len(), 1);
    assert_eq!(logins[0].time, 90_000);
}

#[test]
fn get_all_users_reports_every_row() {
    let mut db = fresh();
    db.create_account("alice", "h1", "s1", None).unwrap();
    db.create_account("bob", "h2", "s2", Some("k2")).unwrap();
    let users = db.get_all_users().unwrap();
    assert_eq!(users.len(), 2);
    assert_eq!(users[0].name, "alice");
    assert_eq!(users[0].public_key, "");
    assert_eq!(users[1].name, "bob");
    assert_eq!(users[1].public_key, "k2");
    assert_eq!(users[1].salt, "s2");
}

#[test]
fn user_exists_follows_creation() {
    let mut db = fresh();
    assert_eq!(db.user_exists("alice"), Ok(false));
    db.create_account("alice", "h", "s", None).unwrap();
    assert_eq!(db.user_exists("alice"), Ok(true));
}

#[test]
fn state_survives_reopening_the_same_database() {
    let nanos = std::time::SystemTime::now()
        .duration_since(std::time::UNIX_EPOCH)
        .unwrap()
        .as_nanos();
    let path = format!("/tmp/cryptiom_auth_test_{}.db", nanos);
    {
        let mut db = Db::init(&path).unwrap();
        db.create_account("alice", "hash", "salt", Some("key")).unwrap();
        db.record_login("alice", 4_200).unwrap();
        db.ip_ban("alice", 10, 20).unwrap();
    }
    let db = Db::init(&path).unwrap();
    assert_eq!(db.user_exists("alice"), Ok(true));
    assert_eq!(db.ret_salt("alice"), Ok("salt".to_string()));
    assert_eq!(db.login_user_password_tfa("alice", "hash", "key"), Ok(true));
    let logins = db.get_user_logins(5_000, 10_000).unwrap();
    assert_eq!(logins.len(), 1);
    assert_eq!(logins[0].username, "alice");
    assert_eq!(logins[0].time, 10_000 - (5_000 - 4_200));
    assert_eq!(db.is_ip_banned("alice", 15), Ok(true));
    assert_eq!(db.is_ip_banned("alice", 25), Ok(false));
}
