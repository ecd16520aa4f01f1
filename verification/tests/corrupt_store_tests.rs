use cryptiom_auth::db::Db;
use cryptiom_auth::errors::AuthError;
use rusqlite::Connection;

fn temp_path(tag: &str) -> String {
    let nanos = std::time::SystemTime::now()
        .duration_since(std::time::UNIX_EPOCH)
        .unwrap()
        .as_nanos();
    format!("/tmp/cryptiom_auth_{}_{}.db", tag, nanos)
}

#[test]
fn unreachable_storage_is_reported() {
    match Db::init("/nonexistent-dir-for-this-store/x/y.db") {
        Err(e) => assert_eq!(e, AuthError::StorageUnavailable),
        Ok(_) => panic!("opening under a missing directory must fail"),
    }
}

#[test]
fn duplicate_usernames_on_disk_are_refused() {
    let path = temp_path("dup");
    {
        let conn = Connection::open(&path).unwrap();
        conn.execute_batch(
            "CREATE TABLE users (username TEXT NOT NULL, password_hash TEXT NOT NULL, password_salt TEXT NOT NULL, public_key TEXT NOT NULL);",
        )
        .unwrap();
        conn.execute("INSERT INTO users VALUES ('a', 'h1', 's1', '')", []).unwrap();
        conn.execute("INSERT INTO users VALUES ('a', 'h2', 's2', '')", []).unwrap();
    }
    match Db::init(&path) {
        Err(e) => assert_eq!(e, AuthError::StorageUnavailable),
        Ok(_) => panic!("a store with two rows for one username must be refused"),
    }
}

#[test]
fn unreadable_login_timestamps_degrade_at_read_time() {
    let path = temp_path("badtime");
    {
        let conn = Connection::open(&path).unwrap();
        conn.execute_batch(
            "CREATE TABLE user_logins (username TEXT NOT NULL, login_time TEXT NOT NULL);",
        )
        .unwrap();
        conn.execute("INSERT INTO user_logins VALUES ('a', 'garbage')", []).unwrap();
        conn.execute("INSERT INTO user_logins VALUES ('b', '400')", []).unwrap();
    }
    let db = Db::init(&path).unwrap();
    let logins = db.get_user_logins(1_000, 5_000).unwrap();
    assert_eq!(logins.len(), 2);
    // The unreadable timestamp falls back to "now" and sorts last, so the
    // reported times stay oldest-to-newest.
    assert_eq!(logins[0].username, "b");
    assert_eq!(logins[0].time, 5_000 - (1_000 - 400));
    assert_eq!(logins[1].username, "a");
    assert_eq!(logins[1].time, 5_000);
    assert!(logins[0].time <= logins[1].time);
    // The degradation is reported explicitly, record by record.
    let flags = db.get_login_conversion_flags(1_000, 5_000);
    assert_eq!(flags, vec![true, false]);
}

#[test]
fn unreadable_ip_ban_rows_are_refused() {
    let path = temp_path("badban");
    {
        let conn = Connection::open(&path).unwrap();
        conn.execute_batch(
            "CREATE TABLE ip_bans (username TEXT NOT NULL, banned_on TEXT NOT NULL, expires_on TEXT NOT NULL);",
        )
        .unwrap();
        conn.execute("INSERT INTO ip_bans VALUES ('a', 'x', '200')", []).unwrap();
    }
    match Db::init(&path) {
        Err(e) => assert_eq!(e, AuthError::StorageUnavailable),
        Ok(_) => panic!("an unreadable ban timestamp must be refused"),
    }
}

#[test]
fn inverted_ip_ban_windows_are_refused() {
    let path = temp_path("inverted");
    {
        let conn = Connection::open(&path).unwrap();
        conn.execute_batch(
            "CREATE TABLE ip_bans (username TEXT NOT NULL, banned_on TEXT NOT NULL, expires_on TEXT NOT NULL);",
        )
        .unwrap();
        conn.execute("INSERT INTO ip_bans VALUES ('a', '300', '200')", []).unwrap();
    }
    match Db::init(&path) {
        Err(e) => assert_eq!(e, AuthError::StorageUnavailable),
        Ok(_) => panic!("a ban that begins after it expires must be refused"),
    }
}
