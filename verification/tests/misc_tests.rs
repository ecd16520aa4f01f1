use cryptiom_auth::config::{Config, DatabaseConfig, NetworkingConfig};
use cryptiom_auth::errors::AuthError;
use cryptiom_auth::records::User;
use cryptiom_auth::strutil::str_eq;
use cryptiom_auth::tables::{table_to_string, Table};

#[test]
fn table_names_match_the_schema() {
    assert_eq!(table_to_string(Table::Users), "users");
    assert_eq!(table_to_string(Table::Bans), "bans");
    assert_eq!(table_to_string(Table::UserLogins), "user_logins");
    assert_eq!(table_to_string(Table::BannedIPs), "ip_bans");
}

#[test]
fn error_names_are_stable() {
    assert_eq!(AuthError::NotFound.describe(), "not found");
    assert_eq!(AuthError::AlreadyExists.describe(), "already exists");
    assert_eq!(AuthError::InvalidInput.describe(), "invalid input");
    assert_eq!(AuthError::StorageUnavailable.describe(), "storage unavailable");
}

#[test]
fn config_knows_whether_it_names_storage() {
    let base = NetworkingConfig { interface: "0.0.0.0".to_string(), port: 8080 };
    let internal = Config {
        network: NetworkingConfig { interface: base.interface.clone(), port: base.port },
        db: DatabaseConfig { use_internal: true, url: None },
    };
    assert!(internal.has_storage_location());
    let external = Config {
        network: NetworkingConfig { interface: base.interface.clone(), port: base.port },
        db: DatabaseConfig { use_internal: false, url: Some("auth.db".to_string()) },
    };
    assert!(external.has_storage_location());
    let neither = Config {
        network: base,
        db: DatabaseConfig { use_internal: false, url: None },
    };
    assert!(!neither.has_storage_location());
}

#[test]
fn str_eq_compares_contents() {
    assert!(str_eq("", ""));
    assert!(str_eq("abc", "abc"));
    assert!(!str_eq("abc", "abd"));
    assert!(!str_eq("abc", "abcd"));
    assert!(!str_eq("", "a"));
}

#[test]
fn duplicate_copies_every_field() {
    let u = User {
        name: "alice".to_string(),
        public_key: "key".to_string(),
        password_hash: "hash".to_string(),
        salt: "salt".to_string(),
    };
    let d = u.duplicate();
    assert_eq!(d.name, u.name);
    assert_eq!(d.public_key, u.public_key);
    assert_eq!(d.password_hash, u.password_hash);
    assert_eq!(d.salt, u.salt);
}
