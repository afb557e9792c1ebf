use std::cell::Cell;
use std::time::{Duration, Instant};

use tmdx4_workplace::account::{authenticate, rotated_record, verify_login, UserData};
use tmdx4_workplace::config::UserDataConfig;
use tmdx4_workplace::error::UserDataError;
use tmdx4_workplace::hasher::decoy;
use tmdx4_workplace::ident::UserIdent;
use tmdx4_workplace::record::well_shaped_record;

fn cheap_config() -> UserDataConfig {
    UserDataConfig {
        sec_data_path: "sec".to_string(),
        user_data_path: "usr".to_string(),
        argon2_m_cost: 64,
        argon2_t_cost: 1,
        argon2_p_cost: 1,
    }
}

#[test]
fn decoy_record_text() {
    assert_eq!(
        decoy(4096, 1, 2),
        "$argon2id$v=19$m=4096,t=1,p=2$xXrE6TTlFREZbmJDW95cKQ$Puy1C+9fn8eYyq256f7C14QAPBVI40qPwqmST+HB8aw"
    );
}

#[test]
fn new_record_carries_costs() {
    let config = cheap_config();
    let user = UserData::new("alice", "secret", 7u32, &config).unwrap();
    assert!(user.pswd_hash().starts_with("$argon2id$v=19$m=64,t=1,p=1$"));
    assert_eq!(*user.ident(), UserIdent::generate("alice").unwrap());
    assert_eq!(*user.user_data(), 7);
}

#[test]
fn new_rejects_reserved_name() {
    let config = cheap_config();
    assert!(matches!(
        UserData::new("a/b", "secret", (), &config),
        Err(UserDataError::InvalidCharInIdent)
    ));
}

#[test]
fn new_rejects_bad_costs() {
    let mut config = cheap_config();
    config.argon2_t_cost = 0;
    assert!(matches!(
        UserData::new("alice", "secret", (), &config),
        Err(UserDataError::Argon2Error(_))
    ));
}

#[test]
fn new_with_salt_is_deterministic() {
    let config = cheap_config();
    let a = UserData::new_with_salt("alice", "secret", (), &config, "c29tZXNhbHR2YWx1ZQ").unwrap();
    let b = UserData::new_with_salt("alice", " secret ", (), &config, "c29tZXNhbHR2YWx1ZQ").unwrap();
    assert_eq!(a.pswd_hash(), b.pswd_hash());
    assert!(a.pswd_hash().starts_with("$argon2id$v=19$m=64,t=1,p=1$c29tZXNhbHR2YWx1ZQ$"));
}

#[test]
fn round_trip_accepts_password() {
    let config = cheap_config();
    let user = UserData::new("alice", "secret", vec![1u8, 2, 3], &config).unwrap();
    let stored = user.pswd_hash().to_string();
    assert!(matches!(verify_login("secret", &config, Some(&stored)), Ok(true)));
    let rec = authenticate("secret", None, &config, Some(&stored)).unwrap();
    assert!(rec.is_some());
    let back = UserData::assemble(
        *user.ident(),
        rec.unwrap(),
        Some(user.user_data().clone()),
        || -> Result<Vec<u8>, UserDataError> { panic!("payload was stored") },
    )
    .unwrap();
    assert_eq!(*back.user_data(), vec![1u8, 2, 3]);
    assert_eq!(back.ident(), user.ident());
}

#[test]
fn rotation_changes_record() {
    let config = cheap_config();
    let user = UserData::new("alice", "secret", (), &config).unwrap();
    let first = authenticate("secret", None, &config, Some(user.pswd_hash()))
        .unwrap()
        .unwrap();
    let second = authenticate("secret", None, &config, Some(&first))
        .unwrap()
        .unwrap();
    assert_ne!(first, second);
    assert_ne!(first, user.pswd_hash());
    assert!(matches!(verify_login("secret", &config, Some(&second)), Ok(true)));
}

#[test]
fn rotation_with_new_password() {
    let config = cheap_config();
    let user = UserData::new("alice", "secret", (), &config).unwrap();
    let rec = authenticate("secret", Some(" fresh "), &config, Some(user.pswd_hash()))
        .unwrap()
        .unwrap();
    assert!(matches!(verify_login("fresh", &config, Some(&rec)), Ok(true)));
    assert!(matches!(verify_login("secret", &config, Some(&rec)), Ok(false)));
}

#[test]
fn wrong_password_is_refused() {
    let config = cheap_config();
    let user = UserData::new("alice", "secret", (), &config).unwrap();
    let stored = user.pswd_hash().to_string();
    assert!(matches!(
        authenticate("wrong", None, &config, Some(&stored)),
        Ok(None)
    ));
    assert!(matches!(verify_login("wrong", &config, Some(&stored)), Ok(false)));
    assert_eq!(user.pswd_hash(), stored);
}

#[test]
fn unknown_account_is_refused() {
    let config = cheap_config();
    assert!(matches!(authenticate("x", None, &config, None), Ok(None)));
    assert!(matches!(verify_login("", &config, None), Ok(false)));
    let defaults = UserDataConfig::default();
    assert!(matches!(authenticate("x", None, &defaults, None), Ok(None)));
}

#[test]
fn records_under_other_costs_still_verify() {
    let old = cheap_config();
    let user = UserData::new("alice", "secret", (), &old).unwrap();
    let mut current = cheap_config();
    current.argon2_m_cost = 128;
    current.argon2_t_cost = 2;
    let rec = authenticate("secret", None, &current, Some(user.pswd_hash()))
        .unwrap()
        .unwrap();
    assert!(rec.starts_with("$argon2id$v=19$m=128,t=2,p=1$"));
}

#[test]
fn malformed_record_is_an_error() {
    let config = cheap_config();
    assert!(matches!(
        verify_login("secret", &config, Some("not a record")),
        Err(UserDataError::CredentialFormatError)
    ));
    assert!(matches!(
        authenticate("secret", None, &config, Some("$argon2id$")),
        Err(UserDataError::CredentialFormatError)
    ));
    assert!(matches!(
        verify_login("secret", &config, Some("$argon2id$v=19$m=64,t=1,p=1$!!$??")),
        Err(UserDataError::PasswordHashError(_))
    ));
}

#[test]
fn login_with_bad_costs_is_an_error() {
    let mut config = cheap_config();
    config.argon2_p_cost = 0;
    assert!(matches!(
        authenticate("secret", None, &config, None),
        Err(UserDataError::Argon2Error(_))
    ));
}

#[test]
fn rotated_record_depends_on_salt() {
    let config = cheap_config();
    let a = rotated_record("pw", None, &config, "AAAAAAAAAAAAAAAAAAAAAA").unwrap();
    let b = rotated_record("pw", None, &config, "AAAAAAAAAAAAAAAAAAAAAA").unwrap();
    let c = rotated_record("pw", None, &config, "BBBBBBBBBBBBBBBBBBBBBA").unwrap();
    assert_eq!(a, b);
    assert_ne!(a, c);
    assert!(matches!(
        rotated_record("pw", None, &config, "!"),
        Err(UserDataError::PasswordHashError(_))
    ));
}

#[test]
fn payload_bootstrap_calls_init_once() {
    let config = cheap_config();
    let user = UserData::new("alice", "secret", 0u32, &config).unwrap();
    let rec = authenticate("secret", None, &config, Some(user.pswd_hash()))
        .unwrap()
        .unwrap();
    let calls = Cell::new(0u32);
    let made = UserData::<u32>::assemble(*user.ident(), rec, None, || {
        calls.set(calls.get() + 1);
        Ok(42)
    })
    .unwrap();
    assert_eq!(calls.get(), 1);
    assert_eq!(*made.user_data(), 42);
}

#[test]
fn payload_bootstrap_failure() {
    let id = UserIdent::generate("alice").unwrap();
    let made = UserData::<u32>::assemble(id, String::new(), None, || {
        Err(UserDataError::UserDataInitializeError("no payload".to_string()))
    });
    assert!(made.is_err());
}

#[test]
fn payload_can_change_in_place() {
    let config = cheap_config();
    let mut user = UserData::new("alice", "secret", 1u32, &config).unwrap();
    let before = user.pswd_hash().to_string();
    *user.user_data_mut() = 5;
    assert_eq!(*user.user_data(), 5);
    assert_eq!(user.pswd_hash(), before);
}

fn fastest_of_three(run: &dyn Fn()) -> Duration {
    (0..3)
        .map(|_| {
            let start = Instant::now();
            run();
            start.elapsed()
        })
        .min()
        .unwrap()
}

#[test]
fn unknown_account_costs_like_wrong_password() {
    let config = UserDataConfig {
        sec_data_path: "sec".to_string(),
        user_data_path: "usr".to_string(),
        argon2_m_cost: 1024,
        argon2_t_cost: 1,
        argon2_p_cost: 1,
    };
    let user = UserData::new("alice", "secret", (), &config).unwrap();
    let stored = user.pswd_hash().to_string();
    let wrong = fastest_of_three(&|| {
        assert!(matches!(authenticate("wrong", None, &config, Some(&stored)), Ok(None)));
    });
    let absent = fastest_of_three(&|| {
        assert!(matches!(authenticate("x", None, &config, None), Ok(None)));
    });
    assert!(absent * 4 >= wrong && wrong * 4 >= absent, "{:?} vs {:?}", absent, wrong);
}

#[test]
fn record_without_salt_or_digest_is_corrupt() {
    let config = cheap_config();
    for record in [
        "$argon2id$v=19$m=64,t=1,p=1",
        "$argon2id$v=19$m=64,t=1,p=1$c29tZXNhbHR2YWx1ZQ",
    ] {
        assert!(matches!(
            verify_login("secret", &config, Some(record)),
            Err(UserDataError::CredentialFormatError)
        ));
        assert!(matches!(
            authenticate("secret", None, &config, Some(record)),
            Err(UserDataError::CredentialFormatError)
        ));
    }
}

#[test]
fn record_with_huge_lane_count_is_refused_without_panic() {
    let config = cheap_config();
    let user = UserData::new("alice", "secret", (), &config).unwrap();
    let huge = user.pswd_hash().replacen("p=1", "p=536870912", 1);
    assert!(matches!(
        verify_login("secret", &config, Some(&huge)),
        Err(UserDataError::CredentialFormatError)
    ));
    let big = user.pswd_hash().replacen("p=1", "p=16777216", 1);
    assert!(matches!(
        verify_login("secret", &config, Some(&big)),
        Err(UserDataError::PasswordHashError(_))
    ));
}

#[test]
fn created_records_are_well_shaped() {
    let config = cheap_config();
    let user = UserData::new("alice", "secret", (), &config).unwrap();
    assert!(well_shaped_record(user.pswd_hash()));
    assert!(well_shaped_record(&decoy(4096, 1, 2)));
    assert!(!well_shaped_record("$argon2id$v=19$m=64,t=1,p=123456789$c29tZXNhbHR2YWx1ZQ$abc"));
}
