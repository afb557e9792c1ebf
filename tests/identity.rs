use tmdx4_workplace::config::UserDataConfig;
use tmdx4_workplace::error::UserDataError;
use tmdx4_workplace::ident::UserIdent;
use tmdx4_workplace::text::{push_decimal, trim_str};

#[test]
fn derive_known_digest() {
    let id = UserIdent::generate("alice").unwrap();
    assert_eq!(
        id.to_hex(),
        "a7dcef9aef26202fce82a7c7d6672afb3a149db207d90a07e437d5abc7fc99ed"
    );
}

#[test]
fn derive_empty_name_digest() {
    let id = UserIdent::generate("   ").unwrap();
    assert_eq!(
        id.to_hex(),
        "a7ffc6f8bf1ed76651c14756a061d662f580ff4de43b49fa82d80a4b80f8434a"
    );
}

#[test]
fn derive_ignores_surrounding_whitespace() {
    let plain = UserIdent::generate("alice").unwrap();
    let padded = UserIdent::generate(" \t alice \n").unwrap();
    let wide = UserIdent::generate("\u{3000}alice\u{2003}").unwrap();
    assert_eq!(plain, padded);
    assert_eq!(plain, wide);
    assert_eq!(plain, UserIdent::generate(trim_str(" alice ")).unwrap());
}

#[test]
fn derive_is_stable() {
    let a = UserIdent::generate("Admin01").unwrap();
    let b = UserIdent::generate("Admin01").unwrap();
    assert_eq!(a, b);
    assert_eq!(a.as_bytes(), b.as_bytes());
    assert_ne!(a, UserIdent::generate("admin01").unwrap());
}

#[test]
fn derive_rejects_path_separator() {
    assert!(matches!(
        UserIdent::generate("a/b"),
        Err(UserDataError::InvalidCharInIdent)
    ));
}

#[test]
fn derive_rejects_every_reserved_char() {
    for c in ['/', '\\', '*', '+', '?', '.', ',', '~', '^', '<', '>', '"', '\''] {
        let name = format!("bob{}x", c);
        assert!(
            matches!(UserIdent::generate(&name), Err(UserDataError::InvalidCharInIdent)),
            "{}",
            name
        );
    }
    assert!(matches!(
        UserIdent::generate(" .alice "),
        Err(UserDataError::InvalidCharInIdent)
    ));
}

#[test]
fn hex_rendering_has_both_nibbles() {
    let id = UserIdent([0xF0; 32]);
    assert_eq!(id.to_hex(), "f0".repeat(32));
    let id = UserIdent([0x0A; 32]);
    let digits: String = id.hex_digits().into_iter().collect();
    assert_eq!(digits, "0a".repeat(32));
    let mut seen = String::new();
    id.iter_hex(|c| seen.push(c));
    assert_eq!(seen, "0a".repeat(32));
}

#[test]
fn record_paths_use_hex_identifier() {
    let config = UserDataConfig::default();
    let id = UserIdent::generate("alice").unwrap();
    assert_eq!(
        config.sec_record_path(&id),
        "./user_data/secure/a7dcef9aef26202fce82a7c7d6672afb3a149db207d90a07e437d5abc7fc99ed.bin"
    );
    assert_eq!(
        config.user_record_path(&id),
        "./user_data/user_data/a7dcef9aef26202fce82a7c7d6672afb3a149db207d90a07e437d5abc7fc99ed.bin"
    );
}

#[test]
fn default_config_values() {
    let config = UserDataConfig::default();
    assert_eq!(config.argon2_m_cost, 4096);
    assert_eq!(config.argon2_t_cost, 1);
    assert_eq!(config.argon2_p_cost, 2);
    assert!(config.init_argon2_param().is_ok());
}

#[test]
fn cost_parameters_out_of_range() {
    let mut config = UserDataConfig::default();
    config.argon2_t_cost = 0;
    assert!(config.init_argon2_param().is_err());
    config.argon2_t_cost = 1;
    config.argon2_m_cost = 15;
    config.argon2_p_cost = 2;
    assert!(config.init_argon2_param().is_err());
    config.argon2_m_cost = 4096;
    config.argon2_p_cost = u32::MAX;
    assert!(config.init_argon2_param().is_err());
    config.argon2_p_cost = 0;
    assert!(config.init_argon2_param().is_err());
}

#[test]
fn trim_strips_unicode_whitespace() {
    assert_eq!(trim_str("\u{85}\u{a0} a b \u{202f}"), "a b");
    assert_eq!(trim_str("   "), "");
}

#[test]
fn decimal_rendering() {
    let mut s = String::from("m=");
    push_decimal(&mut s, 0);
    push_decimal(&mut s, 4096);
    assert_eq!(s, "m=04096");
    let mut t = String::new();
    push_decimal(&mut t, u64::MAX);
    assert_eq!(t, "18446744073709551615");
}

#[test]
fn error_messages() {
    assert_eq!(
        UserDataError::InvalidCharInIdent.message_head(),
        "Invalid charactor with in userid"
    );
    assert_eq!(
        UserDataError::UserDataInitializeError("x".to_string()).message_head(),
        "User data initialize error: "
    );
}

#[test]
fn iter_hex_renders_both_nibbles() {
    let mut s = String::new();
    UserIdent([0xABu8; 32]).iter_hex(|c| s.push(c));
    assert_eq!(s, "ab".repeat(32));
    let mut z = String::new();
    UserIdent([0u8; 32]).iter_hex(|c| z.push(c));
    assert_eq!(z, "0".repeat(64));
}
