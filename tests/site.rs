use tmdx4_workplace::bsod::bsod_text;
use tmdx4_workplace::config::UserDataConfig;
use tmdx4_workplace::error::UserDataError;
use tmdx4_workplace::main_page::{gen_frame, IsSelected, IsSelectedVisitor, MainArgs, ViewMode};
use tmdx4_workplace::mainte::{ChangeUserDataMode, MaintePageConfig};
use tmdx4_workplace::account::UserData;
use tmdx4_workplace::service::{ArticleID, ArticleIDMaster, ArticleService, ServiceConfig};

fn never_taken(_: &str) -> bool {
    false
}

#[test]
fn view_mode_names() {
    assert_eq!(ViewMode::default(), ViewMode::DayTime);
    assert_eq!(ViewMode::DayTime.as_str(), "daytime");
    assert_eq!(ViewMode::Night.as_str(), "night");
}

#[test]
fn checkbox_values() {
    assert_eq!(IsSelectedVisitor.visit_str(" on "), IsSelected(true));
    assert_eq!(IsSelectedVisitor.visit_str("off"), IsSelected(false));
    assert_eq!(IsSelectedVisitor.visit_str("ON"), IsSelected(false));
    assert_eq!(IsSelected(true).as_attr(), "checked");
    assert_eq!(IsSelected::default().as_attr(), "");
    let args = MainArgs::default();
    assert_eq!(args.view_mode, ViewMode::DayTime);
    assert_eq!(args.noframe, IsSelected(false));
}

#[test]
fn frame_writes_nothing_yet() {
    let mut out = String::from("x");
    gen_frame(&mut out);
    assert_eq!(out, "x");
}

#[test]
fn article_ids_advance_and_wrap() {
    let mut master = ArticleIDMaster::default();
    assert_eq!(master.issue(), ArticleID(0));
    assert_eq!(master.issue(), ArticleID(1));
    let mut last = ArticleIDMaster(u64::MAX);
    assert_eq!(last.issue(), ArticleID(u64::MAX));
    assert_eq!(last, ArticleIDMaster(0));
}

#[test]
fn service_defaults() {
    let config = ServiceConfig::default();
    assert_eq!(config.articles.article_rootpath, "./article");
    assert_eq!(config.articles.articles_path, "./entries");
    assert_eq!(config.assets.assets_rootpath, "./assets");
}

#[test]
fn mainte_defaults_and_default_user() {
    let config = MaintePageConfig::default();
    assert_eq!(config.initial_username, "Admin01");
    assert_eq!(config.pswd_len_min, 16);
    let cheap = UserDataConfig {
        sec_data_path: "s".to_string(),
        user_data_path: "u".to_string(),
        argon2_m_cost: 64,
        argon2_t_cost: 1,
        argon2_p_cost: 1,
    };
    let admin = UserData::new(" Admin01 ", "pw", (), &cheap).unwrap();
    let other = UserData::new("someone", "pw", (), &cheap).unwrap();
    assert!(config.is_default_user(&admin).unwrap());
    assert!(!config.is_default_user(&other).unwrap());
    let mut broken = MaintePageConfig::default();
    broken.initial_username = "ad/min".to_string();
    assert!(matches!(
        broken.is_default_user(&admin),
        Err(UserDataError::InvalidCharInIdent)
    ));
}

#[test]
fn form_nothing_asked() {
    let m = ChangeUserDataMode::decide(None, Some("  "), None, "admin", 4, never_taken);
    assert!(matches!(m, ChangeUserDataMode::Nop));
}

#[test]
fn form_password_change() {
    let m = ChangeUserDataMode::decide(Some(" longpass "), Some("longpass"), None, "admin", 4, never_taken);
    assert!(matches!(m, ChangeUserDataMode::PswdChange { new_password: "longpass" }));
    let m = ChangeUserDataMode::decide(Some("longpass"), Some("longpass"), Some("admin"), "admin", 4, never_taken);
    assert!(matches!(m, ChangeUserDataMode::PswdChange { new_password: "longpass" }));
}

#[test]
fn form_new_user() {
    let m = ChangeUserDataMode::decide(Some("longpass"), Some("longpass"), Some(" bob "), "admin", 4, never_taken);
    assert!(matches!(
        m,
        ChangeUserDataMode::NewUser { new_username: "bob", new_password: "longpass" }
    ));
}

#[test]
fn form_duplicate_name_before_length() {
    let m = ChangeUserDataMode::decide(Some("ab"), Some("ab"), Some("bob"), "admin", 4, |n: &str| n == "bob");
    assert!(matches!(m, ChangeUserDataMode::UserNameDuplicate));
}

#[test]
fn form_password_too_short() {
    // Minimum length counts bytes: "äb" is three bytes.
    let m = ChangeUserDataMode::decide(Some("äb"), Some("äb"), None, "admin", 4, never_taken);
    assert!(matches!(m, ChangeUserDataMode::PswdIsTooShort));
    let m = ChangeUserDataMode::decide(Some("äbc"), Some("äbc"), None, "admin", 4, never_taken);
    assert!(matches!(m, ChangeUserDataMode::PswdChange { .. }));
}

#[test]
fn form_password_mismatch_or_missing() {
    let m = ChangeUserDataMode::decide(Some("longpass"), Some("longpas"), None, "admin", 4, never_taken);
    assert!(matches!(m, ChangeUserDataMode::PswdInvalid));
    let m = ChangeUserDataMode::decide(Some("longpass"), None, None, "admin", 4, never_taken);
    assert!(matches!(m, ChangeUserDataMode::PswdInvalid));
}

#[test]
fn form_name_without_password() {
    let m = ChangeUserDataMode::decide(None, None, Some("bob"), "admin", 4, never_taken);
    assert!(matches!(m, ChangeUserDataMode::PswdEmptyNotAllow));
}

#[test]
fn articles_post_request_remove() {
    let mut service = ArticleService::new();
    assert!(service.post(ArticleID(7), "t7".to_string(), "b7".to_string()));
    assert!(service.post(ArticleID(8), "t8".to_string(), "b8".to_string()));
    assert!(!service.post(ArticleID(7), "again".to_string(), "x".to_string()));
    assert_eq!(service.request(&ArticleID(7)).unwrap().title, "t7");
    let gone = service.remove(&ArticleID(7)).unwrap();
    assert_eq!(gone.body, "b7");
    assert!(service.request(&ArticleID(7)).is_none());
    assert!(service.remove(&ArticleID(7)).is_none());
    assert_eq!(service.request(&ArticleID(8)).unwrap().body, "b8");
    assert!(service.post(ArticleID(9), "t9".to_string(), "b9".to_string()));
    assert_eq!(service.request(&ArticleID(9)).unwrap().title, "t9");
    assert_eq!(service.request(&ArticleID(8)).unwrap().title, "t8");
    let mut ids: Vec<u64> = service.iter().iter().map(|a| a.id.0).collect();
    ids.sort();
    assert_eq!(ids, vec![8, 9]);
}

#[test]
fn error_page_texts() {
    assert_eq!(bsod_text(400).error_code, "400 BAD REQUEST");
    assert_eq!(bsod_text(404).error_code, "404 NOT FOUND");
    assert_eq!(bsod_text(403).error_code, "403 FORBIDDEN");
    assert_eq!(bsod_text(500).error_code, "403 FORBIDDEN");
    assert_eq!(bsod_text(403).text[1], "TIPS: URIを確認してください。");
    assert!(bsod_text(401).todo.starts_with("任意の"));
}

#[test]
fn form_messages() {
    assert_eq!(ChangeUserDataMode::PswdIsTooShort.message(16), "パスワードの長さは16以上にしてください");
    assert_eq!(ChangeUserDataMode::Nop.message(16), "");
    assert_eq!(ChangeUserDataMode::UserNameDuplicate.message(16), "ユーザ名が重複しています");
    assert_eq!(
        ChangeUserDataMode::PswdChange { new_password: "x" }.message(0),
        "パスワードの変更"
    );
}
