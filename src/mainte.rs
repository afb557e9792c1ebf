//! The maintenance page: its settings and the decision on what a submitted
//! account form asks for.

use vstd::prelude::*;
use vstd::string::*;
use vstd::utf8::encode_utf8;

use crate::account::{opt_view, UserData};
use crate::config::UserDataConfig;
use crate::error::UserDataError;
use crate::ident::{ident_of, UserIdent};
use crate::main_page::same_text;
use crate::text::{decimal, push_decimal, trim_str, trimmed};

verus! {

/// Settings of the maintenance page.
#[derive(Debug)]
pub struct MaintePageConfig {
    pub password_dir: String,
    /// Name of the identity created when none exists.
    pub initial_username: String,
    /// Password of the identity created when none exists.
    pub initial_pswd: String,
    /// Fewest bytes a new password may have.
    pub pswd_len_min: usize,
    pub usersys_config: UserDataConfig,
}

impl MaintePageConfig {
    /// Whether `userdata` is the identity of the initial user name.
    pub fn is_default_user<T>(&self, userdata: &UserData<T>) -> (r: Result<bool, UserDataError>)
        ensures
            match ident_of(self.initial_username@) {
                Some(id) => r == Ok::<bool, UserDataError>(userdata.spec_ident()@ == id),
                None => r matches Err(UserDataError::InvalidCharInIdent),
            },
    {
        let user_ident = UserIdent::generate(self.initial_username.as_str())?;
        Ok(userdata.ident().eq(&user_ident))
    }
}

impl Default for MaintePageConfig {
    fn default() -> (r: Self)
        ensures
            r.password_dir@ == "mainte-pswd"@,
            r.initial_username@ == "Admin01"@,
            r.initial_pswd@ == "D3fau1tPassw0rd"@,
            r.pswd_len_min == 16,
            r.usersys_config.sec_data_path@ == "mainte-user-sec"@,
            r.usersys_config.user_data_path@ == "mainte-user-data"@,
            r.usersys_config.argon2_m_cost == 4096,
            r.usersys_config.argon2_t_cost == 1,
            r.usersys_config.argon2_p_cost == 2,
    {
        MaintePageConfig {
            password_dir: String::from_str("mainte-pswd"),
            initial_username: String::from_str("Admin01"),
            initial_pswd: String::from_str("D3fau1tPassw0rd"),
            pswd_len_min: 16,
            usersys_config: UserDataConfig {
                sec_data_path: String::from_str("mainte-user-sec"),
                user_data_path: String::from_str("mainte-user-data"),
                argon2_m_cost: 4096,
                argon2_t_cost: 1,
                argon2_p_cost: 2,
            },
        }
    }
}

/// A form field that was filled in: its value without surrounding
/// whitespace, unless nothing is left.
pub open spec fn filled(v: Option<Seq<char>>) -> Option<Seq<char>> {
    match v {
        Some(s) => if trimmed(s).len() > 0 {
            Some(trimmed(s))
        } else {
            None
        },
        None => None,
    }
}

/// The filled-in value of a form field.
pub fn filled_field<'a>(v: Option<&'a str>) -> (r: Option<&'a str>)
    ensures
        opt_view(r) == filled(opt_view(v)),
{
    match v {
        Some(s) => {
            let t = trim_str(s);
            if t.is_empty() {
                None
            } else {
                Some(t)
            }
        },
        None => None,
    }
}

/// What a submitted account form asks for.
#[derive(Debug)]
pub enum ChangeUserDataMode<'a> {
    /// Register another user.
    NewUser { new_username: &'a str, new_password: &'a str },
    /// Change the signed-in user's password.
    PswdChange { new_password: &'a str },
    /// The new password is shorter than allowed.
    PswdIsTooShort,
    /// The new password and its confirmation differ, or one is missing.
    PswdInvalid,
    /// A new user name came without a password.
    PswdEmptyNotAllow,
    /// The new user name is taken.
    UserNameDuplicate,
    /// Nothing was asked.
    Nop,
}

/// The decision on a form whose new password and confirmation agree on
/// `pswd`, given the name to register (if any) and whether it is taken.
pub open spec fn password_outcome(
    r: ChangeUserDataMode,
    pswd: Seq<char>,
    username: Option<Seq<char>>,
    pswd_len_min: usize,
) -> bool {
    if pswd_len_min <= encode_utf8(pswd).len() as usize {
        match username {
            Some(u) => r matches ChangeUserDataMode::NewUser { new_username, new_password }
                && new_username@ == u && new_password@ == pswd,
            None => r matches ChangeUserDataMode::PswdChange { new_password }
                && new_password@ == pswd,
        }
    } else {
        r is PswdIsTooShort
    }
}

impl<'a> ChangeUserDataMode<'a> {
    /// The notice the maintenance page shows for the decision.
    pub fn message(&self, pswd_len_min: usize) -> (r: String)
        ensures
            r@ == match self {
                ChangeUserDataMode::NewUser { .. } => "新しいユーザの登録"@,
                ChangeUserDataMode::PswdChange { .. } => "パスワードの変更"@,
                ChangeUserDataMode::PswdIsTooShort => "パスワードの長さは"@ + decimal(
                    pswd_len_min as nat,
                ) + "以上にしてください"@,
                ChangeUserDataMode::PswdInvalid => "新旧のパスワードが一致しません"@,
                ChangeUserDataMode::PswdEmptyNotAllow => "ユーザ登録時にはパスワードを入力してください"@,
                ChangeUserDataMode::UserNameDuplicate => "ユーザ名が重複しています"@,
                ChangeUserDataMode::Nop => ""@,
            },
    {
        match self {
            ChangeUserDataMode::NewUser { .. } => String::from_str("新しいユーザの登録"),
            ChangeUserDataMode::PswdChange { .. } => String::from_str("パスワードの変更"),
            ChangeUserDataMode::PswdIsTooShort => {
                let mut out = String::from_str("パスワードの長さは");
                push_decimal(&mut out, pswd_len_min as u64);
                out.append("以上にしてください");
                assert(out@ =~= "パスワードの長さは"@ + decimal(pswd_len_min as nat) + "以上にしてください"@);
                out
            },
            ChangeUserDataMode::PswdInvalid => String::from_str("新旧のパスワードが一致しません"),
            ChangeUserDataMode::PswdEmptyNotAllow => String::from_str(
                "ユーザ登録時にはパスワードを入力してください",
            ),
            ChangeUserDataMode::UserNameDuplicate => String::from_str("ユーザ名が重複しています"),
            ChangeUserDataMode::Nop => {
                proof {
                    reveal_strlit("");
                }
                String::new()
            },
        }
    }

    /// Decides what a form asks for. Fields count once trimmed and only when
    /// something is left. A new name equal to `admin_name` is no new name;
    /// any other is looked up with `name_taken` before the password length
    /// is checked.
    pub fn decide<F>(
        new_password: Option<&'a str>,
        new_password_verify: Option<&'a str>,
        new_username: Option<&'a str>,
        admin_name: &str,
        pswd_len_min: usize,
        name_taken: F,
    ) -> (r: Self)
        where
            F: FnOnce(&str) -> bool,
        requires
            forall|u: &str| name_taken.requires((u,)),
        ensures
            ({
                let np = filled(opt_view(new_password));
                let nv = filled(opt_view(new_password_verify));
                let nu = filled(opt_view(new_username));
                if np is Some && nv is Some && np == nv {
                    match nu {
                        Some(u) => if u == admin_name@ {
                            password_outcome(r, np->0, None, pswd_len_min)
                        } else {
                            exists|s: &str, taken: bool|
                                s@ == u && name_taken.ensures((s,), taken) && if taken {
                                    r is UserNameDuplicate
                                } else {
                                    password_outcome(r, np->0, Some(u), pswd_len_min)
                                }
                        },
                        None => password_outcome(r, np->0, None, pswd_len_min),
                    }
                } else if np is None && nv is None {
                    if nu is Some {
                        r is PswdEmptyNotAllow
                    } else {
                        r is Nop
                    }
                } else {
                    r is PswdInvalid
                }
            }),
    {
        let np = filled_field(new_password);
        let nv = filled_field(new_password_verify);
        let nu = filled_field(new_username);
        match (np, nv) {
            (Some(p), Some(v)) => {
                if !same_text(p, v) {
                    return ChangeUserDataMode::PswdInvalid;
                }
                assert(p.spec_bytes() == encode_utf8(p@));
                let long_enough = pswd_len_min <= p.len();
                match nu {
                    Some(u) => {
                        if !same_text(u, admin_name) {
                            let taken = name_taken(u);
                            let r = if taken {
                                ChangeUserDataMode::UserNameDuplicate
                            } else if long_enough {
                                ChangeUserDataMode::NewUser { new_username: u, new_password: p }
                            } else {
                                ChangeUserDataMode::PswdIsTooShort
                            };
                            assert(u@ == u@ && name_taken.ensures((u,), taken));
                            return r;
                        }
                    },
                    None => {},
                }
                if long_enough {
                    ChangeUserDataMode::PswdChange { new_password: p }
                } else {
                    ChangeUserDataMode::PswdIsTooShort
                }
            },
            (None, None) => {
                if nu.is_some() {
                    ChangeUserDataMode::PswdEmptyNotAllow
                } else {
                    ChangeUserDataMode::Nop
                }
            },
            _ => ChangeUserDataMode::PswdInvalid,
        }
    }
}

} // verus!
