//! Identities: creation, the login protocol (verify against the stored or
//! decoy record, then rotate), and assembly with the caller's payload.

use vstd::prelude::*;

use crate::config::UserDataConfig;
use crate::error::UserDataError;
use crate::hasher::{
    all_b64, argon2_check, argon2_verify, argon2id_hash, argon2id_phc, decoy, decoy_record, decoy_salt,
    generate_salt, is_generated_salt, lemma_decoy_well_shaped, lemma_salted_record_well_shaped, os_seeded_generator,
    password_fits, phc_head, salted_record,
};
use crate::record::{record_well_shaped, well_shaped_record};
use crate::ident::{ident_of, UserIdent};
use crate::text::{trim_str, trimmed};

verus! {

/// The view of an optional string.
pub open spec fn opt_view(s: Option<&str>) -> Option<Seq<char>> {
    match s {
        Some(t) => Some(t@),
        None => None,
    }
}

/// The password a successful login hashes next: the replacement if one is
/// given, else the current one; trimmed either way.
pub open spec fn next_password(pswd: Seq<char>, new_pswd: Option<Seq<char>>) -> Seq<char> {
    match new_pswd {
        Some(n) => trimmed(n),
        None => trimmed(pswd),
    }
}

/// The record a login checks: the stored one, or the decoy of the current
/// costs when the account has none.
pub open spec fn record_to_check(configure: &UserDataConfig, stored: Option<Seq<char>>) -> Seq<
    char,
> {
    match stored {
        Some(s) => s,
        None => decoy_record(
            configure.argon2_m_cost,
            configure.argon2_t_cost,
            configure.argon2_p_cost,
        ),
    }
}

/// Outcome of checking `pswd` at login.
pub open spec fn login_check(
    pswd: Seq<char>,
    configure: &UserDataConfig,
    stored: Option<Seq<char>>,
) -> Option<bool> {
    argon2_check(trimmed(pswd), record_to_check(configure, stored))
}

/// `record` is a fresh Argon2id record of `password` under the costs of
/// `configure`, with the salt `salt`.
pub open spec fn record_of(
    record: Seq<char>,
    password: Seq<char>,
    configure: &UserDataConfig,
    salt: Seq<char>,
) -> bool {
    let (m, t, p) = (configure.argon2_m_cost, configure.argon2_t_cost, configure.argon2_p_cost);
    &&& argon2id_phc(password, salt, m, t, p) == Some(record)
    &&& salted_record(record, m, t, p, salt)
    &&& argon2_check(password, record) == Some(true)
}

/// Checks `pswd` against the stored record, or against the decoy record when
/// there is none, so that an absent account costs what a present one does.
/// A stored record without all five parts is corrupt, not a mismatch.
pub fn verify_login(pswd: &str, configure: &UserDataConfig, stored: Option<&str>) -> (r: Result<
    bool,
    UserDataError,
>)
    ensures
        !configure.costs_valid() ==> r matches Err(UserDataError::Argon2Error(_)),
        configure.costs_valid() ==> record_well_shaped(record_to_check(configure, None)),
        configure.costs_valid() && !record_well_shaped(
            record_to_check(configure, opt_view(stored)),
        ) ==> r matches Err(UserDataError::CredentialFormatError),
        configure.costs_valid() && record_well_shaped(record_to_check(configure, opt_view(stored)))
            ==> match login_check(pswd@, configure, opt_view(stored)) {
            Some(b) => r == Ok::<bool, UserDataError>(b),
            None => r matches Err(UserDataError::PasswordHashError(_)),
        },
{
    if let Err(e) = configure.init_argon2_param() {
        return Err(UserDataError::Argon2Error(e));
    }
    proof {
        lemma_decoy_well_shaped(
            configure.argon2_m_cost,
            configure.argon2_t_cost,
            configure.argon2_p_cost,
        );
    }
    let decoy_text;
    let record: &str = match stored {
        Some(s) => {
            if !well_shaped_record(s) {
                return Err(UserDataError::CredentialFormatError);
            }
            s
        },
        None => {
            decoy_text = decoy(
                configure.argon2_m_cost,
                configure.argon2_t_cost,
                configure.argon2_p_cost,
            );
            decoy_text.as_str()
        },
    };
    match argon2_verify(trim_str(pswd), record) {
        Ok(b) => Ok(b),
        Err(e) => Err(UserDataError::PasswordHashError(e)),
    }
}

/// Hashes the password a login keeps (`new_pswd` if given, else `pswd`)
/// under `salt` and the current costs.
pub fn rotated_record(
    pswd: &str,
    new_pswd: Option<&str>,
    configure: &UserDataConfig,
    salt: &str,
) -> (r: Result<String, UserDataError>)
    ensures
        !configure.costs_valid() ==> r matches Err(UserDataError::Argon2Error(_)),
        configure.costs_valid() ==> match argon2id_phc(
            next_password(pswd@, opt_view(new_pswd)),
            salt@,
            configure.argon2_m_cost,
            configure.argon2_t_cost,
            configure.argon2_p_cost,
        ) {
            Some(rec) => r matches Ok(s) && s@ == rec && record_of(
                s@,
                next_password(pswd@, opt_view(new_pswd)),
                configure,
                salt@,
            ),
            None => r matches Err(UserDataError::PasswordHashError(_)),
        },
        configure.costs_valid() && is_generated_salt(salt@) && password_fits(
            next_password(pswd@, opt_view(new_pswd)),
        ) ==> r is Ok,
{
    if let Err(e) = configure.init_argon2_param() {
        return Err(UserDataError::Argon2Error(e));
    }
    let chosen = match new_pswd {
        Some(n) => n,
        None => pswd,
    };
    match argon2id_hash(
        trim_str(chosen),
        salt,
        configure.argon2_m_cost,
        configure.argon2_t_cost,
        configure.argon2_p_cost,
    ) {
        Ok(s) => Ok(s),
        Err(e) => Err(UserDataError::PasswordHashError(e)),
    }
}

/// Draws a fresh salt from a generator seeded by the operating system.
fn fresh_salt() -> (r: Result<String, UserDataError>)
    ensures
        match r {
            Ok(s) => is_generated_salt(s@),
            Err(e) => e is RandomSourceError,
        },
{
    match os_seeded_generator() {
        Ok(mut rng) => Ok(generate_salt(&mut rng)),
        Err(e) => Err(UserDataError::RandomSourceError(e)),
    }
}

/// One login decision once the stored record has been read: `Ok(None)` when
/// the password does not match (a wrong password and an absent account alike),
/// else the freshly salted record to persist in place of the old one.
pub fn authenticate(
    pswd: &str,
    new_pswd: Option<&str>,
    configure: &UserDataConfig,
    stored: Option<&str>,
) -> (r: Result<Option<String>, UserDataError>)
    ensures
        !configure.costs_valid() ==> r matches Err(UserDataError::Argon2Error(_)),
        configure.costs_valid() && !record_well_shaped(
            record_to_check(configure, opt_view(stored)),
        ) ==> r matches Err(UserDataError::CredentialFormatError),
        configure.costs_valid() && record_well_shaped(record_to_check(configure, opt_view(stored)))
            ==> match login_check(pswd@, configure, opt_view(stored)) {
            None => r matches Err(UserDataError::PasswordHashError(_)),
            Some(false) => r matches Ok(None),
            Some(true) => match r {
                Ok(Some(rec)) => exists|salt: Seq<char>|
                    is_generated_salt(salt) && record_of(
                        rec@,
                        next_password(pswd@, opt_view(new_pswd)),
                        configure,
                        salt,
                    ),
                Ok(None) => false,
                Err(e) => e is RandomSourceError || (e is PasswordHashError && !password_fits(
                    next_password(pswd@, opt_view(new_pswd)),
                )),
            },
        },
{
    let ok = verify_login(pswd, configure, stored)?;
    if !ok {
        return Ok(None);
    }
    let salt = fresh_salt()?;
    let rec = rotated_record(pswd, new_pswd, configure, salt.as_str())?;
    Ok(Some(rec))
}

/// An authenticated or newly created identity with its payload.
pub struct UserData<D> {
    ident: UserIdent,
    pswd_hash: String,
    user_data: D,
}

impl<D> UserData<D> {
    pub closed spec fn spec_ident(&self) -> UserIdent {
        self.ident
    }

    pub closed spec fn record(&self) -> Seq<char> {
        self.pswd_hash@
    }

    pub closed spec fn payload(&self) -> D {
        self.user_data
    }

    /// The identity built from an authenticated identifier, its current
    /// record, and its payload: the stored one, or else what `init` makes.
    pub fn assemble<F>(
        ident: UserIdent,
        pswd_hash: String,
        stored: Option<D>,
        init: F,
    ) -> (r: Result<Self, UserDataError>)
        where
            F: FnOnce() -> Result<D, UserDataError>,
        requires
            stored is None ==> init.requires(()),
        ensures
            match stored {
                Some(d) => r matches Ok(u) && u.spec_ident() == ident && u.record() == pswd_hash@
                    && u.payload() == d,
                None => exists|made: Result<D, UserDataError>|
                    init.ensures((), made) && match made {
                        Ok(d) => r matches Ok(u) && u.spec_ident() == ident && u.record()
                            == pswd_hash@ && u.payload() == d,
                        Err(_) => r is Err,
                    },
            },
    {
        let user_data = match stored {
            Some(d) => d,
            None => {
                let made = init();
                match made {
                    Ok(d) => d,
                    Err(e) => {
                        return Err(e);
                    },
                }
            },
        };
        Ok(UserData { ident, pswd_hash, user_data })
    }

    /// Creates an identity for `name` with `pswd` hashed under `salt`.
    pub fn new_with_salt(
        name: &str,
        pswd: &str,
        user_data: D,
        configure: &UserDataConfig,
        salt: &str,
    ) -> (r: Result<Self, UserDataError>)
        ensures
            ident_of(name@) is None ==> r matches Err(UserDataError::InvalidCharInIdent),
            ident_of(name@) is Some && !configure.costs_valid() ==> r matches Err(
                UserDataError::Argon2Error(_),
            ),
            ident_of(name@) is Some && configure.costs_valid() ==> match argon2id_phc(
                trimmed(pswd@),
                salt@,
                configure.argon2_m_cost,
                configure.argon2_t_cost,
                configure.argon2_p_cost,
            ) {
                Some(rec) => r matches Ok(u) && Some(u.spec_ident()@) == ident_of(name@)
                    && u.record() == rec && record_of(u.record(), trimmed(pswd@), configure, salt@)
                    && u.payload() == user_data,
                None => r matches Err(UserDataError::PasswordHashError(_)),
            },
            ident_of(name@) is Some && configure.costs_valid() && is_generated_salt(salt@)
                && password_fits(trimmed(pswd@)) ==> r is Ok,
    {
        let ident = UserIdent::generate(name)?;
        let pswd_hash = rotated_record(pswd, None, configure, salt)?;
        Ok(UserData { ident, pswd_hash, user_data })
    }

    /// Creates an identity for `name` with `pswd` hashed under a fresh salt.
    /// Nothing is stored until the caller saves it.
    pub fn new(name: &str, pswd: &str, user_data: D, configure: &UserDataConfig) -> (r: Result<
        Self,
        UserDataError,
    >)
        ensures
            ident_of(name@) is None ==> r matches Err(UserDataError::InvalidCharInIdent),
            ident_of(name@) is Some && !configure.costs_valid() ==> r matches Err(
                UserDataError::Argon2Error(_),
            ),
            ident_of(name@) is Some && configure.costs_valid() ==> match r {
                Ok(u) => Some(u.spec_ident()@) == ident_of(name@) && u.payload() == user_data
                    && exists|salt: Seq<char>|
                    is_generated_salt(salt) && record_of(
                        u.record(),
                        trimmed(pswd@),
                        configure,
                        salt,
                    ),
                Err(e) => e is RandomSourceError || (e is PasswordHashError && !password_fits(
                    trimmed(pswd@),
                )),
            },
    {
        let ident = UserIdent::generate(name)?;
        if let Err(e) = configure.init_argon2_param() {
            return Err(UserDataError::Argon2Error(e));
        }
        let salt = fresh_salt()?;
        let pswd_hash = rotated_record(pswd, None, configure, salt.as_str())?;
        Ok(UserData { ident, pswd_hash, user_data })
    }

    /// The identity's identifier.
    pub fn ident(&self) -> (r: &UserIdent)
        ensures
            *r == self.spec_ident(),
    {
        &self.ident
    }

    /// The identity's credential record, in PHC string form.
    pub fn pswd_hash(&self) -> (r: &str)
        ensures
            r@ == self.record(),
    {
        self.pswd_hash.as_str()
    }

    /// The identity's payload.
    pub fn user_data(&self) -> (r: &D)
        ensures
            *r == self.payload(),
    {
        &self.user_data
    }

    /// The identity's payload, for changing it in place.
    pub fn user_data_mut(&mut self) -> (r: &mut D)
        ensures
            *r == old(self).payload(),
            final(self).payload() == *final(r),
            final(self).spec_ident() == old(self).spec_ident(),
            final(self).record() == old(self).record(),
    {
        &mut self.user_data
    }
}

/// Round trip: the record an identity was created with under valid costs
/// and a generated salt is well shaped, and its password is accepted against
/// it at login.
pub proof fn lemma_created_record_admits_password(
    pswd: Seq<char>,
    configure: &UserDataConfig,
    record: Seq<char>,
    salt: Seq<char>,
)
    requires
        configure.costs_valid(),
        is_generated_salt(salt),
        record_of(record, trimmed(pswd), configure, salt),
    ensures
        record_well_shaped(record_to_check(configure, Some(record))),
        login_check(pswd, configure, Some(record)) == Some(true),
{
    assert(all_b64(salt));
    lemma_salted_record_well_shaped(
        record,
        configure.argon2_m_cost,
        configure.argon2_t_cost,
        configure.argon2_p_cost,
        salt,
    );
}

/// Rotation: records made under two different generated salts differ,
/// whatever passwords they hash.
pub proof fn lemma_fresh_salts_give_fresh_records(
    r1: Seq<char>,
    r2: Seq<char>,
    pswd_a: Seq<char>,
    pswd_b: Seq<char>,
    configure: &UserDataConfig,
    s1: Seq<char>,
    s2: Seq<char>,
)
    requires
        record_of(r1, pswd_a, configure, s1),
        record_of(r2, pswd_b, configure, s2),
        is_generated_salt(s1),
        is_generated_salt(s2),
        s1 != s2,
    ensures
        r1 != r2,
{
    let (m, t, p) = (configure.argon2_m_cost, configure.argon2_t_cost, configure.argon2_p_cost);
    let h = phc_head(m, t, p);
    let d1 = choose|d: Seq<char>| r1 == h + s1 + "$"@ + d;
    let d2 = choose|d: Seq<char>| r2 == h + s2 + "$"@ + d;
    if forall|i: int| 0 <= i < 22 ==> s1[i] == s2[i] {
        assert(s1 =~= s2);
    }
    let i = choose|i: int| 0 <= i < 22 && s1[i] != s2[i];
    assert(r1[h.len() + i] == s1[i]);
    assert(r2[h.len() + i] == s2[i]);
}

/// Decoy cost: the record checked for an absent account names the same
/// algorithm, version and costs as every record made under the current
/// configuration, so checking it costs the same.
pub proof fn lemma_decoy_matches_costs(
    record: Seq<char>,
    password: Seq<char>,
    configure: &UserDataConfig,
    salt: Seq<char>,
)
    requires
        record_of(record, password, configure, salt),
    ensures
        ({
            let h = phc_head(configure.argon2_m_cost, configure.argon2_t_cost, configure.argon2_p_cost);
            &&& record.len() >= h.len()
            &&& record_to_check(configure, None).len() >= h.len()
            &&& record.subrange(0, h.len() as int) == h
            &&& record_to_check(configure, None).subrange(0, h.len() as int) == h
        }),
{
    let (m, t, p) = (configure.argon2_m_cost, configure.argon2_t_cost, configure.argon2_p_cost);
    let h = phc_head(m, t, p);
    let d = choose|d: Seq<char>| record == h + salt + "$"@ + d;
    assert(record.subrange(0, h.len() as int) =~= h);
    let decoy = record_to_check(configure, None);
    assert(decoy == h + decoy_salt() + "$"@ + crate::hasher::decoy_digest());
    assert(decoy.subrange(0, h.len() as int) =~= h);
}

} // verus!
