//! Where credential and payload records live, and the hashing costs.

use vstd::prelude::*;
use vstd::string::*;

use crate::hasher::{argon2_params, cost_params_valid};
use crate::ident::{hex_of, lemma_hex_injective, lemma_hex_len, UserIdent};

verus! {

/// Location of one record: `<dir>/<64 hex digits>.bin`.
pub open spec fn record_path(dir: Seq<char>, id: Seq<u8>) -> Seq<char> {
    dir + "/"@ + hex_of(id) + ".bin"@
}

/// Distinct identifiers never share a record path.
pub proof fn lemma_record_paths_distinct(dir: Seq<char>, a: UserIdent, b: UserIdent)
    requires
        record_path(dir, a@) == record_path(dir, b@),
    ensures
        a@ == b@,
{
    reveal_strlit("/");
    lemma_hex_len(a@);
    lemma_hex_len(b@);
    let p = record_path(dir, a@);
    let lo = dir.len() + 1;
    let hi = lo + 64;
    assert(hex_of(a@) =~= p.subrange(lo as int, hi as int));
    assert(hex_of(b@) =~= record_path(dir, b@).subrange(lo as int, hi as int));
    lemma_hex_injective(a@, b@);
}

/// Storage directories and Argon2 costs for user records.
#[derive(Debug)]
pub struct UserDataConfig {
    /// Directory of the credential records.
    pub sec_data_path: String,
    /// Directory of the payload records.
    pub user_data_path: String,
    /// Argon2 memory cost, in KiB.
    pub argon2_m_cost: u32,
    /// Argon2 number of passes.
    pub argon2_t_cost: u32,
    /// Argon2 number of lanes.
    pub argon2_p_cost: u32,
}

impl UserDataConfig {
    pub open spec fn costs_valid(&self) -> bool {
        cost_params_valid(self.argon2_m_cost, self.argon2_t_cost, self.argon2_p_cost)
    }

    /// The Argon2 parameters of these costs, refused outside Argon2's bounds.
    pub fn init_argon2_param(&self) -> (r: Result<argon2::Params, argon2::Error>)
        ensures
            r is Ok <==> self.costs_valid(),
    {
        if self.argon2_p_cost > 0xFF_FFFF {
            // Past the lane maximum: ask for the first count beyond it, which
            // Argon2 refuses without the product overflowing.
            argon2_params(self.argon2_m_cost, self.argon2_t_cost, 0x100_0000)
        } else {
            argon2_params(self.argon2_m_cost, self.argon2_t_cost, self.argon2_p_cost)
        }
    }

    /// Path of the credential record of `ident`.
    pub fn sec_record_path(&self, ident: &UserIdent) -> (r: String)
        ensures
            r@ == record_path(self.sec_data_path@, ident@),
    {
        join_record_path(&self.sec_data_path, ident)
    }

    /// Path of the payload record of `ident`.
    pub fn user_record_path(&self, ident: &UserIdent) -> (r: String)
        ensures
            r@ == record_path(self.user_data_path@, ident@),
    {
        join_record_path(&self.user_data_path, ident)
    }
}

fn join_record_path(dir: &String, ident: &UserIdent) -> (r: String)
    ensures
        r@ == record_path(dir@, ident@),
{
    let mut out = dir.clone();
    out.append("/");
    let hex = ident.to_hex();
    out.append(hex.as_str());
    out.append(".bin");
    assert(out@ =~= record_path(dir@, ident@));
    out
}

impl Default for UserDataConfig {
    fn default() -> (r: Self)
        ensures
            r.sec_data_path@ == "./user_data/secure"@,
            r.user_data_path@ == "./user_data/user_data"@,
            r.argon2_m_cost == 4096,
            r.argon2_t_cost == 1,
            r.argon2_p_cost == 2,
    {
        UserDataConfig {
            sec_data_path: String::from_str("./user_data/secure"),
            user_data_path: String::from_str("./user_data/user_data"),
            argon2_m_cost: 4096,
            argon2_t_cost: 1,
            argon2_p_cost: 2,
        }
    }
}

} // verus!
