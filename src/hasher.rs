//! The credential hasher: Argon2id records in PHC string form, fresh salts,
//! and the decoy record that stands in for an absent account.

use vstd::prelude::*;
use vstd::string::*;

use vstd::utf8::encode_utf8;

use crate::record::{
    digit_run, is_ascii_digit, lacks, lanes_bounded, lemma_digit_run_exact,
    lemma_dollar_count_concat, lemma_dollar_count_lacks, lemma_dollar_count_one, record_well_shaped,
};
use crate::text::{decimal, push_decimal};

verus! {

#[verifier::external_type_specification]
#[verifier::external_body]
pub struct ExArgon2Params(argon2::Params);

#[verifier::external_type_specification]
#[verifier::external_body]
pub struct ExChaCha20Rng(rand_chacha::ChaCha20Rng);

/// Argon2's bounds on memory (KiB), passes and lanes.
pub open spec fn cost_params_valid(m_cost: u32, t_cost: u32, p_cost: u32) -> bool {
    &&& m_cost >= 8
    &&& m_cost >= 8 * p_cost
    &&& t_cost >= 1
    &&& 1 <= p_cost <= 0xFF_FFFF
}

/// Relies on `argon2::Params::new` with no output length: it accepts the
/// costs exactly within Argon2's bounds. The lane count is kept low enough
/// that its check `m_cost < p_cost * 8` does not overflow.
#[verifier::external_body]
pub(crate) fn argon2_params(m_cost: u32, t_cost: u32, p_cost: u32) -> (r: Result<
    argon2::Params,
    argon2::Error,
>)
    requires
        p_cost <= 0x1FFF_FFFF,
    ensures
        r is Ok <==> cost_params_valid(m_cost, t_cost, p_cost),
{
    argon2::Params::new(m_cost, t_cost, p_cost, None)
}

/// Algorithm, version and costs of an Argon2id record, up to the salt.
pub open spec fn phc_head(m_cost: u32, t_cost: u32, p_cost: u32) -> Seq<char> {
    "$"@ + "argon2id"@ + "$"@ + "v=19"@ + "$"@ + "m="@ + decimal(m_cost as nat) + ","@ + "t="@
        + decimal(t_cost as nat) + ","@ + "p="@ + decimal(p_cost as nat) + "$"@
}

/// `record` is an Argon2id record with these costs and this salt.
pub open spec fn salted_record(
    record: Seq<char>,
    m_cost: u32,
    t_cost: u32,
    p_cost: u32,
    salt: Seq<char>,
) -> bool {
    exists|digest: Seq<char>|
        all_b64(digest) && record == phc_head(m_cost, t_cost, p_cost) + salt + "$"@ + digest
}

/// Every character of `s` is of the unpadded standard Base64 alphabet.
pub open spec fn all_b64(s: Seq<char>) -> bool {
    forall|i: int| 0 <= i < s.len() ==> #[trigger] is_b64_char(s[i])
}

/// The Argon2id (version 0x13) record of `password` under `salt` and the
/// costs, or `None` where hashing fails.
pub uninterp spec fn argon2id_phc(
    password: Seq<char>,
    salt: Seq<char>,
    m_cost: u32,
    t_cost: u32,
    p_cost: u32,
) -> Option<Seq<char>>;

/// Whether `password` matches `record` under the record's own algorithm,
/// costs and salt; `None` where the record does not parse or hashing fails.
pub uninterp spec fn argon2_check(password: Seq<char>, record: Seq<char>) -> Option<bool>;

/// Relies on argon2's `PasswordHasher::hash_password` for Argon2id 0x13
/// (the costs become `Params::new`, the salt `Salt::from_b64`): the record
/// is a function of the password, salt and costs; its PHC form lists
/// algorithm, version and costs, then the salt, then the digest; and
/// `verify_password` accepts the same password against it. With valid
/// costs, a canonical 16-byte salt and a password within Argon2's length
/// limit, none of its checks fails.
#[verifier::external_body]
pub(crate) fn argon2id_hash(
    password: &str,
    salt: &str,
    m_cost: u32,
    t_cost: u32,
    p_cost: u32,
) -> (r: Result<String, argon2::password_hash::Error>)
    requires
        cost_params_valid(m_cost, t_cost, p_cost),
    ensures
        match r {
            Ok(s) => {
                &&& argon2id_phc(password@, salt@, m_cost, t_cost, p_cost) == Some(s@)
                &&& salted_record(s@, m_cost, t_cost, p_cost, salt@)
                &&& argon2_check(password@, s@) == Some(true)
            },
            Err(_) => argon2id_phc(password@, salt@, m_cost, t_cost, p_cost) is None,
        },
        is_generated_salt(salt@) && password_fits(password@) ==> r is Ok,
{
    let params = argon2::Params::new(m_cost, t_cost, p_cost, None)?;
    let salt = argon2::password_hash::Salt::from_b64(salt)?;
    let hasher = argon2::Argon2::new(argon2::Algorithm::Argon2id, argon2::Version::V0x13, params);
    let hash = argon2::PasswordHasher::hash_password(&hasher, password.as_bytes(), salt)?;
    Ok(hash.to_string())
}

/// Relies on argon2's `PasswordVerifier::verify_password` after
/// `PasswordHash::new`: it recomputes the hash under the record's own
/// parameters and salt; a mismatch is its `Error::Password`. It rebuilds
/// `Params` from the record, whose check `m_cost < p_cost * 8` overflows
/// for a lane count above `0x1FFF_FFFF`: at most eight digits keep it below.
#[verifier::external_body]
pub(crate) fn argon2_verify(password: &str, record: &str) -> (r: Result<
    bool,
    argon2::password_hash::Error,
>)
    requires
        lanes_bounded(record@),
    ensures
        match r {
            Ok(b) => argon2_check(password@, record@) == Some(b),
            Err(_) => argon2_check(password@, record@) is None,
        },
{
    let hash = argon2::PasswordHash::new(record)?;
    match argon2::PasswordVerifier::verify_password(
        &argon2::Argon2::default(),
        password.as_bytes(),
        &hash,
    ) {
        Ok(()) => Ok(true),
        Err(argon2::password_hash::Error::Password) => Ok(false),
        Err(e) => Err(e),
    }
}

/// Relies on `SeedableRng::from_rng` with rand's `OsRng`: a ChaCha20
/// generator seeded from the operating system, or the error it reported.
#[verifier::external_body]
pub(crate) fn os_seeded_generator() -> (r: Result<rand_chacha::ChaCha20Rng, rand::Error>) {
    <rand_chacha::ChaCha20Rng as rand::SeedableRng>::from_rng(rand::rngs::OsRng)
}

/// A character of the unpadded standard Base64 alphabet.
pub open spec fn is_b64_char(c: char) -> bool {
    ||| 'a' <= c <= 'z'
    ||| 'A' <= c <= 'Z'
    ||| '0' <= c <= '9'
    ||| c == '+'
    ||| c == '/'
}

/// The shape of a generated salt: sixteen bytes in unpadded Base64. The
/// last character carries the last two bits, so it is one of `A`, `Q`, `g`
/// and `w`; every such string is the encoding of exactly one 16 bytes.
pub open spec fn is_generated_salt(s: Seq<char>) -> bool {
    &&& s.len() == 22
    &&& forall|i: int| 0 <= i < s.len() ==> #[trigger] is_b64_char(s[i])
    &&& (s[21] == 'A' || s[21] == 'Q' || s[21] == 'g' || s[21] == 'w')
}

/// Argon2 takes passwords of at most `u32::MAX` bytes.
pub open spec fn password_fits(password: Seq<char>) -> bool {
    encode_utf8(password).len() <= 0xFFFF_FFFF
}

/// Relies on `password_hash::SaltString::generate`: sixteen bytes drawn from
/// `rng`, encoded as unpadded Base64.
#[verifier::external_body]
pub(crate) fn generate_salt(rng: &mut rand_chacha::ChaCha20Rng) -> (r: String)
    ensures
        is_generated_salt(r@),
{
    argon2::password_hash::SaltString::generate(rng).as_str().to_string()
}

/// Appends the algorithm, version and costs of an Argon2id record.
pub fn push_phc_head(out: &mut String, m_cost: u32, t_cost: u32, p_cost: u32)
    ensures
        final(out)@ == old(out)@ + phc_head(m_cost, t_cost, p_cost),
{
    out.append("$");
    out.append("argon2id");
    out.append("$");
    out.append("v=19");
    out.append("$");
    out.append("m=");
    push_decimal(out, m_cost as u64);
    out.append(",");
    out.append("t=");
    push_decimal(out, t_cost as u64);
    out.append(",");
    out.append("p=");
    push_decimal(out, p_cost as u64);
    out.append("$");
    assert(final(out)@ =~= old(out)@ + phc_head(m_cost, t_cost, p_cost));
}

/// The fixed salt of the decoy record.
pub open spec fn decoy_salt() -> Seq<char> {
    "xXrE6TTlFREZbmJDW95cKQ"@
}

/// The fixed digest of the decoy record.
pub open spec fn decoy_digest() -> Seq<char> {
    "Puy1C+9fn8eYyq256f7C14QAPBVI40qPwqmST+HB8aw"@
}

/// The record checked when an account has none: current costs, fixed salt,
/// fixed digest.
pub open spec fn decoy_record(m_cost: u32, t_cost: u32, p_cost: u32) -> Seq<char> {
    phc_head(m_cost, t_cost, p_cost) + decoy_salt() + "$"@ + decoy_digest()
}

/// Builds the decoy record for the given costs.
pub fn decoy(m_cost: u32, t_cost: u32, p_cost: u32) -> (r: String)
    ensures
        r@ == decoy_record(m_cost, t_cost, p_cost),
{
    let mut out = String::new();
    push_phc_head(&mut out, m_cost, t_cost, p_cost);
    out.append("xXrE6TTlFREZbmJDW95cKQ");
    out.append("$");
    out.append("Puy1C+9fn8eYyq256f7C14QAPBVI40qPwqmST+HB8aw");
    assert(out@ =~= decoy_record(m_cost, t_cost, p_cost));
    out
}

pub open spec fn pow10(k: nat) -> nat
    decreases k,
{
    if k == 0 {
        1
    } else {
        10 * pow10((k - 1) as nat)
    }
}

proof fn lemma_decimal_digits(n: nat)
    ensures
        forall|i: int| 0 <= i < decimal(n).len() ==> is_ascii_digit(#[trigger] decimal(n)[i]),
    decreases n,
{
    if n >= 10 {
        lemma_decimal_digits(n / 10);
        assert(forall|i: int|
            0 <= i < decimal(n / 10).len() ==> #[trigger] decimal(n)[i] == decimal(n / 10)[i]);
    }
}

proof fn lemma_decimal_len(n: nat, k: nat)
    requires
        k >= 1,
        n < pow10(k),
    ensures
        decimal(n).len() <= k,
    decreases n,
{
    if n >= 10 {
        if k == 1 {
            assert(pow10(1) == 10 * pow10(0));
        } else {
            let q = pow10((k - 1) as nat);
            assert(pow10(k) == 10 * q);
            assert(n / 10 < q) by (nonlinear_arith)
                requires
                    n < 10 * q,
            ;
            lemma_decimal_len(n / 10, (k - 1) as nat);
        }
    }
}

proof fn lemma_lacks_concat(a: Seq<char>, b: Seq<char>, c: char)
    requires
        lacks(a, c),
        lacks(b, c),
    ensures
        lacks(a + b, c),
{
    assert forall|i: int| 0 <= i < (a + b).len() implies (a + b)[i] != c by {
        if i >= a.len() {
            assert((a + b)[i] == b[i - a.len()]);
        }
    }
}

/// A record with costs within Argon2's lane bound and a Base64 salt has the
/// shape that a check requires.
pub proof fn lemma_salted_record_well_shaped(
    record: Seq<char>,
    m_cost: u32,
    t_cost: u32,
    p_cost: u32,
    salt: Seq<char>,
)
    requires
        p_cost <= 0xFF_FFFF,
        all_b64(salt),
        salted_record(record, m_cost, t_cost, p_cost, salt),
    ensures
        record_well_shaped(record),
{
    reveal_strlit("$");
    reveal_strlit("argon2id");
    reveal_strlit("v=19");
    reveal_strlit("m=");
    reveal_strlit(",");
    reveal_strlit("t=");
    reveal_strlit("p=");
    let digest = choose|digest: Seq<char>|
        all_b64(digest) && record == phc_head(m_cost, t_cost, p_cost) + salt + "$"@ + digest;
    let dm = decimal(m_cost as nat);
    let dt = decimal(t_cost as nat);
    let dp = decimal(p_cost as nat);
    lemma_decimal_digits(m_cost as nat);
    lemma_decimal_digits(t_cost as nat);
    lemma_decimal_digits(p_cost as nat);
    assert(pow10(8) == 100_000_000) by {
        reveal_with_fuel(pow10, 9);
    }
    lemma_decimal_len(p_cost as nat, 8);
    let d = "$"@;
    let x1 = d + "argon2id"@ + d + "v=19"@ + d + "m="@;
    let x = x1 + dm + ","@ + "t="@ + dt + ","@;
    let y = d + salt + d + digest;
    let s = record;
    assert(s =~= x + "p="@ + dp + y);
    // Each `$` of the record.
    assert(lacks("argon2id"@, '$') && lacks("v=19"@, '$') && lacks("m="@, '$'));
    assert(lacks(","@, '$') && lacks("t="@, '$') && lacks("p="@, '$'));
    assert forall|i: int| 0 <= i < salt.len() implies salt[i] != '$' && salt[i] != '=' by {
        assert(is_b64_char(salt[i]));
    }
    assert forall|i: int| 0 <= i < digest.len() implies digest[i] != '$' && digest[i] != '=' by {
        assert(is_b64_char(digest[i]));
    }
    assert(lacks(salt, '$') && lacks(digest, '$'));
    assert(lacks(dm, '$') && lacks(dt, '$') && lacks(dp, '$'));
    lemma_dollar_count_one(d);
    lemma_dollar_count_lacks("argon2id"@);
    lemma_dollar_count_lacks("v=19"@);
    lemma_dollar_count_lacks("m="@);
    lemma_dollar_count_lacks(","@);
    lemma_dollar_count_lacks("t="@);
    lemma_dollar_count_lacks("p="@);
    lemma_dollar_count_lacks(dm);
    lemma_dollar_count_lacks(dt);
    lemma_dollar_count_lacks(dp);
    lemma_dollar_count_lacks(salt);
    lemma_dollar_count_lacks(digest);
    lemma_dollar_count_concat(d, "argon2id"@);
    lemma_dollar_count_concat(d + "argon2id"@, d);
    lemma_dollar_count_concat(d + "argon2id"@ + d, "v=19"@);
    lemma_dollar_count_concat(d + "argon2id"@ + d + "v=19"@, d);
    lemma_dollar_count_concat(d + "argon2id"@ + d + "v=19"@ + d, "m="@);
    lemma_dollar_count_concat(x1, dm);
    lemma_dollar_count_concat(x1 + dm, ","@);
    lemma_dollar_count_concat(x1 + dm + ","@, "t="@);
    lemma_dollar_count_concat(x1 + dm + ","@ + "t="@, dt);
    lemma_dollar_count_concat(x1 + dm + ","@ + "t="@ + dt, ","@);
    lemma_dollar_count_concat(d, salt);
    lemma_dollar_count_concat(d + salt, d);
    lemma_dollar_count_concat(d + salt + d, digest);
    lemma_dollar_count_concat(x, "p="@);
    lemma_dollar_count_concat(x + "p="@, dp);
    lemma_dollar_count_concat(x + "p="@ + dp, y);
    // The only `p=` is the lane count, followed by its digits and a `$`.
    assert(lacks("argon2id"@, 'p') && lacks("v=19"@, 'p') && lacks("m="@, 'p'));
    assert(lacks(","@, 'p') && lacks("t="@, 'p') && lacks(d, 'p'));
    assert(lacks(dm, 'p') && lacks(dt, 'p') && lacks(dp, 'p'));
    assert(lacks(d, '=') && lacks(salt, '=') && lacks(digest, '='));
    lemma_lacks_concat(d, "argon2id"@, 'p');
    lemma_lacks_concat(d + "argon2id"@, d, 'p');
    lemma_lacks_concat(d + "argon2id"@ + d, "v=19"@, 'p');
    lemma_lacks_concat(d + "argon2id"@ + d + "v=19"@, d, 'p');
    lemma_lacks_concat(d + "argon2id"@ + d + "v=19"@ + d, "m="@, 'p');
    lemma_lacks_concat(x1, dm, 'p');
    lemma_lacks_concat(x1 + dm, ","@, 'p');
    lemma_lacks_concat(x1 + dm + ","@, "t="@, 'p');
    lemma_lacks_concat(x1 + dm + ","@ + "t="@, dt, 'p');
    lemma_lacks_concat(x1 + dm + ","@ + "t="@ + dt, ","@, 'p');
    lemma_lacks_concat(d, salt, '=');
    lemma_lacks_concat(d + salt, d, '=');
    lemma_lacks_concat(d + salt + d, digest, '=');
    let xl = x.len() as int;
    let start = xl + 2;
    let end = start + dp.len();
    assert(s[end] == '$');
    assert forall|k: int| start <= k < end implies is_ascii_digit(#[trigger] s[k]) by {
        assert(s[k] == dp[k - start]);
    }
    lemma_digit_run_exact(s, start, dp.len() as int);
    assert forall|i: int|
        0 <= i && i + 1 < s.len() && #[trigger] s[i] == 'p' && s[i + 1] == '=' implies digit_run(
        s,
        i + 2,
    ) <= 8 by {
        if i < xl {
            assert(s[i] == x[i]);
        } else if i == xl + 1 {
            assert(s[i] == '=');
        } else if xl + 2 <= i < end {
            assert(s[i] == dp[i - start]);
        } else if i >= end {
            assert(s[i + 1] == y[i + 1 - end]);
        }
    }
}

/// The decoy record of costs within Argon2's lane bound always has the shape
/// that a check requires.
pub proof fn lemma_decoy_well_shaped(m_cost: u32, t_cost: u32, p_cost: u32)
    requires
        p_cost <= 0xFF_FFFF,
    ensures
        record_well_shaped(decoy_record(m_cost, t_cost, p_cost)),
{
    reveal_strlit("xXrE6TTlFREZbmJDW95cKQ");
    reveal_strlit("Puy1C+9fn8eYyq256f7C14QAPBVI40qPwqmST+HB8aw");
    assert(all_b64(decoy_salt()));
    assert(all_b64(decoy_digest()));
    let r = decoy_record(m_cost, t_cost, p_cost);
    assert(r == phc_head(m_cost, t_cost, p_cost) + decoy_salt() + "$"@ + decoy_digest());
    assert(salted_record(r, m_cost, t_cost, p_cost, decoy_salt()));
    lemma_salted_record_well_shaped(r, m_cost, t_cost, p_cost, decoy_salt());
}
} // verus!
