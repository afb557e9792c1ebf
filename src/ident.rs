//! Pseudonymous user identifiers: a SHA3-256 digest of the trimmed name.

use vstd::prelude::*;

use crate::error::UserDataError;
use crate::text::{hex_char, is_white_space, leading_ws, push_digit, trailing_ws, trim_str, trimmed};
use crate::text::{lemma_leading_ws_bound, lemma_trailing_ws_bound, trim_start};

verus! {

/// The SHA3-256 digest of the UTF-8 encoding of `text`.
pub uninterp spec fn sha3_256_of(text: Seq<char>) -> Seq<u8>;

/// Relies on `sha3::Sha3_256::digest`: the 32-byte digest of the UTF-8
/// bytes of `s`, which depends on those bytes alone.
#[verifier::external_body]
fn sha3_256(s: &str) -> (r: [u8; 32])
    ensures
        r@ == sha3_256_of(s@),
{
    <sha3::Sha3_256 as sha3::Digest>::digest(s.as_bytes()).into()
}

/// Characters that cannot appear in a name, since identifiers name files.
pub open spec fn is_reserved(c: char) -> bool {
    c == '/' || c == '\\' || c == '*' || c == '+' || c == '?' || c == '.' || c == ','
        || c == '~' || c == '^' || c == '<' || c == '>' || c == '"' || c == '\''
}

pub open spec fn has_reserved(s: Seq<char>) -> bool {
    exists|i: int| 0 <= i < s.len() && #[trigger] is_reserved(s[i])
}

/// The identifier bytes a name derives, or `None` when the name is refused.
pub open spec fn ident_of(name: Seq<char>) -> Option<Seq<u8>> {
    if has_reserved(name) {
        None
    } else {
        Some(sha3_256_of(trimmed(name)))
    }
}

/// Two lower-case hex digits per byte, high nibble first.
pub open spec fn hex_of(b: Seq<u8>) -> Seq<char>
    decreases b.len(),
{
    if b.len() == 0 {
        Seq::empty()
    } else {
        hex_of(b.drop_last()) + seq![
            hex_char((b.last() / 16) as nat),
            hex_char((b.last() % 16) as nat),
        ]
    }
}

pub proof fn lemma_hex_len(b: Seq<u8>)
    ensures
        hex_of(b).len() == 2 * b.len(),
    decreases b.len(),
{
    if b.len() > 0 {
        lemma_hex_len(b.drop_last());
    }
}

/// Where each byte's two digits stand in its hex rendering.
pub proof fn lemma_hex_index(b: Seq<u8>, i: int)
    requires
        0 <= i < b.len(),
    ensures
        hex_of(b)[2 * i] == hex_char((b[i] / 16) as nat),
        hex_of(b)[2 * i + 1] == hex_char((b[i] % 16) as nat),
    decreases b.len(),
{
    lemma_hex_len(b.drop_last());
    if i < b.len() - 1 {
        lemma_hex_index(b.drop_last(), i);
    }
}

proof fn lemma_hex_char_injective(x: nat, y: nat)
    requires
        x < 16,
        y < 16,
        hex_char(x) == hex_char(y),
    ensures
        x == y,
{
    assert((hex_char(x) as u32) as int == (if x < 10 { (x + 0x30) as int } else { x - 10 + 0x61 }) as int);
    assert((hex_char(y) as u32) as int == (if y < 10 { (y + 0x30) as int } else { y - 10 + 0x61 }) as int);
}

/// Hex rendering loses nothing: byte strings of one length with the same
/// rendering are the same.
pub proof fn lemma_hex_injective(a: Seq<u8>, b: Seq<u8>)
    requires
        a.len() == b.len(),
        hex_of(a) == hex_of(b),
    ensures
        a == b,
{
    assert forall|i: int| 0 <= i < a.len() implies a[i] == b[i] by {
        lemma_hex_index(a, i);
        lemma_hex_index(b, i);
        lemma_hex_char_injective((a[i] / 16) as nat, (b[i] / 16) as nat);
        lemma_hex_char_injective((a[i] % 16) as nat, (b[i] % 16) as nat);
    }
    assert(a =~= b);
}

/// Whether `c` is one of the reserved characters.
pub fn is_reserved_char(c: char) -> (r: bool)
    ensures
        r == is_reserved(c),
{
    c == '/' || c == '\\' || c == '*' || c == '+' || c == '?' || c == '.' || c == ','
        || c == '~' || c == '^' || c == '<' || c == '>' || c == '"' || c == '\''
}

/// Whether `s` holds a reserved character.
pub fn contains_reserved(s: &str) -> (r: bool)
    ensures
        r == has_reserved(s@),
{
    let mut found = false;
    for c in it: s.chars()
        invariant
            it.seq() == s@,
            found == exists|i: int| 0 <= i < it.index() && #[trigger] is_reserved(s@[i]),
    {
        if is_reserved_char(c) {
            found = true;
        }
    }
    found
}

/// A user identifier: the 32-byte digest of a trimmed display name.
#[derive(Debug, Clone, Copy, Eq, Hash)]
pub struct UserIdent(pub [u8; 32]);

impl PartialEq for UserIdent {
    fn eq(&self, other: &UserIdent) -> (r: bool)
        ensures
            r == (self@ == other@),
    {
        let a = self.0;
        let b = other.0;
        let mut i: usize = 0;
        while i < 32
            invariant
                a@ == self@,
                b@ == other@,
                i <= 32,
                forall|j: int| 0 <= j < i ==> a@[j] == b@[j],
            decreases 32 - i,
        {
            if a[i] != b[i] {
                return false;
            }
            i = i + 1;
        }
        assert(a@ =~= b@);
        true
    }
}

impl vstd::std_specs::cmp::PartialEqSpecImpl for UserIdent {
    open spec fn obeys_eq_spec() -> bool {
        true
    }

    open spec fn eq_spec(&self, other: &UserIdent) -> bool {
        self@ == other@
    }
}

impl View for UserIdent {
    type V = Seq<u8>;

    open spec fn view(&self) -> Seq<u8> {
        self.0@
    }
}

impl UserIdent {
    /// Derives the identifier of `s`: refused when `s` holds a reserved
    /// character, otherwise the digest of `s` without surrounding whitespace.
    pub fn generate(s: &str) -> (r: Result<Self, UserDataError>)
        ensures
            match r {
                Ok(id) => ident_of(s@) == Some(id@),
                Err(e) => ident_of(s@) is None && e is InvalidCharInIdent,
            },
    {
        if contains_reserved(s) {
            return Err(UserDataError::InvalidCharInIdent);
        }
        let digest = sha3_256(trim_str(s));
        Ok(UserIdent(digest))
    }

    /// The identifier bytes.
    pub fn as_bytes(&self) -> (r: [u8; 32])
        ensures
            r@ == self@,
    {
        self.0
    }

    /// The identifier as 64 lower-case hex digits.
    pub fn to_hex(&self) -> (r: String)
        ensures
            r@ == hex_of(self@),
            r@.len() == 64,
    {
        let mut out = String::new();
        let b = self.0;
        for i in 0..32usize
            invariant
                b@ == self@,
                out@ == hex_of(self@.take(i as int)),
        {
            let x = b[i];
            push_digit(&mut out, x / 16);
            push_digit(&mut out, x % 16);
            proof {
                let t = self@.take(i + 1);
                assert(t.drop_last() =~= self@.take(i as int));
                assert(t.last() == x);
            }
        }
        proof {
            assert(self@.take(32) =~= self@);
            lemma_hex_len(self@);
        }
        out
    }

    /// Hands each of the identifier's 64 hex digits to `f`, in order.
    pub fn iter_hex(&self, mut f: impl FnMut(char))
        requires
            forall|c: char| f.requires((c,)),
        ensures
            hex_of(self@).len() == 64,
            forall|i: int| 0 <= i < 64 ==> f.ensures((#[trigger] hex_of(self@)[i],), ()),
    {
        let digits = self.hex_digits();
        proof {
            lemma_hex_len(self@);
        }
        let ghost f0 = f;
        let mut i: usize = 0;
        while i < digits.len()
            invariant
                f == f0,
                forall|c: char| f.requires((c,)),
                digits@ == hex_of(self@),
                digits@.len() == 64,
                i <= 64,
                forall|k: int| 0 <= k < i ==> f.ensures((#[trigger] hex_of(self@)[k],), ()),
            decreases 64 - i,
        {
            f(digits[i]);
            i = i + 1;
        }
    }

    /// The identifier's hex digits, in order.
    pub fn hex_digits(&self) -> (r: Vec<char>)
        ensures
            r@ == hex_of(self@),
    {
        let mut out: Vec<char> = Vec::new();
        let b = self.0;
        for i in 0..32usize
            invariant
                b@ == self@,
                out@ == hex_of(self@.take(i as int)),
        {
            let x = b[i];
            out.push(hex_digit(x / 16));
            out.push(hex_digit(x % 16));
            proof {
                let t = self@.take(i + 1);
                assert(t.drop_last() =~= self@.take(i as int));
                assert(out@ =~= hex_of(t));
            }
        }
        proof {
            assert(self@.take(32) =~= self@);
        }
        out
    }
}

/// The lower-case hex digit for a value below sixteen.
pub fn hex_digit(d: u8) -> (c: char)
    requires
        d < 16,
    ensures
        c == hex_char(d as nat),
{
    if d < 10 {
        (d + 0x30) as char
    } else {
        (d - 10 + 0x61) as char
    }
}

proof fn lemma_leading_is_white(s: Seq<char>, i: int)
    requires
        0 <= i < leading_ws(s),
    ensures
        is_white_space(s[i]),
    decreases s.len(),
{
    lemma_leading_ws_bound(s);
    assert(s.len() > 0 && is_white_space(s[0]));
    if i > 0 {
        lemma_leading_is_white(s.drop_first(), i - 1);
    }
}

proof fn lemma_trailing_is_white(s: Seq<char>, i: int)
    requires
        s.len() - trailing_ws(s) <= i < s.len(),
    ensures
        is_white_space(s[i]),
    decreases s.len(),
{
    if i < s.len() - 1 {
        lemma_trailing_ws_bound(s.drop_last());
        lemma_trailing_is_white(s.drop_last(), i);
    }
}

/// Derivation is stable: any two identifiers derived from one name are the
/// same bytes.
pub proof fn lemma_ident_stable(name: Seq<char>, a: UserIdent, b: UserIdent)
    requires
        ident_of(name) == Some(a@),
        ident_of(name) == Some(b@),
    ensures
        a@ == b@,
{
}

/// A name derives the same identifier as its trimmed form, and is refused
/// exactly when its trimmed form is.
pub proof fn lemma_ident_ignores_padding(name: Seq<char>)
    ensures
        ident_of(name) == ident_of(trimmed(name)),
{
    let a = trim_start(name);
    let t = trimmed(name);
    lemma_leading_ws_bound(name);
    lemma_trailing_ws_bound(a);
    let lo = leading_ws(name) as int;
    let hi = lo + t.len();
    assert(forall|j: int| 0 <= j < t.len() ==> t[j] == #[trigger] name[lo + j]);
    if has_reserved(name) {
        let i = choose|i: int| 0 <= i < name.len() && #[trigger] is_reserved(name[i]);
        if i < lo {
            lemma_leading_is_white(name, i);
        } else if i >= hi {
            lemma_trailing_is_white(a, i - lo);
        } else {
            assert(is_reserved(t[i - lo]));
        }
        assert(has_reserved(t));
    }
    if has_reserved(t) {
        let j = choose|j: int| 0 <= j < t.len() && #[trigger] is_reserved(t[j]);
        assert(is_reserved(name[lo + j]));
    }
    crate::text::lemma_trim_idempotent(name);
}

} // verus!
