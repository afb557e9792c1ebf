//! The shape a stored credential record must have before Argon2 is asked to
//! check it: five `$`-separated parts (algorithm, version, parameters, salt,
//! digest), and a lane count short enough that Argon2's own bounds check of
//! it cannot overflow.

use vstd::prelude::*;

verus! {

/// `s` holds no `c`.
pub open spec fn lacks(s: Seq<char>, c: char) -> bool {
    forall|i: int| 0 <= i < s.len() ==> s[i] != c
}

/// Number of `$` in `s`.
pub open spec fn dollar_count(s: Seq<char>) -> nat
    decreases s.len(),
{
    if s.len() == 0 {
        0
    } else {
        dollar_count(s.drop_last()) + if s.last() == '$' {
            1nat
        } else {
            0nat
        }
    }
}

pub open spec fn is_ascii_digit(c: char) -> bool {
    0x30 <= (c as u32) <= 0x39
}

/// Length of the run of ASCII digits that starts at `j`.
pub open spec fn digit_run(s: Seq<char>, j: int) -> nat
    decreases s.len() - j,
{
    if 0 <= j < s.len() && is_ascii_digit(s[j]) {
        1 + digit_run(s, j + 1)
    } else {
        0
    }
}

/// Every `p=` (the lane count) is followed by at most eight digits.
pub open spec fn lanes_bounded(s: Seq<char>) -> bool {
    forall|i: int|
        0 <= i && i + 1 < s.len() && #[trigger] s[i] == 'p' && s[i + 1] == '=' ==> digit_run(
            s,
            i + 2,
        ) <= 8
}

/// A record that may be handed to Argon2 for checking.
pub open spec fn record_well_shaped(s: Seq<char>) -> bool {
    dollar_count(s) == 5 && lanes_bounded(s)
}

pub proof fn lemma_dollar_count_concat(a: Seq<char>, b: Seq<char>)
    ensures
        dollar_count(a + b) == dollar_count(a) + dollar_count(b),
    decreases b.len(),
{
    if b.len() == 0 {
        assert(a + b =~= a);
    } else {
        assert((a + b).drop_last() =~= a + b.drop_last());
        lemma_dollar_count_concat(a, b.drop_last());
    }
}

pub proof fn lemma_dollar_count_lacks(s: Seq<char>)
    requires
        lacks(s, '$'),
    ensures
        dollar_count(s) == 0,
    decreases s.len(),
{
    if s.len() > 0 {
        lemma_dollar_count_lacks(s.drop_last());
    }
}

pub proof fn lemma_dollar_count_one(s: Seq<char>)
    requires
        s.len() == 1,
        s[0] == '$',
    ensures
        dollar_count(s) == 1,
{
    lemma_dollar_count_lacks(s.drop_last());
}

/// A run of `n` digits at `j`, followed by a non-digit, has length `n`.
pub proof fn lemma_digit_run_exact(s: Seq<char>, j: int, n: int)
    requires
        0 <= j,
        0 <= n,
        j + n < s.len(),
        forall|k: int| j <= k < j + n ==> is_ascii_digit(#[trigger] s[k]),
        !is_ascii_digit(s[j + n]),
    ensures
        digit_run(s, j) == n,
    decreases n,
{
    if n > 0 {
        lemma_digit_run_exact(s, j + 1, n - 1);
    }
}

/// Number of `$` in `v`.
fn count_dollars(v: &Vec<char>) -> (r: usize)
    ensures
        r == dollar_count(v@),
{
    let mut count: usize = 0;
    let mut i: usize = 0;
    while i < v.len()
        invariant
            i <= v.len(),
            count == dollar_count(v@.take(i as int)),
            count <= i,
        decreases v.len() - i,
    {
        assert(v@.take(i + 1).drop_last() =~= v@.take(i as int));
        if v[i] == '$' {
            count = count + 1;
        }
        i = i + 1;
    }
    assert(v@.take(v.len() as int) =~= v@);
    count
}

fn digit(c: char) -> (r: bool)
    ensures
        r == is_ascii_digit(c),
{
    '0' <= c && c <= '9'
}

/// Whether every lane count in `v` has at most eight digits.
fn lanes_ok(v: &Vec<char>) -> (r: bool)
    ensures
        r == lanes_bounded(v@),
{
    let ghost s = v@;
    let mut i: usize = 0;
    while i < v.len() && i + 1 < v.len()
        invariant
            s == v@,
            i <= v.len(),
            forall|k: int|
                0 <= k < i && k + 1 < s.len() && #[trigger] s[k] == 'p' && s[k + 1] == '='
                    ==> digit_run(s, k + 2) <= 8,
        decreases v.len() - i,
    {
        if v[i] == 'p' && v[i + 1] == '=' {
            let start = i + 2;
            let mut n: usize = 0;
            while n < v.len() - start && digit(v[start + n]) && n <= 8
                invariant
                    s == v@,
                    start == i + 2,
                    start <= v.len(),
                    n <= 9,
                    digit_run(s, i + 2) == n + digit_run(s, i + 2 + n),
                decreases v.len() - n,
            {
                n = n + 1;
            }
            if n > 8 {
                return false;
            }
        }
        i = i + 1;
    }
    true
}

/// Whether `record` may be handed to Argon2 for checking.
pub fn well_shaped_record(record: &str) -> (r: bool)
    ensures
        r == record_well_shaped(record@),
{
    let mut v: Vec<char> = Vec::new();
    for c in it: record.chars()
        invariant
            it.seq() == record@,
            v@ == record@.take(it.index() as int),
    {
        v.push(c);
        assert(v@ =~= record@.take(it.index() + 1));
    }
    assert(v@ =~= record@);
    count_dollars(&v) == 5 && lanes_ok(&v)
}

} // verus!
