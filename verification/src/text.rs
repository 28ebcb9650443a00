//! Verified text utilities: decimal parsing and rendering, and the
//! syntactic account-identity rules of the host ledger.
//!
//! Token ledgers report balances as decimal strings and child identities
//! are derived textually, so the protocol's transitions need exact
//! contracts for both directions.

use vstd::prelude::*;
use vstd::string::{StrSliceExecFns, StringExecFns};

verus! {

/// Whether a character is a decimal digit.
pub open spec fn is_dec_digit(c: char) -> bool {
    48 <= c as u32 <= 57
}

/// The number a sequence of decimal digits denotes, most significant digit
/// first. An empty sequence denotes zero.
pub open spec fn dec_value(s: Seq<char>) -> int
    decreases s.len(),
{
    if s.len() == 0 {
        0
    } else {
        dec_value(s.drop_last()) * 10 + (s.last() as u32 - 48)
    }
}

/// Whether a string is a decimal numeral that fits in `u128`: nonempty,
/// digits only, value at most `u128::MAX`.
pub open spec fn parseable_u128(s: Seq<char>) -> bool {
    &&& s.len() > 0
    &&& forall|k: int| 0 <= k < s.len() ==> is_dec_digit(#[trigger] s[k])
    &&& dec_value(s) <= u128::MAX
}

/// A digit string denotes a nonnegative number.
proof fn lemma_dec_value_nonneg(s: Seq<char>)
    requires
        forall|k: int| 0 <= k < s.len() ==> is_dec_digit(#[trigger] s[k]),
    ensures
        dec_value(s) >= 0,
    decreases s.len(),
{
    if s.len() > 0 {
        assert(forall|k: int|
            0 <= k < s.drop_last().len() ==> is_dec_digit(#[trigger] s.drop_last()[k]));
        lemma_dec_value_nonneg(s.drop_last());
    }
}

/// A prefix of a digit string denotes at most what the whole denotes.
proof fn lemma_dec_prefix_le(s: Seq<char>, i: int)
    requires
        0 <= i <= s.len(),
        forall|k: int| 0 <= k < s.len() ==> is_dec_digit(#[trigger] s[k]),
    ensures
        dec_value(s.subrange(0, i)) <= dec_value(s),
    decreases s.len() - i,
{
    if i < s.len() {
        let p = s.subrange(0, i);
        let q = s.subrange(0, i + 1);
        assert(q.drop_last() =~= p);
        assert(forall|k: int| 0 <= k < p.len() ==> is_dec_digit(#[trigger] p[k]));
        lemma_dec_value_nonneg(p);
        assert(dec_value(q) == dec_value(p) * 10 + (q.last() as u32 - 48));
        assert(dec_value(p) * 10 >= dec_value(p));
        lemma_dec_prefix_le(s, i + 1);
    } else {
        assert(s.subrange(0, i) =~= s);
    }
}

/// Parses a decimal numeral. Returns the denoted value exactly when the
/// string is nonempty, holds digits only, and the value fits in `u128`;
/// returns nothing otherwise.
pub fn parse_u128(s: &str) -> (r: Option<u128>)
    ensures
        match r {
            Some(v) => parseable_u128(s@) && v == dec_value(s@),
            None => !parseable_u128(s@),
        },
{
    let n = s.unicode_len();
    if n == 0 {
        return None;
    }
    let mut acc: u128 = 0;
    let mut i: usize = 0;
    while i < n
        invariant
            n == s@.len(),
            0 <= i <= n,
            forall|k: int| 0 <= k < i ==> is_dec_digit(#[trigger] s@[k]),
            acc == dec_value(s@.subrange(0, i as int)),
        decreases n - i,
    {
        let c = s.get_char(i);
        let u = c as u32;
        if u < 48 || u > 57 {
            assert(!is_dec_digit(s@[i as int]));
            return None;
        }
        let d: u128 = (u - 48) as u128;
        proof {
            let q = s@.subrange(0, i as int + 1);
            assert(q.drop_last() =~= s@.subrange(0, i as int));
            assert(q.last() == s@[i as int]);
            assert(dec_value(q) == acc * 10 + d);
        }
        if acc > u128::MAX / 10 {
            proof {
                overflow_means_unparseable(s@, i as int, acc * 10 + d);
            }
            return None;
        }
        let next = acc * 10;
        if d > u128::MAX - next {
            proof {
                overflow_means_unparseable(s@, i as int, acc * 10 + d);
            }
            return None;
        }
        acc = next + d;
        i = i + 1;
    }
    proof {
        assert(s@.subrange(0, n as int) =~= s@);
    }
    Some(acc)
}

/// The digit character denoting a value below ten.
pub open spec fn dec_digit_char(d: int) -> char
    recommends
        0 <= d < 10,
{
    if d == 0 {
        '0'
    } else if d == 1 {
        '1'
    } else if d == 2 {
        '2'
    } else if d == 3 {
        '3'
    } else if d == 4 {
        '4'
    } else if d == 5 {
        '5'
    } else if d == 6 {
        '6'
    } else if d == 7 {
        '7'
    } else if d == 8 {
        '8'
    } else {
        '9'
    }
}

/// The decimal numeral denoting a number, most significant digit first and
/// without leading zeroes (a single `'0'` for zero).
pub open spec fn spec_dec_digits(n: nat) -> Seq<char>
    decreases n,
{
    if n < 10 {
        seq![dec_digit_char(n as int)]
    } else {
        spec_dec_digits(n / 10).push(dec_digit_char((n % 10) as int))
    }
}

/// The one-character string for a digit.
fn dec_digit_str(d: u64) -> (r: &'static str)
    requires
        d < 10,
    ensures
        r@ == seq![dec_digit_char(d as int)],
{
    proof {
        reveal_strlit("0");
        reveal_strlit("1");
        reveal_strlit("2");
        reveal_strlit("3");
        reveal_strlit("4");
        reveal_strlit("5");
        reveal_strlit("6");
        reveal_strlit("7");
        reveal_strlit("8");
        reveal_strlit("9");
    }
    if d == 0 {
        proof {
            assert("0"@ =~= seq![dec_digit_char(0)]);
        }
        "0"
    } else if d == 1 {
        proof {
            assert("1"@ =~= seq![dec_digit_char(1)]);
        }
        "1"
    } else if d == 2 {
        proof {
            assert("2"@ =~= seq![dec_digit_char(2)]);
        }
        "2"
    } else if d == 3 {
        proof {
            assert("3"@ =~= seq![dec_digit_char(3)]);
        }
        "3"
    } else if d == 4 {
        proof {
            assert("4"@ =~= seq![dec_digit_char(4)]);
        }
        "4"
    } else if d == 5 {
        proof {
            assert("5"@ =~= seq![dec_digit_char(5)]);
        }
        "5"
    } else if d == 6 {
        proof {
            assert("6"@ =~= seq![dec_digit_char(6)]);
        }
        "6"
    } else if d == 7 {
        proof {
            assert("7"@ =~= seq![dec_digit_char(7)]);
        }
        "7"
    } else if d == 8 {
        proof {
            assert("8"@ =~= seq![dec_digit_char(8)]);
        }
        "8"
    } else {
        proof {
            assert("9"@ =~= seq![dec_digit_char(9)]);
        }
        "9"
    }
}

/// Renders a number as its decimal numeral.
pub fn u64_to_dec_string(n: u64) -> (s: String)
    ensures
        s@ == spec_dec_digits(n as nat),
    decreases n,
{
    if n < 10 {
        String::from_str(dec_digit_str(n))
    } else {
        let mut s = u64_to_dec_string(n / 10);
        s.append(dec_digit_str(n % 10));
        proof {
            assert(s@ =~= spec_dec_digits(n as nat));
        }
        s
    }
}

/// The child identity derived for the next quest instance: the quest
/// counter between a fixed prefix and the factory's own identity.
pub open spec fn spec_child_account(n: nat, current: Seq<char>) -> Seq<char> {
    "quest-"@ + spec_dec_digits(n) + "."@ + current
}

/// Derives the child identity for the next quest instance.
pub fn make_child_account(n: u64, current_account_id: &String) -> (s: String)
    ensures
        s@ == spec_child_account(n as nat, current_account_id@),
{
    let mut s = String::from_str("quest-");
    let digits = u64_to_dec_string(n);
    s.append(digits.as_str());
    s.append(".");
    s.append(current_account_id.as_str());
    s
}

/// Whether a character separates the segments of an account identity.
pub open spec fn is_separator(c: char) -> bool {
    c as u32 == 45 || c as u32 == 95 || c as u32 == 46
}

/// Whether a character may occur in an account identity: a lowercase
/// letter, a digit, or a separator.
pub open spec fn valid_account_char(c: char) -> bool {
    (97 <= c as u32 <= 122) || (48 <= c as u32 <= 57) || is_separator(c)
}

/// The host ledger's syntactic rules for an account identity: 2 to 64
/// characters, lowercase letters, digits and separators only, beginning
/// and ending with a letter or digit, and never two separators in a row.
pub open spec fn valid_account_id(s: Seq<char>) -> bool {
    &&& 2 <= s.len() <= 64
    &&& forall|i: int| 0 <= i < s.len() ==> valid_account_char(#[trigger] s[i])
    &&& !is_separator(s[0])
    &&& !is_separator(s[s.len() - 1])
    &&& forall|i: int| 0 < i < s.len() ==> !(is_separator(#[trigger] s[i]) && is_separator(
        s[i - 1],
    ))
}

/// Decides the account-identity rules.
#[verifier::loop_isolation(false)]
pub fn is_valid_account_id(s: &str) -> (r: bool)
    ensures
        r == valid_account_id(s@),
{
    let n = s.unicode_len();
    if n < 2 || n > 64 {
        return false;
    }
    let mut i: usize = 0;
    let mut prev_sep = false;
    while i < n
        invariant
            0 <= i <= n,
            forall|k: int| 0 <= k < i ==> valid_account_char(#[trigger] s@[k]),
            i > 0 ==> !is_separator(s@[0]),
            i > 0 ==> prev_sep == is_separator(s@[i - 1]),
            forall|k: int| 0 < k < i ==> !(is_separator(#[trigger] s@[k]) && is_separator(
                s@[k - 1],
            )),
        decreases n - i,
    {
        let c = s.get_char(i);
        let u = c as u32;
        let is_sep = u == 45 || u == 95 || u == 46;
        let ok = (97 <= u && u <= 122) || (48 <= u && u <= 57) || is_sep;
        if !ok {
            return false;
        }
        if is_sep && i == 0 {
            return false;
        }
        if is_sep && prev_sep {
            return false;
        }
        prev_sep = is_sep;
        i = i + 1;
    }
    if prev_sep {
        return false;
    }
    true
}

/// When the digits read so far already exceed `u128::MAX`, the whole
/// string is not a `u128` numeral.
proof fn overflow_means_unparseable(s: Seq<char>, i: int, v: int)
    requires
        0 <= i < s.len(),
        forall|k: int| 0 <= k <= i ==> is_dec_digit(#[trigger] s[k]),
        dec_value(s.subrange(0, i + 1)) == v,
        v > u128::MAX,
    ensures
        !parseable_u128(s),
{
    if forall|k: int| 0 <= k < s.len() ==> is_dec_digit(#[trigger] s[k]) {
        lemma_dec_prefix_le(s, i + 1);
        assert(dec_value(s) >= v);
    }
}

} // verus!
