//! Small text helpers shared by the reconcilers and the scaler: ASCII case
//! mapping for derived destination names, prefix tests for label keys, and
//! decimal parsing for label values.

use vstd::prelude::*;
use vstd::string::*;

verus! {

/// The ASCII upper-case equivalent of one character.
pub open spec fn upper_char(c: char) -> char {
    if 'a' <= c && c <= 'z' {
        (((c as u32) - 32) as char)
    } else {
        c
    }
}

pub open spec fn spec_ascii_upper(s: Seq<char>) -> Seq<char> {
    Seq::new(s.len(), |i: int| upper_char(s[i]))
}

/// Relies on str::to_ascii_uppercase: every ASCII lower-case letter is
/// replaced by its upper-case equivalent, every other character is copied
/// unchanged.
#[verifier::external_body]
pub fn ascii_uppercase(s: &str) -> (r: String)
    ensures
        r@ == spec_ascii_upper(s@),
{
    s.to_ascii_uppercase()
}

/// The character sequences of a sequence of strings.
pub open spec fn strings_view(v: Seq<String>) -> Seq<Seq<char>> {
    v.map_values(|s: String| s@)
}

/// Clones preserve the value exactly.
pub fn clone_opt_string(o: &Option<String>) -> (r: Option<String>)
    ensures
        r == *o,
{
    match o {
        Some(s) => Some(s.clone()),
        None => None,
    }
}

pub open spec fn has_prefix(s: Seq<char>, p: Seq<char>) -> bool {
    s.len() >= p.len() && s.subrange(0, p.len() as int) == p
}

pub fn str_has_prefix(s: &String, p: &str) -> (r: bool)
    ensures
        r == has_prefix(s@, p@),
{
    let sl = s.as_str().unicode_len();
    let pl = p.unicode_len();
    if sl < pl {
        return false;
    }
    let mut i: usize = 0;
    while i < pl
        invariant
            i <= pl,
            pl == p@.len(),
            sl == s@.len(),
            sl >= pl,
            forall|j: int| 0 <= j < i ==> s@[j] == p@[j],
        decreases pl - i,
    {
        if s.as_str().get_char(i) != p.get_char(i) {
            proof {
                assert(s@.subrange(0, p@.len() as int)[i as int] != p@[i as int]);
            }
            return false;
        }
        i = i + 1;
    }
    proof {
        assert(s@.subrange(0, p@.len() as int) =~= p@);
    }
    true
}

pub open spec fn is_dec_digit(c: char) -> bool {
    '0' <= c && c <= '9'
}

pub open spec fn all_dec_digits(s: Seq<char>) -> bool {
    forall|i: int| 0 <= i < s.len() ==> is_dec_digit(#[trigger] s[i])
}

/// The number written by a sequence of decimal digits, most significant
/// first.
pub open spec fn dec_value(s: Seq<char>) -> int
    decreases s.len(),
{
    if s.len() == 0 {
        0
    } else {
        dec_value(s.drop_last()) * 10 + ((s.last() as u32) - 48)
    }
}

/// What `str::parse::<i64>` accepts: an optional sign followed by at least
/// one decimal digit, with the value in range.
pub open spec fn spec_parse_i64(s: Seq<char>) -> Option<i64> {
    let digits = if s.len() > 0 && (s[0] == '-' || s[0] == '+') {
        s.drop_first()
    } else {
        s
    };
    let neg = s.len() > 0 && s[0] == '-';
    if digits.len() == 0 || !all_dec_digits(digits) {
        None
    } else {
        let v: int = if neg {
            -dec_value(digits)
        } else {
            dec_value(digits)
        };
        if i64::MIN <= v <= i64::MAX {
            Some(v as i64)
        } else {
            None
        }
    }
}

/// What `str::parse::<u32>` accepts: no minus sign, and the value must fit.
pub open spec fn spec_parse_u32(s: Seq<char>) -> Option<u32> {
    if s.len() > 0 && s[0] == '-' {
        None
    } else {
        match spec_parse_i64(s) {
            Some(v) => if 0 <= v <= u32::MAX {
                Some(v as u32)
            } else {
                None
            },
            None => None,
        }
    }
}

proof fn lemma_dec_value_nonneg(s: Seq<char>)
    requires
        all_dec_digits(s),
    ensures
        dec_value(s) >= 0,
    decreases s.len(),
{
    if s.len() > 0 {
        assert(all_dec_digits(s.drop_last()));
        lemma_dec_value_nonneg(s.drop_last());
    }
}

/// Appending digits never shrinks the value.
proof fn lemma_dec_value_prefix(s: Seq<char>, i: int, j: int)
    requires
        0 <= i <= j <= s.len(),
        all_dec_digits(s.take(j)),
    ensures
        dec_value(s.take(i)) <= dec_value(s.take(j)),
    decreases j - i,
{
    if i < j {
        let t = s.take(j);
        assert(all_dec_digits(s.take(j - 1))) by {
            assert(forall|m: int| 0 <= m < j - 1 ==> s.take(j - 1)[m] == #[trigger] t[m]);
        }
        assert(t.drop_last() =~= s.take(j - 1));
        lemma_dec_value_nonneg(s.take(j - 1));
        assert(dec_value(s.take(j)) >= dec_value(s.take(j - 1)));
        lemma_dec_value_prefix(s, i, j - 1);
    }
}

/// Decimal parsing of an `i64`, matching the standard grammar.
pub fn parse_i64(s: &str) -> (r: Option<i64>)
    ensures
        r == spec_parse_i64(s@),
{
    let n = s.unicode_len();
    if n == 0 {
        return None;
    }
    let first = s.get_char(0);
    let neg = first == '-';
    let start: usize = if first == '-' || first == '+' {
        1
    } else {
        0
    };
    let ghost digits: Seq<char> = if start == 1 {
        s@.drop_first()
    } else {
        s@
    };
    if n == start {
        return None;
    }
    let mut acc: i64 = 0;
    let mut i: usize = start;
    while i < n
        invariant
            start <= i <= n,
            n == s@.len(),
            n >= 1,
            start == (if s@[0] == '-' || s@[0] == '+' {
                1int
            } else {
                0int
            }),
            neg == (s@[0] == '-'),
            digits == (if start == 1 {
                s@.drop_first()
            } else {
                s@
            }),
            digits.len() == n - start,
            all_dec_digits(digits.take(i - start)),
            acc == -dec_value(digits.take(i - start)),
        decreases n - i,
    {
        let c = s.get_char(i);
        proof {
            assert(digits[i - start] == s@[i as int]);
        }
        let cv = c as u32;
        if cv < 48 || cv > 57 {
            proof {
                assert(!is_dec_digit(digits[i - start]));
            }
            return None;
        }
        let ghost prev = digits.take(i - start);
        let ghost cur = digits.take(i - start + 1);
        proof {
            assert(cur.drop_last() =~= prev);
            assert(cur.last() == digits[i - start]);
            lemma_dec_value_nonneg(prev);
        }
        let d = (cv - 48) as i64;
        let acc10 = match acc.checked_mul(10) {
            Some(x) => x,
            None => {
                proof {
                    lemma_overflow_means_none(s@, digits, neg, i - start + 1);
                }
                return None;
            },
        };
        acc = match acc10.checked_sub(d) {
            Some(x) => x,
            None => {
                proof {
                    lemma_overflow_means_none(s@, digits, neg, i - start + 1);
                }
                return None;
            },
        };
        i = i + 1;
    }
    proof {
        assert(digits.take(n - start) =~= digits);
        lemma_dec_value_nonneg(digits);
    }
    if neg {
        Some(acc)
    } else {
        if acc == i64::MIN {
            None
        } else {
            Some(-acc)
        }
    }
}

/// If the value of some digit prefix already exceeds the `i64` range, the
/// whole string parses to nothing.
proof fn lemma_overflow_means_none(s: Seq<char>, digits: Seq<char>, neg: bool, k: int)
    requires
        s.len() > 0,
        digits == (if s[0] == '-' || s[0] == '+' {
            s.drop_first()
        } else {
            s
        }),
        neg == (s[0] == '-'),
        0 <= k <= digits.len(),
        all_dec_digits(digits.take(k)),
        dec_value(digits.take(k)) > i64::MAX as int + 1,
    ensures
        spec_parse_i64(s) is None,
{
    if digits.len() == 0 || !all_dec_digits(digits) {
    } else {
        lemma_dec_value_prefix(digits, k, digits.len() as int);
        assert(digits.take(digits.len() as int) =~= digits);
        assert(dec_value(digits) > i64::MAX as int + 1);
    }
}

pub fn parse_u32(s: &str) -> (r: Option<u32>)
    ensures
        r == spec_parse_u32(s@),
{
    let n = s.unicode_len();
    if n > 0 && s.get_char(0) == '-' {
        return None;
    }
    match parse_i64(s) {
        Some(v) => if 0 <= v && v <= u32::MAX as i64 {
            Some(v as u32)
        } else {
            None
        },
        None => None,
    }
}

} // verus!
