//! Parsing of the numeric columns: unsigned decimal integers, and the
//! shape check for the signed decimal text of the coordinate columns.

use vstd::prelude::*;

verus! {

/// True for an ASCII decimal digit.
pub open spec fn is_digit(c: char) -> bool {
    '0' <= c && c <= '9'
}

/// The numeric value of one decimal digit.
pub open spec fn digit_value(c: char) -> nat {
    (c as int - '0' as int) as nat
}

/// True when every character of the string is a decimal digit.
pub open spec fn all_digits(s: Seq<char>) -> bool {
    forall|i: int| 0 <= i < s.len() ==> is_digit(#[trigger] s[i])
}

/// The value of a string of decimal digits, most significant first.
pub open spec fn spec_dec_value(s: Seq<char>) -> nat
    decreases s.len(),
{
    if s.len() == 0 {
        0
    } else {
        spec_dec_value(s.drop_last()) * 10 + digit_value(s.last())
    }
}

/// True when the string is a non-empty run of digits whose value fits in
/// a `u64`: exactly the texts the integer columns accept.
pub open spec fn valid_u64_text(s: Seq<char>) -> bool {
    &&& s.len() > 0
    &&& all_digits(s)
    &&& spec_dec_value(s) <= u64::MAX
}

/// The value of a digit string never shrinks when digits are appended:
/// every prefix has a value at most that of the whole.
proof fn lemma_dec_value_prefix(s: Seq<char>, i: int)
    requires
        0 <= i <= s.len(),
    ensures
        spec_dec_value(s.subrange(0, i)) <= spec_dec_value(s),
    decreases s.len(),
{
    if i == s.len() {
        assert(s.subrange(0, i) =~= s);
    } else {
        assert(s.drop_last().subrange(0, i) =~= s.subrange(0, i));
        lemma_dec_value_prefix(s.drop_last(), i);
    }
}

/// Parses a non-empty all-digit string as a `u64`; anything else, and any
/// value over `u64::MAX`, is rejected.
pub fn parse_u64(s: &str) -> (r: Option<u64>)
    ensures
        r matches Some(v) ==> valid_u64_text(s@) && v == spec_dec_value(s@),
        r is None ==> !valid_u64_text(s@),
{
    let n = s.unicode_len();
    if n == 0 {
        return None;
    }
    let mut v: u64 = 0;
    let mut i: usize = 0;
    while i < n
        invariant
            i <= n,
            n == s@.len(),
            all_digits(s@.subrange(0, i as int)),
            v == spec_dec_value(s@.subrange(0, i as int)),
        decreases n - i,
    {
        let c = s.get_char(i);
        if !('0' <= c && c <= '9') {
            assert(!all_digits(s@));
            return None;
        }
        let d: u64 = ((c as u8) - 48) as u64;
        proof {
            assert(s@.subrange(0, i as int + 1) =~= s@.subrange(0, i as int).push(s@[i as int]));
            assert(s@.subrange(0, i as int + 1).drop_last() =~= s@.subrange(0, i as int));
        }
        let next = match v.checked_mul(10) {
            Some(m) => m.checked_add(d),
            None => None,
        };
        match next {
            Some(nv) => {
                v = nv;
            },
            None => {
                proof {
                    lemma_dec_value_prefix(s@, i as int + 1);
                }
                return None;
            },
        }
        i = i + 1;
    }
    proof {
        assert(s@.subrange(0, n as int) =~= s@);
    }
    Some(v)
}

/// The number of `.` characters in the string.
pub open spec fn dot_count(s: Seq<char>) -> nat
    decreases s.len(),
{
    if s.len() == 0 {
        0
    } else {
        dot_count(s.drop_last()) + if s.last() == '.' {
            1nat
        } else {
            0nat
        }
    }
}

/// The number of decimal digits in the string.
pub open spec fn digit_count(s: Seq<char>) -> nat
    decreases s.len(),
{
    if s.len() == 0 {
        0
    } else {
        digit_count(s.drop_last()) + if is_digit(s.last()) {
            1nat
        } else {
            0nat
        }
    }
}

/// The string with one leading sign, if any, removed.
pub open spec fn decimal_body(s: Seq<char>) -> Seq<char> {
    if s.len() > 0 && (s[0] == '-' || s[0] == '+') {
        s.subrange(1, s.len() as int)
    } else {
        s
    }
}

/// True for the texts the coordinate columns accept: an optional sign,
/// then digits with at most one decimal point and at least one digit.
pub open spec fn is_decimal_text(s: Seq<char>) -> bool {
    &&& forall|i: int|
        0 <= i < decimal_body(s).len() ==> is_digit(#[trigger] decimal_body(s)[i]) || decimal_body(
            s,
        )[i] == '.'
    &&& dot_count(decimal_body(s)) <= 1
    &&& digit_count(decimal_body(s)) >= 1
}

/// Checks whether the string has the shape of a signed decimal number.
pub fn is_decimal(s: &str) -> (r: bool)
    ensures
        r == is_decimal_text(s@),
{
    let n = s.unicode_len();
    let start: usize = if n > 0 {
        let c0 = s.get_char(0);
        if c0 == '-' || c0 == '+' {
            1
        } else {
            0
        }
    } else {
        0
    };
    let ghost b = decimal_body(s@);
    proof {
        assert(b =~= s@.subrange(start as int, n as int));
    }
    let mut dots: usize = 0;
    let mut digits: usize = 0;
    let mut i: usize = start;
    while i < n
        invariant
            start <= i <= n,
            n == s@.len(),
            b == s@.subrange(start as int, n as int),
            b == decimal_body(s@),
            dots == dot_count(s@.subrange(start as int, i as int)),
            digits == digit_count(s@.subrange(start as int, i as int)),
            dots <= i,
            digits <= i,
            forall|j: int|
                start <= j < i ==> is_digit(#[trigger] s@[j]) || s@[j] == '.',
        decreases n - i,
    {
        let c = s.get_char(i);
        proof {
            assert(s@.subrange(start as int, i as int + 1) =~= s@.subrange(
                start as int,
                i as int,
            ).push(s@[i as int]));
            assert(s@.subrange(start as int, i as int + 1).drop_last() =~= s@.subrange(
                start as int,
                i as int,
            ));
        }
        if c == '.' {
            dots = dots + 1;
        } else if '0' <= c && c <= '9' {
            digits = digits + 1;
        } else {
            proof {
                let k = i as int - start as int;
                assert(0 <= k < decimal_body(s@).len());
                assert(decimal_body(s@)[k] == s@[i as int]);
                if is_decimal_text(s@) {
                    assert(is_digit(decimal_body(s@)[k]) || decimal_body(s@)[k] == '.');
                    assert(false);
                }
            }
            return false;
        }
        i = i + 1;
    }
    proof {
        assert(b =~= s@.subrange(start as int, n as int));
        assert forall|k: int| 0 <= k < b.len() implies (is_digit(#[trigger] b[k]) || b[k]
            == '.') by {
            assert(b[k] == s@[k + start]);
        }
    }
    dots <= 1 && digits >= 1
}

} // verus!
