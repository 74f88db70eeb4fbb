//! Text helpers: parsing and rendering decimal integers, character tests,
//! and appending single characters to strings.

use vstd::prelude::*;
use vstd::string::StrSliceExecFns;

verus! {

/// Relies on `String::push` of std: appends exactly one character at the
/// end of the string.
#[verifier::external_body]
pub fn push_char(s: &mut String, c: char)
    ensures
        final(s)@ == old(s)@.push(c),
{
    s.push(c);
}

/// Whether `c` is a decimal digit.
pub open spec fn is_ascii_digit(c: char) -> bool {
    ('0' as u32) <= (c as u32) && (c as u32) <= ('9' as u32)
}

/// The numeric value of a decimal digit.
pub open spec fn digit_val(c: char) -> int {
    (c as u32) - ('0' as u32)
}

/// Whether every character of `s` is a decimal digit.
pub open spec fn all_digits(s: Seq<char>) -> bool {
    forall|i: int| 0 <= i < s.len() ==> is_ascii_digit(#[trigger] s[i])
}

/// The numeric value of a sequence of decimal digits.
pub open spec fn digits_val(s: Seq<char>) -> int
    decreases s.len(),
{
    if s.len() == 0 {
        0
    } else {
        digits_val(s.drop_last()) * 10 + digit_val(s.last())
    }
}

/// The value of a digit sequence is never negative.
pub proof fn lemma_digits_val_nonneg(s: Seq<char>)
    requires
        all_digits(s),
    ensures
        digits_val(s) >= 0,
    decreases s.len(),
{
    if s.len() > 0 {
        assert(all_digits(s.drop_last())) by {
            assert(forall|i: int|
                0 <= i < s.len() - 1 ==> is_ascii_digit(#[trigger] s.drop_last()[i])
                    == is_ascii_digit(s[i]));
        }
        lemma_digits_val_nonneg(s.drop_last());
    }
}

/// The integer denoted by `s` in the syntax of `i32` literals: an optional
/// sign followed by at least one decimal digit, with a value that fits in an
/// `i32`; everything else denotes nothing.
pub open spec fn spec_parse_i32(s: Seq<char>) -> Option<i32> {
    let signed = s.len() > 0 && (s[0] == '+' || s[0] == '-');
    let body = if signed {
        s.drop_first()
    } else {
        s
    };
    let negative = s.len() > 0 && s[0] == '-';
    if body.len() > 0 && all_digits(body) {
        let v = if negative {
            -digits_val(body)
        } else {
            digits_val(body)
        };
        if i32::MIN <= v <= i32::MAX {
            Some(v as i32)
        } else {
            None
        }
    } else {
        None
    }
}

/// Parses `s` as a decimal `i32` literal with an optional sign.
pub fn parse_i32(s: &str) -> (r: Option<i32>)
    ensures
        r == spec_parse_i32(s@),
{
    let n = s.unicode_len();
    let mut start: usize = 0;
    let mut negative = false;
    if n > 0 {
        let c0 = s.get_char(0);
        if c0 == '+' {
            start = 1;
        } else if c0 == '-' {
            negative = true;
            start = 1;
        }
    }
    if start >= n {
        // empty input, or a sign with no digits
        return None;
    }
    let ghost body = s@.subrange(start as int, n as int);
    proof {
        if start == 1 {
            assert(body =~= s@.drop_first());
        } else {
            assert(body =~= s@);
        }
    }
    let mut acc: u64 = 0;
    let mut j: usize = start;
    while j < n
        invariant
            start <= j <= n,
            n == s@.len(),
            start < n,
            start == 0 || start == 1,
            (start == 1) <==> (s@.len() > 0 && (s@[0] == '+' || s@[0] == '-')),
            negative <==> (s@.len() > 0 && s@[0] == '-'),
            body == s@.subrange(start as int, n as int),
            (start == 1) ==> body == s@.drop_first(),
            (start == 0) ==> body == s@,
            all_digits(body.subrange(0, j - start)),
            digits_val(body.subrange(0, j - start)) <= 0x8000_0000 ==> acc == digits_val(
                body.subrange(0, j - start),
            ),
            digits_val(body.subrange(0, j - start)) > 0x8000_0000 ==> acc > 0x8000_0000,
            acc < 0x10_0000_0000,
        decreases n - j,
    {
        let c = s.get_char(j);
        let cu = c as u32;
        if cu < '0' as u32 || cu > '9' as u32 {
            proof {
                assert(body[j - start] == s@[j as int]);
                assert(!is_ascii_digit(body[j - start]));
                assert(!all_digits(body));
                assert(spec_parse_i32(s@) is None);
            }
            return None;
        }
        let d: u64 = (cu - '0' as u32) as u64;
        let ghost prefix = body.subrange(0, j - start);
        let ghost prefix2 = body.subrange(0, j + 1 - start);
        proof {
            assert(prefix2.drop_last() =~= prefix);
            assert(prefix2.last() == s@[j as int]);
            lemma_digits_val_nonneg(prefix);
        }
        if acc <= 0x8000_0000 {
            acc = acc * 10 + d;
        }
        proof {
            if digits_val(prefix) > 0x8000_0000 {
                assert(digits_val(prefix2) > 0x8000_0000);
            }
        }
        j = j + 1;
    }
    proof {
        assert(body.subrange(0, n - start) =~= body);
        lemma_digits_val_nonneg(body);
    }
    if negative {
        if acc <= 2_147_483_647 {
            Some(-(acc as i32))
        } else if acc == 2_147_483_648 {
            Some(i32::MIN)
        } else {
            None
        }
    } else {
        if acc <= 2_147_483_647 {
            Some(acc as i32)
        } else {
            None
        }
    }
}

/// The character of a decimal digit.
pub open spec fn digit_char(d: int) -> char {
    if d == 0 {
        '0'
    } else if d == 1 {
        '1'
    } else if d == 2 {
        '2'
    } else if d == 3 {
        '3'
    } else if d == 4 {
        '4'
    } else if d == 5 {
        '5'
    } else if d == 6 {
        '6'
    } else if d == 7 {
        '7'
    } else if d == 8 {
        '8'
    } else {
        '9'
    }
}

/// The decimal rendering of a non-negative integer, without sign and
/// without leading zeroes (except for the number zero itself).
pub open spec fn spec_nat_digits(n: int) -> Seq<char>
    recommends
        n >= 0,
    decreases n,
{
    if n < 10 {
        seq![digit_char(n)]
    } else {
        spec_nat_digits(n / 10).push(digit_char(n % 10))
    }
}

/// The decimal rendering of an integer, as `i32::to_string` renders it.
pub open spec fn spec_i32_string(n: int) -> Seq<char> {
    if n < 0 {
        seq!['-'] + spec_nat_digits(-n)
    } else {
        spec_nat_digits(n)
    }
}

/// The digit character for a digit value.
fn digit_char_of(d: u32) -> (c: char)
    requires
        d < 10,
    ensures
        c == digit_char(d as int),
{
    if d == 0 {
        '0'
    } else if d == 1 {
        '1'
    } else if d == 2 {
        '2'
    } else if d == 3 {
        '3'
    } else if d == 4 {
        '4'
    } else if d == 5 {
        '5'
    } else if d == 6 {
        '6'
    } else if d == 7 {
        '7'
    } else if d == 8 {
        '8'
    } else {
        '9'
    }
}

/// Appends the decimal digits of `m` to `s`.
fn push_u32_digits(s: &mut String, m: u32)
    ensures
        final(s)@ == old(s)@ + spec_nat_digits(m as int),
    decreases m,
{
    if m < 10 {
        push_char(s, digit_char_of(m));
        proof {
            assert(s@ =~= old(s)@ + spec_nat_digits(m as int));
        }
    } else {
        push_u32_digits(s, m / 10);
        push_char(s, digit_char_of(m % 10));
        proof {
            assert(s@ =~= old(s)@ + spec_nat_digits(m as int));
        }
    }
}

/// Renders `n` in decimal, as `i32::to_string` does.
pub fn i32_to_string(n: i32) -> (r: String)
    ensures
        r@ == spec_i32_string(n as int),
{
    let mut s = String::new();
    if n < 0 {
        push_char(&mut s, '-');
        let m: u32 = (-(n as i64)) as u32;
        push_u32_digits(&mut s, m);
        proof {
            assert(s@ =~= spec_i32_string(n as int));
        }
    } else {
        push_u32_digits(&mut s, n as u32);
        proof {
            assert(s@ =~= spec_i32_string(n as int));
        }
    }
    s
}

/// The decimal rendering of a non-negative integer consists of digits and
/// denotes the integer itself.
pub proof fn lemma_nat_digits_val(n: int)
    requires
        n >= 0,
    ensures
        all_digits(spec_nat_digits(n)),
        digits_val(spec_nat_digits(n)) == n,
        spec_nat_digits(n).len() >= 1,
    decreases n,
{
    if n < 10 {
        let s = spec_nat_digits(n);
        assert(s == seq![digit_char(n)]);
        assert(is_ascii_digit(digit_char(n)));
        assert(s.drop_last() =~= Seq::<char>::empty());
        assert(digits_val(Seq::<char>::empty()) == 0);
        assert(s.last() == digit_char(n));
        assert(digits_val(s) == digit_val(digit_char(n)));
    } else {
        lemma_nat_digits_val(n / 10);
        let rest = spec_nat_digits(n / 10);
        let s = rest.push(digit_char(n % 10));
        assert(s.drop_last() =~= rest);
        assert(s.last() == digit_char(n % 10));
        assert(is_ascii_digit(digit_char(n % 10)));
        assert(digit_val(digit_char(n % 10)) == n % 10);
        assert(digits_val(s) == digits_val(rest) * 10 + (n % 10));
        assert(all_digits(s)) by {
            assert(forall|i: int| 0 <= i < rest.len() ==> s[i] == rest[i]);
        }
    }
}

/// Parsing the decimal rendering of an integer gives the integer back.
pub proof fn lemma_i32_string_parse(n: int)
    requires
        i32::MIN <= n <= i32::MAX,
    ensures
        spec_parse_i32(spec_i32_string(n)) == Some(n as i32),
{
    if n >= 0 {
        let s = spec_nat_digits(n);
        lemma_nat_digits_val(n);
        assert(is_ascii_digit(s[0]));
        assert(s[0] != '+' && s[0] != '-');
        assert(spec_parse_i32(s) == Some(n as i32));
    } else {
        let digits = spec_nat_digits(-n);
        let s = seq!['-'] + digits;
        lemma_nat_digits_val(-n);
        assert(s[0] == '-');
        assert(s.drop_first() =~= digits);
        assert(s.len() > 0);
        assert(digits.len() > 0);
        assert(spec_parse_i32(s) == Some(n as i32));
    }
}

/// Renders `n` in decimal, as `u32::to_string` does.
pub fn u32_to_string(n: u32) -> (r: String)
    ensures
        r@ == spec_nat_digits(n as int),
{
    let mut s = String::new();
    push_u32_digits(&mut s, n);
    proof {
        assert(s@ =~= spec_nat_digits(n as int));
    }
    s
}

} // verus!
