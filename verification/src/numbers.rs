//! Decimal text for page numbers: rendering a number into a query string and
//! reading a paginator link's text back into a number.

use vstd::prelude::*;

verus! {

/// The decimal digit character for a value below 10.
pub open spec fn dec_digit(n: u32) -> char
    recommends
        n < 10,
{
    if n == 0 {
        '0'
    } else if n == 1 {
        '1'
    } else if n == 2 {
        '2'
    } else if n == 3 {
        '3'
    } else if n == 4 {
        '4'
    } else if n == 5 {
        '5'
    } else if n == 6 {
        '6'
    } else if n == 7 {
        '7'
    } else if n == 8 {
        '8'
    } else {
        '9'
    }
}

/// The decimal rendering of a number, without sign or leading zeros.
pub open spec fn dec_of(n: u32) -> Seq<char>
    decreases n,
{
    if n < 10 {
        seq![dec_digit(n)]
    } else {
        dec_of(n / 10).push(dec_digit(n % 10))
    }
}

/// Whether `c` is a decimal digit.
pub open spec fn is_dec_digit(c: char) -> bool {
    48 <= (c as u32) && (c as u32) <= 57
}

/// The value of a decimal digit character.
pub open spec fn dec_val(c: char) -> u32
    recommends
        is_dec_digit(c),
{
    ((c as u32) - 48) as u32
}

/// Whether every character of `s` is a decimal digit.
pub open spec fn all_dec_digits(s: Seq<char>) -> bool {
    forall|i: int| 0 <= i < s.len() ==> is_dec_digit(#[trigger] s[i])
}

/// The numeric value of a digit string.
pub open spec fn digits_val(s: Seq<char>) -> nat
    decreases s.len(),
{
    if s.len() == 0 {
        0
    } else {
        (digits_val(s.drop_last()) * 10 + dec_val(s.last())) as nat
    }
}

/// What a page-number text means: its value, if the text is a plain decimal
/// number that fits; nothing otherwise.
pub open spec fn parse_u32_spec(s: Seq<char>) -> Option<u32> {
    if s.len() > 0 && all_dec_digits(s) && digits_val(s) <= u32::MAX {
        Some(digits_val(s) as u32)
    } else {
        None
    }
}

/// A longer digit string never has a smaller value.
proof fn lemma_digits_val_prefix(s: Seq<char>, i: int)
    requires
        0 <= i <= s.len(),
    ensures
        digits_val(s.take(i)) <= digits_val(s),
    decreases s.len() - i,
{
    if i < s.len() {
        lemma_digits_val_prefix(s.drop_last(), i);
        assert(s.drop_last().take(i) =~= s.take(i));
        assert(digits_val(s) == digits_val(s.drop_last()) * 10 + dec_val(s.last()));
        assert(digits_val(s.drop_last()) * 10 >= digits_val(s.drop_last()));
    } else {
        assert(s.take(i) =~= s);
    }
}

/// The decimal digit character for a value below 10.
fn dec_digit_exec(n: u32) -> (c: char)
    requires
        n < 10,
    ensures
        c == dec_digit(n),
{
    match n {
        0 => '0',
        1 => '1',
        2 => '2',
        3 => '3',
        4 => '4',
        5 => '5',
        6 => '6',
        7 => '7',
        8 => '8',
        _ => '9',
    }
}

/// Renders a number in decimal, as it appears in a page query string.
pub fn u32_to_string(n: u32) -> (r: String)
    ensures
        r@ == dec_of(n),
{
    let mut digits: Vec<char> = Vec::new();
    let mut rest = n;
    proof {
        assert(dec_of(n) =~= dec_of(n) + digits@);
    }
    loop
        invariant_except_break
            dec_of(n) == dec_of(rest) + digits@,
        ensures
            dec_of(n) == digits@,
        decreases rest,
    {
        let ghost prev_digits = digits@;
        let c = dec_digit_exec(rest % 10);
        digits.insert(0, c);
        proof {
            assert(digits@ =~= seq![c] + prev_digits);
        }
        if rest < 10 {
            proof {
                assert(dec_of(rest) == seq![dec_digit(rest)]);
                assert(dec_of(n) =~= digits@);
            }
            break;
        }
        proof {
            assert(dec_of(rest) == dec_of(rest / 10).push(dec_digit(rest % 10)));
            assert(dec_of(rest / 10) + digits@ =~= (dec_of(rest / 10).push(c)) + prev_digits);
        }
        rest = rest / 10;
    }
    let mut out = String::new();
    let mut i: usize = 0;
    while i < digits.len()
        invariant
            i <= digits@.len(),
            out@ == digits@.take(i as int),
            dec_of(n) == digits@,
        decreases digits@.len() - i,
    {
        crate::codec::push_char(&mut out, digits[i]);
        proof {
            assert(digits@.take(i as int).push(digits@[i as int]) =~= digits@.take(i as int + 1));
        }
        i = i + 1;
    }
    proof {
        assert(digits@.take(digits@.len() as int) =~= digits@);
    }
    out
}

/// Reads a paginator text as a decimal number; `None` if it is empty, holds a
/// non-digit, or overflows.
pub fn parse_u32(s: &str) -> (r: Option<u32>)
    ensures
        r == parse_u32_spec(s@),
{
    let n = s.unicode_len();
    if n == 0 {
        return None;
    }
    let mut val: u32 = 0;
    let mut i: usize = 0;
    while i < n
        invariant
            n == s@.len(),
            0 < n,
            i <= n,
            all_dec_digits(s@.take(i as int)),
            val == digits_val(s@.take(i as int)),
        decreases n - i,
    {
        let c = s.get_char(i);
        let u = c as u32;
        if u < 48 || u > 57 {
            assert(!is_dec_digit(s@[i as int]));
            assert(!all_dec_digits(s@));
            return None;
        }
        let d = u - 48;
        if val > (u32::MAX - d) / 10 {
            proof {
                assert(s@.take(i as int).push(s@[i as int]) =~= s@.take(i as int + 1));
                assert(s@.take(i as int + 1).drop_last() =~= s@.take(i as int));
                assert(s@.take(i as int + 1).last() == s@[i as int]);
                assert(digits_val(s@.take(i as int + 1)) == digits_val(s@.take(i as int)) * 10
                    + d);
                let x = (u32::MAX - d) as int;
                assert(x == x / 10 * 10 + x % 10);
                assert(val * 10 + d > u32::MAX);
                lemma_digits_val_prefix(s@, i as int + 1);
            }
            return None;
        }
        val = val * 10 + d;
        proof {
            assert(s@.take(i as int).push(s@[i as int]) =~= s@.take(i as int + 1));
            assert(s@.take(i as int + 1).drop_last() =~= s@.take(i as int));
        }
        i = i + 1;
    }
    proof {
        assert(s@.take(n as int) =~= s@);
    }
    Some(val)
}

} // verus!
