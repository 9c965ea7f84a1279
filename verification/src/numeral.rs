//! Decimal numerals: parsing with the exact grammar of `str::parse` for
//! integers, formatting, and the round trip between the two.

use vstd::prelude::*;

verus! {

/// An ASCII decimal digit.
pub open spec fn is_digit(c: char) -> bool {
    48 <= c as int && c as int <= 57
}

/// Numeric value of an ASCII digit.
pub open spec fn digit_val(c: char) -> int {
    c as int - 48
}

/// Value of a digit string read left to right.
pub open spec fn digits_val(s: Seq<char>) -> int
    decreases s.len(),
{
    if s.len() == 0 {
        0
    } else {
        digits_val(s.drop_last()) * 10 + digit_val(s.last())
    }
}

pub open spec fn all_digits(s: Seq<char>) -> bool {
    forall|i: int| 0 <= i < s.len() ==> is_digit(s[i])
}

/// The digit part of an unsigned numeral: everything after an optional `+`.
pub open spec fn unsigned_body(s: Seq<char>) -> Seq<char> {
    if s.len() > 0 && s[0] == '+' {
        s.drop_first()
    } else {
        s
    }
}

/// A well-formed unsigned decimal numeral, by the grammar `str::parse` uses
/// for unsigned integers: an optional `+`, then one or more ASCII digits and
/// nothing else.
pub open spec fn is_unsigned_numeral(s: Seq<char>) -> bool {
    unsigned_body(s).len() > 0 && all_digits(unsigned_body(s))
}

pub open spec fn unsigned_numeral_val(s: Seq<char>) -> int {
    digits_val(unsigned_body(s))
}

/// The digit part of a signed numeral: everything after an optional sign.
pub open spec fn signed_body(s: Seq<char>) -> Seq<char> {
    if s.len() > 0 && (s[0] == '+' || s[0] == '-') {
        s.drop_first()
    } else {
        s
    }
}

/// A well-formed signed decimal numeral: an optional `+` or `-`, then one or
/// more ASCII digits and nothing else.
pub open spec fn is_signed_numeral(s: Seq<char>) -> bool {
    signed_body(s).len() > 0 && all_digits(signed_body(s))
}

pub open spec fn signed_numeral_val(s: Seq<char>) -> int {
    if s.len() > 0 && s[0] == '-' {
        -digits_val(signed_body(s))
    } else {
        digits_val(signed_body(s))
    }
}

/// Parses an unsigned decimal numeral as `str::parse::<usize>` does: `Some`
/// exactly on well-formed numerals whose value fits in `usize`.
pub fn parse_usize(s: &str) -> (r: Option<usize>)
    ensures
        r is Some <==> (is_unsigned_numeral(s@) && unsigned_numeral_val(s@)
            <= usize::MAX as int),
        r matches Some(v) ==> v as int == unsigned_numeral_val(s@),
{
    let len = s.unicode_len();
    let start: usize = if len > 0 && s.get_char(0) == '+' {
        1
    } else {
        0
    };
    proof {
        assert(unsigned_body(s@) =~= s@.skip(start as int));
    }
    if start == len {
        return None;
    }
    let bound: u128 = usize::MAX as u128;
    let mut i: usize = start;
    let mut mag: u128 = 0;
    let mut over: bool = false;
    while i < len
        invariant
            len == s@.len(),
            start <= i <= len,
            start < len,
            unsigned_body(s@) == s@.skip(start as int),
            bound == usize::MAX as u128,
            forall|j: int| start <= j < i ==> is_digit(s@[j]),
            !over ==> mag as int == digits_val(s@.subrange(start as int, i as int)) && mag
                <= bound,
            over ==> digits_val(s@.subrange(start as int, i as int)) > bound as int,
        decreases len - i,
    {
        let c = s.get_char(i);
        let cu = c as u32;
        if cu < 48 || cu > 57 {
            proof {
                assert(unsigned_body(s@)[i - start] == s@[i as int]);
            }
            return None;
        }
        let d: u128 = (cu - 48) as u128;
        proof {
            assert(s@.subrange(start as int, i as int + 1).drop_last() =~= s@.subrange(
                start as int,
                i as int,
            ));
            assert(s@.subrange(start as int, i as int + 1).last() == s@[i as int]);
        }
        if !over {
            let next = mag * 10 + d;
            if next > bound {
                over = true;
            } else {
                mag = next;
            }
        }
        i = i + 1;
    }
    proof {
        assert(s@.subrange(start as int, len as int) =~= s@.skip(start as int));
        assert(forall|j: int|
            0 <= j < unsigned_body(s@).len() ==> is_digit(#[trigger] unsigned_body(s@)[j]));
    }
    if over {
        None
    } else {
        Some(mag as usize)
    }
}

/// Parses a signed decimal numeral as `str::parse::<i32>` does: `Some`
/// exactly on well-formed numerals whose value fits in `i32`.
pub fn parse_i32(s: &str) -> (r: Option<i32>)
    ensures
        r is Some <==> (is_signed_numeral(s@) && i32::MIN as int <= signed_numeral_val(s@)
            && signed_numeral_val(s@) <= i32::MAX as int),
        r matches Some(v) ==> v as int == signed_numeral_val(s@),
{
    let len = s.unicode_len();
    let mut neg: bool = false;
    let mut start: usize = 0;
    if len > 0 {
        let c0 = s.get_char(0);
        if c0 == '+' {
            start = 1;
        } else if c0 == '-' {
            start = 1;
            neg = true;
        }
    }
    proof {
        assert(signed_body(s@) =~= s@.skip(start as int));
        assert(neg == (s@.len() > 0 && s@[0] == '-'));
    }
    if start == len {
        return None;
    }
    let bound: u64 = 0x8000_0000;
    let mut i: usize = start;
    let mut mag: u64 = 0;
    let mut over: bool = false;
    while i < len
        invariant
            len == s@.len(),
            start <= i <= len,
            start < len,
            signed_body(s@) == s@.skip(start as int),
            neg == (s@.len() > 0 && s@[0] == '-'),
            bound == 0x8000_0000u64,
            forall|j: int| start <= j < i ==> is_digit(s@[j]),
            !over ==> mag as int == digits_val(s@.subrange(start as int, i as int)) && mag
                <= bound,
            over ==> digits_val(s@.subrange(start as int, i as int)) > bound as int,
        decreases len - i,
    {
        let c = s.get_char(i);
        let cu = c as u32;
        if cu < 48 || cu > 57 {
            proof {
                assert(signed_body(s@)[i - start] == s@[i as int]);
            }
            return None;
        }
        let d: u64 = (cu - 48) as u64;
        proof {
            assert(s@.subrange(start as int, i as int + 1).drop_last() =~= s@.subrange(
                start as int,
                i as int,
            ));
            assert(s@.subrange(start as int, i as int + 1).last() == s@[i as int]);
        }
        if !over {
            let next = mag * 10 + d;
            if next > bound {
                over = true;
            } else {
                mag = next;
            }
        }
        i = i + 1;
    }
    proof {
        assert(s@.subrange(start as int, len as int) =~= s@.skip(start as int));
        assert(forall|j: int|
            0 <= j < signed_body(s@).len() ==> is_digit(#[trigger] signed_body(s@)[j]));
    }
    if over {
        return None;
    }
    if neg {
        Some((-(mag as i64)) as i32)
    } else {
        if mag > 0x7fff_ffff {
            None
        } else {
            Some(mag as i32)
        }
    }
}

/// The character of a single decimal digit.
pub open spec fn digit_char(d: int) -> char {
    if d == 0 {
        '0'
    } else if d == 1 {
        '1'
    } else if d == 2 {
        '2'
    } else if d == 3 {
        '3'
    } else if d == 4 {
        '4'
    } else if d == 5 {
        '5'
    } else if d == 6 {
        '6'
    } else if d == 7 {
        '7'
    } else if d == 8 {
        '8'
    } else {
        '9'
    }
}

/// Decimal digits of `n`, most significant first, without sign or padding.
pub open spec fn dec_digits(n: nat) -> Seq<char>
    decreases n,
{
    if n < 10 {
        seq![digit_char(n as int)]
    } else {
        dec_digits(n / 10).push(digit_char((n % 10) as int))
    }
}

/// Decimal numeral of `v`: a leading `-` for negative values.
pub open spec fn dec_numeral(v: int) -> Seq<char> {
    if v < 0 {
        seq!['-'] + dec_digits((-v) as nat)
    } else {
        dec_digits(v as nat)
    }
}

fn digit_str(d: u32) -> (r: &'static str)
    requires
        d < 10,
    ensures
        r@ == seq![digit_char(d as int)],
{
    proof {
        reveal_strlit("0");
        reveal_strlit("1");
        reveal_strlit("2");
        reveal_strlit("3");
        reveal_strlit("4");
        reveal_strlit("5");
        reveal_strlit("6");
        reveal_strlit("7");
        reveal_strlit("8");
        reveal_strlit("9");
        assert("0"@ =~= seq!['0']);
        assert("1"@ =~= seq!['1']);
        assert("2"@ =~= seq!['2']);
        assert("3"@ =~= seq!['3']);
        assert("4"@ =~= seq!['4']);
        assert("5"@ =~= seq!['5']);
        assert("6"@ =~= seq!['6']);
        assert("7"@ =~= seq!['7']);
        assert("8"@ =~= seq!['8']);
        assert("9"@ =~= seq!['9']);
    }
    if d == 0 {
        "0"
    } else if d == 1 {
        "1"
    } else if d == 2 {
        "2"
    } else if d == 3 {
        "3"
    } else if d == 4 {
        "4"
    } else if d == 5 {
        "5"
    } else if d == 6 {
        "6"
    } else if d == 7 {
        "7"
    } else if d == 8 {
        "8"
    } else {
        "9"
    }
}

/// Formats `n` in decimal, as `Display` for `u32` does.
pub fn fmt_u32(n: u32) -> (r: String)
    ensures
        r@ == dec_digits(n as nat),
    decreases n,
{
    if n < 10 {
        String::from_str(digit_str(n))
    } else {
        let mut prefix = fmt_u32(n / 10);
        prefix.append(digit_str(n % 10));
        proof {
            assert(dec_digits(n as nat / 10) + seq![digit_char((n as nat % 10) as int)]
                =~= dec_digits(n as nat / 10).push(digit_char((n as nat % 10) as int)));
        }
        prefix
    }
}

/// Formats `v` in decimal, as `Display` for `i32` does.
pub fn fmt_i32(v: i32) -> (r: String)
    ensures
        r@ == dec_numeral(v as int),
{
    if v >= 0 {
        fmt_u32(v as u32)
    } else {
        let mag64: i64 = -(v as i64);
        let mag: u32 = mag64 as u32;
        let mut out = String::from_str("-");
        let digits = fmt_u32(mag);
        out.append(digits.as_str());
        proof {
            reveal_strlit("-");
            assert("-"@ =~= seq!['-']);
            assert(mag as nat == (-(v as int)) as nat);
        }
        out
    }
}

pub proof fn lemma_dec_digits(n: nat)
    ensures
        dec_digits(n).len() >= 1,
        all_digits(dec_digits(n)),
        digits_val(dec_digits(n)) == n,
        is_digit(dec_digits(n)[0]),
    decreases n,
{
    if n < 10 {
        let c = digit_char(n as int);
        assert(seq![c].drop_last() =~= Seq::<char>::empty());
        assert(digits_val(Seq::<char>::empty()) == 0);
        assert(seq![c].last() == c);
        assert(digits_val(seq![c]) == digit_val(c));
        assert(is_digit(c) && digit_val(c) == n);
    } else {
        lemma_dec_digits(n / 10);
        let prev = dec_digits(n / 10);
        let c = digit_char((n % 10) as int);
        let s = prev.push(c);
        assert(s.drop_last() =~= prev);
        assert(s.last() == c);
        assert(is_digit(c) && digit_val(c) == n % 10);
        assert(digits_val(s) == digits_val(prev) * 10 + digit_val(c));
        assert(forall|i: int| 0 <= i < s.len() ==> is_digit(#[trigger] s[i]));
        assert(s[0] == prev[0]);
    }
}

/// Formatting then parsing is the identity: the decimal numeral of any
/// integer is a well-formed signed numeral that reads back to the same value.
pub proof fn lemma_dec_numeral_roundtrip(v: int)
    ensures
        is_signed_numeral(dec_numeral(v)),
        signed_numeral_val(dec_numeral(v)) == v,
{
    if v < 0 {
        lemma_dec_digits((-v) as nat);
        let s = seq!['-'] + dec_digits((-v) as nat);
        assert(s[0] == '-');
        assert(s.drop_first() =~= dec_digits((-v) as nat));
        assert(signed_body(s) == s.drop_first());
    } else {
        lemma_dec_digits(v as nat);
        let s = dec_digits(v as nat);
        assert(is_digit(s[0]));
        assert(s[0] != '+' && s[0] != '-') by {
            assert('+' as int == 43 && '-' as int == 45);
        }
        assert(signed_body(s) == s);
    }
}

} // verus!
