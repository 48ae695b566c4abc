//! Decimal numerals.
//!
//! Scores, state values and indices travel through the serialized result
//! document as decimal numerals.  This module fixes the canonical numeral
//! of an integer, renders one, parses one back, and proves that the two
//! directions agree.

use vstd::prelude::*;
use vstd::string::*;
use vstd::arithmetic::div_mod::lemma_fundamental_div_mod;

verus! {

/// The character for decimal digit `d`.
pub open spec fn digit_char(d: int) -> char {
    if d == 0 { '0' }
    else if d == 1 { '1' }
    else if d == 2 { '2' }
    else if d == 3 { '3' }
    else if d == 4 { '4' }
    else if d == 5 { '5' }
    else if d == 6 { '6' }
    else if d == 7 { '7' }
    else if d == 8 { '8' }
    else { '9' }
}

/// The numeric value of a digit character.
pub open spec fn digit_val(c: char) -> int {
    c as int - '0' as int
}

/// A decimal digit character.
pub open spec fn is_digit(c: char) -> bool {
    '0' <= c && c <= '9'
}

/// One or more decimal digits and nothing else.
pub open spec fn spec_is_digits(s: Seq<char>) -> bool {
    s.len() > 0 && forall|i: int| 0 <= i < s.len() ==> is_digit(#[trigger] s[i])
}

/// The canonical decimal numeral of a natural number: no sign, no leading
/// zero except for zero itself.
pub open spec fn spec_dec(n: nat) -> Seq<char>
    decreases n,
{
    if n < 10 {
        seq![digit_char(n as int)]
    } else {
        spec_dec(n / 10) + seq![digit_char((n % 10) as int)]
    }
}

/// The canonical decimal numeral of an integer: a minus sign for negative
/// values, then the digits of the magnitude.
pub open spec fn spec_dec_int(v: int) -> Seq<char> {
    if v < 0 {
        seq!['-'] + spec_dec((-v) as nat)
    } else {
        spec_dec(v as nat)
    }
}

/// The numeric value of a digit string, most significant digit first.
pub open spec fn spec_digits_val(s: Seq<char>) -> int
    decreases s.len(),
{
    if s.len() == 0 {
        0
    } else {
        spec_digits_val(s.drop_last()) * 10 + digit_val(s.last())
    }
}

/// The one-character string for decimal digit `d`.
fn digit_str(d: u64) -> (r: &'static str)
    requires
        d < 10,
    ensures
        r@ == seq![digit_char(d as int)],
{
    if d == 0 {
        proof { reveal_strlit("0"); assert("0"@ =~= seq![digit_char(0)]); }
        "0"
    } else if d == 1 {
        proof { reveal_strlit("1"); assert("1"@ =~= seq![digit_char(1)]); }
        "1"
    } else if d == 2 {
        proof { reveal_strlit("2"); assert("2"@ =~= seq![digit_char(2)]); }
        "2"
    } else if d == 3 {
        proof { reveal_strlit("3"); assert("3"@ =~= seq![digit_char(3)]); }
        "3"
    } else if d == 4 {
        proof { reveal_strlit("4"); assert("4"@ =~= seq![digit_char(4)]); }
        "4"
    } else if d == 5 {
        proof { reveal_strlit("5"); assert("5"@ =~= seq![digit_char(5)]); }
        "5"
    } else if d == 6 {
        proof { reveal_strlit("6"); assert("6"@ =~= seq![digit_char(6)]); }
        "6"
    } else if d == 7 {
        proof { reveal_strlit("7"); assert("7"@ =~= seq![digit_char(7)]); }
        "7"
    } else if d == 8 {
        proof { reveal_strlit("8"); assert("8"@ =~= seq![digit_char(8)]); }
        "8"
    } else {
        proof { reveal_strlit("9"); assert("9"@ =~= seq![digit_char(9)]); }
        "9"
    }
}

/// Renders the canonical decimal numeral of `x`.
pub fn u64_to_dec(x: u64) -> (s: String)
    ensures
        s@ == spec_dec(x as nat),
    decreases x,
{
    if x < 10 {
        digit_str(x).to_owned()
    } else {
        proof {
            lemma_fundamental_div_mod(x as int, 10);
        }
        let mut s = u64_to_dec(x / 10);
        s.append(digit_str(x % 10));
        s
    }
}

/// Renders the canonical decimal numeral of `v`, sign included.
pub fn i64_to_dec(v: i64) -> (s: String)
    ensures
        s@ == spec_dec_int(v as int),
{
    if v >= 0 {
        u64_to_dec(v as u64)
    } else {
        let m: u64 = (-(v as i128)) as u64;
        proof {
            assert(m as int == -(v as int));
        }
        let mut s = "-".to_owned();
        let digits = u64_to_dec(m);
        s.append(digits.as_str());
        proof {
            reveal_strlit("-");
            assert("-"@ =~= seq!['-']);
        }
        s
    }
}

/// The canonical numeral is made of digits.
pub proof fn lemma_dec_is_digits(n: nat)
    ensures
        spec_is_digits(spec_dec(n)),
    decreases n,
{
    if n >= 10 {
        lemma_dec_is_digits(n / 10);
        let a = spec_dec(n / 10);
        let b = seq![digit_char((n % 10) as int)];
        assert(forall|i: int| 0 <= i < a.len() + 1 ==> is_digit(#[trigger] (a + b)[i]));
    }
}

/// A digit character carries back its own value.
pub proof fn lemma_digit_char_val(d: int)
    requires
        0 <= d < 10,
    ensures
        digit_val(digit_char(d)) == d,
        is_digit(digit_char(d)),
{
}

/// Parsing the canonical numeral gives back the number.
pub proof fn lemma_dec_roundtrip(n: nat)
    ensures
        spec_digits_val(spec_dec(n)) == n,
    decreases n,
{
    if n < 10 {
        lemma_digit_char_val(n as int);
        let s = spec_dec(n);
        assert(s.drop_last() =~= Seq::<char>::empty());
        assert(s.last() == digit_char(n as int));
        assert(spec_digits_val(s)
            == spec_digits_val(s.drop_last()) * 10 + digit_val(s.last()));
        assert(spec_digits_val(s.drop_last()) == 0);
        assert(spec_digits_val(s) == n);
    } else {
        lemma_digit_char_val((n % 10) as int);
        lemma_dec_roundtrip(n / 10);
        lemma_fundamental_div_mod(n as int, 10);
        let a = spec_dec(n / 10);
        let b = seq![digit_char((n % 10) as int)];
        let whole = a + b;
        assert(spec_dec(n) == whole);
        assert(whole.drop_last() =~= a);
        assert(whole.last() == digit_char((n % 10) as int));
        assert(spec_digits_val(whole)
            == spec_digits_val(whole.drop_last()) * 10 + digit_val(whole.last()));
        assert(spec_digits_val(whole.drop_last()) == spec_digits_val(a));
        assert(spec_digits_val(a) == n / 10);
        assert(spec_digits_val(whole) == (n / 10) * 10 + (n % 10));
        assert(n == 10 * (n / 10) + n % 10);
        assert((n / 10) * 10 == 10 * (n / 10)) by (nonlinear_arith);
        assert(spec_digits_val(spec_dec(n)) == n);
    }
}

/// A prefix of a digit string has a non-negative value.
pub proof fn lemma_digits_val_nonneg(s: Seq<char>, i: int)
    requires
        spec_is_digits(s),
        0 <= i <= s.len(),
    ensures
        spec_digits_val(s.subrange(0, i)) >= 0,
    decreases i,
{
    if i == 0 {
        assert(s.subrange(0, 0) =~= Seq::<char>::empty());
    } else {
        let p = s.subrange(0, i);
        assert(p.drop_last() =~= s.subrange(0, i - 1));
        lemma_digits_val_nonneg(s, i - 1);
        let q = spec_digits_val(s.subrange(0, i - 1));
        assert(spec_digits_val(p) == q * 10 + digit_val(p.last()));
        assert(q * 10 >= 0) by (nonlinear_arith)
            requires q >= 0;
        assert(is_digit(p.last()));
    }
}

/// The value of a digit string only grows as more digits follow.
pub proof fn lemma_digits_val_prefix_le(s: Seq<char>, i: int, j: int)
    requires
        spec_is_digits(s),
        0 <= i <= j <= s.len(),
    ensures
        spec_digits_val(s.subrange(0, i)) <= spec_digits_val(s.subrange(0, j)),
    decreases j - i,
{
    lemma_digits_val_nonneg(s, i);
    if i < j {
        lemma_digits_val_prefix_le(s, i, j - 1);
        lemma_digits_val_nonneg(s, j - 1);
        let p = s.subrange(0, j);
        assert(p.drop_last() =~= s.subrange(0, j - 1));
        let q = spec_digits_val(s.subrange(0, j - 1));
        assert(spec_digits_val(p) == q * 10 + digit_val(p.last()));
        assert(q * 10 >= q) by (nonlinear_arith)
            requires q >= 0;
        assert(is_digit(p.last()));
    }
}

/// Parses a string of decimal digits as a number.  `None` when the string
/// is empty, holds a non-digit, or exceeds the `u64` range.
pub fn parse_digits(s: &str) -> (r: Option<u64>)
    ensures
        match r {
            Some(v) => spec_is_digits(s@) && v as int == spec_digits_val(s@),
            None => !spec_is_digits(s@) || spec_digits_val(s@) > u64::MAX as int,
        },
{
    broadcast use vstd::string::is_ascii_spec_bytes;

    if !s.is_ascii() {
        proof {
            let k = choose|k: int| !(0 <= k < s@.len() ==> '\0' <= #[trigger] s@[k] <= '\u{7f}');
            assert(!is_digit(s@[k]));
        }
        return None;
    }
    let bytes = s.as_bytes();
    if bytes.len() == 0 {
        proof {
            assert(s@.len() == 0);
        }
        return None;
    }
    let ghost cs = s@;
    let mut acc: u64 = 0;
    let mut i: usize = 0;
    while i < bytes.len()
        invariant
            0 <= i <= bytes.len(),
            bytes@ == s.spec_bytes(),
            vstd::string::is_ascii(s),
            cs == s@,
            bytes@.len() == cs.len(),
            forall|k: int| 0 <= k < cs.len() ==> bytes@[k] == #[trigger] cs[k] as u8,
            forall|k: int| 0 <= k < i ==> is_digit(#[trigger] cs[k]),
            acc as int == spec_digits_val(cs.subrange(0, i as int)),
        decreases bytes@.len() - i,
    {
        let b = bytes[i];
        if b < 48 || b > 57 {
            proof {
                assert(cs[i as int] as u8 == b);
                assert(!is_digit(cs[i as int]));
            }
            return None;
        }
        let d = (b - 48) as u64;
        proof {
            assert(cs[i as int] as nat <= 0x7f);
            assert(is_digit(cs[i as int]));
            assert(digit_val(cs[i as int]) == d as int);
        }
        if acc > (u64::MAX - d) / 10 {
            proof {
                lemma_fundamental_div_mod(u64::MAX as int - d, 10);
                assert(cs.subrange(0, i as int + 1).drop_last() =~= cs.subrange(0, i as int));
                assert(spec_digits_val(cs.subrange(0, i as int + 1))
                    == acc as int * 10 + d as int);
                assert(acc as int * 10 + d > u64::MAX as int) by (nonlinear_arith)
                    requires
                        acc as int >= (u64::MAX as int - d) / 10 + 1,
                        10 * ((u64::MAX as int - d) / 10) + (u64::MAX as int - d) % 10
                            == u64::MAX as int - d,
                        0 <= (u64::MAX as int - d) % 10 < 10,
                        d >= 0;
                if spec_is_digits(cs) {
                    lemma_digits_val_prefix_le(cs, i as int + 1, cs.len() as int);
                    assert(cs.subrange(0, cs.len() as int) =~= cs);
                }
            }
            return None;
        }
        proof {
            lemma_fundamental_div_mod(u64::MAX as int - d, 10);
            assert(acc as int * 10 + d <= u64::MAX as int) by (nonlinear_arith)
                requires
                    acc as int <= (u64::MAX as int - d) / 10,
                    10 * ((u64::MAX as int - d) / 10) + (u64::MAX as int - d) % 10
                        == u64::MAX as int - d,
                    0 <= (u64::MAX as int - d) % 10 < 10,
                    d >= 0;
            assert(cs.subrange(0, i as int + 1).drop_last() =~= cs.subrange(0, i as int));
        }
        acc = acc * 10 + d;
        i += 1;
    }
    proof {
        assert(cs.subrange(0, cs.len() as int) =~= cs);
    }
    Some(acc)
}

} // verus!
