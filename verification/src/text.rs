//! Text helpers: comparing strings and writing numbers in decimal.

use vstd::arithmetic::div_mod::{lemma_basic_div, lemma_div_denominator};
use vstd::arithmetic::power::{
    lemma_pow0, lemma_pow1, lemma_pow_increases, lemma_pow_positive, pow,
};
use vstd::prelude::*;
use vstd::utf8::*;

verus! {

/// The decimal digit `d`, for `d` below ten.
pub open spec fn digit(d: nat) -> char {
    ('0' as int + d) as char
}

/// `n` in decimal, without leading zeros.
pub open spec fn decimal(n: nat) -> Seq<char>
    decreases n,
{
    if n < 10 {
        seq![digit(n)]
    } else {
        decimal(n / 10).push(digit(n % 10))
    }
}

/// `count` zeros.
pub open spec fn zeros(count: nat) -> Seq<char> {
    Seq::new(count, |i: int| '0')
}

/// `n` in decimal, filled up on the left with zeros to at least `width` characters.
pub open spec fn padded(n: nat, width: nat) -> Seq<char> {
    if decimal(n).len() < width {
        zeros((width - decimal(n).len()) as nat) + decimal(n)
    } else {
        decimal(n)
    }
}

/// Whether two strings hold the same characters.
pub(crate) fn same_text(a: &str, b: &str) -> (same: bool)
    ensures
        same == (a@ == b@),
{
    let left = a.as_bytes();
    let right = b.as_bytes();
    proof {
        encode_utf8_decode_utf8(a@);
        encode_utf8_decode_utf8(b@);
    }
    if left.len() != right.len() {
        return false;
    }
    let mut i: usize = 0;
    while i < left.len()
        invariant
            i <= left@.len(),
            left@.len() == right@.len(),
            left@ == encode_utf8(a@),
            right@ == encode_utf8(b@),
            forall|j: int| 0 <= j < i ==> left@[j] == right@[j],
        decreases left@.len() - i,
    {
        if left[i] != right[i] {
            return false;
        }
        i += 1;
    }
    assert(left@ =~= right@);
    true
}

/// Whether `s` begins with the character `c`.
pub(crate) fn begins_with(s: &str, c: char) -> (yes: bool)
    ensures
        yes == (s@.len() > 0 && s@[0] == c),
{
    !s.is_empty() && s.get_char(0) == c
}

/// The characters of `s`.
pub(crate) fn characters(s: &str) -> (chars: Vec<char>)
    ensures
        chars@ == s@,
{
    let mut chars: Vec<char> = Vec::new();
    for c in it: s.chars()
        invariant
            chars@ == it.seq().take(it.index()),
            it.seq() == s@,
    {
        chars.push(c);
    }
    chars
}

/// `a` followed by `b`.
pub(crate) fn joined(a: &str, b: &str) -> (both: String)
    ensures
        both@ == a@ + b@,
{
    let mut both = a.to_owned();
    both.append(b);
    both
}

fn digit_text(d: u64) -> (s: &'static str)
    requires
        d < 10,
    ensures
        s@ == seq![digit(d as nat)],
{
    proof {
        reveal_strlit("0");
        reveal_strlit("1");
        reveal_strlit("2");
        reveal_strlit("3");
        reveal_strlit("4");
        reveal_strlit("5");
        reveal_strlit("6");
        reveal_strlit("7");
        reveal_strlit("8");
        reveal_strlit("9");
    }
    match d {
        0 => "0",
        1 => "1",
        2 => "2",
        3 => "3",
        4 => "4",
        5 => "5",
        6 => "6",
        7 => "7",
        8 => "8",
        _ => "9",
    }
}

fn decimal_text(n: u64) -> (s: String)
    ensures
        s@ == decimal(n as nat),
    decreases n,
{
    if n < 10 {
        digit_text(n).to_owned()
    } else {
        let mut s = decimal_text(n / 10);
        s.append(digit_text(n % 10));
        s
    }
}

/// Writes `n` in decimal, zero-padded on the left to at least `width` characters.
pub fn padded_text(n: u64, width: usize) -> (s: String)
    ensures
        s@ == padded(n as nat, width as nat),
{
    let digits = decimal_text(n);
    let have = digits.as_str().unicode_len();
    if have >= width {
        return digits;
    }
    let mut s = String::new();
    let mut i: usize = 0;
    while i < width - have
        invariant
            have < width,
            i <= width - have,
            s@ =~= zeros(i as nat),
        decreases width - have - i,
    {
        proof {
            reveal_strlit("0");
        }
        s.append("0");
        i += 1;
    }
    s.append(digits.as_str());
    s
}

/// Whether `s` is made of decimal digits alone.
pub open spec fn all_digits(s: Seq<char>) -> bool {
    forall|i: int| 0 <= i < s.len() ==> '0' <= #[trigger] s[i] <= '9'
}

/// The number that decimal digits stand for.
pub open spec fn value(digits: Seq<char>) -> int
    decreases digits.len(),
{
    if digits.len() == 0 {
        0
    } else {
        value(digits.drop_last()) * 10 + (digits.last() as int - '0' as int)
    }
}

proof fn lemma_decimal(n: nat)
    ensures
        decimal(n).len() > 0,
        all_digits(decimal(n)),
        value(decimal(n)) == n,
    decreases n,
{
    if n < 10 {
        assert(decimal(n).drop_last() =~= Seq::empty());
        assert(value(decimal(n).drop_last()) == 0);
    } else {
        lemma_decimal(n / 10);
        assert(decimal(n).drop_last() =~= decimal(n / 10));
    }
}

proof fn lemma_leading_zeros(count: nat, digits: Seq<char>)
    ensures
        value(zeros(count) + digits) == value(digits),
    decreases count + digits.len(),
{
    let all = zeros(count) + digits;
    if digits.len() > 0 {
        assert(all.drop_last() =~= zeros(count) + digits.drop_last());
        lemma_leading_zeros(count, digits.drop_last());
    } else if count > 0 {
        assert(all.drop_last() =~= zeros((count - 1) as nat) + digits);
        lemma_leading_zeros((count - 1) as nat, digits);
    } else {
        assert(all =~= digits);
    }
}

/// A padded number is made of digits, at least as many as asked for, and stands for the number.
pub proof fn law_padded(n: nat, width: nat)
    ensures
        padded(n, width).len() >= width,
        all_digits(padded(n, width)),
        value(padded(n, width)) == n,
{
    lemma_decimal(n);
    if decimal(n).len() < width {
        lemma_leading_zeros((width - decimal(n).len()) as nat, decimal(n));
    }
}

proof fn lemma_decimal_length(n: nat, width: nat)
    requires
        width >= 1,
        n < pow(10, width),
    ensures
        decimal(n).len() <= width,
    decreases width,
{
    reveal(pow);
    if n >= 10 {
        assert(width >= 2) by {
            if width == 1 {
                assert(pow(10, 1) == 10 * pow(10, 0));
            }
        }
        assert(pow(10, width) == 10 * pow(10, (width - 1) as nat));
        lemma_decimal_length(n / 10, (width - 1) as nat);
    }
}

/// A number that is not too large for the width is padded to exactly that width.
pub proof fn law_padded_fits(n: nat, width: nat)
    requires
        width >= 1,
        n < pow(10, width),
    ensures
        padded(n, width).len() == width,
{
    lemma_decimal_length(n, width);
}

proof fn lemma_decimal_digits(n: nat)
    ensures
        ({
            let s = decimal(n);
            &&& s.len() > 0
            &&& n < pow(10, s.len())
            &&& s.len() > 1 ==> n >= pow(10, (s.len() - 1) as nat)
            &&& forall|i: int|
                0 <= i < s.len() ==> (#[trigger] s[i]) as int == '0' as int + n as int / pow(
                    10,
                    (s.len() - 1 - i) as nat,
                ) % 10
        }),
    decreases n,
{
    let s = decimal(n);
    lemma_pow0(10);
    lemma_pow1(10);
    if n < 10 {
        assert(s[0] as int == '0' as int + n);
        assert(n as int / pow(10, 0) == n);
    } else {
        let rest = decimal(n / 10);
        lemma_decimal_digits(n / 10);
        assert(s =~= rest.push(digit(n % 10)));
        assert(pow(10, s.len()) == 10 * pow(10, rest.len())) by {
            reveal(pow);
        }
        assert(rest.len() > 0);
        assert(pow(10, rest.len()) == 10 * pow(10, (rest.len() - 1) as nat)) by {
            reveal(pow);
        }
        if rest.len() == 1 {
            lemma_pow0(10);
        }
        assert forall|i: int| 0 <= i < s.len() implies (#[trigger] s[i]) as int == '0' as int
            + n as int / pow(10, (s.len() - 1 - i) as nat) % 10 by {
            if i < rest.len() {
                let k = (rest.len() - 1 - i) as nat;
                assert(s[i] == rest[i]);
                lemma_pow_positive(10, k);
                assert(pow(10, k + 1) == 10 * pow(10, k)) by {
                    reveal(pow);
                }
                lemma_div_denominator(n as int, 10, pow(10, k));
            } else {
                assert(n as int / pow(10, 0) == n);
            }
        }
    }
}

/// A padded number is its decimal digits: the last character is the digit of the ones, the one
/// before it that of the tens, and so on. There are as many as asked for, and more only where the
/// number needs them.
pub proof fn law_padded_digits(n: nat, width: nat)
    ensures
        ({
            let s = padded(n, width);
            &&& s.len() >= 1 && s.len() >= width
            &&& n < pow(10, s.len())
            &&& s.len() > 1 && s.len() > width ==> n >= pow(10, (s.len() - 1) as nat)
            &&& forall|i: int|
                0 <= i < s.len() ==> (#[trigger] s[i]) as int == '0' as int + n as int / pow(
                    10,
                    (s.len() - 1 - i) as nat,
                ) % 10
        }),
{
    let s = padded(n, width);
    let digits = decimal(n);
    lemma_decimal_digits(n);
    if digits.len() < width {
        let gap = width - digits.len();
        lemma_pow_increases(10, digits.len(), width);
        assert forall|i: int| 0 <= i < s.len() implies (#[trigger] s[i]) as int == '0' as int
            + n as int / pow(10, (s.len() - 1 - i) as nat) % 10 by {
            if i < gap {
                let k = (s.len() - 1 - i) as nat;
                lemma_pow_increases(10, digits.len(), k);
                lemma_basic_div(n as int, pow(10, k));
                assert(s[i] == '0');
            } else {
                assert(s[i] == digits[i - gap]);
            }
        }
    }
}

/// Different numbers are written differently.
pub proof fn law_padded_is_one_to_one(a: nat, b: nat, width: nat)
    requires
        padded(a, width) == padded(b, width),
    ensures
        a == b,
{
    law_padded(a, width);
    law_padded(b, width);
}

} // verus!
