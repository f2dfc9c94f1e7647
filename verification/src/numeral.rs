//! Positional numerals: how a natural number is written in a radix, and how
//! such a text is read back.

use vstd::arithmetic::div_mod::{lemma_div_decreases, lemma_fundamental_div_mod, lemma_mod_bound};
use vstd::prelude::*;

verus! {

/// The radix of the numerals inside node and edge identifiers.
pub const HEX_RADIX: u32 = 16;

/// The character for one digit: `0` to `9`, then `a` to `z`.
pub open spec fn digit_char(d: nat) -> char
    recommends
        d < 36,
{
    if d < 10 {
        ('0' as nat + d) as char
    } else {
        ('a' as nat + d - 10) as char
    }
}

/// The digit that a character stands for; 36 for a character that is no
/// digit.
pub open spec fn digit_of_char(c: char) -> nat {
    if '0' <= c <= '9' {
        (c as nat - '0' as nat) as nat
    } else if 'a' <= c <= 'z' {
        (c as nat - 'a' as nat + 10) as nat
    } else {
        36
    }
}

/// `n` written in `radix`, most significant digit first, without leading
/// zeros; zero is written as the single digit `0`.
pub open spec fn numeral(n: nat, radix: nat) -> Seq<char>
    recommends
        2 <= radix <= 36,
    decreases n,
    when radix >= 2
    via numeral_decreases
{
    if n < radix {
        seq![digit_char(n)]
    } else {
        numeral(n / radix, radix).push(digit_char(n % radix))
    }
}

#[via_fn]
proof fn numeral_decreases(n: nat, radix: nat) {
    if n >= radix {
        lemma_div_decreases(n as int, radix as int);
    }
}

/// The number that a text of digits denotes in `radix`.
pub open spec fn numeral_value(text: Seq<char>, radix: nat) -> nat
    decreases text.len(),
{
    if text.len() == 0 {
        0
    } else {
        radix * numeral_value(text.drop_last(), radix) + digit_of_char(text.last())
    }
}

/// `n` in lowercase hexadecimal.
pub open spec fn hex(n: nat) -> Seq<char> {
    numeral(n, HEX_RADIX as nat)
}

/// The number that a hexadecimal text denotes.
pub open spec fn hex_value(text: Seq<char>) -> nat {
    numeral_value(text, HEX_RADIX as nat)
}

/// Reading a digit's character gives the digit back.
pub proof fn lemma_digit_round_trip(d: nat)
    requires
        d < 36,
    ensures
        digit_of_char(digit_char(d)) == d,
{
}

/// Reading a numeral gives the number back: `numeral` loses nothing, however
/// large the number is.
pub proof fn lemma_numeral_round_trip(n: nat, radix: nat)
    requires
        2 <= radix <= 36,
    ensures
        numeral_value(numeral(n, radix), radix) == n,
    decreases n,
{
    if n < radix {
        let text = numeral(n, radix);
        assert(text.drop_last() =~= Seq::<char>::empty());
        assert(numeral_value(text.drop_last(), radix) == 0);
        assert(radix * 0 == 0) by (nonlinear_arith);
        lemma_digit_round_trip(n);
    } else {
        let high = n / radix;
        let low = n % radix;
        lemma_div_decreases(n as int, radix as int);
        lemma_mod_bound(n as int, radix as int);
        lemma_fundamental_div_mod(n as int, radix as int);
        lemma_numeral_round_trip(high, radix);
        let text = numeral(n, radix);
        assert(text.drop_last() =~= numeral(high, radix));
        assert(text.last() == digit_char(low));
        lemma_digit_round_trip(low);
    }
}

/// A numeral is never empty, holds only digits below the radix, and starts
/// with the digit `0` only where the number is zero.
pub proof fn lemma_numeral_shape(n: nat, radix: nat)
    requires
        2 <= radix <= 36,
    ensures
        numeral(n, radix).len() >= 1,
        forall|i: int|
            0 <= i < numeral(n, radix).len() ==> digit_of_char(#[trigger] numeral(n, radix)[i])
                < radix,
        n == 0 ==> numeral(n, radix) == seq!['0'],
        n > 0 ==> numeral(n, radix)[0] != '0',
    decreases n,
{
    if n < radix {
        lemma_digit_round_trip(n);
    } else {
        let high = n / radix;
        let low = n % radix;
        lemma_div_decreases(n as int, radix as int);
        lemma_mod_bound(n as int, radix as int);
        lemma_fundamental_div_mod(n as int, radix as int);
        assert(high > 0) by {
            if high == 0 {
                assert(radix * 0 == 0) by (nonlinear_arith);
            }
        }
        lemma_numeral_shape(high, radix);
        lemma_digit_round_trip(low);
        let text = numeral(n, radix);
        let head = numeral(high, radix);
        assert forall|i: int| 0 <= i < text.len() implies digit_of_char(#[trigger] text[i])
            < radix by {
            if i < head.len() {
                assert(text[i] == head[i]);
            }
        }
        assert(text[0] == head[0]);
    }
}

/// Two numbers with the same numeral are the same number.
pub proof fn lemma_numeral_injective(a: nat, b: nat, radix: nat)
    requires
        2 <= radix <= 36,
        numeral(a, radix) == numeral(b, radix),
    ensures
        a == b,
{
    lemma_numeral_round_trip(a, radix);
    lemma_numeral_round_trip(b, radix);
}

} // verus!
