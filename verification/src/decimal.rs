//! Numbers in decimal notation, as bytes of text.

use vstd::prelude::*;

use crate::model::Bytes;

verus! {

/// The decimal digits of `n`, most significant first, as text.
pub open spec fn digits(n: nat) -> Seq<u8>
    decreases n,
{
    if n < 10 {
        seq![(48 + n) as u8]
    } else {
        digits(n / 10).push((48 + n % 10) as u8)
    }
}

/// `n` in decimal notation.
pub fn to_decimal(n: u64) -> (text: Bytes)
    ensures
        text@ == digits(n as nat),
    decreases n,
{
    if n < 10 {
        let mut text: Bytes = Vec::new();
        text.push(48 + n as u8);
        assert(text@ =~= digits(n as nat));
        text
    } else {
        let mut text: Bytes = to_decimal(n / 10);
        text.push(48 + (n % 10) as u8);
        text
    }
}

spec fn pow10(k: nat) -> nat
    decreases k,
{
    if k == 0 {
        1
    } else {
        10 * pow10((k - 1) as nat)
    }
}

proof fn lemma_digits_len(n: nat, k: nat)
    requires
        k >= 1,
        n < pow10(k),
    ensures
        1 <= digits(n).len() <= k,
    decreases k,
{
    reveal_with_fuel(pow10, 2);
    if n >= 10 {
        lemma_digits_len(n / 10, (k - 1) as nat);
    }
}

/// A 64-bit number has between one and twenty digits.
pub proof fn lemma_digits_len_u64(n: u64)
    ensures
        1 <= digits(n as nat).len() <= 20,
{
    assert(pow10(20) == 100000000000000000000) by {
        reveal_with_fuel(pow10, 21);
    }
    lemma_digits_len(n as nat, 20);
}

/// Decimal notation holds digits only.
pub proof fn lemma_digits_are_digits(n: nat)
    ensures
        digits(n).len() >= 1,
        forall|i: int| 0 <= i < digits(n).len() ==> 48 <= #[trigger] digits(n)[i] <= 57,
    decreases n,
{
    if n >= 10 {
        lemma_digits_are_digits(n / 10);
        assert forall|i: int| 0 <= i < digits(n).len() implies 48 <= #[trigger] digits(
            n,
        )[i] <= 57 by {
            if i < digits(n / 10).len() {
                assert(digits(n)[i] == digits(n / 10)[i]);
            }
        }
    }
}

/// Different numbers have different decimal notations.
pub proof fn lemma_digits_injective(a: nat, b: nat)
    requires
        digits(a) == digits(b),
    ensures
        a == b,
    decreases a,
{
    lemma_digits_are_digits(a / 10);
    lemma_digits_are_digits(b / 10);
    assert(digits(a).last() == 48 + a % 10);
    assert(digits(b).last() == 48 + b % 10);
    if a >= 10 && b >= 10 {
        assert(digits(a).drop_last() =~= digits(a / 10));
        assert(digits(b).drop_last() =~= digits(b / 10));
        lemma_digits_injective(a / 10, b / 10);
    }
}

/// The number that a text denotes when its bytes are read as decimal digits, the
/// most significant first.
pub open spec fn number_read(text: Seq<u8>) -> int
    decreases text.len(),
{
    if text.len() == 0 {
        0
    } else {
        10 * number_read(text.drop_last()) + (text.last() - 48)
    }
}

/// Decimal notation, read as digits, denotes the number; it holds the digits from
/// `0` to `9` only, and begins with `0` for zero alone.
pub proof fn law_digits_denote_the_number(n: nat)
    ensures
        number_read(digits(n)) == n,
        digits(n).len() >= 1,
        forall|i: int| 0 <= i < digits(n).len() ==> 48 <= #[trigger] digits(n)[i] <= 57,
        digits(n)[0] == 48 <==> n == 0,
        n < 10 <==> digits(n).len() == 1,
    decreases n,
{
    lemma_digits_are_digits(n);
    if n < 10 {
        assert(digits(n).drop_last() =~= Seq::<u8>::empty());
        assert(number_read(digits(n).drop_last()) == 0);
    } else {
        law_digits_denote_the_number(n / 10);
        assert(digits(n).drop_last() =~= digits(n / 10));
        assert(digits(n)[0] == digits(n / 10)[0]);
    }
}

} // verus!
