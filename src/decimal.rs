//! The canonical decimal text of an integer, as bytes, and reading it back.

use vstd::prelude::*;

verus! {

/// The byte `'0' + d`, for a digit `d` in `0..10`.
pub open spec fn digit_byte(d: int) -> u8 {
    (d + 48) as u8
}

/// Whether `b` is one of the ASCII digits `'0'..='9'`.
pub open spec fn is_digit_byte(b: u8) -> bool {
    48 <= b <= 57
}

/// The decimal digits of `n`, most significant first, without leading zeros.
pub open spec fn digits_of(n: nat) -> Seq<u8>
    decreases n,
{
    if n < 10 {
        seq![digit_byte(n as int)]
    } else {
        digits_of(n / 10).push(digit_byte((n % 10) as int))
    }
}

/// The canonical decimal text of `v`: a `'-'` before the digits of a negative
/// value, no `'+'`, no leading zeros, and `"0"` for zero.
pub open spec fn decimal(v: int) -> Seq<u8> {
    if v < 0 {
        seq![45u8] + digits_of((-v) as nat)
    } else {
        digits_of(v as nat)
    }
}

/// `10` to the power `k`.
pub open spec fn pow10(k: nat) -> nat
    decreases k,
{
    if k == 0 {
        1
    } else {
        10 * pow10((k - 1) as nat)
    }
}

/// The value of a sequence of decimal digits, most significant first.
pub open spec fn digits_value(s: Seq<u8>) -> int
    decreases s.len(),
{
    if s.len() == 0 {
        0
    } else {
        digits_value(s.drop_last()) * 10 + (s.last() - 48)
    }
}

/// The integer that decimal text denotes: an optional leading `'-'`, then digits.
pub open spec fn parse_decimal(s: Seq<u8>) -> int {
    if s.len() > 0 && s[0] == 45u8 {
        -digits_value(s.drop_first())
    } else {
        digits_value(s)
    }
}

/// Every byte of `digits_of(n)` is a digit, and there is at least one.
pub proof fn lemma_digits_are_digits(n: nat)
    ensures
        digits_of(n).len() >= 1,
        forall|k: int| 0 <= k < digits_of(n).len() ==> is_digit_byte(#[trigger] digits_of(n)[k]),
    decreases n,
{
    if n >= 10 {
        lemma_digits_are_digits(n / 10);
    }
}

/// Reading the digits of `n` back gives `n`.
pub proof fn lemma_digits_value(n: nat)
    ensures
        digits_value(digits_of(n)) == n,
    decreases n,
{
    if n >= 10 {
        lemma_digits_value(n / 10);
        let s = digits_of(n);
        assert(s.drop_last() =~= digits_of(n / 10));
        assert(s.last() == digit_byte((n % 10) as int));
        assert(digit_byte((n % 10) as int) - 48 == n % 10);
        assert((n / 10) * 10 + n % 10 == n);
        assert(digits_value(s) == digits_value(s.drop_last()) * 10 + (s.last() - 48));
    } else {
        assert(digits_of(n).drop_last() =~= Seq::<u8>::empty());
        assert(digits_value(Seq::<u8>::empty()) == 0);
    }
}

/// A value below `10^k` has at most `k` digits.
pub proof fn lemma_digits_len(n: nat, k: nat)
    requires
        k >= 1,
        n < pow10(k),
    ensures
        digits_of(n).len() <= k,
    decreases n,
{
    if n >= 10 {
        let j = (k - 1) as nat;
        assert(j >= 1) by {
            if j == 0 {
                assert(pow10(k) == 10 * pow10(0));
            }
        }
        assert(pow10(k) == 10 * pow10(j));
        assert(n / 10 < pow10(j));
        lemma_digits_len(n / 10, j);
    }
}

/// The first digit of a positive value is not `'0'`.
pub proof fn lemma_leading_digit(n: nat)
    ensures
        n > 0 ==> digits_of(n)[0] != 48u8,
    decreases n,
{
    if n >= 10 {
        lemma_leading_digit(n / 10);
        lemma_digits_are_digits(n / 10);
        assert(digits_of(n)[0] == digits_of(n / 10)[0]);
    }
}

/// The text of every value between `i64::MIN` and `u64::MAX` fits in 20 bytes.
pub proof fn lemma_decimal_len(v: int)
    requires
        i64::MIN <= v <= u64::MAX,
    ensures
        1 <= decimal(v).len() <= 20,
{
    reveal_with_fuel(pow10, 21);
    lemma_digits_are_digits(if v < 0 { (-v) as nat } else { v as nat });
    if v < 0 {
        assert(pow10(19) == 10000000000000000000nat);
        lemma_digits_len((-v) as nat, 19);
    } else {
        assert(pow10(20) == 100000000000000000000nat);
        lemma_digits_len(v as nat, 20);
    }
}

/// Each byte of the text of `v` is a digit, or a `'-'` that stands first.
pub proof fn lemma_decimal_bytes(v: int)
    ensures
        decimal(v).len() >= 1,
        forall|k: int|
            0 <= k < decimal(v).len() ==> is_digit_byte(#[trigger] decimal(v)[k]) || (k == 0
                && v < 0 && decimal(v)[k] == 45u8),
{
    if v < 0 {
        lemma_digits_are_digits((-v) as nat);
        let d = digits_of((-v) as nat);
        assert forall|k: int| 1 <= k < decimal(v).len() implies #[trigger] decimal(v)[k] == d[k - 1] by {}
    } else {
        lemma_digits_are_digits(v as nat);
    }
}

/// Reading the text of `v` back gives `v`.
pub proof fn lemma_round_trip(v: int)
    ensures
        parse_decimal(decimal(v)) == v,
{
    if v < 0 {
        let d = digits_of((-v) as nat);
        assert(decimal(v).drop_first() =~= d);
        lemma_digits_value((-v) as nat);
    } else {
        lemma_digits_are_digits(v as nat);
        lemma_digits_value(v as nat);
    }
}

/// The text is canonical: zero is exactly `"0"`; a negative value has one
/// leading `'-'`; all other bytes are digits and the first of them is `'0'`
/// only for zero.
pub proof fn lemma_canonical_form(v: int)
    ensures
        v == 0 <==> decimal(v) == seq![48u8],
        v < 0 <==> decimal(v)[0] == 45u8,
        v < 0 ==> decimal(v).len() >= 2 && decimal(v)[1] != 48u8,
        v > 0 ==> decimal(v)[0] != 48u8,
        forall|k: int|
            (if v < 0 { 1int } else { 0int }) <= k < decimal(v).len() ==> is_digit_byte(
                #[trigger] decimal(v)[k],
            ),
{
    lemma_decimal_bytes(v);
    if v < 0 {
        let n = (-v) as nat;
        lemma_leading_digit(n);
        lemma_digits_are_digits(n);
        assert(decimal(v)[1] == digits_of(n)[0]);
        assert(decimal(v) != seq![48u8]) by {
            assert(decimal(v)[0] != seq![48u8][0]);
        }
    } else {
        lemma_leading_digit(v as nat);
        assert(is_digit_byte(decimal(v)[0]));
        if v != 0 {
            assert(decimal(v) != seq![48u8]) by {
                assert(decimal(v)[0] != seq![48u8][0]);
            }
        } else {
            assert(decimal(0) =~= seq![48u8]);
        }
    }
}

/// The text is one path component: not empty, without `'/'` or NUL, and
/// neither `"."` nor `".."`.
pub proof fn lemma_one_component(v: int)
    ensures
        decimal(v).len() >= 1,
        forall|k: int|
            0 <= k < decimal(v).len() ==> #[trigger] decimal(v)[k] != 47u8 && decimal(v)[k]
                != 0u8 && decimal(v)[k] != 46u8,
        decimal(v) != seq![46u8],
        decimal(v) != seq![46u8, 46u8],
{
    lemma_decimal_bytes(v);
    assert(decimal(v)[0] != 46u8);
    assert(decimal(v) != seq![46u8]) by {
        assert(seq![46u8][0] == 46u8);
    }
    assert(decimal(v) != seq![46u8, 46u8]) by {
        assert(seq![46u8, 46u8][0] == 46u8);
    }
}

} // verus!
