use crate::cli::{all_decimal_digits, decimal_value, digit_value, is_decimal_digit};
use vstd::prelude::*;
use vstd::string::{StrSliceExecFns, StringExecFns};

verus! {

/// Decimal digits of `n`, most significant first, without leading zeros.
pub open spec fn decimal_digits(n: nat) -> Seq<char>
    decreases n,
{
    if n < 10 {
        seq![digit_char(n)]
    } else {
        decimal_digits(n / 10).push(digit_char(n % 10))
    }
}

/// The ASCII digit for `d < 10`.
pub open spec fn digit_char(d: nat) -> char {
    ('0' as nat + d) as char
}

/// The string for one decimal digit.
pub fn digit_str(d: u128) -> (s: &'static str)
    requires
        d < 10,
    ensures
        s@ == seq![digit_char(d as nat)],
{
    proof {
        reveal_strlit("0");
        reveal_strlit("1");
        reveal_strlit("2");
        reveal_strlit("3");
        reveal_strlit("4");
        reveal_strlit("5");
        reveal_strlit("6");
        reveal_strlit("7");
        reveal_strlit("8");
        reveal_strlit("9");
    }
    let s = if d == 0 {
        "0"
    } else if d == 1 {
        "1"
    } else if d == 2 {
        "2"
    } else if d == 3 {
        "3"
    } else if d == 4 {
        "4"
    } else if d == 5 {
        "5"
    } else if d == 6 {
        "6"
    } else if d == 7 {
        "7"
    } else if d == 8 {
        "8"
    } else {
        "9"
    };
    assert(s@ =~= seq![digit_char(d as nat)]);
    s
}

/// Decimal digits of `n`, most significant first, as values.
pub fn digits_of(n: u128) -> (digits: Vec<u128>)
    ensures
        digits@.len() == decimal_digits(n as nat).len(),
        forall|i: int|
            0 <= i < digits@.len() ==> #[trigger] digits@[i] < 10 && digit_char(digits@[i] as nat)
                == decimal_digits(n as nat)[i],
    decreases n,
{
    if n < 10 {
        let mut digits = Vec::new();
        digits.push(n);
        digits
    } else {
        let mut digits = digits_of(n / 10);
        digits.push(n % 10);
        digits
    }
}

/// `n` written in decimal, as `format!("{n}")` writes it.
pub fn decimal_string(n: u128) -> (text: String)
    ensures
        text@ == decimal_digits(n as nat),
{
    let digits = digits_of(n);
    let ghost dec = decimal_digits(n as nat);
    let mut text = String::new();
    let mut k: usize = 0;
    while k < digits.len()
        invariant
            k <= digits@.len(),
            digits@.len() == dec.len(),
            forall|i: int|
                0 <= i < digits@.len() ==> #[trigger] digits@[i] < 10 && digit_char(digits@[i] as nat)
                    == dec[i],
            text@ == dec.take(k as int),
        decreases digits@.len() - k,
    {
        let ghost before = text@;
        text.append(digit_str(digits[k]));
        assert(dec.take(k + 1) =~= dec.take(k as int).push(dec[k as int]));
        k = k + 1;
    }
    assert(dec.take(k as int) =~= dec);
    text
}

/// Decimal numbers separated by `", "`.
pub open spec fn joined_decimals(values: Seq<usize>) -> Seq<char>
    decreases values.len(),
{
    if values.len() == 0 {
        Seq::empty()
    } else if values.len() == 1 {
        decimal_digits(values[0] as nat)
    } else {
        joined_decimals(values.drop_last()) + ", "@ + decimal_digits(values.last() as nat)
    }
}

/// A list of numbers as `{:?}` writes a slice or an array of `usize`: `[1, 2, 3]`.
pub open spec fn list_text(values: Seq<usize>) -> Seq<char> {
    "["@ + joined_decimals(values) + "]"@
}

/// Writes a list of numbers as `{:?}` writes a slice of `usize`.
pub fn list_string(values: &[usize]) -> (text: String)
    ensures
        text@ == list_text(values@),
{
    let mut text = String::from_str("[");
    let mut k: usize = 0;
    while k < values.len()
        invariant
            k <= values@.len(),
            text@ == "["@ + joined_decimals(values@.take(k as int)),
        decreases values@.len() - k,
    {
        let ghost before = values@.take(k as int);
        let ghost next = values@.take(k + 1);
        assert(next.drop_last() =~= before);
        assert(next.last() == values@[k as int]);
        if k > 0 {
            text.append(", ");
        }
        let number = decimal_string(values[k] as u128);
        text.append(number.as_str());
        proof {
            if k == 0 {
                assert(before =~= Seq::<usize>::empty());
                assert(joined_decimals(before) =~= Seq::<char>::empty());
            }
        }
        assert(text@ =~= "["@ + joined_decimals(next));
        k = k + 1;
    }
    assert(values@.take(k as int) =~= values@);
    text.append("]");
    text
}

/// Writes a three-dimensional shape as `{:?}` writes a `[usize; 3]`.
pub fn shape_string(shape: [usize; 3]) -> (text: String)
    ensures
        text@ == list_text(shape@),
{
    let values: Vec<usize> = vec![shape[0], shape[1], shape[2]];
    assert(values@ =~= shape@);
    list_string(values.as_slice())
}

/// An optional shape as `{:?}` writes an `Option<[usize; 3]>`: `Some([1, 2, 3])` or `None`.
pub open spec fn optional_shape_text(shape: Option<[usize; 3]>) -> Seq<char> {
    match shape {
        Some(dims) => "Some("@ + list_text(dims@) + ")"@,
        None => "None"@,
    }
}

/// Writes an optional shape as `{:?}` writes an `Option<[usize; 3]>`.
pub fn optional_shape_string(shape: Option<[usize; 3]>) -> (text: String)
    ensures
        text@ == optional_shape_text(shape),
{
    match shape {
        Some(dims) => {
            let mut text = String::from_str("Some(");
            let inner = shape_string(dims);
            text.append(inner.as_str());
            text.append(")");
            text
        },
        None => String::from_str("None"),
    }
}

/// `10` to the power `k`.
pub open spec fn pow10(k: nat) -> nat
    decreases k,
{
    if k == 0 {
        1
    } else {
        10 * pow10((k - 1) as nat)
    }
}

/// A digit written by [`digit_char`] is a decimal digit and reads back as itself.
proof fn lemma_digit_char_reads_back(d: nat)
    requires
        d < 10,
    ensures
        is_decimal_digit(digit_char(d)),
        digit_value(digit_char(d)) == d,
{
}

/// `n` written in decimal is a non-empty string of decimal digits that reads
/// back as `n`, has no leading zero, and is exactly as long as `n` has
/// decimal places: `10^(len - 1) <= n < 10^len` (with `0` written as `0`).
pub proof fn lemma_decimal_digits_read_back(n: nat)
    ensures
        decimal_digits(n).len() >= 1,
        all_decimal_digits(decimal_digits(n)),
        decimal_value(decimal_digits(n)) == n,
        n < pow10(decimal_digits(n).len()),
        decimal_digits(n).len() == 1 || pow10((decimal_digits(n).len() - 1) as nat) <= n,
        decimal_digits(n).len() > 1 ==> decimal_digits(n)[0] != '0',
    decreases n,
{
    let digits = decimal_digits(n);
    if n < 10 {
        lemma_digit_char_reads_back(n);
        assert(digits.drop_last() =~= Seq::<char>::empty());
        assert(decimal_value(Seq::<char>::empty()) == 0);
        assert(decimal_value(digits) == decimal_value(digits.drop_last()) * 10 + digit_value(
            digits.last(),
        ));
        assert(pow10(1) == 10) by {
            assert(pow10(0) == 1);
        }
    } else {
        let head = decimal_digits(n / 10);
        lemma_decimal_digits_read_back(n / 10);
        lemma_digit_char_reads_back(n % 10);
        assert(digits.drop_last() =~= head);
        assert(digits.last() == digit_char(n % 10));
        assert(decimal_value(digits) == decimal_value(head) * 10 + digit_value(digit_char(n % 10)));
        assert forall|i: int| 0 <= i < digits.len() implies is_decimal_digit(#[trigger] digits[i]) by {
            if i < head.len() {
                assert(digits[i] == head[i]);
            }
        }
        let len = head.len();
        assert(pow10(len + 1) == 10 * pow10(len));
        assert(n == 10 * (n / 10) + n % 10);
        if len > 1 {
            assert(pow10(len) == 10 * pow10((len - 1) as nat));
        } else {
            assert(pow10(1) == 10) by {
                assert(pow10(0) == 1);
            }
        }
        assert(digits[0] == head[0]);
        if len == 1 {
            assert(n / 10 >= 1);
            assert(head[0] == digit_char(n / 10));
        }
    }
}

} // verus!
