use vstd::arithmetic::div_mod::lemma_fundamental_div_mod;
use vstd::prelude::*;
use crate::text::{decimal_digits, digit_char, digit_str, digits_of, lemma_decimal_digits_read_back};
use vstd::string::{StrSliceExecFns, StringExecFns};

verus! {

/// Whether `c` is one of the ASCII digits `0`..=`9`.
pub open spec fn is_decimal_digit(c: char) -> bool {
    '0' <= c && c <= '9'
}

/// Value of an ASCII digit.
pub open spec fn digit_value(c: char) -> nat {
    (c as nat - '0' as nat) as nat
}

/// Value of a string of decimal digits, most significant first.
pub open spec fn decimal_value(digits: Seq<char>) -> nat
    decreases digits.len(),
{
    if digits.len() == 0 {
        0
    } else {
        decimal_value(digits.drop_last()) * 10 + digit_value(digits.last())
    }
}

/// The value that `usize::from_str` reads from `s`, before the range check:
/// an optional `+` followed by one or more ASCII digits.
pub open spec fn unsigned_decimal(s: Seq<char>) -> Option<nat> {
    let digits = unsigned_digits(s);
    if digits.len() > 0 && all_decimal_digits(digits) {
        Some(decimal_value(digits))
    } else {
        None
    }
}

/// `s` without one leading `+`.
pub open spec fn unsigned_digits(s: Seq<char>) -> Seq<char> {
    if s.len() > 0 && s[0] == '+' {
        s.drop_first()
    } else {
        s
    }
}

/// Whether every character of `s` is an ASCII digit.
pub open spec fn all_decimal_digits(s: Seq<char>) -> bool {
    forall|i: int| 0 <= i < s.len() ==> is_decimal_digit(#[trigger] s[i])
}

proof fn lemma_decimal_value_grows(digits: Seq<char>, k: int)
    requires
        0 <= k <= digits.len(),
        forall|i: int| 0 <= i < digits.len() ==> is_decimal_digit(#[trigger] digits[i]),
    ensures
        decimal_value(digits.take(k)) <= decimal_value(digits),
    decreases digits.len() - k,
{
    if k < digits.len() {
        let next = digits.take(k + 1);
        assert(next.drop_last() == digits.take(k));
        assert(decimal_value(next) == decimal_value(digits.take(k)) * 10 + digit_value(next.last()));
        assert(decimal_value(digits.take(k)) <= decimal_value(next)) by (nonlinear_arith)
            requires
                decimal_value(next) == decimal_value(digits.take(k)) * 10 + digit_value(next.last()),
        ;
        lemma_decimal_value_grows(digits, k + 1);
    } else {
        assert(digits.take(k) == digits);
    }
}

/// Why a string is not an unsigned decimal integer that fits in `usize`.
#[derive(Debug, Clone, Copy, PartialEq, Eq, Structural)]
pub enum UnsignedParseError {
    /// The string is empty.
    Empty,
    /// A character that is not a digit comes before the value grows too large,
    /// or the string is a lone `+`.
    InvalidDigit,
    /// The value of the leading digits grows beyond `usize::MAX`.
    PosOverflow,
}

/// Number of leading ASCII digits of `s`.
pub open spec fn leading_digit_count(s: Seq<char>) -> nat
    decreases s.len(),
{
    if s.len() == 0 || !is_decimal_digit(s[0]) {
        0
    } else {
        1 + leading_digit_count(s.drop_first())
    }
}

/// Why `usize::from_str` refuses `s` where it does: empty input, a lone `+`,
/// a value that outgrows `usize` before the first non-digit, or a non-digit.
pub open spec fn unsigned_parse_error(s: Seq<char>) -> UnsignedParseError {
    let digits = unsigned_digits(s);
    if s.len() == 0 {
        UnsignedParseError::Empty
    } else if digits.len() == 0 {
        UnsignedParseError::InvalidDigit
    } else if decimal_value(digits.take(leading_digit_count(digits) as int)) > usize::MAX {
        UnsignedParseError::PosOverflow
    } else {
        UnsignedParseError::InvalidDigit
    }
}

impl UnsignedParseError {
    /// The text with which `ParseIntError` displays this kind of failure.
    pub open spec fn spec_message(self) -> Seq<char> {
        match self {
            UnsignedParseError::Empty => "cannot parse integer from empty string"@,
            UnsignedParseError::InvalidDigit => "invalid digit found in string"@,
            UnsignedParseError::PosOverflow => "number too large to fit in target type"@,
        }
    }

    /// The text with which `ParseIntError` displays this kind of failure.
    pub fn message(self) -> (text: &'static str)
        ensures
            text@ == self.spec_message(),
    {
        match self {
            UnsignedParseError::Empty => "cannot parse integer from empty string",
            UnsignedParseError::InvalidDigit => "invalid digit found in string",
            UnsignedParseError::PosOverflow => "number too large to fit in target type",
        }
    }
}

/// With the first `k` characters of `s` digits, at least `k` characters lead
/// with digits, exactly `k` when the next one is not a digit, and all that
/// lead are digits.
proof fn lemma_leading_digit_count(s: Seq<char>, k: int)
    requires
        0 <= k <= s.len(),
        forall|j: int| 0 <= j < k ==> is_decimal_digit(#[trigger] s[j]),
    ensures
        k <= leading_digit_count(s) <= s.len(),
        (k == s.len() || !is_decimal_digit(s[k])) ==> leading_digit_count(s) == k,
        forall|j: int| 0 <= j < leading_digit_count(s) ==> is_decimal_digit(#[trigger] s[j]),
    decreases s.len(),
{
    if s.len() > 0 && is_decimal_digit(s[0]) {
        let rest = s.drop_first();
        let k1 = if k > 0 {
            k - 1
        } else {
            0
        };
        assert forall|j: int| 0 <= j < k1 implies is_decimal_digit(#[trigger] rest[j]) by {
            assert(rest[j] == s[j + 1]);
        }
        lemma_leading_digit_count(rest, k1);
        assert forall|j: int| 0 <= j < leading_digit_count(s) implies is_decimal_digit(
            #[trigger] s[j],
        ) by {
            if j > 0 {
                assert(s[j] == rest[j - 1]);
            }
        }
        if k > 0 && k < s.len() && !is_decimal_digit(s[k]) {
            assert(rest[k - 1] == s[k]);
        }
    }
}

/// Parses an unsigned decimal integer as `usize::from_str` does: an optional
/// `+`, then one or more ASCII digits, with a value that fits in `usize`; a
/// refusal names the kind of failure that `usize::from_str` reports.
pub fn parse_usize(value: &str) -> (parsed: Result<usize, UnsignedParseError>)
    ensures
        parsed is Ok <==> (unsigned_decimal(value@) matches Some(v) && v <= usize::MAX),
        parsed matches Ok(n) ==> unsigned_decimal(value@) == Some(n as nat),
        parsed matches Err(kind) ==> kind == unsigned_parse_error(value@),
{
    let len = value.unicode_len();
    let start: usize = if len > 0 && value.get_char(0) == '+' {
        1
    } else {
        0
    };
    let ghost s = value@;
    let ghost digits = unsigned_digits(s);
    assert(digits == s.subrange(start as int, len as int));
    if len == 0 {
        return Err(UnsignedParseError::Empty);
    }
    if start == len {
        return Err(UnsignedParseError::InvalidDigit);
    }
    let mut acc: usize = 0;
    let mut i: usize = start;
    while i < len
        invariant
            start <= i <= len,
            len == s.len(),
            len > 0,
            s == value@,
            digits == s.subrange(start as int, len as int),
            digits == unsigned_digits(s),
            digits.len() > 0,
            forall|j: int| 0 <= j < i - start ==> is_decimal_digit(#[trigger] digits[j]),
            acc == decimal_value(digits.take(i - start)),
        decreases len - i,
    {
        let c = value.get_char(i);
        assert(digits[i - start] == s[i as int]);
        if !('0' <= c && c <= '9') {
            proof {
                lemma_leading_digit_count(digits, i - start);
                assert(!all_decimal_digits(digits));
            }
            return Err(UnsignedParseError::InvalidDigit);
        }
        let d = (c as u32 - '0' as u32) as usize;
        let ghost next = digits.take(i - start + 1);
        assert(next.drop_last() == digits.take(i - start));
        assert(next.last() == c);
        let grown = match acc.checked_mul(10) {
            Some(v) => v.checked_add(d),
            None => None,
        };
        match grown {
            Some(v) => {
                acc = v;
            },
            None => {
                proof {
                    lemma_leading_digit_count(digits, i - start + 1);
                    let f = leading_digit_count(digits) as int;
                    let lead = digits.take(f);
                    assert forall|j: int| 0 <= j < lead.len() implies is_decimal_digit(
                        #[trigger] lead[j],
                    ) by {
                        assert(lead[j] == digits[j]);
                    }
                    lemma_decimal_value_grows(lead, i - start + 1);
                    assert(lead.take(i - start + 1) == next);
                    if all_decimal_digits(digits) {
                        lemma_decimal_value_grows(digits, i - start + 1);
                    }
                }
                return Err(UnsignedParseError::PosOverflow);
            },
        }
        i = i + 1;
    }
    assert(digits.take(len - start) == digits);
    assert(all_decimal_digits(digits));
    Ok(acc)
}

/// The batch sizes that the detector accepts on the command line.
pub open spec fn supported_batch_size(n: nat) -> bool {
    1 <= n <= 4
}

/// Parser for the `--batch-size` command-line value.
pub struct BatchSize;

impl BatchSize {
    /// Parses a batch size constrained to the memory-safe supported range `1..=4`.
    ///
    /// A value that `usize::from_str` refuses gives the message
    /// `batch size must be an integer: ` followed by the text of its
    /// `ParseIntError`; a value outside `1..=4` gives
    /// `batch size must be between 1 and 4`.
    pub fn parse(value: &str) -> (result: Result<usize, String>)
        ensures
            result is Ok <==> (unsigned_decimal(value@) matches Some(n) && supported_batch_size(n)),
            result matches Ok(n) ==> unsigned_decimal(value@) == Some(n as nat),
            result matches Err(message) ==> if unsigned_decimal(value@) matches Some(n) && n
                <= usize::MAX {
                message@ == "batch size must be between 1 and 4"@
            } else {
                message@ == "batch size must be an integer: "@ + unsigned_parse_error(
                    value@,
                ).spec_message()
            },
    {
        let parsed = match parse_usize(value) {
            Ok(parsed) => parsed,
            Err(kind) => {
                let mut message = String::from_str("batch size must be an integer: ");
                message.append(kind.message());
                return Err(message);
            },
        };
        if parsed < 1 || parsed > 4 {
            return Err(String::from_str("batch size must be between 1 and 4"));
        }
        Ok(parsed)
    }
}

/// Decimal digits of `n` left-padded with zeros to at least `width` characters.
pub open spec fn zero_padded(n: nat, width: nat) -> Seq<char> {
    let digits = decimal_digits(n);
    let pad = if digits.len() < width {
        (width - digits.len()) as nat
    } else {
        0
    };
    Seq::new(pad, |i: int| '0') + digits
}

/// Leading zeros do not change the value of a string of decimal digits.
proof fn lemma_leading_zeros_keep_value(zeros: nat, digits: Seq<char>)
    ensures
        decimal_value(Seq::new(zeros, |i: int| '0') + digits) == decimal_value(digits),
    decreases digits.len(),
{
    let padded = Seq::new(zeros, |i: int| '0') + digits;
    if digits.len() == 0 {
        assert(padded =~= Seq::new(zeros, |i: int| '0'));
        lemma_zeros_have_value_zero(zeros);
    } else {
        assert(padded.drop_last() =~= Seq::new(zeros, |i: int| '0') + digits.drop_last());
        assert(padded.last() == digits.last());
        lemma_leading_zeros_keep_value(zeros, digits.drop_last());
    }
}

proof fn lemma_zeros_have_value_zero(zeros: nat)
    ensures
        decimal_value(Seq::new(zeros, |i: int| '0')) == 0,
    decreases zeros,
{
    let z = Seq::new(zeros, |i: int| '0');
    if zeros > 0 {
        assert(z.drop_last() =~= Seq::new((zeros - 1) as nat, |i: int| '0'));
        lemma_zeros_have_value_zero((zeros - 1) as nat);
    }
}

/// `n` padded to `width` is a string of exactly `max(width, d)` decimal
/// digits, `d` the number of decimal places of `n`, that reads back as `n`.
pub proof fn lemma_zero_padded_reads_back(n: nat, width: nat)
    ensures
        zero_padded(n, width).len() == if decimal_digits(n).len() < width {
            width
        } else {
            decimal_digits(n).len()
        },
        all_decimal_digits(zero_padded(n, width)),
        decimal_value(zero_padded(n, width)) == n,
{
    let digits = decimal_digits(n);
    lemma_decimal_digits_read_back(n);
    let pad = if digits.len() < width {
        (width - digits.len()) as nat
    } else {
        0
    };
    let padded = zero_padded(n, width);
    assert(padded == Seq::new(pad, |i: int| '0') + digits);
    lemma_leading_zeros_keep_value(pad, digits);
    assert forall|i: int| 0 <= i < padded.len() implies is_decimal_digit(#[trigger] padded[i]) by {
        if i >= pad {
            assert(padded[i] == digits[i - pad]);
        }
    }
}

/// File name `page-NNNN.<extension>` for a one-based page number, with the
/// number zero-padded to at least four digits.
///
/// The number between `page-` and `.` is exactly `max(4, d)` decimal digits
/// long, `d` the number of decimal places of the page number, and reads back
/// as the page number.
pub fn output_file_name(page_number: u32, extension: &str) -> (name: String)
    ensures
        name@ == "page-"@ + zero_padded(page_number as nat, 4) + "."@ + extension@,
        ({
            let width = if decimal_digits(page_number as nat).len() < 4 {
                4
            } else {
                decimal_digits(page_number as nat).len() as int
            };
            let number = name@.subrange(5, 5 + width);
            &&& name@.len() == 5 + width + 1 + extension@.len()
            &&& name@.subrange(0, 5) == "page-"@
            &&& all_decimal_digits(number)
            &&& decimal_value(number) == page_number
            &&& name@[5 + width] == '.'
            &&& name@.subrange(6 + width, name@.len() as int) == extension@
        }),
{
    proof {
        reveal_strlit("page-");
        reveal_strlit(".");
        reveal_strlit("0");
        lemma_zero_padded_reads_back(page_number as nat, 4);
        let padded = zero_padded(page_number as nat, 4);
        let whole = "page-"@ + padded + "."@ + extension@;
        assert(whole.subrange(0, 5) =~= "page-"@);
        assert(whole.subrange(5, 5 + padded.len() as int) =~= padded);
        assert(whole.subrange(6 + padded.len() as int, whole.len() as int) =~= extension@);
    }
    let digits = digits_of(page_number as u128);
    let ghost target = zero_padded(page_number as nat, 4);
    let ghost dec = decimal_digits(page_number as nat);
    let mut name = String::from_str("page-");
    let padding = if digits.len() < 4 {
        4 - digits.len()
    } else {
        0
    };
    let ghost pad = padding as int;
    assert(target == Seq::new(pad as nat, |i: int| '0') + dec);
    assert(forall|i: int| 0 <= i < dec.len() ==> target[pad + i] == dec[i]);
    let mut written: usize = 0;
    while written < padding
        invariant
            written <= padding,
            padding == pad,
            pad + dec.len() == target.len(),
            forall|i: int| 0 <= i < dec.len() ==> #[trigger] target[pad + i] == dec[i],
            forall|i: int| 0 <= i < pad ==> target[i] == '0',
            name@ == "page-"@ + target.take(written as int),
        decreases padding - written,
    {
        proof {
            reveal_strlit("0");
        }
        let ghost before = name@;
        name.append("0");
        assert(target.take(written + 1) == target.take(written as int).push('0'));
        assert(name@ == before + seq!['0']);
        assert(name@ == "page-"@ + target.take(written + 1));
        written = written + 1;
    }
    let mut k: usize = 0;
    while k < digits.len()
        invariant
            k <= digits@.len(),
            digits@.len() == dec.len(),
            forall|i: int|
                0 <= i < digits@.len() ==> #[trigger] digits@[i] < 10 && digit_char(digits@[i] as nat)
                    == dec[i],
            pad + dec.len() == target.len(),
            forall|i: int| 0 <= i < dec.len() ==> #[trigger] target[pad + i] == dec[i],
            pad >= 0,
            name@ == "page-"@ + target.take(pad + k),
        decreases digits@.len() - k,
    {
        let ghost before = name@;
        name.append(digit_str(digits[k]));
        assert(target[pad + k] == dec[k as int]);
        assert(target.take(pad + k + 1) =~= target.take(pad + k).push(dec[k as int]));
        assert(name@ == "page-"@ + target.take(pad + k + 1));
        k = k + 1;
    }
    assert(target.take(pad + k) == target);
    name.append(".");
    name.append(extension);
    name
}


/// Whether `batches` cuts pages `0..page_count` into consecutive half-open
/// ranges of `batch_size` pages, the last one possibly shorter.
pub open spec fn is_page_batching(batches: Seq<(usize, usize)>, page_count: int, batch_size: int) -> bool {
    &&& forall|k: int| 0 <= k < batches.len() ==> #[trigger] batches[k].0 == k * batch_size
    &&& forall|k: int|
        0 <= k < batches.len() ==> #[trigger] batches[k].1 == if (k + 1) * batch_size < page_count {
            (k + 1) * batch_size
        } else {
            page_count
        }
    &&& forall|k: int| 0 <= k < batches.len() ==> #[trigger] batches[k].0 < batches[k].1
    &&& page_count == 0 ==> batches.len() == 0
    &&& page_count > 0 ==> batches.len() > 0 && batches.last().1 == page_count
}

/// Every page of `0..page_count` lies in exactly one batch of a page batching,
/// the batch `page / batch_size`.
pub proof fn lemma_page_batching_covers_each_page_once(
    batches: Seq<(usize, usize)>,
    page_count: int,
    batch_size: int,
    page: int,
)
    requires
        batch_size > 0,
        is_page_batching(batches, page_count, batch_size),
        0 <= page < page_count,
    ensures
        0 <= page / batch_size < batches.len(),
        batches[page / batch_size].0 <= page < batches[page / batch_size].1,
        forall|k: int|
            0 <= k < batches.len() && #[trigger] batches[k].0 <= page < batches[k].1 ==> k == page
                / batch_size,
{
    let q = page / batch_size;
    let last = batches.len() - 1;
    lemma_fundamental_div_mod(page, batch_size);
    assert(0 <= q) by (nonlinear_arith)
        requires
            page >= 0,
            batch_size > 0,
            q == page / batch_size,
    ;
    assert(q * batch_size <= page < (q + 1) * batch_size) by (nonlinear_arith)
        requires
            page == batch_size * q + page % batch_size,
            0 <= page % batch_size < batch_size,
    ;
    assert(batches[last].1 == page_count);
    if q > last {
        assert((last + 1) * batch_size <= q * batch_size) by (nonlinear_arith)
            requires
                last + 1 <= q,
                batch_size > 0,
        ;
        assert(batches[last].1 == if (last + 1) * batch_size < page_count {
            (last + 1) * batch_size
        } else {
            page_count
        });
    }
    assert(batches[q].0 == q * batch_size);
    assert forall|k: int|
        0 <= k < batches.len() && #[trigger] batches[k].0 <= page < batches[k].1 implies k == q by {
        assert(batches[k].0 == k * batch_size);
        assert(batches[k].1 <= (k + 1) * batch_size);
        if k < q {
            assert((k + 1) * batch_size <= q * batch_size) by (nonlinear_arith)
                requires
                    k + 1 <= q,
                    batch_size > 0,
            ;
        } else if k > q {
            assert((q + 1) * batch_size <= k * batch_size) by (nonlinear_arith)
                requires
                    q + 1 <= k,
                    batch_size > 0,
            ;
        }
    }
}

/// Splits pages `0..page_count` into the consecutive batches that the command
/// line detector renders and detects together.
pub fn page_batches(page_count: usize, batch_size: usize) -> (result: Result<Vec<(usize, usize)>, String>)
    ensures
        result is Ok <==> batch_size > 0,
        result matches Ok(batches) ==> is_page_batching(batches@, page_count as int, batch_size as int),
        result matches Err(message) ==> message@ == "batch size must be greater than zero"@,
{
    if batch_size == 0 {
        return Err(String::from_str("batch size must be greater than zero"));
    }
    let mut batches: Vec<(usize, usize)> = Vec::new();
    let mut batch_start: usize = 0;
    assert(batches@.len() * batch_size == 0);
    while batch_start < page_count
        invariant
            batch_size > 0,
            batch_start <= page_count,
            batch_start == (if batches@.len() * batch_size < page_count {
                batches@.len() * batch_size
            } else {
                page_count as int
            }),
            batches@.len() == 0 ==> batch_start == 0,
            forall|k: int| 0 <= k < batches@.len() ==> #[trigger] batches@[k].0 == k * batch_size,
            forall|k: int|
                0 <= k < batches@.len() ==> #[trigger] batches@[k].1 == if (k + 1) * batch_size
                    < page_count {
                    (k + 1) * batch_size
                } else {
                    page_count as int
                },
            forall|k: int| 0 <= k < batches@.len() ==> #[trigger] batches@[k].0 < batches@[k].1,
            batches@.len() > 0 ==> batches@.last().1 == batch_start,
        decreases page_count - batch_start,
    {
        let batch_end = if page_count - batch_start > batch_size {
            batch_start + batch_size
        } else {
            page_count
        };
        let ghost k = batches@.len() as int;
        assert((k + 1) * batch_size == k * batch_size + batch_size) by (nonlinear_arith);
        batches.push((batch_start, batch_end));
        batch_start = batch_end;
        proof {
            assert(batches@.len() == k + 1);
            if batch_end < page_count {
                assert(batch_start == (k + 1) * batch_size);
            }
        }
    }
    proof {
        if page_count == 0 && batches@.len() > 0 {
            let last = batches@.len() - 1;
            assert(batches@[last as int].0 < batches@[last as int].1);
        }
    }
    Ok(batches)
}

/// The usage line of the positional command-line front end for program `bin`.
pub fn usage_line(bin: &str) -> (line: String)
    ensures
        line@ == bin@ + " <input.pdf> <output-dir> [dpi]"@,
{
    let mut line = String::from_str(bin);
    line.append(" <input.pdf> <output-dir> [dpi]");
    line
}

/// The positional arguments of the positional command-line front end: the
/// input PDF and the output directory at positions 1 and 2, and the resolution
/// at position 3 where it is given. `None` when either of the first two is
/// missing, in which case the usage is shown.
pub fn positional_args(args: &[String]) -> (selected: Option<(&String, &String, Option<&String>)>)
    ensures
        selected is Some <==> args@.len() >= 3,
        selected matches Some((input_pdf, output_dir, dpi)) ==> {
            &&& *input_pdf == args@[1]
            &&& *output_dir == args@[2]
            &&& dpi is Some <==> args@.len() >= 4
            &&& dpi matches Some(text) ==> *text == args@[3]
        },
{
    if args.len() < 3 {
        return None;
    }
    let dpi = if args.len() >= 4 {
        Some(&args[3])
    } else {
        None
    };
    Some((&args[1], &args[2], dpi))
}

} // verus!
