//! Reading a set name and member number written as `<setname>/<nmem>`.
use crate::error::Error;
use vstd::prelude::*;

verus! {

/// Why a text is not a member number, as Rust's integer parser tells it.
#[derive(Debug, Clone, Copy, PartialEq, Eq)]
pub enum IntError {
    /// The text is empty.
    Empty,
    /// A character is not a digit, or there are no digits after the sign.
    InvalidDigit,
    /// The number is above `i32::MAX`.
    PosOverflow,
    /// The number is below `i32::MIN`.
    NegOverflow,
}

/// Whether `c` is a decimal digit.
pub open spec fn is_digit(c: char) -> bool {
    '0' <= c <= '9'
}

/// The value of a run of decimal digits.
pub open spec fn digits_value(d: Seq<char>) -> int
    decreases d.len(),
{
    if d.len() == 0 {
        0
    } else {
        digits_value(d.drop_last()) * 10 + (d.last() as int - '0' as int)
    }
}

/// How many decimal digits `d` starts with.
pub open spec fn leading_digits(d: Seq<char>) -> nat
    decreases d.len(),
{
    if d.len() == 0 || !is_digit(d[0]) {
        0
    } else {
        1 + leading_digits(d.drop_first())
    }
}

/// What Rust's `i32` parser makes of `s`: an optional `+` or `-`, then decimal digits and
/// nothing else. The digits are read from the left, so an overflow among the leading digits
/// is reported before a character that is not a digit.
pub open spec fn parse_int(s: Seq<char>) -> Result<i32, IntError> {
    if s.len() == 0 {
        Err(IntError::Empty)
    } else {
        let negative = s[0] == '-';
        let digits = if s[0] == '+' || s[0] == '-' {
            s.drop_first()
        } else {
            s
        };
        let k = leading_digits(digits);
        let v = digits_value(digits.subrange(0, k as int));
        if digits.len() == 0 {
            Err(IntError::InvalidDigit)
        } else if !negative && v > i32::MAX {
            Err(IntError::PosOverflow)
        } else if negative && -v < i32::MIN {
            Err(IntError::NegOverflow)
        } else if k < digits.len() {
            Err(IntError::InvalidDigit)
        } else if negative {
            Ok((-v) as i32)
        } else {
            Ok(v as i32)
        }
    }
}

/// A run of digits has a value of zero or more, and one more digit does not lower it.
proof fn lemma_digits_value_grows(d: Seq<char>)
    requires
        forall|i: int| 0 <= i < d.len() ==> is_digit(d[i]),
    ensures
        digits_value(d) >= 0,
        d.len() > 0 ==> digits_value(d) >= digits_value(d.drop_last()),
    decreases d.len(),
{
    if d.len() > 0 {
        lemma_digits_value_grows(d.drop_last());
    }
}

/// The leading digits of `d` are its first `k` characters when those are digits and the
/// next one (if any) is not.
proof fn lemma_leading_digits(d: Seq<char>, k: int)
    requires
        0 <= k <= d.len(),
        forall|i: int| 0 <= i < k ==> is_digit(d[i]),
        k < d.len() ==> !is_digit(d[k]),
    ensures
        leading_digits(d) == k,
    decreases k,
{
    if k > 0 {
        lemma_leading_digits(d.drop_first(), k - 1);
    }
}

/// Reads a member number as Rust's `i32` parser does.
pub fn parse_member(s: &str) -> (r: Result<i32, IntError>)
    ensures
        r == parse_int(s@),
{
    let n = s.unicode_len();
    if n == 0 {
        return Err(IntError::Empty);
    }
    let first = s.get_char(0);
    let negative = first == '-';
    let start: usize = if first == '+' || first == '-' {
        1
    } else {
        0
    };
    let ghost digits = if first == '+' || first == '-' {
        s@.drop_first()
    } else {
        s@
    };
    proof {
        assert(digits =~= s@.subrange(start as int, n as int));
    }
    if start == n {
        return Err(IntError::InvalidDigit);
    }
    // The value of the digits read so far, while it is at most 2^31.
    let mut value: u64 = 0;
    let mut over = false;
    let mut i: usize = start;
    while i < n
        invariant
            n == s@.len(),
            start <= i <= n,
            digits =~= s@.subrange(start as int, n as int),
            forall|j: int| start <= j < i ==> is_digit(s@[j]),
            !over ==> value == digits_value(s@.subrange(start as int, i as int)),
            !over ==> value <= 0x8000_0000,
            over ==> digits_value(s@.subrange(start as int, i as int)) > 0x8000_0000,
        ensures
            start <= i <= n,
            forall|j: int| start <= j < i ==> is_digit(s@[j]),
            i < n ==> !is_digit(s@[i as int]),
            !over ==> value == digits_value(s@.subrange(start as int, i as int)),
            !over ==> value <= 0x8000_0000,
            over ==> digits_value(s@.subrange(start as int, i as int)) > 0x8000_0000,
        decreases n - i,
    {
        let c = s.get_char(i);
        if !('0' <= c && c <= '9') {
            break;
        }
        let ghost before = s@.subrange(start as int, i as int);
        let ghost after = s@.subrange(start as int, i + 1);
        proof {
            assert(after.drop_last() =~= before);
            assert(after.last() == c);
            assert forall|j: int| 0 <= j < after.len() implies is_digit(after[j]) by {
                assert(after[j] == s@[start + j]);
            }
            lemma_digits_value_grows(after);
        }
        if !over {
            let d = (c as u32 - '0' as u32) as u64;
            value = value * 10 + d;
            if value > 0x8000_0000 {
                over = true;
            }
        }
        i = i + 1;
    }
    let ghost k = (i - start) as int;
    proof {
        assert forall|j: int| 0 <= j < k implies is_digit(#[trigger] digits[j]) by {
            assert(digits[j] == s@[start + j]);
        }
        if k < digits.len() {
            assert(digits[k] == s@[i as int]);
        }
        lemma_leading_digits(digits, k);
        assert(digits.subrange(0, k) =~= s@.subrange(start as int, i as int));
    }
    if negative {
        if over || value > 0x8000_0000 {
            Err(IntError::NegOverflow)
        } else if i < n {
            Err(IntError::InvalidDigit)
        } else {
            Ok((0 - (value as i64)) as i32)
        }
    } else if over || value > 0x7fff_ffff {
        Err(IntError::PosOverflow)
    } else if i < n {
        Err(IntError::InvalidDigit)
    } else {
        Ok(value as i32)
    }
}

/// The set name of `<setname>/<nmem>` and, where there is a `/`, the text after the first one.
pub open spec fn split_member(s: Seq<char>) -> (Seq<char>, Option<Seq<char>>)
    decreases s.len(),
{
    if s.len() == 0 {
        (s, None)
    } else if s[0] == '/' {
        (Seq::empty(), Some(s.drop_first()))
    } else {
        let (name, member) = split_member(s.drop_first());
        (seq![s[0]] + name, member)
    }
}

/// How Rust's integer parser describes `e`.
pub open spec fn int_error_text(e: IntError) -> Seq<char> {
    match e {
        IntError::Empty => "cannot parse integer from empty string"@,
        IntError::InvalidDigit => "invalid digit found in string"@,
        IntError::PosOverflow => "number too large to fit in target type"@,
        IntError::NegOverflow => "number too small to fit in target type"@,
    }
}

/// The message for a member text `nmem` that is not a number.
pub open spec fn member_error(nmem: Seq<char>, e: IntError) -> Seq<char> {
    "problem while parsing member index = "@ + nmem + ": '"@ + int_error_text(e) + "'"@
}

/// Where the first `/` of `s` stands at `k`, or `s` has none and `k` is its length.
proof fn lemma_split_member(s: Seq<char>, k: int)
    requires
        0 <= k <= s.len(),
        forall|j: int| 0 <= j < k ==> s[j] != '/',
        k < s.len() ==> s[k] == '/',
    ensures
        split_member(s) == (if k < s.len() {
            (s.subrange(0, k), Some(s.subrange(k + 1, s.len() as int)))
        } else {
            (s, None::<Seq<char>>)
        }),
    decreases k,
{
    if k > 0 {
        let t = s.drop_first();
        lemma_split_member(t, k - 1);
        if k < s.len() {
            assert(seq![s[0]] + t.subrange(0, k - 1) =~= s.subrange(0, k));
            assert(t.subrange(k, t.len() as int) =~= s.subrange(k + 1, s.len() as int));
        } else {
            assert(seq![s[0]] + t =~= s);
        }
    } else if s.len() > 0 {
        assert(s.drop_first() =~= s.subrange(1, s.len() as int));
    }
}

/// How Rust's integer parser describes `e`.
pub fn int_error_message(e: IntError) -> (r: String)
    ensures
        r@ == int_error_text(e),
{
    match e {
        IntError::Empty => String::from_str("cannot parse integer from empty string"),
        IntError::InvalidDigit => String::from_str("invalid digit found in string"),
        IntError::PosOverflow => String::from_str("number too large to fit in target type"),
        IntError::NegOverflow => String::from_str("number too small to fit in target type"),
    }
}

/// Reads `<setname>/<nmem>`: the set name, and the member number after the first `/`, or
/// member 0 where there is no `/`. A member text that is not a number is an error that
/// quotes it and the parser's complaint.
pub fn setname_and_member(setname_nmem: &str) -> (r: Result<(String, i32), Error>)
    ensures
        split_member(setname_nmem@).1 is None ==> (r matches Ok((name, member)) && name@
            == setname_nmem@ && member == 0),
        split_member(setname_nmem@).1 matches Some(nmem) ==> match parse_int(nmem) {
            Ok(v) => r matches Ok((name, member)) && name@ == split_member(setname_nmem@).0
                && member == v,
            Err(e) => r matches Err(Error::General(message)) && message@ == member_error(
                nmem,
                e,
            ),
        },
{
    let s = setname_nmem;
    let n = s.unicode_len();
    let mut k: usize = 0;
    while k < n
        invariant
            n == s@.len(),
            k <= n,
            forall|j: int| 0 <= j < k ==> s@[j] != '/',
        ensures
            k <= n,
            forall|j: int| 0 <= j < k ==> s@[j] != '/',
            k < n ==> s@[k as int] == '/',
        decreases n - k,
    {
        if s.get_char(k) == '/' {
            break;
        }
        k = k + 1;
    }
    proof {
        lemma_split_member(s@, k as int);
    }
    if k == n {
        return Ok((String::from_str(s), 0));
    }
    let name = String::from_str(s.substring_char(0, k));
    let nmem = s.substring_char(k + 1, n);
    match parse_member(nmem) {
        Ok(member) => Ok((name, member)),
        Err(e) => {
            let mut message = String::from_str("problem while parsing member index = ");
            message.append(nmem);
            message.append(": '");
            let text = int_error_message(e);
            message.append(text.as_str());
            message.append("'");
            Err(Error::General(message))
        },
    }
}

/// The character of the decimal digit `d`.
pub open spec fn digit_char(d: int) -> char {
    if d == 0 {
        '0'
    } else if d == 1 {
        '1'
    } else if d == 2 {
        '2'
    } else if d == 3 {
        '3'
    } else if d == 4 {
        '4'
    } else if d == 5 {
        '5'
    } else if d == 6 {
        '6'
    } else if d == 7 {
        '7'
    } else if d == 8 {
        '8'
    } else {
        '9'
    }
}

/// The decimal digits of `n`, without leading zeros.
pub open spec fn decimal(n: nat) -> Seq<char>
    decreases n,
{
    if n < 10 {
        seq![digit_char(n as int)]
    } else {
        decimal(n / 10).push(digit_char((n % 10) as int))
    }
}

/// `n` written in decimal, with a `-` where it is negative.
pub open spec fn signed_decimal(n: int) -> Seq<char> {
    if n < 0 {
        seq!['-'] + decimal((-n) as nat)
    } else {
        decimal(n as nat)
    }
}

/// The text of the decimal digit `d`.
fn digit_text(d: u64) -> (r: &'static str)
    requires
        d < 10,
    ensures
        r@ == seq![digit_char(d as int)],
{
    match d {
        0 => {
            proof {
                reveal_strlit("0");
            }
            "0"
        },
        1 => {
            proof {
                reveal_strlit("1");
            }
            "1"
        },
        2 => {
            proof {
                reveal_strlit("2");
            }
            "2"
        },
        3 => {
            proof {
                reveal_strlit("3");
            }
            "3"
        },
        4 => {
            proof {
                reveal_strlit("4");
            }
            "4"
        },
        5 => {
            proof {
                reveal_strlit("5");
            }
            "5"
        },
        6 => {
            proof {
                reveal_strlit("6");
            }
            "6"
        },
        7 => {
            proof {
                reveal_strlit("7");
            }
            "7"
        },
        8 => {
            proof {
                reveal_strlit("8");
            }
            "8"
        },
        _ => {
            proof {
                reveal_strlit("9");
            }
            "9"
        },
    }
}

/// `n` written in decimal.
fn decimal_text(n: u64) -> (r: String)
    ensures
        r@ == decimal(n as nat),
    decreases n,
{
    if n < 10 {
        String::from_str(digit_text(n))
    } else {
        let mut text = decimal_text(n / 10);
        text.append(digit_text(n % 10));
        text
    }
}

/// `n` written in decimal, with a `-` where it is negative.
pub fn signed_decimal_text(n: i32) -> (r: String)
    ensures
        r@ == signed_decimal(n as int),
{
    if n < 0 {
        let mut text = String::from_str("-");
        proof {
            reveal_strlit("-");
        }
        let magnitude = decimal_text((0 - (n as i64)) as u64);
        text.append(magnitude.as_str());
        text
    } else {
        decimal_text(n as u64)
    }
}

/// The message for an LHAPDF ID that the index does not know.
pub open spec fn unknown_lhaid_message(lhaid: i32) -> Seq<char> {
    "did not find PDF with LHAID = "@ + signed_decimal(lhaid as int)
}

/// The set name and member number that the LHAPDF ID `lhaid` stands for, given the answer of
/// its lookup; an ID that the index does not know is an error.
pub fn member_for_lhaid(lhaid: i32, answer: Option<(String, i32)>) -> (r: Result<
    (String, i32),
    Error,
>)
    ensures
        answer matches Some(found) ==> r == Ok::<(String, i32), Error>(found),
        answer is None ==> (r matches Err(Error::General(message)) && message@
            == unknown_lhaid_message(lhaid)),
{
    match answer {
        Some(found) => Ok(found),
        None => {
            let mut message = String::from_str("did not find PDF with LHAID = ");
            let number = signed_decimal_text(lhaid);
            message.append(number.as_str());
            Err(Error::General(message))
        },
    }
}

} // verus!
