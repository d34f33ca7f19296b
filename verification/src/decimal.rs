use vstd::prelude::*;
use vstd::string::*;

verus! {

/// One of the ten decimal digits.
pub open spec fn is_digit(c: char) -> bool {
    '0' <= c && c <= '9'
}

/// The number that a digit stands for.
pub open spec fn digit_value(c: char) -> int {
    c as int - '0' as int
}

/// Every character of the text is a decimal digit.
pub open spec fn all_digits(s: Seq<char>) -> bool {
    forall|i: int| 0 <= i < s.len() ==> is_digit(#[trigger] s[i])
}

/// The number that a run of digits denotes, read in base ten.
pub open spec fn digits_value(s: Seq<char>) -> int
    decreases s.len(),
{
    if s.len() == 0 {
        0
    } else {
        10 * digits_value(s.drop_last()) + digit_value(s.last())
    }
}

/// The integer that a text denotes, if it denotes one: an optional sign,
/// `+` or `-`, then at least one decimal digit, and nothing else.
pub open spec fn integer_of(s: Seq<char>) -> Option<int> {
    if s.len() > 0 && (s[0] == '-' || s[0] == '+') {
        let digits = s.skip(1);
        if digits.len() > 0 && all_digits(digits) {
            Some(
                if s[0] == '-' {
                    -digits_value(digits)
                } else {
                    digits_value(digits)
                },
            )
        } else {
            None
        }
    } else if s.len() > 0 && all_digits(s) {
        Some(digits_value(s))
    } else {
        None
    }
}

/// The `i32` that a text denotes: the integer it denotes, where there is
/// one and it lies in the range of `i32`.
pub open spec fn parsed_i32(s: Seq<char>) -> Option<i32> {
    match integer_of(s) {
        Some(v) => if i32::MIN <= v <= i32::MAX {
            Some(v as i32)
        } else {
            None
        },
        None => None,
    }
}

/// A run of digits denotes at least what any of its beginnings denotes.
proof fn lemma_digits_value_grows(s: Seq<char>, k: int)
    requires
        all_digits(s),
        0 <= k <= s.len(),
    ensures
        0 <= digits_value(s.take(k)) <= digits_value(s),
    decreases s.len() - k,
{
    if k == s.len() {
        assert(s.take(k) =~= s);
        lemma_digits_value_is_natural(s);
    } else {
        lemma_digits_value_grows(s, k + 1);
        assert(s.take(k + 1).drop_last() =~= s.take(k));
        assert(is_digit(s[k]));
        lemma_digits_value_is_natural(s.take(k));
    }
}

/// A run of digits denotes no negative number.
proof fn lemma_digits_value_is_natural(s: Seq<char>)
    requires
        all_digits(s),
    ensures
        0 <= digits_value(s),
    decreases s.len(),
{
    if s.len() > 0 {
        assert(is_digit(s.last()));
        lemma_digits_value_is_natural(s.drop_last());
    }
}

/// The byte of the character `-`.
const MINUS: u8 = 45;

/// The byte of the character `+`.
const PLUS: u8 = 43;

/// The byte of the character `0`.
const ZERO: u8 = 48;

/// The byte of the character `9`.
const NINE: u8 = 57;

/// Reads a text as an `i32` written in base ten.
pub fn parse_i32(text: &str) -> (number: Option<i32>)
    ensures
        number == parsed_i32(text@),
{
    if !text.is_ascii() {
        proof {
            if integer_of(text@) is Some {
                assert forall|i: int| 0 <= i < text@.len() implies '\0' <= #[trigger] text@[i]
                    <= '\u{7f}' by {
                    if text@[0] == '-' || text@[0] == '+' {
                        if i > 0 {
                            assert(is_digit(text@.skip(1)[i - 1]));
                        }
                    } else {
                        assert(is_digit(text@[i]));
                    }
                }
            }
        }
        return None;
    }
    let n = text.unicode_len();
    if n == 0 {
        return None;
    }
    let first = text.get_ascii(0);
    let negative = first == MINUS;
    let begin: usize = if negative || first == PLUS {
        1
    } else {
        0
    };
    if begin == n {
        return None;
    }
    let ghost digits = text@.skip(begin as int);
    assert(text@.skip(0) =~= text@);
    let mut value: i64 = 0;
    let mut i: usize = begin;
    while i < n
        invariant
            text.is_ascii(),
            n == text@.len(),
            begin <= i <= n,
            begin < n,
            begin == 1 <==> text@[0] == '-' || text@[0] == '+',
            begin == 0 || begin == 1,
            negative <==> text@[0] == '-',
            begin == 0 ==> digits == text@,
            digits == text@.skip(begin as int),
            all_digits(digits.take(i - begin)),
            value == digits_value(digits.take(i - begin)),
            0 <= value <= 2147483648,
        decreases n - i,
    {
        let b = text.get_ascii(i);
        if b < ZERO || b > NINE {
            assert(!is_digit(digits[i - begin]));
            return None;
        }
        proof {
            let longer = digits.take(i - begin + 1);
            assert(longer.drop_last() =~= digits.take(i - begin));
            assert(longer.last() == text@[i as int]);
            assert forall|k: int| 0 <= k < longer.len() implies is_digit(#[trigger] longer[k]) by {
                if k < i - begin {
                    assert(is_digit(digits.take(i - begin)[k]));
                }
            }
        }
        value = value * 10 + (b - ZERO) as i64;
        if value > 2147483648 {
            proof {
                if all_digits(digits) {
                    lemma_digits_value_grows(digits, i - begin + 1);
                }
            }
            return None;
        }
        i += 1;
    }
    assert(digits.take(n - begin) =~= digits);
    if negative {
        Some((-value) as i32)
    } else if value == 2147483648 {
        None
    } else {
        Some(value as i32)
    }
}

/// The character of a digit from 0 to 9.
pub open spec fn digit_char(d: int) -> char {
    (d + '0' as int) as char
}

/// A natural number written in base ten, without leading zeros.
pub open spec fn natural_text(n: nat) -> Seq<char>
    decreases n,
{
    if n < 10 {
        seq![digit_char(n as int)]
    } else {
        natural_text(n / 10).push(digit_char((n % 10) as int))
    }
}

/// An integer written in base ten, with a `-` in front when it is negative.
pub open spec fn decimal_text(n: int) -> Seq<char> {
    if n < 0 {
        seq!['-'] + natural_text((-n) as nat)
    } else {
        natural_text(n as nat)
    }
}

/// The text of one digit.
fn digit_text(d: u32) -> (text: &'static str)
    requires
        d < 10,
    ensures
        text@ == seq![digit_char(d as int)],
{
    proof {
        reveal_strlit("0");
        reveal_strlit("1");
        reveal_strlit("2");
        reveal_strlit("3");
        reveal_strlit("4");
        reveal_strlit("5");
        reveal_strlit("6");
        reveal_strlit("7");
        reveal_strlit("8");
        reveal_strlit("9");
    }
    let text = match d {
        0 => "0",
        1 => "1",
        2 => "2",
        3 => "3",
        4 => "4",
        5 => "5",
        6 => "6",
        7 => "7",
        8 => "8",
        _ => "9",
    };
    assert(text@ =~= seq![digit_char(d as int)]);
    text
}

/// Writes a natural number in base ten at the end of a text.
fn append_natural(out: &mut String, n: u32)
    ensures
        final(out)@ == old(out)@ + natural_text(n as nat),
    decreases n,
{
    if n >= 10 {
        append_natural(out, n / 10);
    }
    out.append(digit_text(n % 10));
}

/// Writes an `i32` in base ten at the end of a text.
pub fn append_decimal(out: &mut String, n: i32)
    ensures
        final(out)@ == old(out)@ + decimal_text(n as int),
{
    if n < 0 {
        proof {
            reveal_strlit("-");
        }
        out.append("-");
        assert("-"@ =~= seq!['-']);
        append_natural(out, (-(n as i64)) as u32);
    } else {
        append_natural(out, n as u32);
    }
}

/// A natural number is written with digits only, at least one, and they
/// denote the number.
pub proof fn lemma_natural_text_denotes(n: nat)
    ensures
        natural_text(n).len() > 0,
        all_digits(natural_text(n)),
        digits_value(natural_text(n)) == n,
    decreases n,
{
    let text = natural_text(n);
    if n < 10 {
        assert(text.drop_last() =~= Seq::<char>::empty());
        assert(text.last() == digit_char(n as int));
        assert(digits_value(text.drop_last()) == 0);
    } else {
        lemma_natural_text_denotes(n / 10);
        assert(text.drop_last() =~= natural_text(n / 10));
        assert(text.last() == digit_char((n % 10) as int));
        assert forall|i: int| 0 <= i < text.len() implies is_digit(#[trigger] text[i]) by {
            if i < text.len() - 1 {
                assert(is_digit(natural_text(n / 10)[i]));
            }
        }
    }
}

/// Reading what was written gives the number back: every `i32`, written in
/// base ten, is read as itself.
pub proof fn lemma_written_number_reads_back(n: i32)
    ensures
        parsed_i32(decimal_text(n as int)) == Some(n),
{
    let text = decimal_text(n as int);
    if n < 0 {
        lemma_natural_text_denotes((-n) as nat);
        assert(text.skip(1) =~= natural_text((-n) as nat));
        assert(text[0] == '-');
    } else {
        lemma_natural_text_denotes(n as nat);
        assert(is_digit(text[0]));
    }
}

} // verus!
