//! The options of the program, and the decoding of a port.

use vstd::prelude::*;
use vstd::string::StringExecFns;
use vstd::string::is_ascii_spec_bytes;
use vstd::utf8::is_ascii_chars;

verus! {

pub struct Options {
    pub verbosity: u64,
    pub command: Command,
}

pub enum Command {
    Master { port: u16 },
    Slave { hostname: String, port: u16 },
    Gpu,
}

/// A text that does not name a port.
#[derive(Debug)]
pub struct InvalidPort {
    pub text: String,
}

impl InvalidPort {
    /// The complaint to show: the text in single quotes, and that it isn't a
    /// valid port.
    pub fn message(&self) -> (m: String)
        ensures
            m@ == "'"@ + self.text@ + "' isn't a valid port"@,
    {
        let mut m = String::from_str("'");
        m.append(self.text.as_str());
        m.append("' isn't a valid port");
        m
    }
}

/// The character is a decimal digit.
pub open spec fn is_digit(c: char) -> bool {
    '0' <= c <= '9'
}

/// Every character of `digits` is a decimal digit.
pub open spec fn all_digits(digits: Seq<char>) -> bool {
    forall|i: int| 0 <= i < digits.len() ==> is_digit(#[trigger] digits[i])
}

/// The number that a run of decimal digits writes, most significant first.
pub open spec fn digits_value(digits: Seq<char>) -> int
    decreases digits.len(),
{
    if digits.len() == 0 {
        0
    } else {
        digits_value(digits.drop_last()) * 10 + (digits.last() as int - '0' as int)
    }
}

/// `text` without the plus sign that may stand before the digits.
pub open spec fn unsigned_part(text: Seq<char>) -> Seq<char> {
    if text.len() > 0 && text[0] == '+' {
        text.skip(1)
    } else {
        text
    }
}

/// The port that `text` names, if it names one: an optional plus sign, then
/// one or more decimal digits that write a number from 1 to 65535.
pub open spec fn port_of(text: Seq<char>) -> Option<u16> {
    let digits = unsigned_part(text);
    if digits.len() > 0 && all_digits(digits) && 1 <= digits_value(digits) <= 65535 {
        Some(digits_value(digits) as u16)
    } else {
        None
    }
}

/// A run of digits writes no negative number.
pub proof fn lemma_digits_value_nonnegative(digits: Seq<char>)
    requires
        all_digits(digits),
    ensures
        0 <= digits_value(digits),
    decreases digits.len(),
{
    if digits.len() > 0 {
        assert(is_digit(digits.last()));
        lemma_digits_value_nonnegative(digits.drop_last());
    }
}

/// A run of digits writes at least what any of its beginnings writes.
pub proof fn lemma_digits_value_grows(digits: Seq<char>, n: int)
    requires
        all_digits(digits),
        0 <= n <= digits.len(),
    ensures
        0 <= digits_value(digits.take(n)) <= digits_value(digits),
    decreases digits.len() - n,
{
    if n == digits.len() {
        assert(digits.take(n) =~= digits);
        lemma_digits_value_nonnegative(digits);
    } else {
        lemma_digits_value_grows(digits, n + 1);
        let longer = digits.take(n + 1);
        assert(longer.drop_last() =~= digits.take(n));
        assert(is_digit(digits[n]));
        lemma_digits_value_nonnegative(digits.take(n));
    }
}

/// A text with a character outside ASCII names no port.
proof fn lemma_port_is_ascii(text: Seq<char>)
    requires
        !is_ascii_chars(text),
    ensures
        port_of(text) is None,
{
    let i = choose|i: int| 0 <= i < text.len() && !('\0' <= #[trigger] text[i] <= '\u{7f}');
    let digits = unsigned_part(text);
    if text[0] == '+' {
        assert(!is_digit(digits[i - 1]));
    } else {
        assert(!is_digit(digits[i]));
    }
}

/// Decodes a port.
pub fn parse_port(port_str: &str) -> (parsed: Result<u16, InvalidPort>)
    ensures
        match parsed {
            Ok(port) => port_of(port_str@) == Some(port),
            Err(e) => port_of(port_str@) is None && e.text@ == port_str@,
        },
{
    if !port_str.is_ascii() {
        proof {
            lemma_port_is_ascii(port_str@);
        }
        return Err(InvalidPort { text: String::from_str(port_str) });
    }
    let bytes = port_str.as_bytes();
    let ghost text = port_str@;
    proof {
        is_ascii_spec_bytes(port_str);
        assert(bytes@.len() == text.len());
        assert forall|k: int| 0 <= k < text.len() implies bytes@[k] as int == text[k] as int by {
            assert(text[k] <= '\u{7f}');
            assert(text[k] as int <= 0x7f);
        }
    }
    let start: usize = if bytes.len() > 0 && bytes[0] == 43 {
        1
    } else {
        0
    };
    let ghost digits = unsigned_part(text);
    assert(digits =~= text.skip(start as int));
    let mut value: u32 = 0;
    let mut i: usize = start;
    let mut valid = bytes.len() > start;
    while valid && i < bytes.len()
        invariant
            start <= i <= bytes.len(),
            bytes@.len() == text.len(),
            forall|k: int| 0 <= k < text.len() ==> bytes@[k] as int == text[k] as int,
            digits == text.skip(start as int),
            digits == unsigned_part(text),
            valid ==> all_digits(digits.take(i - start)) && value == digits_value(
                digits.take(i - start),
            ) && value <= 65535 && digits.len() > 0,
            !valid ==> port_of(text) is None,
        decreases bytes.len() - i + if valid { 1int } else { 0int },
    {
        let b = bytes[i];
        let ghost seen = digits.take(i - start);
        let ghost more = digits.take(i - start + 1);
        proof {
            assert(more.drop_last() =~= seen);
            assert(more.last() == text[i as int]);
            assert(b as int == text[i as int] as int);
            assert('0' as int == 48 && '9' as int == 57 && '+' as int == 43);
        }
        if b < 48 || b > 57 {
            proof {
                assert(!is_digit(digits[i - start]));
            }
            valid = false;
        } else {
            let next: u32 = value * 10 + (b - 48) as u32;
            if next > 65535 {
                proof {
                    assert(digits_value(more) == next);
                    if all_digits(digits) {
                        lemma_digits_value_grows(digits, i - start + 1);
                    }
                }
                valid = false;
            } else {
                value = next;
                i += 1;
            }
        }
    }
    if valid && value >= 1 {
        proof {
            assert(digits.take(digits.len() as int) =~= digits);
        }
        Ok(value as u16)
    } else {
        proof {
            if valid {
                assert(digits.take(digits.len() as int) =~= digits);
            }
        }
        Err(InvalidPort { text: String::from_str(port_str) })
    }
}

} // verus!
