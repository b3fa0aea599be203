//! The configuration of the relay, as read from the values found in the
//! environment when the process starts.

use vstd::prelude::*;
use vstd::std_specs::iter::IteratorSpec;

verus! {

/// The port the relay listens on when the environment names none it can use.
pub const DEFAULT_PORT: i32 = 8000;

/// The credential of the bot the relay sends as.
#[derive(Debug, Clone, PartialEq, Eq)]
pub struct TelegramBotToken(pub String);

/// What the relay needs to know before it serves: fixed once the process
/// has started.
#[derive(Debug, Clone, PartialEq, Eq)]
pub struct Config {
    pub token: TelegramBotToken,
    pub port: i32,
}

/// Why no configuration could be had. The relay does not start without one.
#[derive(Debug, Clone, Copy, PartialEq, Eq, Structural)]
pub enum ConfigError {
    /// The environment holds no credential, or an empty one.
    MissingToken,
}

/// Whether `c` is one of the ten decimal digits.
pub open spec fn is_digit(c: char) -> bool {
    '0' <= c <= '9'
}

/// The number a decimal digit stands for.
pub open spec fn digit_value(c: char) -> int {
    c as int - '0' as int
}

/// The number that a run of decimal digits writes, leading zeros allowed.
pub open spec fn decimal_value(digits: Seq<char>) -> int
    decreases digits.len(),
{
    if digits.len() == 0 {
        0
    } else {
        10 * decimal_value(digits.drop_last()) + digit_value(digits.last())
    }
}

/// Whether every character of `digits` is a decimal digit.
pub open spec fn all_digits(digits: Seq<char>) -> bool {
    forall|k: int| 0 <= k < digits.len() ==> is_digit(#[trigger] digits[k])
}

/// The integer that `text` writes: an optional `+` or `-`, then one or more
/// decimal digits and nothing else, with a value that fits in 32 bits.
pub open spec fn written_integer(text: Seq<char>) -> Option<int> {
    let signed = text.len() > 0 && (text[0] == '+' || text[0] == '-');
    let digits = if signed {
        text.skip(1)
    } else {
        text
    };
    let magnitude = decimal_value(digits);
    let value = if text.len() > 0 && text[0] == '-' {
        -magnitude
    } else {
        magnitude
    };
    if digits.len() > 0 && all_digits(digits) && i32::MIN <= value <= i32::MAX {
        Some(value)
    } else {
        None
    }
}

/// A run of digits writes at least what any of its beginnings writes, and
/// never less than zero.
proof fn lemma_decimal_value_grows(digits: Seq<char>, n: int)
    requires
        0 <= n <= digits.len(),
        all_digits(digits),
    ensures
        0 <= decimal_value(digits.take(n)) <= decimal_value(digits),
    decreases digits.len(),
{
    if n == digits.len() {
        assert(digits.take(n) =~= digits);
        if n > 0 {
            lemma_decimal_value_grows(digits.drop_last(), n - 1);
        }
    } else {
        let shorter = digits.drop_last();
        assert(shorter.take(n) =~= digits.take(n));
        lemma_decimal_value_grows(shorter, n);
    }
}

/// Reads `text` as a 32-bit integer in decimal notation.
pub fn parse_integer(text: &str) -> (parsed: Option<i32>)
    ensures
        match parsed {
            Some(value) => written_integer(text@) == Some(value as int),
            None => written_integer(text@) is None,
        },
{
    let mut chars = text.chars();
    let first = match chars.next() {
        Some(first) => first,
        None => {
            return None;
        },
    };
    let negative = first == '-';
    let signed = first == '-' || first == '+';
    let ghost digits = if signed {
        text@.skip(1)
    } else {
        text@
    };
    // What the digits read so far write; it is kept within 2^31.
    let mut magnitude: i64 = 0;
    let ghost mut read: int = 0;
    let mut next = if signed {
        chars.next()
    } else {
        Some(first)
    };
    if next.is_none() {
        return None;
    }
    while next.is_some()
        invariant
            text@.len() > 0,
            first == text@[0],
            negative == (first == '-'),
            digits == if first == '-' || first == '+' { text@.skip(1) } else { text@ },
            chars.obeys_prophetic_iter_laws(),
            0 <= read <= digits.len(),
            match next {
                Some(c) => read < digits.len() && c == digits[read] && chars.remaining()
                    == digits.skip(read + 1),
                None => 0 < read == digits.len(),
            },
            all_digits(digits.take(read)),
            magnitude == decimal_value(digits.take(read)),
            0 <= magnitude <= 2147483648,
        decreases digits.len() - read + if next is Some { 1int } else { 0int },
    {
        let c = next.unwrap();
        if c < '0' || c > '9' {
            return None;
        }
        let digit: i64 = (c as u32 - '0' as u32) as i64;
        let longer = magnitude * 10 + digit;
        proof {
            let longer_run = digits.take(read + 1);
            assert(longer_run.drop_last() =~= digits.take(read));
        }
        if longer > 2147483648 {
            proof {
                if all_digits(digits) {
                    lemma_decimal_value_grows(digits, read + 1);
                }
            }
            return None;
        }
        magnitude = longer;
        next = chars.next();
        proof {
            read = read + 1;
        }
    }
    assert(digits.take(read) =~= digits);
    if negative {
        Some((-magnitude) as i32)
    } else if magnitude <= 2147483647 {
        Some(magnitude as i32)
    } else {
        None
    }
}

/// The port that the environment asks for: the integer its value writes,
/// or the default where it holds none or one that writes no integer.
pub open spec fn port_from(text: Option<Seq<char>>) -> int {
    match text {
        Some(text) => match written_integer(text) {
            Some(port) => port,
            None => DEFAULT_PORT as int,
        },
        None => DEFAULT_PORT as int,
    }
}

/// The content of an optional string.
pub open spec fn content(text: Option<String>) -> Option<Seq<char>> {
    match text {
        Some(text) => Some(text@),
        None => None,
    }
}

/// Picks the port to listen on from the value the environment holds for
/// it, if any. A value that cannot be used is passed over in silence.
pub fn listen_port(text: &Option<String>) -> (port: i32)
    ensures
        port == port_from(content(*text)),
{
    match text {
        Some(text) => match parse_integer(text.as_str()) {
            Some(port) => port,
            None => DEFAULT_PORT,
        },
        None => DEFAULT_PORT,
    }
}

/// Builds the configuration from the values the environment holds for the
/// credential and for the port. The credential is required: without one,
/// or with an empty one, there is no configuration. The port is not.
pub fn load_config(token: Option<String>, port: Option<String>) -> (loaded: Result<
    Config,
    ConfigError,
>)
    ensures
        match loaded {
            Ok(config) => {
                &&& token matches Some(given)
                &&& given@.len() > 0
                &&& config.token.0@ == given@
                &&& config.port == port_from(content(port))
            },
            Err(error) => {
                &&& error == ConfigError::MissingToken
                &&& token matches Some(given) ==> given@.len() == 0
            },
        },
{
    match token {
        Some(given) => {
            if given.as_str().is_empty() {
                Err(ConfigError::MissingToken)
            } else {
                Ok(Config { token: TelegramBotToken(given), port: listen_port(&port) })
            }
        },
        None => Err(ConfigError::MissingToken),
    }
}

} // verus!
