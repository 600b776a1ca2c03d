//! The settings of the service and their defaults.

use vstd::prelude::*;
use vstd::string::*;
use vstd::utf8::is_ascii_chars;

verus! {

/// The port on which the service listens when none is set, or when what is
/// set is no port number.
pub const DEFAULT_PORT: u16 = 8081;

/// The settings of the service.
#[derive(Debug, PartialEq, Eq)]
pub struct Config {
    pub port: u16,
    pub supabase_url: String,
    pub supabase_anon_key: String,
    pub supabase_jwt_secret: String,
    pub redis_url: String,
    pub database_url: String,
    pub environment: String,
}

impl Clone for Config {
    fn clone(&self) -> (copy: Self)
        ensures
            copy == *self,
    {
        Config {
            port: self.port,
            supabase_url: self.supabase_url.clone(),
            supabase_anon_key: self.supabase_anon_key.clone(),
            supabase_jwt_secret: self.supabase_jwt_secret.clone(),
            redis_url: self.redis_url.clone(),
            database_url: self.database_url.clone(),
            environment: self.environment.clone(),
        }
    }
}

/// The value of a decimal digit.
pub open spec fn digit_of(c: char) -> Option<int> {
    if '0' <= c && c <= '9' {
        Some(c as int - 48)
    } else {
        None
    }
}

/// The number that a sequence of decimal digits writes; `None` for the
/// empty sequence and for one that holds anything but digits.
pub open spec fn digits_value(digits: Seq<char>) -> Option<int>
    decreases digits.len(),
{
    if digits.len() == 0 {
        None
    } else if digits.len() == 1 {
        digit_of(digits[0])
    } else {
        match (digits_value(digits.drop_last()), digit_of(digits.last())) {
            (Some(value), Some(digit)) => Some(value * 10 + digit),
            _ => None,
        }
    }
}

/// `text` without the plus sign that may stand before its digits.
pub open spec fn unsigned_part(text: Seq<char>) -> Seq<char> {
    if text.len() > 0 && text[0] == '+' {
        text.drop_first()
    } else {
        text
    }
}

/// The number that `text` writes, as the standard library reads a `u16`:
/// decimal digits, with or without a plus sign before them, that write a
/// number up to 65535. Anything else writes none.
pub open spec fn parsed_u16(text: Seq<char>) -> Option<u16> {
    match digits_value(unsigned_part(text)) {
        Some(value) => if value <= u16::MAX {
            Some(value as u16)
        } else {
            None
        },
        None => None,
    }
}

proof fn lemma_digits_are_digits(digits: Seq<char>, i: int)
    requires
        digits_value(digits) is Some,
        0 <= i < digits.len(),
    ensures
        digit_of(digits[i]) is Some,
        digits_value(digits)->Some_0 >= 0,
    decreases digits.len(),
{
    if digits.len() > 1 {
        lemma_digits_are_digits(digits.drop_last(), 0);
        if i < digits.len() - 1 {
            lemma_digits_are_digits(digits.drop_last(), i);
        }
    }
}

proof fn lemma_digits_grow(digits: Seq<char>, n: int)
    requires
        1 <= n <= digits.len(),
        digits_value(digits) is Some,
    ensures
        digits_value(digits.take(n)) is Some,
        digits_value(digits.take(n))->Some_0 <= digits_value(digits)->Some_0,
    decreases digits.len() - n,
{
    if n == digits.len() {
        assert(digits.take(n) =~= digits);
    } else {
        let front = digits.drop_last();
        lemma_digits_are_digits(front, 0);
        lemma_digits_grow(front, n);
        assert(front.take(n) =~= digits.take(n));
    }
}

/// Reads `text` as a `u16`; see [`parsed_u16`].
pub fn parse_u16(text: &str) -> (number: Option<u16>)
    ensures
        number == parsed_u16(text@),
{
    let ghost digits = unsigned_part(text@);
    if !text.is_ascii() {
        proof {
            if digits_value(digits) is Some {
                let i = choose|i: int|
                    0 <= i < text@.len() && !('\0' <= #[trigger] text@[i] <= '\u{7f}');
                if digits.len() == text@.len() {
                    lemma_digits_are_digits(digits, i);
                } else if i > 0 {
                    lemma_digits_are_digits(digits, i - 1);
                }
            }
        }
        return None;
    }
    let bytes = text.as_bytes();
    let len: usize = bytes.len();
    proof {
        is_ascii_spec_bytes(text);
    }
    assert(len == text@.len());
    let mut i: usize = 0;
    if len > 0 && bytes[0] == 43 {
        i = 1;
    }
    let first: usize = i;
    assert(digits =~= text@.skip(first as int));
    if i == len {
        return None;
    }
    let mut value: u32 = 0;
    while i < len
        invariant
            first <= i <= len,
            len == text@.len(),
            bytes@.len() == len,
            forall|k: int| 0 <= k < len ==> #[trigger] bytes@[k] == text@[k] as u8,
            is_ascii_chars(text@),
            digits == text@.skip(first as int),
            digits == unsigned_part(text@),
            value <= u16::MAX,
            i == first ==> value == 0,
            i > first ==> digits_value(digits.take(i - first)) == Some(value as int),
        decreases len - i,
    {
        let byte: u8 = bytes[i];
        let ghost c = text@[i as int];
        assert(digits[i - first] == c);
        if byte < 48 || byte > 57 {
            proof {
                assert(digit_of(c) is None);
                if digits_value(digits) is Some {
                    lemma_digits_are_digits(digits, i - first);
                }
            }
            return None;
        }
        let digit: u32 = (byte - 48) as u32;
        assert(digit_of(c) == Some(digit as int));
        let next: u32 = value * 10 + digit;
        proof {
            let k = i - first + 1;
            assert(digits.take(k).drop_last() =~= digits.take(k - 1));
            assert(digits.take(k).last() == c);
            assert(digits_value(digits.take(k)) == Some(next as int));
        }
        if next > 65535 {
            proof {
                if digits_value(digits) is Some {
                    lemma_digits_grow(digits, i - first + 1);
                }
            }
            return None;
        }
        value = next;
        i += 1;
    }
    assert(digits.take(i - first) =~= digits);
    Some(value as u16)
}

/// The characters of `value`, or those of `fallback` where there is no
/// value.
pub open spec fn text_or(value: Option<String>, fallback: Seq<char>) -> Seq<char> {
    match value {
        Some(text) => text@,
        None => fallback,
    }
}

/// The port that `parsed` stands for: the number that was read, or the
/// default port where none was.
pub open spec fn port_of(parsed: Option<u16>) -> u16 {
    match parsed {
        Some(port) => port,
        None => DEFAULT_PORT,
    }
}

fn value_or(value: Option<String>, fallback: &str) -> (text: String)
    ensures
        text@ == text_or(value, fallback@),
{
    match value {
        Some(text) => text,
        None => fallback.to_owned(),
    }
}

impl Config {
    /// The settings for the port `parsed_port` and the given values, each
    /// replaced by its default where it is missing.
    pub fn from_parts(
        parsed_port: Option<u16>,
        supabase_url: Option<String>,
        supabase_anon_key: Option<String>,
        supabase_jwt_secret: Option<String>,
        redis_url: Option<String>,
        database_url: Option<String>,
        environment: Option<String>,
    ) -> (config: Config)
        ensures
            config.port == port_of(parsed_port),
            config.supabase_url@ == text_or(supabase_url, Seq::empty()),
            config.supabase_anon_key@ == text_or(supabase_anon_key, Seq::empty()),
            config.supabase_jwt_secret@ == text_or(supabase_jwt_secret, Seq::empty()),
            config.redis_url@ == text_or(redis_url, "redis://localhost:6379"@),
            config.database_url@ == text_or(database_url, Seq::empty()),
            config.environment@ == text_or(environment, "development"@),
    {
        let port = match parsed_port {
            Some(port) => port,
            None => DEFAULT_PORT,
        };
        proof {
            reveal_strlit("");
            assert(""@ =~= Seq::<char>::empty());
        }
        Config {
            port,
            supabase_url: value_or(supabase_url, ""),
            supabase_anon_key: value_or(supabase_anon_key, ""),
            supabase_jwt_secret: value_or(supabase_jwt_secret, ""),
            redis_url: value_or(redis_url, "redis://localhost:6379"),
            database_url: value_or(database_url, ""),
            environment: value_or(environment, "development"),
        }
    }

    /// The settings for the values that were found in the environment. A
    /// port that is missing, or that is no number of a port, gives the
    /// default port.
    pub fn from_values(
        port: Option<String>,
        supabase_url: Option<String>,
        supabase_anon_key: Option<String>,
        supabase_jwt_secret: Option<String>,
        redis_url: Option<String>,
        database_url: Option<String>,
        environment: Option<String>,
    ) -> (config: Config)
        ensures
            config.port == port_of(
                match port {
                    Some(text) => parsed_u16(text@),
                    None => None,
                },
            ),
            config.supabase_url@ == text_or(supabase_url, Seq::empty()),
            config.supabase_anon_key@ == text_or(supabase_anon_key, Seq::empty()),
            config.supabase_jwt_secret@ == text_or(supabase_jwt_secret, Seq::empty()),
            config.redis_url@ == text_or(redis_url, "redis://localhost:6379"@),
            config.database_url@ == text_or(database_url, Seq::empty()),
            config.environment@ == text_or(environment, "development"@),
    {
        let parsed_port = match port {
            Some(text) => parse_u16(text.as_str()),
            None => None,
        };
        Config::from_parts(
            parsed_port,
            supabase_url,
            supabase_anon_key,
            supabase_jwt_secret,
            redis_url,
            database_url,
            environment,
        )
    }
}

} // verus!
