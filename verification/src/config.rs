//! The configuration of the bot, as it is found in the environment.

use vstd::prelude::*;
use vstd::string::*;
use vstd::utf8::is_ascii_chars;

verus! {

/// The application identifier used when the environment names none.
pub const DEFAULT_APPLICATION_ID: u64 = 1124137839601406013;

/// The byte that encodes `+`.
const PLUS: u8 = 43;

/// The byte that encodes the digit `0`.
const ZERO: u8 = 48;

/// The byte that encodes the digit `9`.
const NINE: u8 = 57;

/// Whether `c` is one of the decimal digits `0` to `9`.
pub open spec fn is_digit(c: char) -> bool {
    '0' <= c <= '9'
}

/// The number that a sequence of decimal digits denotes.
pub open spec fn decimal_value(digits: Seq<char>) -> nat
    decreases digits.len(),
{
    if digits.len() == 0 {
        0
    } else {
        10 * decimal_value(digits.drop_last()) + (digits.last() as nat - '0' as nat) as nat
    }
}

/// Every character of `digits` is a decimal digit.
pub open spec fn all_digits(digits: Seq<char>) -> bool {
    forall|i: int| 0 <= i < digits.len() ==> is_digit(#[trigger] digits[i])
}

/// `text` without the `+` that may stand at its head.
pub open spec fn without_sign(text: Seq<char>) -> Seq<char> {
    if text.len() > 0 && text[0] == '+' {
        text.drop_first()
    } else {
        text
    }
}

/// The application identifier that `text` denotes: decimal digits, at least
/// one, after an optional `+`, whose value fits in 64 bits. Any other text
/// denotes none.
pub open spec fn parsed_application_id(text: Seq<char>) -> Option<u64> {
    let digits = without_sign(text);
    if digits.len() > 0 && all_digits(digits) && decimal_value(digits) <= u64::MAX {
        Some(decimal_value(digits) as u64)
    } else {
        None
    }
}

/// The value of a digit sequence is at least the value of each of its
/// prefixes.
proof fn lemma_decimal_value_grows(digits: Seq<char>, k: int)
    requires
        all_digits(digits),
        0 <= k <= digits.len(),
    ensures
        decimal_value(digits.take(k)) <= decimal_value(digits),
    decreases digits.len(),
{
    if k == digits.len() {
        assert(digits.take(k) == digits);
    } else {
        assert(digits.drop_last().take(k) == digits.take(k));
        assert(all_digits(digits.drop_last()));
        lemma_decimal_value_grows(digits.drop_last(), k);
    }
}

/// Reads an application identifier as the decimal number it is written as.
pub fn parse_application_id(text: &str) -> (id: Option<u64>)
    ensures
        id == parsed_application_id(text@),
{
    broadcast use is_ascii_spec_bytes;

    if !text.is_ascii() {
        proof {
            let at = choose|i: int|
                0 <= i < text@.len() && !('\0' <= #[trigger] text@[i] <= '\u{7f}');
            if at > 0 && text@[0] == '+' {
                assert(!is_digit(text@.drop_first()[at - 1]));
            } else {
                assert(!is_digit(text@[at]));
            }
        }
        return None;
    }
    let bytes = text.as_bytes();
    let n = bytes.len();
    let start: usize = if n > 0 && bytes[0] == PLUS {
        1
    } else {
        0
    };
    let ghost digits = text@.skip(start as int);
    proof {
        if n > 0 {
            assert(text@[0] as u8 == bytes@[0]);
        }
        assert(digits == without_sign(text@));
    }
    if start == n {
        return None;
    }
    let mut value: u64 = 0;
    let mut i: usize = start;
    while i < n
        invariant
            start <= i <= n,
            n == bytes@.len(),
            n == text@.len(),
            digits == text@.skip(start as int),
            digits == without_sign(text@),
            forall|j: int| 0 <= j < n ==> text@[j] as u8 == #[trigger] bytes@[j],
            is_ascii_chars(text@),
            all_digits(digits.take(i - start)),
            value == decimal_value(digits.take(i - start)),
        decreases n - i,
    {
        let byte = bytes[i];
        proof {
            assert(digits.take(i - start + 1).drop_last() == digits.take(i - start));
            assert(digits.take(i - start + 1).last() == text@[i as int]);
            assert(text@[i as int] as u8 == byte);
        }
        if byte < ZERO || byte > NINE {
            assert(!is_digit(digits[i - start]));
            return None;
        }
        let digit = (byte - ZERO) as u64;
        assert(is_digit(text@[i as int]));
        assert(digit == text@[i as int] as nat - '0' as nat);
        let ghost longer = decimal_value(digits.take(i - start + 1));
        assert(longer == 10 * value + digit);
        let next = match value.checked_mul(10) {
            Some(tenfold) => tenfold.checked_add(digit),
            None => None,
        };
        match next {
            Some(next) => {
                value = next;
            },
            None => {
                proof {
                    if all_digits(digits) {
                        lemma_decimal_value_grows(digits, i - start + 1);
                    }
                }
                return None;
            },
        }
        i += 1;
    }
    proof {
        assert(digits.take(n - start) == digits);
    }
    Some(value)
}

/// What the bot needs to know to run.
#[derive(Clone, Debug, PartialEq, Eq)]
pub struct Config {
    /// The token under which the bot talks to the chat platform.
    pub discord_token: String,
    /// The assistant that answers the messages.
    pub assistant_id: String,
    /// The application under which the bot's commands are registered.
    pub application_id: u64,
}

/// The mathematical value of a [`Config`].
pub struct ConfigView {
    pub discord_token: Seq<char>,
    pub assistant_id: Seq<char>,
    pub application_id: u64,
}

impl View for Config {
    type V = ConfigView;

    open spec fn view(&self) -> ConfigView {
        ConfigView {
            discord_token: self.discord_token@,
            assistant_id: self.assistant_id@,
            application_id: self.application_id,
        }
    }
}

/// Why the environment does not make a configuration.
#[derive(Clone, Copy, Debug, PartialEq, Eq, Structural)]
pub enum ConfigError {
    /// No bot token is set.
    MissingToken,
    /// The application identifier that is set is not a number of 64 bits.
    InvalidApplicationId,
    /// No assistant is set.
    MissingAssistant,
}

/// The configuration that the environment makes. The bot token and the
/// assistant must be there. The application identifier may be left out, and
/// is then `DEFAULT_APPLICATION_ID`; one that is there must be a number. The
/// first thing found wanting, in the order token, application, assistant, is
/// the error.
pub open spec fn loaded(
    discord_token: Option<Seq<char>>,
    assistant_id: Option<Seq<char>>,
    application_id: Option<Seq<char>>,
) -> Result<ConfigView, ConfigError> {
    if discord_token is None {
        Err(ConfigError::MissingToken)
    } else if application_id is Some && parsed_application_id(application_id.unwrap()) is None {
        Err(ConfigError::InvalidApplicationId)
    } else if assistant_id is None {
        Err(ConfigError::MissingAssistant)
    } else {
        Ok(
            ConfigView {
                discord_token: discord_token.unwrap(),
                assistant_id: assistant_id.unwrap(),
                application_id: match application_id {
                    Some(text) => parsed_application_id(text).unwrap(),
                    None => DEFAULT_APPLICATION_ID,
                },
            },
        )
    }
}

impl Config {
    /// Makes the configuration from what the environment holds: the bot
    /// token, the assistant, and the application identifier, each as it is
    /// set or `None` where it is not.
    pub fn load(
        discord_token: Option<String>,
        assistant_id: Option<String>,
        application_id: Option<String>,
    ) -> (config: Result<Config, ConfigError>)
        ensures
            match config {
                Ok(config) => loaded(
                    discord_token.deep_view(),
                    assistant_id.deep_view(),
                    application_id.deep_view(),
                ) == Ok::<ConfigView, ConfigError>(config@),
                Err(error) => loaded(
                    discord_token.deep_view(),
                    assistant_id.deep_view(),
                    application_id.deep_view(),
                ) == Err::<ConfigView, ConfigError>(error),
            },
    {
        let discord_token = match discord_token {
            Some(token) => token,
            None => return Err(ConfigError::MissingToken),
        };
        let application_id = match application_id {
            Some(text) => match parse_application_id(text.as_str()) {
                Some(id) => id,
                None => return Err(ConfigError::InvalidApplicationId),
            },
            None => DEFAULT_APPLICATION_ID,
        };
        let assistant_id = match assistant_id {
            Some(assistant) => assistant,
            None => return Err(ConfigError::MissingAssistant),
        };
        Ok(Config { discord_token, assistant_id, application_id })
    }
}

} // verus!
