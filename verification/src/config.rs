//! Settings of a node.

use vstd::prelude::*;

verus! {

/// A number that is not zero.
#[derive(Clone, Copy, Debug, PartialEq, Eq, Structural)]
pub struct NonZeroU64 {
    value: u64,
}

impl View for NonZeroU64 {
    type V = u64;

    closed spec fn view(&self) -> u64 {
        self.value
    }
}

impl NonZeroU64 {
    #[verifier::type_invariant]
    spec fn is_not_zero(self) -> bool {
        self.value != 0
    }

    /// `value`, unless it is zero.
    pub fn new(value: u64) -> (r: Option<Self>)
        ensures
            match r {
                Some(n) => value != 0 && n@ == value,
                None => value == 0,
            },
    {
        if value == 0 {
            None
        } else {
            Some(NonZeroU64 { value })
        }
    }

    pub fn get(self) -> (r: u64)
        ensures
            r == self@,
            r != 0,
    {
        proof {
            use_type_invariant(&self);
        }
        self.value
    }
}

/// The settings of a node that bear on elections and on applying the log.
#[derive(Clone, Copy, Debug, PartialEq, Eq)]
pub struct Config {
    /// The shortest election timeout, in milliseconds.
    pub election_timeout_min: u64,
    /// The least time, in milliseconds, that is too long for an election
    /// timeout.
    pub election_timeout_max: u64,
    /// How many entries a page holds at most when committed entries are
    /// applied; unset, they are applied in one piece.
    pub max_apply_entries: Option<NonZeroU64>,
}

/// Why arguments do not give settings.
#[derive(Clone, Copy, Debug, PartialEq, Eq, Structural)]
pub enum ConfigError {
    /// An argument that is neither an option nor the value of one.
    UnexpectedArgument,
    /// An option without its value.
    MissingValue,
    /// A value that is not a positive number.
    InvalidValue,
}

/// The number that a decimal digit stands for.
pub open spec fn digit_value(c: char) -> Option<int> {
    if '0' <= c <= '9' {
        Some(c as int - '0' as int)
    } else {
        None
    }
}

/// The number that decimal digits stand for; no digits stand for zero.
pub open spec fn digits_value(digits: Seq<char>) -> Option<int>
    decreases digits.len(),
{
    if digits.len() == 0 {
        Some(0)
    } else {
        match (digits_value(digits.drop_last()), digit_value(digits.last())) {
            (Some(high), Some(low)) => Some(10 * high + low),
            _ => None,
        }
    }
}

/// The number that a text stands for: digits, after an optional plus sign.
pub open spec fn number_value(text: Seq<char>) -> Option<int> {
    let digits = if text.len() > 0 && text[0] == '+' {
        text.skip(1)
    } else {
        text
    };
    if digits.len() == 0 {
        None
    } else {
        digits_value(digits)
    }
}

proof fn lemma_digits_grow(digits: Seq<char>, n: int)
    requires
        0 <= n <= digits.len(),
    ensures
        digits_value(digits.take(n)) is None ==> digits_value(digits) is None,
        (digits_value(digits.take(n)) matches Some(part) && digits_value(digits) matches Some(whole))
            ==> 0 <= digits_value(digits.take(n))->0 <= digits_value(digits)->0,
    decreases digits.len(),
{
    if n == digits.len() {
        assert(digits.take(n) == digits);
        if n > 0 {
            lemma_digits_grow(digits.drop_last(), n - 1);
        }
    } else {
        lemma_digits_grow(digits.drop_last(), n);
        assert(digits.drop_last().take(n) == digits.take(n));
    }
}

/// The positive number that `text` stands for, if it fits.
pub fn parse_positive(text: &str) -> (r: Option<NonZeroU64>)
    ensures
        match r {
            Some(n) => number_value(text@) == Some(n@ as int) && n@ != 0,
            None => match number_value(text@) {
                Some(n) => n == 0 || n > u64::MAX,
                None => true,
            },
        },
{
    let len: usize = text.unicode_len();
    let start: usize = if len > 0 && text.get_char(0) == '+' {
        1
    } else {
        0
    };
    if len == start {
        return None;
    }
    let ghost digits = text@.skip(start as int);
    assert(start == 0 ==> digits == text@);
    let mut value: u64 = 0;
    let mut i: usize = start;
    while i < len
        invariant
            start <= i <= len,
            len == text@.len(),
            digits == text@.skip(start as int),
            number_value(text@) == digits_value(digits),
            digits_value(digits.take(i - start)) == Some(value as int),
        decreases len - i,
    {
        let c = text.get_char(i);
        proof {
            let n = i - start;
            assert(digits.take(n + 1).drop_last() == digits.take(n));
            assert(digits.take(n + 1).last() == c);
            lemma_digits_grow(digits, n + 1);
        }
        if c < '0' || c > '9' {
            return None;
        }
        let low: u64 = (c as u32 - '0' as u32) as u64;
        if value > (u64::MAX - low) / 10 {
            return None;
        }
        value = 10 * value + low;
        i += 1;
    }
    assert(digits.take(len - start) == digits);
    NonZeroU64::new(value)
}

impl Config {
    /// What the arguments ask for: the program's name, then at most one
    /// option, `--max-apply-entries`, with its value.
    pub open spec fn asked(args: Seq<Seq<char>>) -> Result<Option<int>, ConfigError> {
        if args.len() <= 1 {
            Ok(None)
        } else if args[1] != "--max-apply-entries"@ {
            Err(ConfigError::UnexpectedArgument)
        } else if args.len() == 2 {
            Err(ConfigError::MissingValue)
        } else if args.len() > 3 {
            Err(ConfigError::UnexpectedArgument)
        } else {
            match number_value(args[2]) {
                Some(n) => if 0 < n <= u64::MAX {
                    Ok(Some(n))
                } else {
                    Err(ConfigError::InvalidValue)
                },
                None => Err(ConfigError::InvalidValue),
            }
        }
    }

    /// The settings that the arguments of a program ask for.
    pub fn build(args: &[&str]) -> (r: Result<Config, ConfigError>)
        ensures
            match (r, Self::asked(Seq::new(args@.len(), |i: int| args@[i]@))) {
                (Ok(config), Ok(asked)) => {
                    &&& config.election_timeout_min == 150
                    &&& config.election_timeout_max == 300
                    &&& match (config.max_apply_entries, asked) {
                        (Some(n), Some(m)) => n@ == m,
                        (None, None) => true,
                        _ => false,
                    }
                },
                (Err(error), Err(asked)) => error == asked,
                _ => false,
            },
    {
        let config = Config::default();
        if args.len() <= 1 {
            return Ok(config);
        }
        let option: String = args[1].to_owned();
        if option != "--max-apply-entries".to_owned() {
            return Err(ConfigError::UnexpectedArgument);
        }
        if args.len() == 2 {
            return Err(ConfigError::MissingValue);
        }
        if args.len() > 3 {
            return Err(ConfigError::UnexpectedArgument);
        }
        match parse_positive(args[2]) {
            Some(limit) => Ok(Config { max_apply_entries: Some(limit), ..config }),
            None => Err(ConfigError::InvalidValue),
        }
    }
}

impl Default for Config {
    /// Applying in pages is opt-in.
    fn default() -> (r: Self)
        ensures
            r.election_timeout_min == 150,
            r.election_timeout_max == 300,
            r.max_apply_entries is None,
    {
        Config { election_timeout_min: 150, election_timeout_max: 300, max_apply_entries: None }
    }
}

/// A digit stands for how far it is from zero, and nothing else is a digit.
pub proof fn law_digits_count_from_zero(c: char)
    ensures
        '0' <= c <= '9' ==> digit_value(c) == Some(c as int - '0' as int),
        c < '0' || '9' < c ==> digit_value(c) is None,
{
}

/// A digit behind a number makes it ten times as large, plus the digit; what is
/// not a digit makes it no number, wherever it stands.
pub proof fn law_appended_digit_shifts_the_number(text: Seq<char>, c: char, n: int)
    requires
        number_value(text) == Some(n),
    ensures
        '0' <= c <= '9' ==> number_value(text.push(c)) == Some(10 * n + (c as int - '0' as int)),
        c < '0' || '9' < c ==> number_value(text.push(c)) is None,
{
    let whole = text.push(c);
    assert(whole[0] == text[0]);
    if text[0] == '+' {
        let digits = text.skip(1);
        assert(whole.skip(1) =~= digits.push(c));
        assert(digits.push(c).drop_last() =~= digits);
    } else {
        assert(whole.drop_last() =~= text);
    }
}

proof fn lemma_digits_are_digits(digits: Seq<char>, i: int)
    requires
        digits_value(digits) is Some,
        0 <= i < digits.len(),
    ensures
        '0' <= digits[i] <= '9',
    decreases digits.len(),
{
    if i < digits.len() - 1 {
        lemma_digits_are_digits(digits.drop_last(), i);
    }
}

/// A number is written with digits alone, at least one, after an optional plus
/// sign; one digit stands for itself, with or without the sign.
pub proof fn law_numbers_are_digits_after_an_optional_plus(text: Seq<char>, c: char)
    requires
        '0' <= c <= '9',
    ensures
        number_value(text) is Some ==> text.len() > 0 && ('0' <= text[0] <= '9' || (text[0] == '+'
            && text.len() > 1)) && forall|i: int| 1 <= i < text.len() ==> '0' <= #[trigger] text[i] <= '9',
        number_value(seq![c]) == Some(c as int - '0' as int),
        number_value(seq!['+', c]) == Some(c as int - '0' as int),
        number_value(seq!['+']) is None,
        number_value(Seq::empty()) is None,
{
    if number_value(text) is Some {
        let plus = text[0] == '+';
        let digits = if plus {
            text.skip(1)
        } else {
            text
        };
        lemma_digits_are_digits(digits, 0);
        assert forall|i: int| 1 <= i < text.len() implies '0' <= #[trigger] text[i] <= '9' by {
            lemma_digits_are_digits(digits, if plus { i - 1 } else { i });
        }
    }
    reveal_with_fuel(digits_value, 3);
    assert(seq![c].drop_last() =~= Seq::empty());
    assert(seq!['+', c].skip(1) =~= seq![c]);
    assert(seq!['+'].skip(1) =~= Seq::empty());
}

/// The option sets the number that its value stands for, if that is positive
/// and fits; every other value of the option is refused as such, and so are an
/// option without a value, an unknown option, and anything after the value.
pub proof fn law_option_takes_one_positive_number(
    program: Seq<char>,
    option: Seq<char>,
    value: Seq<char>,
    more: Seq<char>,
)
    ensures
        Config::asked(Seq::empty()) == Ok::<Option<int>, ConfigError>(None),
        Config::asked(seq![program]) == Ok::<Option<int>, ConfigError>(None),
        option != "--max-apply-entries"@ ==> Config::asked(seq![program, option, value]) == Err::<
            Option<int>,
            _,
        >(ConfigError::UnexpectedArgument) && Config::asked(seq![program, option]) == Err::<
            Option<int>,
            _,
        >(ConfigError::UnexpectedArgument),
        Config::asked(seq![program, "--max-apply-entries"@]) == Err::<Option<int>, _>(
            ConfigError::MissingValue,
        ),
        Config::asked(seq![program, "--max-apply-entries"@, value, more]) == Err::<Option<int>, _>(
            ConfigError::UnexpectedArgument,
        ),
        match number_value(value) {
            Some(n) => if 0 < n <= u64::MAX {
                Config::asked(seq![program, "--max-apply-entries"@, value]) == Ok::<
                    Option<int>,
                    ConfigError,
                >(Some(n))
            } else {
                Config::asked(seq![program, "--max-apply-entries"@, value]) == Err::<
                    Option<int>,
                    _,
                >(ConfigError::InvalidValue)
            },
            None => Config::asked(seq![program, "--max-apply-entries"@, value]) == Err::<
                Option<int>,
                _,
            >(ConfigError::InvalidValue),
        },
{
}

} // verus!
