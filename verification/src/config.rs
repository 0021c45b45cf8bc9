//! What a password is made of, and how the command line says so.

use vstd::prelude::*;

verus! {

/// The choices behind one password.
#[derive(Clone, Copy, Debug, PartialEq, Eq, Structural)]
pub struct Config {
    /// Number of characters asked for.
    pub len: i32,
    /// Uppercase letters may appear.
    pub upper: bool,
    /// Lowercase letters may appear.
    pub lower: bool,
    /// Digits may appear.
    pub numbers: bool,
    /// Arithmetic signs and brackets may appear.
    pub basic_sym: bool,
    /// Punctuation and further signs may appear.
    pub extra_sym: bool,
    /// Runs of one class are broken up by a second draw.
    pub check_rep: bool,
}

/// What an argument of the command line can ask for.
#[derive(Clone, Copy, Debug, PartialEq, Eq, Structural)]
pub enum Flag {
    /// Every class and the guard: `--all`, `-a`.
    All,
    /// Uppercase letters: `--upper`, `-u`.
    Upper,
    /// Lowercase letters: `--lower`, `-l`.
    Lower,
    /// Digits: `--numbers`, `-n`.
    Numbers,
    /// Arithmetic signs and brackets: `--basic-sym`, `-b`.
    BasicSym,
    /// Punctuation and further signs: `--extra-sym`, `-e`.
    ExtraSym,
    /// The guard against runs of one class: `--check-rep`, `-r`.
    CheckRep,
    /// The usage text: `--help`, `-h`.
    Help,
}

/// Why a command line yields no configuration.
#[derive(Clone, Copy, Debug, PartialEq, Eq, Structural)]
pub enum Refusal {
    /// The length is missing.
    NoParameters,
    /// The length is not a decimal number that fits 32 bits.
    InvalidInteger,
    /// The usage text was asked for.
    Help,
}

/// Shown when the command line holds no length.
pub const NO_PARAMETERS: &'static str =
    "ERROR: No parameters passed!\nUsage: passgen [PASSWORD_LEN]";

/// Shown when the length is no 32-bit decimal number.
pub const INVALID_INTEGER: &'static str = "ERROR: Insert a valid integer for the password length.";

/// Shown when help is asked for.
pub const USAGE: &'static str = "Usage: passgen [PASS_GEN] [OPTIONS]\n-a -u -l -n -b -e -r";

impl Refusal {
    /// The text shown for this refusal.
    pub open spec fn text(self) -> Seq<char> {
        match self {
            Refusal::NoParameters => NO_PARAMETERS@,
            Refusal::InvalidInteger => INVALID_INTEGER@,
            Refusal::Help => USAGE@,
        }
    }

    /// The text shown for this refusal.
    pub fn message(&self) -> (message: &'static str)
        ensures
            message@ == self.text(),
    {
        match self {
            Refusal::NoParameters => NO_PARAMETERS,
            Refusal::InvalidInteger => INVALID_INTEGER,
            Refusal::Help => USAGE,
        }
    }
}

/// Whether `c` is one of the ten decimal digits.
pub open spec fn is_digit(c: char) -> bool {
    0x30 <= c as u32 <= 0x39
}

/// Whether `digits` holds decimal digits only.
pub open spec fn all_digits(digits: Seq<char>) -> bool {
    forall|i: int| 0 <= i < digits.len() ==> is_digit(#[trigger] digits[i])
}

/// The number written by the decimal digits `digits`.
pub open spec fn digits_value(digits: Seq<char>) -> int
    decreases digits.len(),
{
    if digits.len() == 0 {
        0
    } else {
        10 * digits_value(digits.drop_last()) + (digits.last() as u32 - 0x30)
    }
}

/// The 32-bit number that `text` writes in decimal: an optional sign, `+` or
/// `-`, then one digit or more and nothing else, with a value that fits.
pub open spec fn decimal_i32(text: Seq<char>) -> Option<i32> {
    let negative = text.len() > 0 && text[0] == '-';
    let signed = negative || (text.len() > 0 && text[0] == '+');
    let digits = if signed {
        text.skip(1)
    } else {
        text
    };
    let value = if negative {
        -digits_value(digits)
    } else {
        digits_value(digits)
    };
    if digits.len() > 0 && all_digits(digits) && i32::MIN <= value <= i32::MAX {
        Some(value as i32)
    } else {
        None
    }
}

/// The text that `str::to_lowercase` makes of `text`.
pub uninterp spec fn lowercase_of(text: Seq<char>) -> Seq<char>;

/// Lowers `text` with `str::to_lowercase`, which follows the Unicode rules for
/// lowercase and depends on the text alone. Nothing more is claimed of the
/// result than its name.
#[verifier::external_body]
fn lowercase(text: &str) -> (lowered: String)
    ensures
        lowered@ == lowercase_of(text@),
{
    text.to_lowercase()
}

/// Reads `text` with `str::parse::<i32>`. That function accepts an optional
/// sign followed by decimal digits only, and rejects an empty text, a sign
/// alone, any other character and a value outside the 32-bit range.
#[verifier::external_body]
fn parse_i32(text: &str) -> (number: Option<i32>)
    ensures
        number == decimal_i32(text@),
{
    text.parse::<i32>().ok()
}

/// Compares two texts with `==` on `str`, which holds when they consist of
/// the same characters.
#[verifier::external_body]
fn same_text(left: &str, right: &str) -> (same: bool)
    ensures
        same == (left@ == right@),
{
    left == right
}

/// The flag that the lowercase word `word` names, in its long or its short
/// form.
pub open spec fn flag_named(word: Seq<char>) -> Option<Flag> {
    if word == "--all"@ || word == "-a"@ {
        Some(Flag::All)
    } else if word == "--upper"@ || word == "-u"@ {
        Some(Flag::Upper)
    } else if word == "--lower"@ || word == "-l"@ {
        Some(Flag::Lower)
    } else if word == "--numbers"@ || word == "-n"@ {
        Some(Flag::Numbers)
    } else if word == "--basic-sym"@ || word == "-b"@ {
        Some(Flag::BasicSym)
    } else if word == "--extra-sym"@ || word == "-e"@ {
        Some(Flag::ExtraSym)
    } else if word == "--check-rep"@ || word == "-r"@ {
        Some(Flag::CheckRep)
    } else if word == "--help"@ || word == "-h"@ {
        Some(Flag::Help)
    } else {
        None
    }
}

/// The flag that `word` names. `word` is expected in lowercase: no other
/// spelling is recognised.
pub fn recognize(word: &str) -> (flag: Option<Flag>)
    ensures
        flag == flag_named(word@),
{
    if same_text(word, "--all") || same_text(word, "-a") {
        Some(Flag::All)
    } else if same_text(word, "--upper") || same_text(word, "-u") {
        Some(Flag::Upper)
    } else if same_text(word, "--lower") || same_text(word, "-l") {
        Some(Flag::Lower)
    } else if same_text(word, "--numbers") || same_text(word, "-n") {
        Some(Flag::Numbers)
    } else if same_text(word, "--basic-sym") || same_text(word, "-b") {
        Some(Flag::BasicSym)
    } else if same_text(word, "--extra-sym") || same_text(word, "-e") {
        Some(Flag::ExtraSym)
    } else if same_text(word, "--check-rep") || same_text(word, "-r") {
        Some(Flag::CheckRep)
    } else if same_text(word, "--help") || same_text(word, "-h") {
        Some(Flag::Help)
    } else {
        None
    }
}

/// The texts of a list of arguments.
pub open spec fn texts(args: Seq<String>) -> Seq<Seq<char>> {
    args.map_values(|arg: String| arg@)
}

/// The flag that the argument `arg` names, whatever its case.
pub open spec fn flag_of(arg: Seq<char>) -> Option<Flag> {
    flag_named(lowercase_of(arg))
}

/// Whether the scan of the arguments stops at `arg`: it asks for everything
/// or for the usage text.
pub open spec fn ends_scan(arg: Seq<char>) -> bool {
    flag_of(arg) == Some(Flag::All) || flag_of(arg) == Some(Flag::Help)
}

/// Whether `args[i]` is the first argument at which the scan stops.
pub open spec fn first_end(args: Seq<Seq<char>>, i: int) -> bool {
    &&& 0 <= i < args.len()
    &&& ends_scan(args[i])
    &&& forall|j: int| 0 <= j < i ==> !ends_scan(#[trigger] args[j])
}

/// Whether one of the first `count` arguments names `flag`.
pub open spec fn asks_within(args: Seq<Seq<char>>, flag: Flag, count: int) -> bool {
    exists|i: int| 0 <= i < count && i < args.len() && flag_of(#[trigger] args[i]) == Some(flag)
}

/// Whether one of the arguments names `flag`.
pub open spec fn asks(args: Seq<Seq<char>>, flag: Flag) -> bool {
    asks_within(args, flag, args.len() as int)
}

/// What a command line amounts to.
///
/// The second argument is the length. Every argument, the first two
/// included, is then read as a flag, in order and whatever its case, and
/// arguments that name no flag are passed over. The first argument that asks
/// for everything or for help settles the matter: everything switches all
/// classes and the guard on, help refuses. Without such an argument each
/// class, and the guard, is on exactly if some argument names it.
pub open spec fn build_outcome(args: Seq<Seq<char>>) -> Result<Config, Refusal> {
    if args.len() < 2 {
        Err(Refusal::NoParameters)
    } else if decimal_i32(args[1]) is None {
        Err(Refusal::InvalidInteger)
    } else {
        let len = decimal_i32(args[1])->Some_0;
        if exists|i: int| first_end(args, i) {
            let end = choose|i: int| first_end(args, i);
            if flag_of(args[end]) == Some(Flag::Help) {
                Err(Refusal::Help)
            } else {
                Ok(
                    Config {
                        len,
                        upper: true,
                        lower: true,
                        numbers: true,
                        basic_sym: true,
                        extra_sym: true,
                        check_rep: true,
                    },
                )
            }
        } else {
            Ok(
                Config {
                    len,
                    upper: asks(args, Flag::Upper),
                    lower: asks(args, Flag::Lower),
                    numbers: asks(args, Flag::Numbers),
                    basic_sym: asks(args, Flag::BasicSym),
                    extra_sym: asks(args, Flag::ExtraSym),
                    check_rep: asks(args, Flag::CheckRep),
                },
            )
        }
    }
}

impl Config {
    /// Reads a command line: the program's name, the length of the password,
    /// then flags in any order and any case.
    pub fn build(args: &[String]) -> (built: Result<Config, &'static str>)
        ensures
            match build_outcome(texts(args@)) {
                Ok(config) => built == Ok::<Config, &'static str>(config),
                Err(refusal) => built is Err && built->Err_0@ == refusal.text(),
            },
    {
        let ghost words = texts(args@);
        if args.len() < 2 {
            return Err(Refusal::NoParameters.message());
        }
        let pass_len: i32;
        match parse_i32(args[1].as_str()) {
            Some(number) => {
                pass_len = number;
            },
            None => {
                return Err(Refusal::InvalidInteger.message());
            },
        }

        let mut upper = false;
        let mut lower = false;
        let mut numbers = false;
        let mut basic_sym = false;
        let mut extra_sym = false;
        let mut check_rep = false;

        let mut i: usize = 0;
        while i < args.len()
            invariant
                i <= args.len(),
                words == texts(args@),
                forall|j: int| 0 <= j < i ==> !ends_scan(#[trigger] words[j]),
                upper == asks_within(words, Flag::Upper, i as int),
                lower == asks_within(words, Flag::Lower, i as int),
                numbers == asks_within(words, Flag::Numbers, i as int),
                basic_sym == asks_within(words, Flag::BasicSym, i as int),
                extra_sym == asks_within(words, Flag::ExtraSym, i as int),
                check_rep == asks_within(words, Flag::CheckRep, i as int),
                args.len() >= 2,
                decimal_i32(words[1]) == Some(pass_len),
            decreases args.len() - i,
        {
            let lowered = lowercase(args[i].as_str());
            let flag = recognize(lowered.as_str());
            match flag {
                Some(Flag::All) => {
                    assert(first_end(words, i as int));
                    return Ok(
                        Config {
                            len: pass_len,
                            upper: true,
                            lower: true,
                            numbers: true,
                            basic_sym: true,
                            extra_sym: true,
                            check_rep: true,
                        },
                    );
                },
                Some(Flag::Upper) => {
                    upper = true;
                },
                Some(Flag::Lower) => {
                    lower = true;
                },
                Some(Flag::Numbers) => {
                    numbers = true;
                },
                Some(Flag::BasicSym) => {
                    basic_sym = true;
                },
                Some(Flag::ExtraSym) => {
                    extra_sym = true;
                },
                Some(Flag::CheckRep) => {
                    check_rep = true;
                },
                Some(Flag::Help) => {
                    assert(first_end(words, i as int));
                    return Err(Refusal::Help.message());
                },
                None => (),
            }
            i += 1;
        }

        Ok(Config { len: pass_len, upper, lower, numbers, basic_sym, extra_sym, check_rep })
    }
}

} // verus!
