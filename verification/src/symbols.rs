//! The character classes a password may draw from.
//!
//! A class is an alphabet, and its identifier is its place among the classes
//! that a configuration enables. Every class is as likely as any other,
//! whatever the size of its alphabet.

use crate::characters::{
    add_value, choosing_requests, get_char_type, placing_requests, shifted, PreviousCharacters,
};
use crate::config::Config;
use crate::random::{answers, lemma_answers_one, RandomSource};
use vstd::prelude::*;
use vstd::string::*;

verus! {

/// Uppercase letters.
pub const UPPER: &'static str = "ABCDEFGHIJKLMNOPQRSTUVWXYZ";

/// Lowercase letters.
pub const LOWER: &'static str = "abcdefghijklmnopqrstuvwxyz";

/// Decimal digits.
pub const DIGITS: &'static str = "0123456789";

/// Arithmetic signs and brackets.
pub const BASIC_SYMBOLS: &'static str = "-+=*/><[]{}()";

/// Punctuation and further signs.
pub const EXTRA_SYMBOLS: &'static str = "?!@#$%&_|;:";

/// The alphabet `alphabet` if `enabled`, and nothing otherwise.
pub open spec fn optional(enabled: bool, alphabet: Seq<char>) -> Seq<Seq<char>> {
    if enabled {
        seq![alphabet]
    } else {
        Seq::empty()
    }
}

/// The alphabets that `config` selects, in their fixed order.
pub open spec fn selected_alphabets(config: Config) -> Seq<Seq<char>> {
    optional(config.upper, UPPER@) + optional(config.lower, LOWER@) + optional(
        config.numbers,
        DIGITS@,
    ) + optional(config.basic_sym, BASIC_SYMBOLS@) + optional(config.extra_sym, EXTRA_SYMBOLS@)
}

/// The alphabets that a password for `config` draws from: those that
/// `config` selects or, where it selects none, letters of both cases and
/// digits.
pub open spec fn enabled_alphabets(config: Config) -> Seq<Seq<char>> {
    if selected_alphabets(config).len() == 0 {
        seq![UPPER@, LOWER@, DIGITS@]
    } else {
        selected_alphabets(config)
    }
}

/// Whether `c` belongs to one of `alphabets`.
pub open spec fn allowed(alphabets: Seq<Seq<char>>, c: char) -> bool {
    exists|k: int| 0 <= k < alphabets.len() && (#[trigger] alphabets[k]).contains(c)
}

/// The five alphabets are plain ASCII and hold 26, 26, 10, 13 and 11
/// characters.
pub proof fn lemma_alphabet_shapes()
    ensures
        UPPER@.len() == 26 && is_ascii(UPPER),
        LOWER@.len() == 26 && is_ascii(LOWER),
        DIGITS@.len() == 10 && is_ascii(DIGITS),
        BASIC_SYMBOLS@.len() == 13 && is_ascii(BASIC_SYMBOLS),
        EXTRA_SYMBOLS@.len() == 11 && is_ascii(EXTRA_SYMBOLS),
{
    reveal_strlit("ABCDEFGHIJKLMNOPQRSTUVWXYZ");
    reveal_strlit("abcdefghijklmnopqrstuvwxyz");
    reveal_strlit("0123456789");
    reveal_strlit("-+=*/><[]{}()");
    reveal_strlit("?!@#$%&_|;:");
}

/// Between one and five alphabets are enabled, of 10 to 26 characters each.
pub proof fn lemma_enabled_alphabets(config: Config)
    ensures
        1 <= enabled_alphabets(config).len() <= 5,
        forall|k: int|
            0 <= k < enabled_alphabets(config).len() ==> 10 <= (#[trigger] enabled_alphabets(
                config,
            )[k]).len() <= 26,
{
    lemma_alphabet_shapes();
}

/// The enabled classes of one run, as their alphabets in order.
pub struct Symbols {
    characters: Vec<&'static str>,
}

impl View for Symbols {
    type V = Seq<Seq<char>>;

    closed spec fn view(&self) -> Seq<Seq<char>> {
        self.characters@.map_values(|alphabet: &'static str| alphabet@)
    }
}

impl Symbols {
    /// Between one and five classes, each with a non-empty ASCII alphabet.
    #[verifier::type_invariant]
    spec fn well_formed(&self) -> bool {
        &&& 1 <= self.characters@.len() <= 5
        &&& forall|i: int|
            0 <= i < self.characters@.len() ==> is_ascii(#[trigger] self.characters@[i])
                && self.characters@[i]@.len() > 0
    }

    /// The classes that `config` enables.
    pub fn new(config: &Config) -> (symbols: Symbols)
        ensures
            symbols@ == enabled_alphabets(*config),
    {
        let mut characters: Vec<&'static str> = Vec::new();
        proof {
            lemma_alphabet_shapes();
        }

        if config.upper {
            characters.push(UPPER);
        }
        if config.lower {
            characters.push(LOWER);
        }
        if config.numbers {
            characters.push(DIGITS);
        }
        if config.basic_sym {
            characters.push(BASIC_SYMBOLS);
        }
        if config.extra_sym {
            characters.push(EXTRA_SYMBOLS);
        }

        if characters.len() < 1 {
            characters.push(UPPER);
            characters.push(LOWER);
            characters.push(DIGITS);
        }
        assert(characters@.map_values(|alphabet: &'static str| alphabet@) =~= enabled_alphabets(
            *config,
        ));

        Symbols { characters }
    }

    /// Draws one character of `alphabet`, each of its characters being one
    /// value of the draw.
    pub fn get_char<R: RandomSource>(&self, rng: &mut R, alphabet: &'static str) -> (picked: char)
        requires
            alphabet@.len() > 0,
        ensures
            answers(old(rng).drawn(), final(rng).drawn(), seq![alphabet@.len() as usize]),
            picked == alphabet@[final(rng).drawn().last().value as int],
    {
        let pos = rng.below(alphabet.unicode_len());
        proof {
            lemma_answers_one(old(rng).drawn(), rng.drawn().last());
        }
        alphabet.get_char(pos)
    }

    /// Chooses a class and returns its alphabet with its identifier. A
    /// single class is chosen without a draw.
    pub fn get_char_type<R: RandomSource>(&self, rng: &mut R) -> (chosen: (&'static str, i8))
        ensures
            0 <= chosen.1 < self@.len(),
            chosen.0@ == self@[chosen.1 as int],
            is_ascii(chosen.0),
            chosen.0@.len() > 0,
            answers(
                old(rng).drawn(),
                final(rng).drawn(),
                choosing_requests(self@.len() as int),
            ),
            self@.len() > 1 ==> chosen.1 == final(rng).drawn().last().value,
    {
        proof {
            use_type_invariant(self);
        }
        let char_type = get_char_type(rng, self.characters.len());
        (self.characters[char_type], char_type as i8)
    }

    /// Places one character of `alphabet`, the alphabet of class
    /// `char_type`, at the end of `password`, and records the class in
    /// `previous`. With the guard of `config` on, a class that already fills
    /// two of the last three positions has its character drawn a second
    /// time; with the guard off the first draw always stands.
    pub fn add_value<R: RandomSource>(
        &self,
        config: &Config,
        rng: &mut R,
        password: &mut String,
        alphabet: &'static str,
        char_type: i8,
        previous: &mut PreviousCharacters,
    )
        requires
            is_ascii(alphabet),
            alphabet@.len() > 0,
        ensures
            answers(
                old(rng).drawn(),
                final(rng).drawn(),
                placing_requests(
                    config.check_rep,
                    alphabet@.len() as usize,
                    char_type,
                    old(previous)@,
                ),
            ),
            final(password)@ == old(password)@.push(
                alphabet@[final(rng).drawn().last().value as int],
            ),
            final(previous)@ == shifted(old(previous)@, char_type),
    {
        if config.check_rep {
            add_value(rng, password, alphabet, alphabet.unicode_len(), char_type, previous);
        } else {
            let new_char = self.get_char(rng, alphabet);
            push_char(password, new_char);
            previous.adjust(char_type);
        }
    }
}

/// Appends `c` to `text` with `String::push`, which adds the character at
/// the end and leaves the rest as it was.
#[verifier::external_body]
fn push_char(text: &mut String, c: char)
    ensures
        final(text)@ == old(text)@.push(c),
{
    text.push(c)
}

} // verus!
