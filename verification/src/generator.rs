//! The generation of one password.

use crate::characters::PreviousCharacters;
use crate::config::Config;
use crate::model::{
    consumed, lemma_next_position, lemma_requests_len, lemma_same_values_same_run, password_of,
    placements, recent, requests, Placement,
};
use crate::random::{answers, fresh, lemma_answers_nothing, Draw, RandomSource, ThreadRandom};
use crate::symbols::{allowed, enabled_alphabets, lemma_enabled_alphabets, Symbols};
use vstd::prelude::*;

verus! {

/// Why no password was made.
#[derive(Clone, Copy, Debug, PartialEq, Eq, Structural)]
pub enum GenerateError {
    /// The length asked for is negative.
    InvalidLength,
}

/// Shown when a password of negative length is asked for.
pub const INVALID_PASSWORD_LENGTH: &'static str = "ERROR: The password length cannot be negative.";

impl GenerateError {
    /// The text shown for this error.
    pub fn message(&self) -> (message: &'static str)
        ensures
            message@ == INVALID_PASSWORD_LENGTH@,
    {
        match self {
            GenerateError::InvalidLength => INVALID_PASSWORD_LENGTH,
        }
    }
}

/// The run that `config` asks for when the source answers with `draws`.
pub open spec fn run_of(config: Config, draws: Seq<Draw>) -> Seq<Placement> {
    placements(enabled_alphabets(config), config.check_rep, draws, config.len as nat)
}

/// Whether `password` is what `config` makes of the draws that took a source
/// from the log `before` to the log `after`: the source was asked for exactly
/// the draws of the run, and the password holds the characters of the run.
pub open spec fn produced(
    config: Config,
    before: Seq<Draw>,
    after: Seq<Draw>,
    password: Seq<char>,
) -> bool {
    let run = run_of(config, fresh(before, after));
    &&& password == password_of(run)
    &&& answers(before, after, requests(enabled_alphabets(config), run))
}

/// A password is settled by the configuration and the values drawn: two
/// runs for one configuration whose draws agree in value, as far as both go,
/// make the same password.
pub proof fn lemma_same_draws_same_password(
    config: Config,
    first_before: Seq<Draw>,
    first_after: Seq<Draw>,
    first_password: Seq<char>,
    second_before: Seq<Draw>,
    second_after: Seq<Draw>,
    second_password: Seq<char>,
)
    requires
        produced(config, first_before, first_after, first_password),
        produced(config, second_before, second_after, second_password),
        forall|k: int|
            0 <= k < fresh(first_before, first_after).len() && k < fresh(
                second_before,
                second_after,
            ).len() ==> fresh(first_before, first_after)[k].value == fresh(
                second_before,
                second_after,
            )[k].value,
    ensures
        first_password == second_password,
{
    let alphabets = enabled_alphabets(config);
    let first = fresh(first_before, first_after);
    let second = fresh(second_before, second_after);
    lemma_requests_len(alphabets, config.check_rep, first, config.len as nat);
    lemma_requests_len(alphabets, config.check_rep, second, config.len as nat);
    if first.len() <= second.len() {
        lemma_same_values_same_run(alphabets, config.check_rep, first, second, config.len as nat);
    } else {
        lemma_same_values_same_run(alphabets, config.check_rep, second, first, config.len as nat);
    }
}

/// Makes a password of `config.len` characters with the draws of `rng`.
///
/// A negative length is refused before anything is drawn. Otherwise each
/// position takes its draws in turn, and the password is the one that the
/// configuration and those draws determine.
pub fn generate<R: RandomSource>(config: &Config, rng: &mut R) -> (made: Result<
    String,
    GenerateError,
>)
    ensures
        config.len < 0 ==> made == Err::<String, GenerateError>(GenerateError::InvalidLength)
            && final(rng).drawn() == old(rng).drawn(),
        config.len >= 0 ==> made is Ok,
        made matches Ok(password) ==> {
            &&& produced(*config, old(rng).drawn(), final(rng).drawn(), password@)
            &&& password@.len() == config.len
            &&& forall|i: int|
                0 <= i < password@.len() ==> allowed(
                    enabled_alphabets(*config),
                    #[trigger] password@[i],
                )
        },
{
    if config.len < 0 {
        return Err(GenerateError::InvalidLength);
    }
    let ghost start = rng.drawn();
    let ghost alphabets = enabled_alphabets(*config);
    let mut password = String::new();
    let mut previous_characters = PreviousCharacters::new();
    let symbols = Symbols::new(config);
    proof {
        lemma_enabled_alphabets(*config);
        lemma_answers_nothing(start);
    }

    let mut i: i32 = 0;
    while i < config.len
        invariant
            0 <= i <= config.len,
            alphabets == enabled_alphabets(*config),
            symbols@ == alphabets,
            1 <= alphabets.len() <= 5,
            forall|k: int| 0 <= k < alphabets.len() ==> 10 <= (#[trigger] alphabets[k]).len() <= 26,
            password@ == password_of(
                placements(alphabets, config.check_rep, fresh(start, rng.drawn()), i as nat),
            ),
            previous_characters@ == recent(
                placements(alphabets, config.check_rep, fresh(start, rng.drawn()), i as nat),
            ),
            fresh(start, rng.drawn()).len() == consumed(
                placements(alphabets, config.check_rep, fresh(start, rng.drawn()), i as nat),
            ),
            answers(
                start,
                rng.drawn(),
                requests(
                    alphabets,
                    placements(alphabets, config.check_rep, fresh(start, rng.drawn()), i as nat),
                ),
            ),
            password@.len() == i,
            forall|j: int| 0 <= j < password@.len() ==> allowed(alphabets, #[trigger] password@[j]),
        decreases config.len - i,
    {
        let ghost before = rng.drawn();
        let (alphabet, char_type) = symbols.get_char_type(rng);
        let ghost chosen = rng.drawn();
        symbols.add_value(
            config,
            rng,
            &mut password,
            alphabet,
            char_type,
            &mut previous_characters,
        );
        proof {
            lemma_next_position(
                alphabets,
                config.check_rep,
                start,
                before,
                chosen,
                rng.drawn(),
                i as nat,
                char_type,
                alphabet@.len() as usize,
            );
        }
        i += 1;
    }
    Ok(password)
}

/// Makes a password of `config.len` characters with the thread-local
/// generator of `rand`.
///
/// Which password comes out depends on that generator. Whatever it draws,
/// the password is the one that the configuration makes of some list of
/// draws, each below the bound that the run asked for.
pub fn run(config: Config) -> (made: Result<String, GenerateError>)
    ensures
        config.len < 0 ==> made == Err::<String, GenerateError>(GenerateError::InvalidLength),
        config.len >= 0 ==> made is Ok,
        made matches Ok(password) ==> {
            &&& exists|draws: Seq<Draw>|
                produced(config, Seq::<Draw>::empty(), draws, password@)
            &&& password@.len() == config.len
            &&& forall|i: int|
                0 <= i < password@.len() ==> allowed(
                    enabled_alphabets(config),
                    #[trigger] password@[i],
                )
        },
{
    let mut rng = ThreadRandom::new();
    let made = generate(&config, &mut rng);
    proof {
        if made is Ok {
        }
    }
    made
}

} // verus!
