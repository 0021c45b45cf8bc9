//! The repetition guard and the draws behind a single position of a
//! password.
//!
//! The guard looks at classes only, never at the characters themselves: when
//! a class already fills two of the last three positions, the character is
//! drawn a second time from the same class, once, and whatever comes out of
//! that second draw is kept.

use crate::random::{
    answers, lemma_answers_chain, lemma_answers_nothing, lemma_answers_one, RandomSource,
};
use vstd::prelude::*;
use vstd::string::*;

verus! {

/// The class recorded for a position that has not been filled yet. No class
/// has this identifier.
pub const UNSET: i8 = -1;

/// How many of the three entries of `last` equal `new`.
pub open spec fn repeat_count(new: i8, last: (i8, i8, i8)) -> int {
    (if new == last.0 {
        1int
    } else {
        0int
    }) + (if new == last.1 {
        1int
    } else {
        0int
    }) + (if new == last.2 {
        1int
    } else {
        0int
    })
}

/// Whether a character of class `new` is drawn a second time after `last`.
pub open spec fn needs_reroll(new: i8, last: (i8, i8, i8)) -> bool {
    repeat_count(new, last) >= 2
}

/// The history `last` after one more class: the newest comes first and the
/// oldest of the three is dropped.
pub open spec fn shifted(last: (i8, i8, i8), newest: i8) -> (i8, i8, i8) {
    (newest, last.0, last.1)
}

/// The bounds of the draws that choose among `classes` classes: one draw
/// among several classes, none for a single class.
pub open spec fn choosing_requests(classes: int) -> Seq<usize> {
    if classes > 1 {
        seq![classes as usize]
    } else {
        Seq::empty()
    }
}

/// The bounds of the draws that place one guarded character: one for the
/// character and, where the guard objects, one more of the same kind.
pub open spec fn guarded_requests(len: usize, class: i8, last: (i8, i8, i8)) -> Seq<usize> {
    if needs_reroll(class, last) {
        seq![len, len]
    } else {
        seq![len]
    }
}

/// The bounds of the draws that place one character of an alphabet of `len`
/// characters: under the guard those of a guarded placement, else one.
pub open spec fn placing_requests(guard: bool, len: usize, class: i8, last: (i8, i8, i8)) -> Seq<
    usize,
> {
    if guard {
        guarded_requests(len, class, last)
    } else {
        seq![len]
    }
}

/// Unset entries count for no class: while fewer than two positions are
/// filled, no class calls for a second draw.
pub proof fn lemma_unset_entries_match_no_class(class: i8, newest: i8)
    requires
        class >= 0,
    ensures
        repeat_count(class, (UNSET, UNSET, UNSET)) == 0,
        !needs_reroll(class, (newest, UNSET, UNSET)),
{
}

/// The classes of the last three positions, newest first.
pub struct PreviousCharacters {
    characters: (i8, i8, i8),
}

impl View for PreviousCharacters {
    type V = (i8, i8, i8);

    closed spec fn view(&self) -> (i8, i8, i8) {
        self.characters
    }
}

impl PreviousCharacters {
    /// The history before the first position: three unset entries.
    pub fn new() -> (previous: Self)
        ensures
            previous@ == (UNSET, UNSET, UNSET),
    {
        PreviousCharacters { characters: (-1, -1, -1) }
    }

    /// The three recorded classes, newest first.
    pub fn get_characters(&self) -> (characters: (i8, i8, i8))
        ensures
            characters == self@,
    {
        self.characters
    }

    /// Records `last` as the newest class and forgets the oldest.
    pub fn adjust(&mut self, last: i8)
        ensures
            final(self)@ == shifted(old(self)@, last),
    {
        let (first, second, _) = self.characters;
        self.characters = (last, first, second);
    }

    /// Counts the entries of `last` that equal `new`.
    pub fn check_repetition(&self, last: (i8, i8, i8), new: i8) -> (repetitions: i8)
        ensures
            repetitions == repeat_count(new, last),
    {
        check_repetition(new, last)
    }

    /// Whether `new` already fills two of the three recorded positions.
    pub fn reroll(&self, new: i8) -> (again: bool)
        ensures
            again == needs_reroll(new, self@),
    {
        reroll(new, self.characters)
    }
}

/// Counts the entries of `last` that equal `new`.
pub fn check_repetition(new: i8, last: (i8, i8, i8)) -> (repetitions: i8)
    ensures
        repetitions == repeat_count(new, last),
{
    let mut repetitions: i8 = 0;
    if new == last.0 {
        repetitions += 1;
    }
    if new == last.1 {
        repetitions += 1;
    }
    if new == last.2 {
        repetitions += 1;
    }
    repetitions
}

/// Whether a character of class `new` has to be drawn a second time: `new`
/// fills at least two of the three positions in `last`.
pub fn reroll(new: i8, last: (i8, i8, i8)) -> (again: bool)
    ensures
        again == needs_reroll(new, last),
{
    let repetitions = check_repetition(new, last);
    if repetitions >= 2 {
        return true;
    }
    false
}

/// Chooses one of `classes` classes. A single class is chosen without
/// consulting the source; among several, the source decides, each class
/// being one value of the draw whatever the size of its alphabet.
pub fn get_char_type<R: RandomSource>(rng: &mut R, classes: usize) -> (class: usize)
    requires
        classes > 0,
    ensures
        class < classes,
        answers(old(rng).drawn(), final(rng).drawn(), choosing_requests(classes as int)),
        classes > 1 ==> class == final(rng).drawn().last().value,
{
    if classes > 1 {
        let class = rng.below(classes);
        proof {
            lemma_answers_one(old(rng).drawn(), rng.drawn().last());
        }
        return class;
    }
    proof {
        lemma_answers_nothing(rng.drawn());
    }
    0
}

/// Draws a position among the first `len` characters of `alphabet` and
/// returns the character there, as a slice of `alphabet`.
pub fn get_char<'a, R: RandomSource>(rng: &mut R, alphabet: &'a str, len: usize) -> (picked:
    &'a str)
    requires
        alphabet.is_ascii(),
        0 < len <= alphabet@.len(),
    ensures
        answers(old(rng).drawn(), final(rng).drawn(), seq![len]),
        picked@ == seq![alphabet@[final(rng).drawn().last().value as int]],
{
    let pos = rng.below(len);
    proof {
        lemma_answers_one(old(rng).drawn(), rng.drawn().last());
    }
    alphabet.substring_ascii(pos, pos + 1)
}

/// Places one character of `alphabet` at the end of `password`, under the
/// guard: the character is drawn once, and once more if `class` already fills
/// two of the last three positions. The second draw stays in the same
/// alphabet and is final. `class` is recorded in `previous` either way.
pub fn add_value<R: RandomSource>(
    rng: &mut R,
    password: &mut String,
    alphabet: &str,
    len: usize,
    class: i8,
    previous: &mut PreviousCharacters,
)
    requires
        alphabet.is_ascii(),
        0 < len <= alphabet@.len(),
    ensures
        answers(
            old(rng).drawn(),
            final(rng).drawn(),
            guarded_requests(len, class, old(previous)@),
        ),
        final(password)@ == old(password)@.push(
            alphabet@[final(rng).drawn().last().value as int],
        ),
        final(previous)@ == shifted(old(previous)@, class),
{
    let ghost start = rng.drawn();
    let mut new_char = get_char(rng, alphabet, len);
    let ghost middle = rng.drawn();
    if reroll(class, previous.get_characters()) {
        new_char = get_char(rng, alphabet, len);
        proof {
            lemma_answers_chain(start, middle, rng.drawn(), seq![len], seq![len]);
        }
    }
    password.append(new_char);
    previous.adjust(class);
}

} // verus!
