//! What a run of the generator is, as a function of the draws it is given.
//!
//! A run fills the positions of a password one after the other. Each
//! position takes the next draws of the source: one that chooses the class,
//! where there is more than one class, one that chooses the character, and a
//! second one for the character where the guard objects to the class.

use crate::characters::{choosing_requests, needs_reroll, placing_requests, shifted, UNSET};
use crate::random::{answers, fresh, lemma_answers_chain, Draw};
use vstd::prelude::*;

verus! {

/// One filled position of a password.
pub ghost struct Placement {
    /// The class that was chosen.
    pub class: i8,
    /// Whether the guard had the character drawn a second time.
    pub rerolled: bool,
    /// The character that was placed.
    pub symbol: char,
    /// How many draws the run had taken once this position was filled.
    pub end: nat,
}

/// The number of draws that the positions `done` have taken.
pub open spec fn consumed(done: Seq<Placement>) -> nat {
    if done.len() == 0 {
        0
    } else {
        done.last().end
    }
}

/// The class of the position `back` places before the end of `done`, or
/// `UNSET` where `done` is shorter than that.
pub open spec fn class_back(done: Seq<Placement>, back: int) -> i8 {
    if done.len() >= back {
        done[done.len() - back].class
    } else {
        UNSET
    }
}

/// The classes of the last three positions of `done`, newest first.
pub open spec fn recent(done: Seq<Placement>) -> (i8, i8, i8) {
    (class_back(done, 1), class_back(done, 2), class_back(done, 3))
}

/// The position that follows `done` when the source answers with `draws`.
pub open spec fn next_placement(
    alphabets: Seq<Seq<char>>,
    guard: bool,
    done: Seq<Placement>,
    draws: Seq<Draw>,
) -> Placement {
    let start = consumed(done) as int;
    let several = alphabets.len() > 1;
    let class = if several {
        draws[start].value as i8
    } else {
        0i8
    };
    let first = if several {
        start + 1
    } else {
        start
    };
    let rerolled = guard && needs_reroll(class, recent(done));
    let last = if rerolled {
        first + 1
    } else {
        first
    };
    Placement {
        class,
        rerolled,
        symbol: alphabets[class as int][draws[last].value as int],
        end: (last + 1) as nat,
    }
}

/// The first `count` positions of the run over `alphabets` that the source
/// answers with `draws`.
pub open spec fn placements(
    alphabets: Seq<Seq<char>>,
    guard: bool,
    draws: Seq<Draw>,
    count: nat,
) -> Seq<Placement>
    decreases count,
{
    if count == 0 {
        Seq::empty()
    } else {
        let done = placements(alphabets, guard, draws, (count - 1) as nat);
        done.push(next_placement(alphabets, guard, done, draws))
    }
}

/// The characters of `run`, in order.
pub open spec fn password_of(run: Seq<Placement>) -> Seq<char> {
    run.map_values(|placement: Placement| placement.symbol)
}

/// The bounds of the draws that one position asks for, in order.
pub open spec fn requests_at(alphabets: Seq<Seq<char>>, placement: Placement) -> Seq<usize> {
    let size = alphabets[placement.class as int].len() as usize;
    choosing_requests(alphabets.len() as int) + (if placement.rerolled {
        seq![size, size]
    } else {
        seq![size]
    })
}

/// The bounds of the draws that `run` asks for, in order.
pub open spec fn requests(alphabets: Seq<Seq<char>>, run: Seq<Placement>) -> Seq<usize>
    decreases run.len(),
{
    if run.len() == 0 {
        Seq::empty()
    } else {
        requests(alphabets, run.drop_last()) + requests_at(alphabets, run.last())
    }
}

/// A run of `count` positions has `count` positions.
pub proof fn lemma_placements_len(
    alphabets: Seq<Seq<char>>,
    guard: bool,
    draws: Seq<Draw>,
    count: nat,
)
    ensures
        placements(alphabets, guard, draws, count).len() == count,
    decreases count,
{
    if count > 0 {
        lemma_placements_len(alphabets, guard, draws, (count - 1) as nat);
    }
}

/// A longer run begins with the shorter one, and each of its positions is
/// the one that follows those before it.
pub proof fn lemma_placements_extend(
    alphabets: Seq<Seq<char>>,
    guard: bool,
    draws: Seq<Draw>,
    count: nat,
    i: nat,
)
    requires
        i <= count,
    ensures
        placements(alphabets, guard, draws, count).len() == count,
        placements(alphabets, guard, draws, count).take(i as int) == placements(
            alphabets,
            guard,
            draws,
            i,
        ),
        i < count ==> placements(alphabets, guard, draws, count)[i as int] == next_placement(
            alphabets,
            guard,
            placements(alphabets, guard, draws, i),
            draws,
        ),
    decreases count,
{
    lemma_placements_len(alphabets, guard, draws, count);
    lemma_placements_len(alphabets, guard, draws, i);
    if i < count {
        lemma_placements_extend(alphabets, guard, draws, (count - 1) as nat, i);
    }
}

/// The draws taken never decrease from one position to the next.
pub proof fn lemma_consumed_grows(
    alphabets: Seq<Seq<char>>,
    guard: bool,
    draws: Seq<Draw>,
    count: nat,
)
    requires
        count > 0,
    ensures
        consumed(placements(alphabets, guard, draws, (count - 1) as nat)) < consumed(
            placements(alphabets, guard, draws, count),
        ),
{
}

/// A run is settled by the values of the draws it takes: two lists of draws
/// that agree in the values of those give the same run, whatever follows
/// them.
pub proof fn lemma_same_values_same_run(
    alphabets: Seq<Seq<char>>,
    guard: bool,
    first: Seq<Draw>,
    second: Seq<Draw>,
    count: nat,
)
    requires
        consumed(placements(alphabets, guard, first, count)) <= first.len(),
        consumed(placements(alphabets, guard, first, count)) <= second.len(),
        forall|k: int|
            0 <= k < consumed(placements(alphabets, guard, first, count)) ==> first[k].value
                == second[k].value,
    ensures
        placements(alphabets, guard, second, count) == placements(alphabets, guard, first, count),
    decreases count,
{
    if count > 0 {
        lemma_consumed_grows(alphabets, guard, first, count);
        lemma_same_values_same_run(alphabets, guard, first, second, (count - 1) as nat);
    }
}

/// A run asks for as many draws as it takes.
pub proof fn lemma_requests_len(
    alphabets: Seq<Seq<char>>,
    guard: bool,
    draws: Seq<Draw>,
    count: nat,
)
    ensures
        requests(alphabets, placements(alphabets, guard, draws, count)).len() == consumed(
            placements(alphabets, guard, draws, count),
        ),
    decreases count,
{
    if count > 0 {
        let done = placements(alphabets, guard, draws, (count - 1) as nat);
        let run = placements(alphabets, guard, draws, count);
        lemma_requests_len(alphabets, guard, draws, (count - 1) as nat);
        assert(run.drop_last() =~= done);
    }
}

/// A character is drawn a second time exactly where the guard is on and the
/// class of the position already fills two of the three positions before it.
pub proof fn lemma_rerolled_exactly_when_repeated(
    alphabets: Seq<Seq<char>>,
    guard: bool,
    draws: Seq<Draw>,
    count: nat,
    i: int,
)
    requires
        0 <= i < count,
    ensures
        ({
            let run = placements(alphabets, guard, draws, count);
            run[i].rerolled == (guard && needs_reroll(run[i].class, recent(run.take(i))))
        }),
{
    lemma_placements_extend(alphabets, guard, draws, count, i as nat);
}

/// Under the guard no class fills four positions in a row without a second
/// draw: where a position has the class of all three positions before it,
/// its character was drawn twice, and the run took both draws.
pub proof fn lemma_guard_rerolls_fourth_in_a_row(
    alphabets: Seq<Seq<char>>,
    draws: Seq<Draw>,
    count: nat,
    i: int,
)
    requires
        3 <= i < count,
        ({
            let run = placements(alphabets, true, draws, count);
            &&& run[i - 1].class == run[i].class
            &&& run[i - 2].class == run[i].class
            &&& run[i - 3].class == run[i].class
        }),
    ensures
        ({
            let run = placements(alphabets, true, draws, count);
            let choosing: int = if alphabets.len() > 1 {
                1
            } else {
                0
            };
            &&& run[i].rerolled
            &&& run[i].end == run[i - 1].end + choosing + 2
            &&& requests_at(alphabets, run[i]).len() == choosing + 2
        }),
{
    lemma_placements_extend(alphabets, true, draws, count, i as nat);
}

/// Without the guard no character is drawn a second time: every position
/// takes the draw that chooses its class, where there are several classes,
/// and one draw for its character.
pub proof fn lemma_unguarded_run_never_rerolls(
    alphabets: Seq<Seq<char>>,
    draws: Seq<Draw>,
    count: nat,
    i: int,
)
    requires
        0 <= i < count,
    ensures
        ({
            let run = placements(alphabets, false, draws, count);
            let choosing: int = if alphabets.len() > 1 {
                1
            } else {
                0
            };
            &&& !run[i].rerolled
            &&& run[i].end == consumed(run.take(i)) + choosing + 1
        }),
{
    lemma_placements_extend(alphabets, false, draws, count, i as nat);
}

/// What one more position adds to a run.
proof fn lemma_push_position(alphabets: Seq<Seq<char>>, done: Seq<Placement>, next: Placement)
    ensures
        consumed(done.push(next)) == next.end,
        recent(done.push(next)) == shifted(recent(done), next.class),
        password_of(done.push(next)) == password_of(done).push(next.symbol),
        requests(alphabets, done.push(next)) == requests(alphabets, done) + requests_at(
            alphabets,
            next,
        ),
{
    assert(done.push(next).drop_last() =~= done);
}

/// The draws of one position follow those of the positions before it.
///
/// `start` is the log before the run, `before` the log when the position
/// begins, `chosen` the log once its class is chosen, and `after` the log
/// once its character is placed.
proof fn lemma_position_draws(
    start: Seq<Draw>,
    before: Seq<Draw>,
    chosen: Seq<Draw>,
    after: Seq<Draw>,
    earlier: Seq<usize>,
    choosing: Seq<usize>,
    placing: Seq<usize>,
)
    requires
        answers(start, before, earlier),
        answers(before, chosen, choosing),
        answers(chosen, after, placing),
        placing.len() > 0,
    ensures
        answers(start, after, earlier + (choosing + placing)),
        fresh(start, after).len() == fresh(start, before).len() + choosing.len() + placing.len(),
        forall|k: int|
            0 <= k < fresh(start, before).len() ==> fresh(start, before)[k] == fresh(
                start,
                after,
            )[k],
        choosing.len() == 1 ==> fresh(start, after)[fresh(start, before).len() as int]
            == chosen.last(),
        after.len() > 0,
        fresh(start, after)[fresh(start, after).len() - 1] == after.last(),
        after.last().value < placing.last(),
{
    lemma_answers_chain(before, chosen, after, choosing, placing);
    lemma_answers_chain(start, before, after, earlier, choosing + placing);
}

/// One more position, as the generator fills it, is the next position of the
/// run.
///
/// `start` is the log before the run, `before` the log when `count`
/// positions are filled, `chosen` the log once the class of the next
/// position is chosen, and `after` the log once its character is placed.
pub proof fn lemma_next_position(
    alphabets: Seq<Seq<char>>,
    guard: bool,
    start: Seq<Draw>,
    before: Seq<Draw>,
    chosen: Seq<Draw>,
    after: Seq<Draw>,
    count: nat,
    class: i8,
    size: usize,
)
    requires
        1 <= alphabets.len() <= i8::MAX,
        0 <= class < alphabets.len(),
        size == alphabets[class as int].len(),
        answers(
            start,
            before,
            requests(alphabets, placements(alphabets, guard, fresh(start, before), count)),
        ),
        fresh(start, before).len() == consumed(
            placements(alphabets, guard, fresh(start, before), count),
        ),
        answers(before, chosen, choosing_requests(alphabets.len() as int)),
        alphabets.len() > 1 ==> class == chosen.last().value,
        answers(
            chosen,
            after,
            placing_requests(
                guard,
                size,
                class,
                recent(placements(alphabets, guard, fresh(start, before), count)),
            ),
        ),
    ensures
        ({
            let done = placements(alphabets, guard, fresh(start, before), count);
            let run = placements(alphabets, guard, fresh(start, after), count + 1);
            let symbol = alphabets[class as int][after.last().value as int];
            &&& after.len() > 0
            &&& after.last().value < size
            &&& run == done.push(
                Placement {
                    class,
                    rerolled: guard && needs_reroll(class, recent(done)),
                    symbol,
                    end: fresh(start, after).len(),
                },
            )
            &&& password_of(run) == password_of(done).push(symbol)
            &&& recent(run) == shifted(recent(done), class)
            &&& consumed(run) == fresh(start, after).len()
            &&& answers(start, after, requests(alphabets, run))
        }),
{
    let done = placements(alphabets, guard, fresh(start, before), count);
    let old_draws = fresh(start, before);
    let new_draws = fresh(start, after);

    // The log grew by the draws of this position and kept the earlier ones,
    lemma_position_draws(
        start,
        before,
        chosen,
        after,
        requests(alphabets, done),
        choosing_requests(alphabets.len() as int),
        placing_requests(guard, size, class, recent(done)),
    );
    // so the positions filled before are what they were,
    assert(placements(alphabets, guard, new_draws, count) == done) by {
        lemma_same_values_same_run(alphabets, guard, old_draws, new_draws, count);
    }
    // and the next position reads the draws that were just made.
    lemma_push_position(alphabets, done, next_placement(alphabets, guard, done, new_draws));
}

} // verus!
