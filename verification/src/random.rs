//! Sources of bounded random integers.
//!
//! The generator asks a [`RandomSource`] for an index below a bound whenever
//! it has a choice to make. Every source has a log of the draws it has handed
//! out, so that the contracts of the generator can say which password follows
//! from which draws. [`ThreadRandom`] keeps its log as ghost state only;
//! [`ScriptedSource`] keeps it in memory, where it can be read back.

use rand::Rng;
use vstd::prelude::*;

verus! {

/// One answer of a random source: an index `value` below `bound`.
#[derive(Clone, Copy, Debug, PartialEq, Eq, Structural)]
pub struct Draw {
    /// What the value was asked to stay below.
    pub bound: usize,
    /// The index that was handed out.
    pub value: usize,
}

/// The draws of `after` that are not yet in `before`.
pub open spec fn fresh(before: Seq<Draw>, after: Seq<Draw>) -> Seq<Draw> {
    after.skip(before.len() as int)
}

/// `after` is `before` followed by one draw for each entry of `bounds`, made
/// in that order, each with that entry as its bound and a value below it.
pub open spec fn answers(before: Seq<Draw>, after: Seq<Draw>, bounds: Seq<usize>) -> bool {
    &&& after.len() == before.len() + bounds.len()
    &&& after.take(before.len() as int) == before
    &&& forall|k: int|
        0 <= k < bounds.len() ==> (#[trigger] fresh(before, after)[k]).bound == bounds[k]
            && fresh(before, after)[k].value < bounds[k]
}

/// A log answers no request by staying as it is.
pub proof fn lemma_answers_nothing(log: Seq<Draw>)
    ensures
        answers(log, log, Seq::<usize>::empty()),
{
    assert(log.take(log.len() as int) =~= log);
}

/// One recorded draw below its bound answers a single request for that bound.
pub proof fn lemma_answers_one(before: Seq<Draw>, draw: Draw)
    requires
        draw.value < draw.bound,
    ensures
        answers(before, before.push(draw), seq![draw.bound]),
{
    assert(before.push(draw).take(before.len() as int) =~= before);
}

/// Requests answered one after the other are answered as one list.
pub proof fn lemma_answers_chain(
    start: Seq<Draw>,
    middle: Seq<Draw>,
    end: Seq<Draw>,
    first: Seq<usize>,
    second: Seq<usize>,
)
    requires
        answers(start, middle, first),
        answers(middle, end, second),
    ensures
        answers(start, end, first + second),
{
    assert(end.take(start.len() as int) =~= start);
    assert forall|k: int| 0 <= k < (first + second).len() implies (#[trigger] fresh(
        start,
        end,
    )[k]).bound == (first + second)[k] && fresh(start, end)[k].value < (first + second)[k] by {
        if k < first.len() {
            assert(fresh(start, middle)[k] == middle[start.len() + k]);
        } else {
            assert(fresh(middle, end)[k - first.len()] == end[start.len() + k]);
        }
    }
}

/// A supplier of integers in `[0, bound)`.
pub trait RandomSource {
    /// Every draw handed out so far, oldest first.
    spec fn drawn(&self) -> Seq<Draw>;

    /// Hands out one index below `bound` and records it.
    fn below(&mut self, bound: usize) -> (value: usize)
        requires
            bound > 0,
        ensures
            value < bound,
            final(self).drawn() == old(self).drawn().push((Draw { bound, value })),
    ;
}

/// Asks the generator that `rand::thread_rng` returns, through
/// `Rng::gen_range`, for a value of the half-open range `0..bound`. The range
/// must not be empty, or `gen_range` panics. The contract claims only that
/// the value lies in the range; which value it is depends on the generator's
/// state. `thread_rng` seeds the generator from the operating system when a
/// thread first uses it and panics if that fails, which no argument decides.
#[verifier::external_body]
fn thread_rng_below(bound: usize) -> (value: usize)
    requires
        bound > 0,
    ensures
        value < bound,
{
    rand::thread_rng().gen_range(0..bound)
}

/// The everyday source: the thread-local generator of `rand`.
pub struct ThreadRandom {
    log: Ghost<Seq<Draw>>,
}

impl ThreadRandom {
    /// A source that has handed out nothing yet.
    pub fn new() -> (source: Self)
        ensures
            source.drawn() == Seq::<Draw>::empty(),
    {
        ThreadRandom { log: Ghost(Seq::empty()) }
    }
}

impl RandomSource for ThreadRandom {
    closed spec fn drawn(&self) -> Seq<Draw> {
        self.log@
    }

    fn below(&mut self, bound: usize) -> (value: usize) {
        let value = thread_rng_below(bound);
        proof {
            self.log@ = self.log@.push(Draw { bound, value });
        }
        value
    }
}

/// The answer of a scripted source to its request number `asked`, counted
/// from zero, for a value below `bound`: the number at that place of the
/// script, reduced modulo the bound, or `0` past the end of the script.
pub open spec fn scripted_answer(script: Seq<usize>, asked: int, bound: usize) -> int {
    if 0 <= asked < script.len() {
        (script[asked] as int) % (bound as int)
    } else {
        0
    }
}

/// A source that replays a fixed script, for runs that must be repeatable.
pub struct ScriptedSource {
    script: Vec<usize>,
    served: Vec<Draw>,
}

impl ScriptedSource {
    /// The script that this source replays.
    pub closed spec fn script(&self) -> Seq<usize> {
        self.script@
    }

    /// A source that will replay `script` from its first number.
    pub fn new(script: Vec<usize>) -> (source: Self)
        ensures
            source.script() == script@,
            source.drawn() == Seq::<Draw>::empty(),
    {
        ScriptedSource { script, served: Vec::new() }
    }

    /// The draws handed out so far, oldest first.
    pub fn served(&self) -> (log: &Vec<Draw>)
        ensures
            log@ == self.drawn(),
    {
        &self.served
    }
}

impl RandomSource for ScriptedSource {
    closed spec fn drawn(&self) -> Seq<Draw> {
        self.served@
    }

    fn below(&mut self, bound: usize) -> (value: usize)
        ensures
            final(self).script() == old(self).script(),
            value == scripted_answer(old(self).script(), old(self).drawn().len() as int, bound),
    {
        let asked = self.served.len();
        let value = if asked < self.script.len() {
            self.script[asked] % bound
        } else {
            0
        };
        self.served.push(Draw { bound, value });
        value
    }
}

} // verus!
