//! A parser and evaluator for dice notation expressions such as `2d6 + 3`.
//!
//! A string is tokenized, parsed by binding power into an expression tree,
//! and evaluated against a source of randomness; the result carries the
//! numeric value and a record of every die rolled.

pub mod error;
pub mod evaluation;
pub mod operator;
pub mod parsing;
pub mod rational;
pub mod statistics;
pub mod tokenization;

use rand::Rng;
use rand::SeedableRng;
use vstd::prelude::*;

verus! {

/// What every public evaluation function promises about parsing and the
/// result: the ghost parser reaches a verdict on the input; when it parses,
/// evaluation succeeds and is accounted for by a trace of dice outcomes —
/// one group per dice operator, each shaped by its operator's operand
/// values, the value the tree's arithmetic over those outcomes, and the
/// reported groups the collector's record of them — while a dice-free
/// expression yields its exact arithmetic value with no groups; when the
/// input does not parse, exactly the ghost parser's error comes back.
pub open spec fn spec_eval_contract(
    input: Seq<char>,
    r: Result<evaluation::DiceEvaluation, error::EvaluationError>,
) -> bool {
    let outcome = parsing::spec_parse(
        input,
        0,
        0,
        parsing::ParseContext { expecting_comparison: false, expecting_close_paren: false },
        (input.len() + 1) as nat,
    );
    &&& outcome is Done
    &&& match outcome {
        parsing::ParseStep::Done { result, next } => match result {
            Ok(g) => r matches Ok(ev) && ev.roll_groups@.len() <= evaluation::spec_dice_count(g)
                && (evaluation::spec_dice_count(g) >= 1 ==> ev.roll_groups@.len() >= 1) && (
            exists|trace: Seq<evaluation::RollGroup>, ids: Seq<evaluation::RollId>|
                #[trigger] evaluation::spec_evaluation_reported(g, ev, trace, ids)) && (
            evaluation::no_dice(g) ==> ev.value@ == evaluation::spec_eval_pure(g)
                && ev.roll_groups@.len() == 0),
            Err(e) => r == Result::<evaluation::DiceEvaluation, error::EvaluationError>::Err(
                error::EvaluationError::Parsing(e),
            ),
        },
        parsing::ParseStep::Spin => false,
    }
}

/// Evaluates a dice-notation string with the system's random number
/// generator.  On success, every roll of every reported group lies within
/// `[1, faces]` of its group, and a dice-free expression evaluates to its
/// exact arithmetic value with no groups at all.
pub fn evaluate(input: &str) -> (r: Result<
    evaluation::DiceEvaluation,
    error::EvaluationError,
>)
    ensures
        r matches Ok(ev) ==> forall|i: int|
            0 <= i < ev.roll_groups@.len() ==> evaluation::roll_types::spec_group_wf(
                #[trigger] ev.roll_groups@[i],
            ),
        spec_eval_contract(input@, r),
{
    let mut rng = ThreadRandom::new();
    eval_with_rand(input, &mut rng)
}

/// Evaluates a dice-notation string with a generator seeded from the given
/// `u64`, so the same seed and input reproduce the same rolls.
pub fn eval_with_seed(input: &str, seed: u64) -> (r: Result<
    evaluation::DiceEvaluation,
    error::EvaluationError,
>)
    ensures
        r matches Ok(ev) ==> forall|i: int|
            0 <= i < ev.roll_groups@.len() ==> evaluation::roll_types::spec_group_wf(
                #[trigger] ev.roll_groups@[i],
            ),
        spec_eval_contract(input@, r),
{
    let mut seeded_random = SeededRandom::new(seed);
    eval_with_rand(input, &mut seeded_random)
}

/// Evaluates a dice-notation string against the given randomness source:
/// the string is tokenized, parsed by binding power, and the tree evaluated,
/// drawing each die from the source in order.  An empty input is rejected;
/// on success, every roll of every reported group lies within `[1, faces]`
/// of its group, and a dice-free expression evaluates to its exact
/// arithmetic value with no groups at all.
pub fn eval_with_rand<R: RangeRng>(input: &str, rand: &mut R) -> (r: Result<
    evaluation::DiceEvaluation,
    error::EvaluationError,
>)
    ensures
        r matches Ok(ev) ==> forall|i: int|
            0 <= i < ev.roll_groups@.len() ==> evaluation::roll_types::spec_group_wf(
                #[trigger] ev.roll_groups@[i],
            ),
        spec_eval_contract(input@, r),
{
    let mut stream = tokenization::TokenStream::new(input);
    let tree = match parsing::parse_tree_from(&mut stream) {
        Ok(tree) => tree,
        Err(e) => {
            return Err(error::EvaluationError::Parsing(e));
        },
    };
    evaluation::evaluate_tree(tree, rand)
}

/// The one randomness capability the evaluator needs: a uniformly drawn
/// integer within a half-open range.  Implementers promise only that the
/// result lies within the (nonempty) range; tests back this with scripted
/// sequences to make evaluations replayable.
pub trait RangeRng {
    /// A number drawn from `[range.start, range.end)`.
    fn rng_range(&mut self, range: core::ops::Range<u32>) -> (r: u32)
        requires
            range.start < range.end,
        ensures
            range.start <= r < range.end,
    ;
}

#[verifier::external_type_specification]
#[verifier::external_body]
pub struct ExThreadRng(rand::rngs::ThreadRng);

#[verifier::external_type_specification]
#[verifier::external_body]
pub struct ExStdRng(rand::rngs::StdRng);

/// The system's thread-local random number generator, behind [`RangeRng`].
pub struct ThreadRandom {
    rng: rand::rngs::ThreadRng,
}

impl ThreadRandom {
    /// Relies on `rand::thread_rng` for the thread-local generator; nothing
    /// is promised of the values it will yield beyond their range.
    #[verifier::external_body]
    pub fn new() -> ThreadRandom {
        ThreadRandom { rng: rand::thread_rng() }
    }

    /// Relies on `rand::Rng::gen_range`: for a nonempty range it returns a
    /// value within the range and does not panic.
    #[verifier::external_body]
    fn draw(&mut self, range: core::ops::Range<u32>) -> (r: u32)
        requires
            range.start < range.end,
        ensures
            range.start <= r < range.end,
    {
        self.rng.gen_range(range)
    }
}

impl RangeRng for ThreadRandom {
    fn rng_range(&mut self, range: core::ops::Range<u32>) -> (r: u32) {
        self.draw(range)
    }
}

/// The value a generator seeded from the given seed yields for a request
/// of the range `[low, high)`, after having served the given earlier
/// requests: seeded draws are a function of the seed and the request
/// history, which is what makes a seeded evaluation reproducible.
pub uninterp spec fn spec_seeded_draw(seed: u64, history: Seq<(u32, u32)>, low: u32, high: u32) -> u32;

/// A random number generator deterministically seeded from a `u64`, behind
/// [`RangeRng`]; it carries the seed and the request history as ghosts so
/// its draws can be spoken of as values.
pub struct SeededRandom {
    rng: rand::rngs::StdRng,
    seed: Ghost<u64>,
    drawn: Ghost<Seq<(u32, u32)>>,
}

impl SeededRandom {
    /// The seed the generator was built from.
    pub closed spec fn spec_seed(self) -> u64 {
        self.seed@
    }

    /// The ranges requested of the generator so far, in order.
    pub closed spec fn spec_drawn(self) -> Seq<(u32, u32)> {
        self.drawn@
    }

    /// A generator whose draws are a function of the seed alone.
    pub fn new(seed: u64) -> (r: SeededRandom)
        ensures
            r.spec_seed() == seed,
            r.spec_drawn() == Seq::<(u32, u32)>::empty(),
    {
        SeededRandom { rng: new_std_rng(seed), seed: Ghost(seed), drawn: Ghost(Seq::empty()) }
    }

    /// Relies on `rand::Rng::gen_range` over `StdRng`: for a nonempty range
    /// it returns a value within the range and does not panic, and the
    /// generator's stream is a deterministic function of its seed and the
    /// requests already served, which `spec_seeded_draw` names.
    #[verifier::external_body]
    fn draw(&mut self, range: core::ops::Range<u32>) -> (r: u32)
        requires
            range.start < range.end,
        ensures
            range.start <= r < range.end,
            r == spec_seeded_draw(
                old(self).spec_seed(),
                old(self).spec_drawn(),
                range.start,
                range.end,
            ),
            final(self).spec_seed() == old(self).spec_seed(),
            final(self).spec_drawn() == old(self).spec_drawn().push((range.start, range.end)),
    {
        self.rng.gen_range(range)
    }
}

/// Relies on `rand::SeedableRng::seed_from_u64`: the generator it returns
/// is a pure expansion of the seed.
#[verifier::external_body]
fn new_std_rng(seed: u64) -> rand::rngs::StdRng {
    rand::rngs::StdRng::seed_from_u64(seed)
}

impl RangeRng for SeededRandom {
    fn rng_range(&mut self, range: core::ops::Range<u32>) -> (r: u32) {
        self.draw(range)
    }
}

} // verus!
