//! Choosing the hidden answer.

use crate::lexicon::WordList;
use crate::word::Word;
use vstd::prelude::*;

verus! {

/// A number below `bound`, drawn by `rand::Rng::gen_range` on the range from
/// zero up to, and without, `bound`, from the generator that
/// `rand::thread_rng` hands out. The crate samples that range uniformly, and
/// stops the program on an empty range, which `requires` leaves out. Of the
/// number drawn nothing is claimed but that it lies in the range, and that
/// much is taken on trust.
#[verifier::external_body]
fn random_below(bound: usize) -> (index: usize)
    requires
        bound > 0,
    ensures
        index < bound,
{
    rand::Rng::gen_range(&mut rand::thread_rng(), 0..bound)
}

/// Picks the answer of a game at random among `answers`: every word of the
/// list can be picked, the last one too. An empty list gives no answer.
pub fn get_answer(answers: &WordList) -> (answer: Option<Word>)
    ensures
        answer is Some <==> answers@.len() > 0,
        answer matches Some(word) ==> answers@.contains(word@),
{
    if answers.len() == 0 {
        return None;
    }
    let index = random_below(answers.len());
    Some(answers.get(index))
}

} // verus!
