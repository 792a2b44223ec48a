//! What holds of the feedback for every guess and every answer.

use crate::counting::{count_where, lemma_count_agree, lemma_count_monotone, lemma_count_none};
use crate::feedback::{
    feedback_of, is_matched, is_unclaimed, lemma_answer_copies, lemma_guess_copies, matched_in,
    misplaced_before, occurrences, unclaimed, Color,
};
use vstd::prelude::*;

verus! {

/// Holds of the positions at which the guess holds `c` and the feedback
/// shows `color`.
pub open spec fn shows(guess: Seq<u8>, fb: Seq<Color>, c: u8, color: Color) -> spec_fn(int) -> bool {
    |k: int| guess[k] == c && fb[k] == color
}

/// Number of copies of `c` in the guess that the feedback shows in `color`.
pub open spec fn colored_copies(guess: Seq<u8>, fb: Seq<Color>, c: u8, color: Color) -> nat {
    count_where(guess.len() as int, shows(guess, fb, c, color))
}

/// The smaller of two numbers.
pub open spec fn smaller(x: int, y: int) -> int {
    if x <= y {
        x
    } else {
        y
    }
}

/// The feedback has one colour for each letter of the guess: five for a
/// five-letter guess.
pub proof fn lemma_feedback_length(guess: Seq<u8>, answer: Seq<u8>)
    ensures
        feedback_of(guess, answer).len() == guess.len(),
        guess.len() == 5 ==> feedback_of(guess, answer).len() == 5,
{
}

/// A position is Green exactly when guess and answer hold the same letter
/// there.
pub proof fn lemma_green_iff_match(guess: Seq<u8>, answer: Seq<u8>, i: int)
    requires
        0 <= i < guess.len(),
    ensures
        feedback_of(guess, answer)[i] == Color::Green <==> guess[i] == answer[i],
{
}

/// Among the first `m` positions, the Yellow copies of `c` are as many as the
/// misplaced copies of `c`, up to the number of copies that the answer has
/// unclaimed.
proof fn lemma_yellow_prefix(guess: Seq<u8>, answer: Seq<u8>, c: u8, m: int)
    requires
        0 <= m <= guess.len(),
    ensures
        count_where(m, shows(guess, feedback_of(guess, answer), c, Color::Yellow)) == smaller(
            misplaced_before(guess, answer, c, m) as int,
            unclaimed(guess, answer, c) as int,
        ),
    decreases m,
{
    if m > 0 {
        lemma_yellow_prefix(guess, answer, c, m - 1);
    }
}

/// Conservation, letter by letter: the Green and the Yellow copies of `c` in
/// the guess are together as many as the copies of `c` that guess and answer
/// have in common, which is the smaller of the two counts.
pub proof fn lemma_letter_conservation(guess: Seq<u8>, answer: Seq<u8>, c: u8)
    requires
        guess.len() == answer.len(),
    ensures
        colored_copies(guess, feedback_of(guess, answer), c, Color::Green) + colored_copies(
            guess,
            feedback_of(guess, answer),
            c,
            Color::Yellow,
        ) == smaller(occurrences(answer, c) as int, occurrences(guess, c) as int),
{
    let n = guess.len() as int;
    let fb = feedback_of(guess, answer);
    lemma_count_agree(n, shows(guess, fb, c, Color::Green), is_matched(guess, answer, c));
    lemma_yellow_prefix(guess, answer, c, n);
    lemma_guess_copies(guess, answer, c, n);
    lemma_answer_copies(guess, answer, c, n);
}

/// Left to right: a copy of `c` in the guess that is no exact match is Yellow
/// exactly when the answer holds enough copies of `c` for every exact match,
/// for every misplaced copy further left, and for this one.
pub proof fn lemma_left_bias(guess: Seq<u8>, answer: Seq<u8>, c: u8, i: int)
    requires
        guess.len() == answer.len(),
        0 <= i < guess.len(),
        guess[i] == c,
        answer[i] != c,
    ensures
        feedback_of(guess, answer)[i] != Color::Green,
        feedback_of(guess, answer)[i] == Color::Yellow <==> 1 + matched_in(
            guess,
            answer,
            c,
            guess.len() as int,
        ) + misplaced_before(guess, answer, c, i) <= occurrences(answer, c),
{
    lemma_answer_copies(guess, answer, c, guess.len() as int);
}

/// Number of copies of `c` that the answer must hold for position `i` to be
/// Yellow, where only the exact matches up to `i` are counted: one for each
/// of them, one for each misplaced copy before `i`, and one for `i` itself.
pub open spec fn needed_up_to(guess: Seq<u8>, answer: Seq<u8>, c: u8, i: int) -> nat {
    1 + matched_in(guess, answer, c, i + 1) + misplaced_before(guess, answer, c, i)
}

/// Number of exact matches of `c` to the right of position `i`.
pub open spec fn matched_after(guess: Seq<u8>, answer: Seq<u8>, c: u8, i: int) -> int {
    matched_in(guess, answer, c, guess.len() as int) - matched_in(guess, answer, c, i + 1)
}

/// Left to right, where the guess holds more copies of `c` than the answer:
/// a copy of `c` at `i` that is no exact match is Yellow exactly when the
/// answer holds at least one copy more than the exact matches of `c` up to
/// `i` and the misplaced copies of `c` before `i` together. An exact match
/// further right claims its copy first, so this is stated for the positions
/// where those matches leave a copy that the count up to `i` finds.
pub proof fn lemma_left_bias_of_surplus(guess: Seq<u8>, answer: Seq<u8>, c: u8, i: int)
    requires
        guess.len() == answer.len(),
        0 <= i < guess.len(),
        guess[i] == c,
        answer[i] != c,
        occurrences(guess, c) > occurrences(answer, c),
        needed_up_to(guess, answer, c, i) <= occurrences(answer, c) ==> needed_up_to(
            guess,
            answer,
            c,
            i,
        ) + matched_after(guess, answer, c, i) <= occurrences(answer, c),
    ensures
        feedback_of(guess, answer)[i] == Color::Yellow <==> needed_up_to(guess, answer, c, i)
            <= occurrences(answer, c),
{
    lemma_left_bias(guess, answer, c, i);
    lemma_count_monotone(i + 1, guess.len() as int, is_matched(guess, answer, c));
}

/// A word guessed against itself is Green throughout.
pub proof fn lemma_identity(word: Seq<u8>)
    requires
        word.len() == 5,
    ensures
        feedback_of(word, word) == seq![
            Color::Green,
            Color::Green,
            Color::Green,
            Color::Green,
            Color::Green,
        ],
{
    assert(feedback_of(word, word) =~= seq![
        Color::Green,
        Color::Green,
        Color::Green,
        Color::Green,
        Color::Green,
    ]);
}

/// A guess that shares no letter with the answer is Gray throughout.
pub proof fn lemma_disjoint_is_gray(guess: Seq<u8>, answer: Seq<u8>)
    requires
        guess.len() == 5,
        answer.len() == 5,
        forall|i: int, j: int| 0 <= i < 5 && 0 <= j < 5 ==> guess[i] != answer[j],
    ensures
        feedback_of(guess, answer) == seq![
            Color::Gray,
            Color::Gray,
            Color::Gray,
            Color::Gray,
            Color::Gray,
        ],
{
    let fb = feedback_of(guess, answer);
    assert forall|i: int| 0 <= i < 5 implies fb[i] == Color::Gray by {
        lemma_count_none(5, is_unclaimed(guess, answer, guess[i]));
    }
    assert(fb =~= seq![Color::Gray, Color::Gray, Color::Gray, Color::Gray, Color::Gray]);
}

} // verus!
