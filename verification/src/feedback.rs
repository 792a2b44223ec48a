//! The feedback engine: the colour of every letter of a guess, held against
//! the answer, with duplicate letters credited from left to right.

use crate::counting::{
    count_where, lemma_count_bound, lemma_count_monotone, lemma_count_none, lemma_count_split,
};
use crate::word::{is_word, Word};
use vstd::prelude::*;

verus! {

/// The verdict on one letter of a guess.
#[derive(Clone, Copy, Debug, PartialEq, Eq, Structural)]
pub enum Color {
    /// The answer holds this letter at this position.
    Green,
    /// The answer holds this letter at another position that no other letter
    /// of the guess has claimed.
    Yellow,
    /// The answer holds no copy of this letter that is still free.
    Gray,
}

/// Holds of the positions at which `s` holds the letter `c`.
pub open spec fn holds(s: Seq<u8>, c: u8) -> spec_fn(int) -> bool {
    |k: int| s[k] == c
}

/// Holds of the positions at which guess and answer both hold `c`.
pub open spec fn is_matched(guess: Seq<u8>, answer: Seq<u8>, c: u8) -> spec_fn(int) -> bool {
    |k: int| guess[k] == c && answer[k] == c
}

/// Holds of the positions at which the answer holds `c` and the guess holds
/// another letter.
pub open spec fn is_unclaimed(guess: Seq<u8>, answer: Seq<u8>, c: u8) -> spec_fn(int) -> bool {
    |k: int| answer[k] == c && guess[k] != c
}

/// Holds of the positions at which the guess holds `c` and the answer holds
/// another letter.
pub open spec fn is_misplaced(guess: Seq<u8>, answer: Seq<u8>, c: u8) -> spec_fn(int) -> bool {
    |k: int| guess[k] == c && answer[k] != c
}

/// Number of positions before `n` at which `s` holds the letter `c`.
pub open spec fn occurrences_in(s: Seq<u8>, c: u8, n: int) -> nat {
    count_where(n, holds(s, c))
}

/// Number of copies of the letter `c` in `s`.
pub open spec fn occurrences(s: Seq<u8>, c: u8) -> nat {
    occurrences_in(s, c, s.len() as int)
}

/// Number of positions before `n` at which guess and answer both hold `c`.
pub open spec fn matched_in(guess: Seq<u8>, answer: Seq<u8>, c: u8, n: int) -> nat {
    count_where(n, is_matched(guess, answer, c))
}

/// Number of positions before `n` at which the answer holds `c` and the
/// guess holds another letter: the copies of `c` that no exact match claims.
pub open spec fn unclaimed_in(guess: Seq<u8>, answer: Seq<u8>, c: u8, n: int) -> nat {
    count_where(n, is_unclaimed(guess, answer, c))
}

/// Number of copies of `c` in the answer that no exact match claims.
pub open spec fn unclaimed(guess: Seq<u8>, answer: Seq<u8>, c: u8) -> nat {
    unclaimed_in(guess, answer, c, answer.len() as int)
}

/// Number of positions before `n` at which the guess holds `c` and the
/// answer holds another letter.
pub open spec fn misplaced_before(guess: Seq<u8>, answer: Seq<u8>, c: u8, n: int) -> nat {
    count_where(n, is_misplaced(guess, answer, c))
}

/// The colour of position `i` of the guess. A letter that is not an exact
/// match is Yellow as long as the answer has more unclaimed copies of it than
/// the guess has misplaced copies to the left of `i`.
pub open spec fn color_at(guess: Seq<u8>, answer: Seq<u8>, i: int) -> Color {
    if guess[i] == answer[i] {
        Color::Green
    } else if misplaced_before(guess, answer, guess[i], i) < unclaimed(guess, answer, guess[i]) {
        Color::Yellow
    } else {
        Color::Gray
    }
}

/// The feedback for a guess: one colour for each of its positions.
pub open spec fn feedback_of(guess: Seq<u8>, answer: Seq<u8>) -> Seq<Color> {
    Seq::new(guess.len(), |i: int| color_at(guess, answer, i))
}

/// The letter that slot `j` of a per-letter table stands for.
pub open spec fn letter_of_slot(j: int) -> u8 {
    (j + 0x61) as u8
}

/// What is left of the unclaimed copies of `c` once the misplaced copies of
/// the guess before position `n` have each been credited one.
pub open spec fn residual_at(guess: Seq<u8>, answer: Seq<u8>, c: u8, n: int) -> int {
    let left = unclaimed(guess, answer, c) - misplaced_before(guess, answer, c, n);
    if left > 0 {
        left
    } else {
        0
    }
}

/// The copies of `c` among the first `n` letters of the guess are those that
/// match the answer exactly and those that are misplaced.
pub proof fn lemma_guess_copies(guess: Seq<u8>, answer: Seq<u8>, c: u8, n: int)
    ensures
        occurrences_in(guess, c, n) == matched_in(guess, answer, c, n) + misplaced_before(
            guess,
            answer,
            c,
            n,
        ),
{
    lemma_count_split(
        n,
        holds(guess, c),
        is_matched(guess, answer, c),
        is_misplaced(guess, answer, c),
    );
}

/// The copies of `c` among the first `n` letters of the answer are those that
/// the guess matches exactly and those that stay unclaimed.
pub proof fn lemma_answer_copies(guess: Seq<u8>, answer: Seq<u8>, c: u8, n: int)
    ensures
        occurrences_in(answer, c, n) == matched_in(guess, answer, c, n) + unclaimed_in(
            guess,
            answer,
            c,
            n,
        ),
{
    lemma_count_split(
        n,
        holds(answer, c),
        is_matched(guess, answer, c),
        is_unclaimed(guess, answer, c),
    );
}

/// Computes the feedback for `guess` against `answer` in two passes: the
/// first marks the exact matches and counts, letter by letter, the copies of
/// the answer that they leave unclaimed; the second walks the other
/// positions from left to right and spends those copies.
pub fn feedback(guess: &Word, answer: &Word) -> (fb: [Color; 5])
    ensures
        fb@ == feedback_of(guess@, answer@),
        fb@.len() == 5,
        forall|i: int| 0 <= i < 5 ==> (fb@[i] == Color::Green <==> guess@[i] == answer@[i]),
{
    let mut fb = [Color::Gray; 5];
    let mut residual = [0u8; 26];
    let ghost g = guess@;
    let ghost a = answer@;
    proof {
        use_type_invariant(guess);
        use_type_invariant(answer);
    }
    let mut i: usize = 0;
    while i < 5
        invariant
            i <= 5,
            g == guess@,
            a == answer@,
            is_word(g),
            is_word(a),
            forall|j: int|
                0 <= j < 26 ==> #[trigger] residual@[j] == unclaimed_in(
                    g,
                    a,
                    letter_of_slot(j),
                    i as int,
                ),
            forall|k: int| 0 <= k < i && g[k] == a[k] ==> #[trigger] fb@[k] == Color::Green,
        decreases 5 - i,
    {
        let x = guess.letter(i);
        let y = answer.letter(i);
        if x == y {
            fb[i] = Color::Green;
        } else {
            let slot = (y - 0x61) as usize;
            proof {
                lemma_count_bound(i as int, is_unclaimed(g, a, y));
                assert(letter_of_slot(slot as int) == y);
                assert(residual@[slot as int] <= i);
            }
            residual[slot] = residual[slot] + 1;
        }
        i = i + 1;
    }
    let mut i: usize = 0;
    while i < 5
        invariant
            i <= 5,
            g == guess@,
            a == answer@,
            is_word(g),
            is_word(a),
            forall|j: int|
                0 <= j < 26 ==> #[trigger] residual@[j] == residual_at(
                    g,
                    a,
                    letter_of_slot(j),
                    i as int,
                ),
            forall|k: int| 0 <= k < 5 && g[k] == a[k] ==> #[trigger] fb@[k] == Color::Green,
            forall|k: int| 0 <= k < i ==> #[trigger] fb@[k] == color_at(g, a, k),
        decreases 5 - i,
    {
        let x = guess.letter(i);
        let y = answer.letter(i);
        if x != y {
            let slot = (x - 0x61) as usize;
            assert(letter_of_slot(slot as int) == x);
            if residual[slot] > 0 {
                fb[i] = Color::Yellow;
                residual[slot] = residual[slot] - 1;
            } else {
                fb[i] = Color::Gray;
            }
        }
        i = i + 1;
    }
    assert(fb@ =~= feedback_of(g, a));
    fb
}

/// Whether position `index` of the guess is an exact match.
pub fn is_green(index: usize, guess: &Word, answer: &Word) -> (r: bool)
    requires
        index < 5,
    ensures
        r == (guess@[index as int] == answer@[index as int]),
        r == (color_at(guess@, answer@, index as int) == Color::Green),
{
    guess.letter(index) == answer.letter(index)
}

/// Whether position `index` of the guess is Yellow, found by counting alone:
/// the letter is no exact match, the answer holds it, and its copies in the
/// guess up to `index`, together with the exact matches of it further right,
/// do not outnumber its copies in the answer.
pub fn is_yellow(index: usize, guess: &Word, answer: &Word) -> (r: bool)
    requires
        index < 5,
    ensures
        r == (color_at(guess@, answer@, index as int) == Color::Yellow),
{
    if is_green(index, guess, answer) {
        return false;
    }
    let ghost g = guess@;
    let ghost a = answer@;
    proof {
        use_type_invariant(guess);
        use_type_invariant(answer);
    }
    let c = guess.letter(index);
    if !answer.contains(c) {
        proof {
            lemma_count_none(5, is_unclaimed(g, a, c));
        }
        return false;
    }
    let mut num_dups: u8 = 0;
    let mut num_matches_answer: u8 = 0;
    for i in 0..5usize
        invariant
            index < 5,
            g == guess@,
            a == answer@,
            c == g[index as int],
            num_dups == occurrences_in(g, c, if i <= index { i as int } else { index + 1 }),
            num_matches_answer == occurrences_in(a, c, i as int),
            num_dups <= i,
            num_matches_answer <= i,
    {
        if guess.letter(i) == c && i <= index {
            num_dups = num_dups + 1;
        }
        if answer.letter(i) == c {
            num_matches_answer = num_matches_answer + 1;
        }
    }
    proof {
        lemma_guess_copies(g, a, c, index as int);
        lemma_answer_copies(g, a, c, 5);
        lemma_count_monotone(index as int, 5, is_matched(g, a, c));
    }
    if num_matches_answer >= num_dups {
        for i in index..5usize
            invariant
                index < 5,
                g == guess@,
                a == answer@,
                c == g[index as int],
                num_matches_answer == occurrences_in(a, c, 5),
                num_dups == occurrences_in(g, c, index + 1) + matched_in(g, a, c, i as int)
                    - matched_in(g, a, c, index as int),
                num_dups <= num_matches_answer <= 5,
                occurrences_in(g, c, index + 1) == 1 + matched_in(g, a, c, index as int)
                    + misplaced_before(g, a, c, index as int),
                occurrences_in(a, c, 5) == matched_in(g, a, c, 5) + unclaimed(g, a, c),
        {
            if answer.letter(i) == c && is_green(i, guess, answer) {
                num_dups = num_dups + 1;
                if num_dups > num_matches_answer {
                    proof {
                        lemma_count_monotone(i + 1, 5, is_matched(g, a, c));
                    }
                    return false;
                }
            }
        }
        true
    } else {
        false
    }
}

} // verus!
