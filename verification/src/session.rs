//! The session: one hidden answer, at most six recorded guesses, and the
//! rule that decides after every line of input how the game goes on.

use crate::lexicon::{is_word_valid, WordList};
use crate::word::{bytes_of, is_letter, is_word, is_word_text, Word};
use vstd::prelude::*;

verus! {

/// Number of guesses that a session records at most.
pub const MAX_ATTEMPTS: usize = 6;

/// How a session stands.
#[derive(Clone, Copy, Debug, PartialEq, Eq, Structural)]
pub enum Outcome {
    /// The answer has not been guessed and guesses are left.
    InProgress,
    /// The last guess was the answer.
    Won,
    /// No guess was the answer and no further guess is taken.
    Lost,
}

/// What the caller does after a step of the session.
#[derive(Clone, Copy, Debug, PartialEq, Eq, Structural)]
pub enum Action {
    /// Show the guesses so far and ask for the next line.
    Prompt,
    /// Show the end of the game and stop.
    Finish,
}

/// A session as plain values.
pub struct SessionView {
    pub answer: Seq<u8>,
    pub history: Seq<Seq<u8>>,
    pub outcome: Outcome,
}

/// Whether a line of input is a legal guess: it spells a word, and one of the
/// two lists holds that word.
pub open spec fn is_legal_guess(
    line: Seq<char>,
    answers: Seq<Seq<u8>>,
    allowed: Seq<Seq<u8>>,
) -> bool {
    is_word_text(line) && (answers.contains(bytes_of(line)) || allowed.contains(bytes_of(line)))
}

/// How a session stands once `history` has been recorded.
pub open spec fn outcome_after(answer: Seq<u8>, history: Seq<Seq<u8>>) -> Outcome {
    if history.len() > 0 && history.last() == answer {
        Outcome::Won
    } else if history.len() >= MAX_ATTEMPTS {
        Outcome::Lost
    } else {
        Outcome::InProgress
    }
}

/// The session after one line of input. A session that is over stays as it
/// is, and so does one that gets a line that is no legal guess. A legal guess
/// is recorded, and decides the outcome.
pub open spec fn after_line(
    s: SessionView,
    line: Seq<char>,
    answers: Seq<Seq<u8>>,
    allowed: Seq<Seq<u8>>,
) -> SessionView {
    if s.outcome == Outcome::InProgress && is_legal_guess(line, answers, allowed) {
        let history = s.history.push(bytes_of(line));
        SessionView { answer: s.answer, history, outcome: outcome_after(s.answer, history) }
    } else {
        s
    }
}

/// The session after the input has ended: one that was in progress is lost.
pub open spec fn after_end_of_input(s: SessionView) -> SessionView {
    if s.outcome == Outcome::InProgress {
        SessionView { answer: s.answer, history: s.history, outcome: Outcome::Lost }
    } else {
        s
    }
}

/// The session after one event: a line of input, or the end of the input.
pub open spec fn after_event(
    s: SessionView,
    input: Option<Seq<char>>,
    answers: Seq<Seq<u8>>,
    allowed: Seq<Seq<u8>>,
) -> SessionView {
    match input {
        Some(line) => after_line(s, line, answers, allowed),
        None => after_end_of_input(s),
    }
}

/// What the caller does when the session stands at `outcome`.
pub open spec fn action_for(outcome: Outcome) -> Action {
    if outcome == Outcome::InProgress {
        Action::Prompt
    } else {
        Action::Finish
    }
}

/// What holds of every session: the answer and the guesses are words; there
/// are at most six guesses; none but the last can be the answer; the session
/// is won exactly when the last guess is the answer, and it is over once six
/// guesses are recorded.
pub open spec fn is_session(s: SessionView) -> bool {
    &&& is_word(s.answer)
    &&& s.history.len() <= MAX_ATTEMPTS
    &&& forall|i: int| 0 <= i < s.history.len() ==> is_word(#[trigger] s.history[i])
    &&& forall|i: int| 0 <= i < s.history.len() - 1 ==> #[trigger] s.history[i] != s.answer
    &&& s.outcome == Outcome::Won <==> s.history.len() > 0 && s.history.last() == s.answer
    &&& s.outcome == Outcome::InProgress ==> s.history.len() < MAX_ATTEMPTS
}

/// Every event leaves a session a session: whatever the input, the guesses
/// stay words, at most six, and the outcome stays the one that they decide.
pub proof fn lemma_event_keeps_session(
    s: SessionView,
    input: Option<Seq<char>>,
    answers: Seq<Seq<u8>>,
    allowed: Seq<Seq<u8>>,
)
    requires
        is_session(s),
    ensures
        is_session(after_event(s, input, answers, allowed)),
{
    let next = after_event(s, input, answers, allowed);
    if let Some(line) = input {
        if s.outcome == Outcome::InProgress && is_legal_guess(line, answers, allowed) {
            let word = bytes_of(line);
            assert(is_word(word)) by {
                assert forall|i: int| 0 <= i < 5 implies is_letter(
                    #[trigger] word[i],
                ) by {
                    assert('a' <= line[i] <= 'z');
                }
            }
            assert forall|i: int| 0 <= i < next.history.len() implies is_word(
                #[trigger] next.history[i],
            ) by {
                if i < s.history.len() {
                    assert(next.history[i] == s.history[i]);
                }
            }
            assert forall|i: int| 0 <= i < next.history.len() - 1 implies #[trigger] next.history[i]
                != s.answer by {
                if i < s.history.len() - 1 {
                    assert(next.history[i] == s.history[i]);
                } else {
                    assert(next.history[i] == s.history.last());
                }
            }
        }
    }
}

/// A line that is no legal guess leaves the session as it is: nothing is
/// recorded and no attempt is charged.
pub proof fn lemma_illegal_line_is_ignored(
    s: SessionView,
    line: Seq<char>,
    answers: Seq<Seq<u8>>,
    allowed: Seq<Seq<u8>>,
)
    requires
        !is_legal_guess(line, answers, allowed),
    ensures
        after_event(s, Some(line), answers, allowed) == s,
{
}

/// A legal guess in a running session is recorded as its last guess, and
/// charges one attempt. The session is then won exactly when the guess is the
/// answer, and lost exactly when it is not and was the sixth.
pub proof fn lemma_legal_guess_is_recorded(
    s: SessionView,
    line: Seq<char>,
    answers: Seq<Seq<u8>>,
    allowed: Seq<Seq<u8>>,
)
    requires
        is_session(s),
        s.outcome == Outcome::InProgress,
        is_legal_guess(line, answers, allowed),
    ensures
        ({
            let next = after_event(s, Some(line), answers, allowed);
            &&& next.answer == s.answer
            &&& next.history == s.history.push(bytes_of(line))
            &&& next.history.len() == s.history.len() + 1
            &&& next.outcome == Outcome::Won <==> bytes_of(line) == s.answer
            &&& next.outcome == Outcome::Lost <==> bytes_of(line) != s.answer && s.history.len()
                == MAX_ATTEMPTS - 1
        }),
{
}

/// A game in progress or over.
#[derive(Debug)]
pub struct Session {
    answer: Word,
    history: Vec<Word>,
    outcome: Outcome,
}

impl View for Session {
    type V = SessionView;

    closed spec fn view(&self) -> SessionView {
        SessionView {
            answer: self.answer@,
            history: Seq::new(self.history@.len(), |i: int| self.history@[i]@),
            outcome: self.outcome,
        }
    }
}

impl Session {
    /// Holds of every session.
    #[verifier::type_invariant]
    pub open spec fn well_formed(self) -> bool {
        is_session(self@)
    }

    /// Starts a session on `answer`: nothing guessed, the game in progress.
    pub fn new(answer: Word) -> (session: Session)
        ensures
            session@.answer == answer@,
            session@.history == Seq::<Seq<u8>>::empty(),
            session@.outcome == Outcome::InProgress,
            is_session(session@),
    {
        proof {
            use_type_invariant(&answer);
        }
        let session = Session { answer, history: Vec::new(), outcome: Outcome::InProgress };
        assert(session@.history =~= Seq::<Seq<u8>>::empty());
        session
    }

    /// The hidden word.
    pub fn answer(&self) -> (word: Word)
        ensures
            word@ == self@.answer,
    {
        self.answer
    }

    /// How the session stands.
    pub fn outcome(&self) -> (outcome: Outcome)
        ensures
            outcome == self@.outcome,
    {
        self.outcome
    }

    /// Number of guesses recorded so far.
    pub fn attempts(&self) -> (n: usize)
        ensures
            n == self@.history.len(),
            n <= MAX_ATTEMPTS,
    {
        proof {
            use_type_invariant(self);
        }
        self.history.len()
    }

    /// The guess recorded at position `index`.
    pub fn guess(&self, index: usize) -> (word: Word)
        requires
            index < self@.history.len(),
        ensures
            word@ == self@.history[index as int],
    {
        self.history[index]
    }

    /// Takes one event, a line of input (`Some`) or the end of the input
    /// (`None`), and says what to do next. A line that is no legal guess
    /// changes nothing and charges no attempt.
    pub fn advance(&mut self, input: Option<&str>, answers: &WordList, allowed: &WordList) -> (action:
        Action)
        ensures
            final(self)@ == after_event(
                old(self)@,
                match input {
                    Some(line) => Some(line@),
                    None => None,
                },
                answers@,
                allowed@,
            ),
            action == action_for(final(self)@.outcome),
            is_session(final(self)@),
    {
        proof {
            use_type_invariant(&*self);
        }
        if self.outcome != Outcome::InProgress {
            return Action::Finish;
        }
        match input {
            None => {
                self.outcome = Outcome::Lost;
                Action::Finish
            },
            Some(line) => {
                match Word::parse(line) {
                    None => Action::Prompt,
                    Some(word) => {
                        if !is_word_valid(&word, answers, allowed) {
                            return Action::Prompt;
                        }
                        proof {
                            use_type_invariant(&word);
                        }
                        let ghost before = self@;
                        let mut history = Vec::new();
                        std::mem::swap(&mut history, &mut self.history);
                        history.push(word);
                        let outcome = if word == self.answer {
                            Outcome::Won
                        } else if history.len() >= MAX_ATTEMPTS {
                            Outcome::Lost
                        } else {
                            Outcome::InProgress
                        };
                        let answer = self.answer;
                        proof {
                            let next = Session { answer, history, outcome };
                            assert(next@.history =~= before.history.push(word@));
                            assert(is_session(next@));
                        }
                        *self = Session { answer, history, outcome };
                        action_of(outcome)
                    },
                }
            },
        }
    }
}

/// What the caller does when the session stands at `outcome`.
pub fn action_of(outcome: Outcome) -> (action: Action)
    ensures
        action == action_for(outcome),
{
    match outcome {
        Outcome::InProgress => Action::Prompt,
        _ => Action::Finish,
    }
}

} // verus!
