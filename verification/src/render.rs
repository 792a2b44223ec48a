//! What the terminal shows: the guesses so far while the game runs, and the
//! summary with its transcript of coloured blocks once it is over.
//!
//! A view is a list of lines and a line is a list of pieces. The caller
//! writes the pieces of a line one after the other, each of them at once, and
//! ends every line with a line break.

use crate::feedback::{color_at, feedback, feedback_of, Color};
use crate::paint::{paint, shows_letter};
use crate::session::{is_session, Outcome, Session, SessionView};
use crate::text::{char_string, push_char};
use crate::word::{text_of, Word};
use vstd::prelude::*;

verus! {

/// The sequence that clears the terminal and puts the cursor at its first
/// row and column: `ESC [ 2 J`, then `ESC [ 1 ; 1 H`.
pub open spec fn clear_text() -> Seq<char> {
    seq!['\x1b', '[', '2', 'J', '\x1b', '[', '1', ';', '1', 'H']
}

/// The title of the game.
pub open spec fn title_text() -> Seq<char> {
    seq!['R', 'u', 's', 't', 'l', 'e']
}

/// The line below the title.
pub open spec fn byline_text() -> Seq<char> {
    seq!['B', 'y', ' ', 'D', 'y', 'l', 'a', 'n', ' ', 'T', 'u', 't', 't', 'l', 'e']
}

/// The request for the next guess.
pub open spec fn prompt_text() -> Seq<char> {
    seq!['G', 'u', 'e', 's', 's', ' ', 'a', ' ', 'w', 'o', 'r', 'd', ':']
}

/// The block that stands for a colour in the transcript: a green square, a
/// yellow square, or a black one.
pub open spec fn block_of(color: Color) -> char {
    match color {
        Color::Green => '\u{1F7E9}',
        Color::Yellow => '\u{1F7E8}',
        Color::Gray => '\u{2B1B}',
    }
}

/// The decimal digit for a number below ten.
pub open spec fn digit_of(n: nat) -> char {
    (0x30 + n) as u8 as char
}

/// The score of a session: the number of guesses where it is won, and `X`
/// where it is not.
pub open spec fn score_of(s: SessionView) -> char {
    if s.outcome == Outcome::Won {
        digit_of(s.history.len())
    } else {
        'X'
    }
}

/// The status line: the title, a blank, the score, and `/6`.
pub open spec fn status_text(s: SessionView) -> Seq<char> {
    title_text() + seq![' ', score_of(s), '/', '6']
}

/// The line that gives the answer away: `Word: ` and the answer.
pub open spec fn answer_text(s: SessionView) -> Seq<char> {
    seq!['W', 'o', 'r', 'd', ':', ' '] + text_of(s.answer)
}

/// Whether `cells` is the row of a guess: five pieces, one for each letter.
/// As blocks, each piece is the block of the letter's colour; as letters,
/// each piece shows the letter in its colour.
pub open spec fn is_row(cells: Seq<Seq<char>>, guess: Seq<u8>, answer: Seq<u8>, blocks: bool) -> bool {
    &&& cells.len() == 5
    &&& forall|j: int|
        0 <= j < 5 ==> if blocks {
            #[trigger] cells[j] == seq![block_of(color_at(guess, answer, j))]
        } else {
            shows_letter(#[trigger] cells[j], guess[j] as char, color_at(guess, answer, j))
        }
}

/// Whether `lines` is the view of a running game: the cleared screen with
/// the title, the line below it, an empty line, one row of letters for each
/// guess, and an empty line.
pub open spec fn is_play_view(lines: Seq<Seq<Seq<char>>>, s: SessionView) -> bool {
    let n = s.history.len() as int;
    &&& lines.len() == n + 4
    &&& lines[0] == seq![clear_text(), title_text()]
    &&& lines[1] == seq![byline_text()]
    &&& lines[2] == Seq::<Seq<char>>::empty()
    &&& forall|i: int| 0 <= i < n ==> is_row(#[trigger] lines[3 + i], s.history[i], s.answer, false)
    &&& lines[n + 3] == Seq::<Seq<char>>::empty()
}

/// Whether `lines` is the view of a game that is over: the view of the
/// running game, the status line, the line with the answer, one row of blocks
/// for each guess, and an empty line.
pub open spec fn is_end_view(lines: Seq<Seq<Seq<char>>>, s: SessionView) -> bool {
    let n = s.history.len() as int;
    &&& lines.len() == 2 * n + 7
    &&& is_play_view(lines.take(n + 4), s)
    &&& lines[n + 4] == seq![status_text(s)]
    &&& lines[n + 5] == seq![answer_text(s)]
    &&& forall|i: int|
        0 <= i < n ==> is_row(#[trigger] lines[n + 6 + i], s.history[i], s.answer, true)
    &&& lines[2 * n + 6] == Seq::<Seq<char>>::empty()
}

/// A row of five green blocks.
pub open spec fn green_row() -> Seq<Seq<char>> {
    Seq::new(5, |j: int| seq![block_of(Color::Green)])
}

/// The transcript of a game that is won ends with a row of five green
/// blocks.
pub proof fn lemma_won_game_ends_green(lines: Seq<Seq<Seq<char>>>, s: SessionView)
    requires
        is_session(s),
        s.outcome == Outcome::Won,
        is_end_view(lines, s),
    ensures
        s.history.len() >= 1,
        lines[2 * (s.history.len() as int) + 5] == green_row(),
{
    let n = s.history.len() as int;
    let row = lines[n + 6 + (n - 1)];
    assert(is_row(row, s.history[n - 1], s.answer, true));
    assert(row =~= green_row());
}

/// Adds a piece at the end of a line.
fn push_piece(line: &mut Vec<String>, piece: String)
    ensures
        final(line).deep_view() == old(line).deep_view().push(piece@),
{
    line.push(piece);
    assert(line.deep_view() =~= old(line).deep_view().push(piece@));
}

/// Adds a line at the end of a view.
fn push_line(lines: &mut Vec<Vec<String>>, line: Vec<String>)
    ensures
        final(lines).deep_view() == old(lines).deep_view().push(line.deep_view()),
{
    lines.push(line);
    assert(lines.deep_view() =~= old(lines).deep_view().push(line.deep_view()));
}

/// The sequence that clears the terminal.
pub fn clear_screen() -> (s: String)
    ensures
        s@ == clear_text(),
{
    proof {
        reveal_strlit("\x1b[2J\x1b[1;1H");
    }
    let s = String::from_str("\x1b[2J\x1b[1;1H");
    assert(s@ =~= clear_text());
    s
}

/// The title of the game.
pub fn title() -> (s: String)
    ensures
        s@ == title_text(),
{
    proof {
        reveal_strlit("Rustle");
    }
    let s = String::from_str("Rustle");
    assert(s@ =~= title_text());
    s
}

/// The line below the title.
pub fn byline() -> (s: String)
    ensures
        s@ == byline_text(),
{
    proof {
        reveal_strlit("By Dylan Tuttle");
    }
    let s = String::from_str("By Dylan Tuttle");
    assert(s@ =~= byline_text());
    s
}

/// The request for the next guess.
pub fn prompt() -> (s: String)
    ensures
        s@ == prompt_text(),
{
    proof {
        reveal_strlit("Guess a word:");
    }
    let s = String::from_str("Guess a word:");
    assert(s@ =~= prompt_text());
    s
}

/// The block that stands for `color` in the transcript.
pub fn block(color: Color) -> (c: char)
    ensures
        c == block_of(color),
{
    match color {
        Color::Green => '\u{1F7E9}',
        Color::Yellow => '\u{1F7E8}',
        Color::Gray => '\u{2B1B}',
    }
}

/// The status line of a session: `Rustle 3/6` for a game won with the third
/// guess, `Rustle X/6` for one that is not won.
pub fn status_line(session: &Session) -> (s: String)
    ensures
        s@ == status_text(session@),
{
    let mut s = title();
    push_char(&mut s, ' ');
    match session.outcome() {
        Outcome::Won => {
            let n = session.attempts();
            let d: u8 = 0x30 + n as u8;
            push_char(&mut s, d as char);
        },
        _ => {
            push_char(&mut s, 'X');
        },
    }
    push_char(&mut s, '/');
    push_char(&mut s, '6');
    assert(s@ =~= status_text(session@));
    s
}

/// The line that gives the answer away.
pub fn answer_line(session: &Session) -> (s: String)
    ensures
        s@ == answer_text(session@),
{
    proof {
        reveal_strlit("Word: ");
    }
    let mut s = String::from_str("Word: ");
    let word = session.answer().text();
    s.append(word.as_str());
    assert(s@ =~= answer_text(session@));
    s
}

/// The row of one guess: its five letters, each in the colour that the
/// feedback gives it, or, as blocks, the five blocks of those colours.
pub fn guess_cells(guess: &Word, answer: &Word, blocks: bool) -> (cells: Vec<String>)
    ensures
        is_row(cells.deep_view(), guess@, answer@, blocks),
{
    let fb = feedback(guess, answer);
    let mut cells: Vec<String> = Vec::new();
    assert(cells.deep_view() =~= Seq::<Seq<char>>::empty());
    let mut j: usize = 0;
    while j < 5
        invariant
            j <= 5,
            fb@ == feedback_of(guess@, answer@),
            fb@.len() == 5,
            cells.deep_view().len() == j,
            forall|k: int|
                0 <= k < j ==> if blocks {
                    #[trigger] cells.deep_view()[k] == seq![block_of(color_at(guess@, answer@, k))]
                } else {
                    shows_letter(
                        #[trigger] cells.deep_view()[k],
                        guess@[k] as char,
                        color_at(guess@, answer@, k),
                    )
                },
        decreases 5 - j,
    {
        let color = fb[j];
        assert(color == color_at(guess@, answer@, j as int));
        let piece = if blocks {
            char_string(block(color))
        } else {
            paint(guess.letter(j) as char, color)
        };
        push_piece(&mut cells, piece);
        j = j + 1;
    }
    cells
}

/// The view of a running game.
pub fn play_view(session: &Session) -> (lines: Vec<Vec<String>>)
    ensures
        is_play_view(lines.deep_view(), session@),
{
    let mut lines: Vec<Vec<String>> = Vec::new();
    assert(lines.deep_view() =~= Seq::<Seq<Seq<char>>>::empty());
    let mut head: Vec<String> = Vec::new();
    assert(head.deep_view() =~= Seq::<Seq<char>>::empty());
    push_piece(&mut head, clear_screen());
    push_piece(&mut head, title());
    assert(head.deep_view() =~= seq![clear_text(), title_text()]);
    push_line(&mut lines, head);
    let mut below: Vec<String> = Vec::new();
    assert(below.deep_view() =~= Seq::<Seq<char>>::empty());
    push_piece(&mut below, byline());
    assert(below.deep_view() =~= seq![byline_text()]);
    push_line(&mut lines, below);
    let gap: Vec<String> = Vec::new();
    assert(gap.deep_view() =~= Seq::<Seq<char>>::empty());
    push_line(&mut lines, gap);
    let answer = session.answer();
    let n = session.attempts();
    let mut i: usize = 0;
    while i < n
        invariant
            i <= n,
            n == session@.history.len(),
            answer@ == session@.answer,
            lines.deep_view().len() == 3 + i,
            lines.deep_view()[0] == seq![clear_text(), title_text()],
            lines.deep_view()[1] == seq![byline_text()],
            lines.deep_view()[2] == Seq::<Seq<char>>::empty(),
            forall|k: int|
                0 <= k < i ==> is_row(
                    #[trigger] lines.deep_view()[3 + k],
                    session@.history[k],
                    session@.answer,
                    false,
                ),
        decreases n - i,
    {
        let guess = session.guess(i);
        let row = guess_cells(&guess, &answer, false);
        let ghost before = lines.deep_view();
        push_line(&mut lines, row);
        assert forall|k: int| 0 <= k < i + 1 implies is_row(
            #[trigger] lines.deep_view()[3 + k],
            session@.history[k],
            session@.answer,
            false,
        ) by {
            if k < i {
                assert(lines.deep_view()[3 + k] == before[3 + k]);
            }
        }
        i = i + 1;
    }
    let last: Vec<String> = Vec::new();
    assert(last.deep_view() =~= Seq::<Seq<char>>::empty());
    let ghost before = lines.deep_view();
    push_line(&mut lines, last);
    assert forall|k: int| 0 <= k < n implies is_row(
        #[trigger] lines.deep_view()[3 + k],
        session@.history[k],
        session@.answer,
        false,
    ) by {
        assert(lines.deep_view()[3 + k] == before[3 + k]);
    }
    lines
}

/// The view of a game that is over.
pub fn end_view(session: &Session) -> (lines: Vec<Vec<String>>)
    ensures
        is_end_view(lines.deep_view(), session@),
{
    let mut lines = play_view(session);
    let ghost played = lines.deep_view();
    let answer = session.answer();
    let n = session.attempts();
    let mut status: Vec<String> = Vec::new();
    assert(status.deep_view() =~= Seq::<Seq<char>>::empty());
    push_piece(&mut status, status_line(session));
    assert(status.deep_view() =~= seq![status_text(session@)]);
    push_line(&mut lines, status);
    let mut word: Vec<String> = Vec::new();
    assert(word.deep_view() =~= Seq::<Seq<char>>::empty());
    push_piece(&mut word, answer_line(session));
    assert(word.deep_view() =~= seq![answer_text(session@)]);
    push_line(&mut lines, word);
    let mut i: usize = 0;
    while i < n
        invariant
            i <= n,
            n == session@.history.len(),
            n <= 6,
            answer@ == session@.answer,
            lines.deep_view().len() == n + 6 + i,
            lines.deep_view().take(n + 4) == played,
            lines.deep_view()[n + 4] == seq![status_text(session@)],
            lines.deep_view()[n + 5] == seq![answer_text(session@)],
            forall|k: int|
                0 <= k < i ==> is_row(
                    #[trigger] lines.deep_view()[n + 6 + k],
                    session@.history[k],
                    session@.answer,
                    true,
                ),
        decreases n - i,
    {
        let guess = session.guess(i);
        let row = guess_cells(&guess, &answer, true);
        let ghost before = lines.deep_view();
        push_line(&mut lines, row);
        assert(lines.deep_view().take(n + 4) =~= before.take(n + 4));
        assert forall|k: int| 0 <= k < i + 1 implies is_row(
            #[trigger] lines.deep_view()[n + 6 + k],
            session@.history[k],
            session@.answer,
            true,
        ) by {
            if k < i {
                assert(lines.deep_view()[n + 6 + k] == before[n + 6 + k]);
            }
        }
        i = i + 1;
    }
    let last: Vec<String> = Vec::new();
    assert(last.deep_view() =~= Seq::<Seq<char>>::empty());
    let ghost before = lines.deep_view();
    push_line(&mut lines, last);
    assert(lines.deep_view().take(n + 4) =~= before.take(n + 4));
    assert forall|k: int| 0 <= k < n implies is_row(
        #[trigger] lines.deep_view()[n + 6 + k],
        session@.history[k],
        session@.answer,
        true,
    ) by {
        assert(lines.deep_view()[n + 6 + k] == before[n + 6 + k]);
    }
    lines
}

} // verus!
