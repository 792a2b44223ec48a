use rustle::feedback::Color;
use rustle::lexicon::WordList;
use rustle::paint::paint;
use rustle::render::{
    answer_line, block, byline, clear_screen, end_view, guess_cells, play_view, prompt, title,
};
use rustle::session::Session;
use rustle::text::char_string;
use rustle::word::Word;

fn word(text: &str) -> Word {
    Word::parse(text).unwrap()
}

fn plain() {
    colored::control::set_override(false);
}

fn played(answer: &str, guesses: &[&str]) -> Session {
    let lines: Vec<String> = guesses.iter().map(|t| t.to_string()).collect();
    let list = WordList::from_lines(&lines);
    let mut session = Session::new(word(answer));
    for guess in guesses {
        session.advance(Some(guess), &list, &WordList::new());
    }
    session
}

#[test]
fn fixed_texts() {
    assert_eq!(clear_screen(), "\x1B[2J\x1B[1;1H");
    assert_eq!(title(), "Rustle");
    assert_eq!(byline(), "By Dylan Tuttle");
    assert_eq!(prompt(), "Guess a word:");
}

#[test]
fn one_character_strings() {
    assert_eq!(char_string('q'), "q");
    assert_eq!(char_string('\u{1F7E9}'), "\u{1F7E9}");
}

#[test]
fn blocks_of_the_three_colors() {
    assert_eq!(block(Color::Green), '\u{1F7E9}');
    assert_eq!(block(Color::Yellow), '\u{1F7E8}');
    assert_eq!(block(Color::Gray), '\u{2B1B}');
}

#[test]
fn letters_are_bare_without_colors() {
    plain();
    assert_eq!(paint('e', Color::Green), "e");
    assert_eq!(paint('e', Color::Yellow), "e");
    assert_eq!(paint('e', Color::Gray), "e");
}

#[test]
fn row_of_letters_without_colors() {
    plain();
    let cells = guess_cells(&word("seedy"), &word("spite"), false);
    assert_eq!(cells, ["s", "e", "e", "d", "y"]);
}

#[test]
fn row_of_blocks() {
    let cells = guess_cells(&word("seedy"), &word("spite"), true);
    assert_eq!(cells, ["\u{1F7E9}", "\u{1F7E8}", "\u{2B1B}", "\u{2B1B}", "\u{2B1B}"]);
    let cells = guess_cells(&word("llama"), &word("allay"), true);
    assert_eq!(cells, ["\u{1F7E8}", "\u{1F7E9}", "\u{1F7E8}", "\u{2B1B}", "\u{1F7E8}"]);
}

#[test]
fn answer_line_names_the_answer() {
    assert_eq!(answer_line(&Session::new(word("abele"))), "Word: abele");
    assert_eq!(answer_line(&Session::new(word("point"))), "Word: point");
}

#[test]
fn view_of_a_game_without_guesses() {
    plain();
    let view = play_view(&Session::new(word("abele")));
    assert_eq!(view.len(), 4);
    assert_eq!(view[0], ["\x1B[2J\x1B[1;1H", "Rustle"]);
    assert_eq!(view[1], ["By Dylan Tuttle"]);
    assert!(view[2].is_empty());
    assert!(view[3].is_empty());
}

#[test]
fn view_of_a_running_game() {
    plain();
    let view = play_view(&played("abele", &["crane", "eagle"]));
    assert_eq!(view.len(), 6);
    assert_eq!(view[0], ["\x1B[2J\x1B[1;1H", "Rustle"]);
    assert_eq!(view[1], ["By Dylan Tuttle"]);
    assert!(view[2].is_empty());
    assert_eq!(view[3], ["c", "r", "a", "n", "e"]);
    assert_eq!(view[4], ["e", "a", "g", "l", "e"]);
    assert!(view[5].is_empty());
}

#[test]
fn view_of_a_game_that_is_over_begins_with_the_running_view() {
    plain();
    let session = played("abele", &["crane", "abele"]);
    let running = play_view(&session);
    let over = end_view(&session);
    assert_eq!(over.len(), 2 * 2 + 7);
    assert_eq!(over[..running.len()], running[..]);
    assert_eq!(over[6], ["Rustle 2/6"]);
    assert_eq!(over[7], ["Word: abele"]);
    assert_eq!(over[8], ["\u{2B1B}", "\u{2B1B}", "\u{1F7E8}", "\u{2B1B}", "\u{1F7E9}"]);
    assert_eq!(over[9], ["\u{1F7E9}"; 5]);
    assert!(over[10].is_empty());
}

#[test]
fn view_of_a_game_given_up_at_once() {
    plain();
    let mut session = Session::new(word("abele"));
    session.advance(None, &WordList::new(), &WordList::new());
    let over = end_view(&session);
    assert_eq!(over.len(), 7);
    assert_eq!(over[4], ["Rustle X/6"]);
    assert_eq!(over[5], ["Word: abele"]);
    assert!(over[6].is_empty());
}
