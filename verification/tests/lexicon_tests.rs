use rustle::lexicon::{is_word_valid, WordList};
use rustle::select::get_answer;
use rustle::word::Word;

fn lines(texts: &[&str]) -> Vec<String> {
    texts.iter().map(|t| t.to_string()).collect()
}

fn word(text: &str) -> Word {
    Word::parse(text).unwrap()
}

#[test]
fn from_lines_keeps_the_words_in_order() {
    let list = WordList::from_lines(&lines(&["crane", "spite", "abele"]));
    assert_eq!(list.len(), 3);
    assert_eq!(list.get(0), word("crane"));
    assert_eq!(list.get(1), word("spite"));
    assert_eq!(list.get(2), word("abele"));
}

#[test]
fn from_lines_leaves_out_what_is_no_word() {
    let list = WordList::from_lines(&lines(&["", "crane", "toolong", "abc", "SPITE", "spite", " "]));
    assert_eq!(list.len(), 2);
    assert_eq!(list.get(0), word("crane"));
    assert_eq!(list.get(1), word("spite"));
}

#[test]
fn from_lines_keeps_a_word_that_comes_twice() {
    let list = WordList::from_lines(&lines(&["crane", "crane"]));
    assert_eq!(list.len(), 2);
}

#[test]
fn from_lines_of_nothing_is_empty() {
    assert_eq!(WordList::from_lines(&Vec::new()).len(), 0);
    assert_eq!(WordList::new().len(), 0);
}

#[test]
fn push_adds_at_the_end() {
    let mut list = WordList::new();
    list.push(word("crane"));
    list.push(word("spite"));
    assert_eq!(list.len(), 2);
    assert_eq!(list.get(1), word("spite"));
    assert!(list.contains(&word("crane")));
}

#[test]
fn contains_finds_first_middle_and_last() {
    let list = WordList::from_lines(&lines(&["crane", "spite", "abele"]));
    assert!(list.contains(&word("crane")));
    assert!(list.contains(&word("spite")));
    assert!(list.contains(&word("abele")));
    assert!(!list.contains(&word("point")));
    assert!(!WordList::new().contains(&word("point")));
}

#[test]
fn a_guess_is_valid_in_either_list() {
    let answers = WordList::from_lines(&lines(&["crane", "spite"]));
    let allowed = WordList::from_lines(&lines(&["zzzzz", "spite"]));
    assert!(is_word_valid(&word("crane"), &answers, &allowed));
    assert!(is_word_valid(&word("zzzzz"), &answers, &allowed));
    assert!(is_word_valid(&word("spite"), &answers, &allowed));
    assert!(!is_word_valid(&word("point"), &answers, &allowed));
}

#[test]
fn no_answer_from_an_empty_list() {
    assert!(get_answer(&WordList::new()).is_none());
}

#[test]
fn the_only_word_is_the_answer() {
    let list = WordList::from_lines(&lines(&["abele"]));
    for _ in 0..20 {
        assert_eq!(get_answer(&list), Some(word("abele")));
    }
}

#[test]
fn the_answer_is_a_word_of_the_list() {
    let list = WordList::from_lines(&lines(&["crane", "spite", "abele", "point"]));
    for _ in 0..200 {
        let answer = get_answer(&list).unwrap();
        assert!(list.contains(&answer));
    }
}

#[test]
fn the_last_word_can_be_the_answer() {
    let list = WordList::from_lines(&lines(&["crane", "spite"]));
    let mut seen_last = false;
    for _ in 0..2000 {
        if get_answer(&list) == Some(word("spite")) {
            seen_last = true;
        }
    }
    assert!(seen_last);
}
