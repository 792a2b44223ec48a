use rustle::feedback::{feedback, is_green, is_yellow, Color};
use rustle::word::Word;

use Color::{Gray, Green, Yellow};

fn word(text: &str) -> Word {
    Word::parse(text).unwrap()
}

fn colors(guess: &str, answer: &str) -> [Color; 5] {
    feedback(&word(guess), &word(answer))
}

fn count(text: &str, c: u8) -> usize {
    text.bytes().filter(|b| *b == c).count()
}

const PAIRS: [(&str, &str); 12] = [
    ("foods", "point"),
    ("seedy", "spite"),
    ("eagle", "abele"),
    ("abele", "abele"),
    ("zzzzz", "crane"),
    ("llama", "allay"),
    ("oboes", "along"),
    ("geese", "elder"),
    ("radar", "array"),
    ("aaaaa", "abaca"),
    ("abaca", "aaaaa"),
    ("mamma", "madam"),
];

#[test]
fn point_against_foods() {
    assert_eq!(colors("foods", "point"), [Gray, Green, Gray, Gray, Gray]);
}

#[test]
fn spite_against_seedy() {
    assert_eq!(colors("seedy", "spite"), [Green, Yellow, Gray, Gray, Gray]);
}

#[test]
fn abele_against_eagle() {
    assert_eq!(colors("eagle", "abele"), [Yellow, Yellow, Gray, Green, Green]);
}

#[test]
fn abele_against_itself() {
    assert_eq!(colors("abele", "abele"), [Green, Green, Green, Green, Green]);
}

#[test]
fn crane_against_zzzzz() {
    assert_eq!(colors("zzzzz", "crane"), [Gray, Gray, Gray, Gray, Gray]);
}

#[test]
fn allay_against_llama() {
    assert_eq!(colors("llama", "allay"), [Yellow, Green, Yellow, Gray, Yellow]);
}

#[test]
fn feedback_has_five_colors() {
    for (guess, answer) in PAIRS {
        assert_eq!(colors(guess, answer).len(), 5);
    }
}

#[test]
fn green_exactly_where_letters_agree() {
    for (guess, answer) in PAIRS {
        let fb = colors(guess, answer);
        for i in 0..5 {
            let same = guess.as_bytes()[i] == answer.as_bytes()[i];
            assert_eq!(fb[i] == Green, same, "{guess} against {answer} at {i}");
        }
    }
}

#[test]
fn green_and_yellow_copies_are_the_common_copies() {
    for (guess, answer) in PAIRS {
        let fb = colors(guess, answer);
        for c in b'a'..=b'z' {
            let shown = (0..5)
                .filter(|i| guess.as_bytes()[*i] == c && (fb[*i] == Green || fb[*i] == Yellow))
                .count();
            let common = count(guess, c).min(count(answer, c));
            assert_eq!(shown, common, "{guess} against {answer}, letter {}", c as char);
        }
    }
}

#[test]
fn leftmost_spare_copies_are_yellow() {
    // Three copies of `e` in the guess and two in the answer, none matched.
    assert_eq!(colors("geese", "elder"), [Gray, Yellow, Yellow, Gray, Gray]);
    // Five copies in the guess, three in the answer, all three matched.
    assert_eq!(colors("aaaaa", "abaca"), [Green, Gray, Green, Gray, Green]);
    // One `m` is matched; of the two others the left one gets the free `m`.
    assert_eq!(colors("mamma", "madam"), [Green, Green, Yellow, Gray, Yellow]);
}

#[test]
fn match_further_right_takes_the_only_copy() {
    // The answer has one `o`, matched at the third letter: the `o` at the
    // first letter finds none left.
    assert_eq!(colors("oboes", "along"), [Gray, Gray, Green, Gray, Gray]);
}

#[test]
fn yellow_by_the_count_of_copies() {
    for (guess, answer) in PAIRS {
        let fb = colors(guess, answer);
        let g = guess.as_bytes();
        let a = answer.as_bytes();
        for i in 0..5 {
            if g[i] == a[i] {
                continue;
            }
            let c = g[i];
            let matched = (0..5).filter(|k| g[*k] == c && a[*k] == c).count();
            let misplaced_before = (0..i).filter(|k| g[*k] == c && a[*k] != c).count();
            let enough = 1 + matched + misplaced_before <= count(answer, c);
            assert_eq!(fb[i] == Yellow, enough, "{guess} against {answer} at {i}");
        }
    }
}

#[test]
fn word_against_itself_is_all_green() {
    for text in ["crane", "aaaaa", "abele", "zzzzz", "radar"] {
        assert_eq!(colors(text, text), [Green; 5]);
    }
}

#[test]
fn no_common_letter_is_all_gray() {
    assert_eq!(colors("fjord", "quick"), [Gray; 5]);
    assert_eq!(colors("bbbbb", "aaaaa"), [Gray; 5]);
    assert_eq!(colors("nymph", "brick"), [Gray; 5]);
}

#[test]
fn is_green_agrees_with_feedback() {
    for (guess, answer) in PAIRS {
        let fb = colors(guess, answer);
        for i in 0..5 {
            assert_eq!(is_green(i, &word(guess), &word(answer)), fb[i] == Green);
        }
    }
}

#[test]
fn is_yellow_agrees_with_feedback() {
    for (guess, answer) in PAIRS {
        let fb = colors(guess, answer);
        for i in 0..5 {
            assert_eq!(
                is_yellow(i, &word(guess), &word(answer)),
                fb[i] == Yellow,
                "{guess} against {answer} at {i}"
            );
        }
    }
}

#[test]
fn is_yellow_is_false_at_an_exact_match() {
    // The answer has a second, free `a`; the matched one is Green all the same.
    assert!(is_green(0, &word("axxxx"), &word("aabcd")));
    assert!(!is_yellow(0, &word("axxxx"), &word("aabcd")));
}

#[test]
fn is_yellow_on_the_first_of_two_copies() {
    assert!(is_yellow(1, &word("seedy"), &word("spite")));
    assert!(!is_yellow(2, &word("seedy"), &word("spite")));
    assert!(!is_yellow(1, &word("foods"), &word("point")));
    assert!(!is_yellow(2, &word("foods"), &word("point")));
}
