use rustle::word::Word;

#[test]
fn parse_takes_five_lowercase_letters() {
    let word = Word::parse("crane").unwrap();
    assert_eq!(word.text(), "crane");
    assert_eq!(word.letter(0), b'c');
    assert_eq!(word.letter(4), b'e');
}

#[test]
fn parse_takes_the_ends_of_the_alphabet() {
    assert_eq!(Word::parse("azaza").unwrap().text(), "azaza");
    assert_eq!(Word::parse("zzzzz").unwrap().text(), "zzzzz");
}

#[test]
fn parse_refuses_other_lengths() {
    assert!(Word::parse("").is_none());
    assert!(Word::parse("abc").is_none());
    assert!(Word::parse("cran").is_none());
    assert!(Word::parse("cranes").is_none());
}

#[test]
fn parse_refuses_what_is_no_lowercase_letter() {
    assert!(Word::parse("CRANE").is_none());
    assert!(Word::parse("Crane").is_none());
    assert!(Word::parse("cr4ne").is_none());
    assert!(Word::parse("cran ").is_none());
    assert!(Word::parse("cra-e").is_none());
    assert!(Word::parse("cran`").is_none());
    assert!(Word::parse("cran{").is_none());
}

#[test]
fn parse_refuses_letters_outside_ascii() {
    // Five characters, six bytes.
    assert!(Word::parse("cr\u{e4}ne").is_none());
    // Four characters, five bytes.
    assert!(Word::parse("a\u{f1}ob").is_none());
}

#[test]
fn from_bytes_agrees_with_parse() {
    assert_eq!(Word::from_bytes(b"spite"), Word::parse("spite"));
    assert!(Word::from_bytes(b"spit").is_none());
    assert!(Word::from_bytes(b"spiTe").is_none());
    assert!(Word::from_bytes(&[0x61, 0x62, 0xc3, 0xb1, 0x61]).is_none());
}

#[test]
fn text_spells_every_letter() {
    for text in ["abele", "point", "quick", "fjord", "nymph"] {
        assert_eq!(Word::parse(text).unwrap().text(), text);
    }
}

#[test]
fn words_are_equal_when_spelled_alike() {
    assert_eq!(Word::parse("crane"), Word::parse("crane"));
    assert_ne!(Word::parse("crane"), Word::parse("crank"));
    assert_ne!(Word::parse("crane"), Word::parse("brane"));
}

#[test]
fn parse_reads_back_what_text_writes() {
    for text in ["abele", "point", "zzzzz"] {
        let word = Word::parse(text).unwrap();
        assert_eq!(Word::parse(&word.text()), Some(word));
        assert_eq!(Word::from_bytes(word.text().as_bytes()), Some(word));
    }
}

#[test]
fn contains_finds_the_letters_of_the_word() {
    let word = Word::parse("crane").unwrap();
    for c in b"crane" {
        assert!(word.contains(*c));
    }
    assert!(!word.contains(b'z'));
    assert!(!word.contains(b'C'));
    assert!(!word.contains(0));
}
