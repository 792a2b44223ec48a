//! Words: exactly five lowercase ASCII letters.

use crate::text::push_char;
use vstd::prelude::*;
use vstd::std_specs::cmp::PartialEqSpecImpl;
use vstd::string::is_ascii_spec_bytes;

verus! {

/// Whether `b` is one of the bytes `a` to `z`.
pub open spec fn is_letter(b: u8) -> bool {
    0x61 <= b <= 0x7a
}

/// Whether `s` spells a word: five letters, each of them lowercase ASCII.
pub open spec fn is_word(s: Seq<u8>) -> bool {
    &&& s.len() == 5
    &&& forall|i: int| 0 <= i < 5 ==> is_letter(#[trigger] s[i])
}

/// Whether `text` spells a word: five characters, each of them one of `a` to
/// `z`.
pub open spec fn is_word_text(text: Seq<char>) -> bool {
    &&& text.len() == 5
    &&& forall|i: int| 0 <= i < 5 ==> 'a' <= #[trigger] text[i] <= 'z'
}

/// The bytes of a text of ASCII characters.
pub open spec fn bytes_of(text: Seq<char>) -> Seq<u8> {
    Seq::new(text.len(), |i: int| text[i] as u8)
}

/// The characters that a sequence of ASCII bytes spells.
pub open spec fn text_of(bytes: Seq<u8>) -> Seq<char> {
    Seq::new(bytes.len(), |i: int| bytes[i] as char)
}

/// Spelling out the bytes of a word's text gives the text back, and the
/// text spells a word exactly when its bytes do.
pub proof fn lemma_text_round_trip(text: Seq<char>)
    requires
        is_word_text(text),
    ensures
        is_word(bytes_of(text)),
        text_of(bytes_of(text)) == text,
{
    let bytes = bytes_of(text);
    assert forall|i: int| 0 <= i < 5 implies is_letter(#[trigger] bytes[i]) by {
        assert('a' <= text[i] <= 'z');
    }
    assert forall|i: int| 0 <= i < 5 implies text_of(bytes)[i] == text[i] by {
        assert('a' <= text[i] <= 'z');
    }
    assert(text_of(bytes) =~= text);
}

/// The text of a word spells a word, and its bytes are the word's letters.
pub proof fn lemma_bytes_round_trip(bytes: Seq<u8>)
    requires
        is_word(bytes),
    ensures
        is_word_text(text_of(bytes)),
        bytes_of(text_of(bytes)) == bytes,
{
    let text = text_of(bytes);
    assert forall|i: int| 0 <= i < 5 implies 'a' <= #[trigger] text[i] <= 'z' by {
        assert(is_letter(bytes[i]));
    }
    assert forall|i: int| 0 <= i < 5 implies bytes_of(text)[i] == bytes[i] by {
        assert(is_letter(bytes[i]));
    }
    assert(bytes_of(text) =~= bytes);
}

/// A word of the game. Its view is the sequence of its five letters.
#[derive(Clone, Copy, Debug, Eq)]
pub struct Word {
    letters: [u8; 5],
}

impl View for Word {
    type V = Seq<u8>;

    closed spec fn view(&self) -> Seq<u8> {
        self.letters@
    }
}

impl PartialEq for Word {
    fn eq(&self, other: &Word) -> (r: bool) {
        let r = self.letters[0] == other.letters[0] && self.letters[1] == other.letters[1]
            && self.letters[2] == other.letters[2] && self.letters[3] == other.letters[3]
            && self.letters[4] == other.letters[4];
        proof {
            if r {
                assert(self.letters@ =~= other.letters@);
            }
        }
        r
    }
}

impl PartialEqSpecImpl for Word {
    open spec fn obeys_eq_spec() -> bool {
        true
    }

    open spec fn eq_spec(&self, other: &Word) -> bool {
        self@ == other@
    }
}

impl Word {
    /// Holds of every word: its five letters are lowercase.
    #[verifier::type_invariant]
    pub open spec fn well_formed(self) -> bool {
        is_word(self@)
    }

    /// Makes a word of five bytes, if they are lowercase letters.
    pub fn from_bytes(bytes: &[u8]) -> (r: Option<Word>)
        ensures
            r is Some <==> is_word(bytes@),
            r matches Some(w) ==> w@ == bytes@,
    {
        if bytes.len() != 5 {
            return None;
        }
        let mut letters = [0x61u8; 5];
        let mut i: usize = 0;
        while i < 5
            invariant
                i <= 5,
                bytes@.len() == 5,
                forall|k: int| 0 <= k < i ==> #[trigger] letters@[k] == bytes@[k],
                forall|k: int| 0 <= k < i ==> is_letter(#[trigger] bytes@[k]),
                forall|k: int| 0 <= k < 5 ==> is_letter(#[trigger] letters@[k]),
            decreases 5 - i,
        {
            let b = bytes[i];
            if b < 0x61 || b > 0x7a {
                return None;
            }
            letters[i] = b;
            i = i + 1;
        }
        assert(letters@ =~= bytes@);
        Some(Word { letters })
    }

    /// Reads a word from a text: `Some` exactly when the text is five
    /// lowercase ASCII letters. No case is folded and nothing is trimmed.
    pub fn parse(text: &str) -> (r: Option<Word>)
        ensures
            r is Some <==> is_word_text(text@),
            r matches Some(w) ==> w@ == bytes_of(text@),
    {
        if !text.is_ascii() {
            return None;
        }
        proof {
            is_ascii_spec_bytes(text);
        }
        let bytes = text.as_bytes();
        assert(bytes@ =~= bytes_of(text@));
        assert(is_word(bytes@) <==> is_word_text(text@)) by {
            if is_word(bytes@) {
                assert forall|i: int| 0 <= i < 5 implies 'a' <= #[trigger] text@[i] <= 'z' by {
                    assert(is_letter(bytes@[i]));
                }
            }
            if is_word_text(text@) {
                assert forall|i: int| 0 <= i < 5 implies is_letter(#[trigger] bytes@[i]) by {
                    assert('a' <= text@[i] <= 'z');
                }
            }
        }
        Word::from_bytes(bytes)
    }

    /// The word as text.
    pub fn text(&self) -> (s: String)
        ensures
            s@ == text_of(self@),
    {
        let mut s = String::new();
        let mut i: usize = 0;
        while i < 5
            invariant
                i <= 5,
                self@.len() == 5,
                s@ == text_of(self@.take(i as int)),
            decreases 5 - i,
        {
            push_char(&mut s, self.letters[i] as char);
            assert(s@ =~= text_of(self@.take(i + 1)));
            i = i + 1;
        }
        assert(self@.take(5) =~= self@);
        s
    }

    /// Whether the word holds the letter `c`.
    pub fn contains(&self, c: u8) -> (found: bool)
        ensures
            found == self@.contains(c),
    {
        let mut i: usize = 0;
        while i < 5
            invariant
                i <= 5,
                self@.len() == 5,
                forall|k: int| 0 <= k < i ==> self@[k] != c,
            decreases 5 - i,
        {
            if self.letters[i] == c {
                assert(self@[i as int] == c);
                return true;
            }
            i = i + 1;
        }
        false
    }

    /// The letter at position `i`.
    pub fn letter(&self, i: usize) -> (b: u8)
        requires
            i < 5,
        ensures
            b == self@[i as int],
            is_letter(b),
    {
        proof {
            use_type_invariant(self);
        }
        self.letters[i]
    }
}

} // verus!
