//! Word lists: the words that can be the answer and the further words that
//! are legal guesses.

use crate::word::{bytes_of, is_word_text, Word};
use vstd::prelude::*;

verus! {

/// The words that a sequence of text lines holds, in their order: each line
/// that spells a word gives that word, and every other line gives nothing.
pub open spec fn words_of_lines(lines: Seq<Seq<char>>) -> Seq<Seq<u8>>
    decreases lines.len(),
{
    if lines.len() == 0 {
        Seq::empty()
    } else if is_word_text(lines.last()) {
        words_of_lines(lines.drop_last()).push(bytes_of(lines.last()))
    } else {
        words_of_lines(lines.drop_last())
    }
}

/// A list of words. Its view is the sequence of the views of its words.
#[derive(Debug)]
pub struct WordList {
    words: Vec<Word>,
}

impl View for WordList {
    type V = Seq<Seq<u8>>;

    closed spec fn view(&self) -> Seq<Seq<u8>> {
        Seq::new(self.words@.len(), |i: int| self.words@[i]@)
    }
}

impl WordList {
    /// The list without any word.
    pub fn new() -> (list: WordList)
        ensures
            list@ == Seq::<Seq<u8>>::empty(),
    {
        let list = WordList { words: Vec::new() };
        assert(list@ =~= Seq::<Seq<u8>>::empty());
        list
    }

    /// Adds a word at the end of the list.
    pub fn push(&mut self, word: Word)
        ensures
            final(self)@ == old(self)@.push(word@),
    {
        self.words.push(word);
        assert(self@ =~= old(self)@.push(word@));
    }

    /// Builds the list from the lines of a word file. Lines that do not spell
    /// a word are left out.
    pub fn from_lines(lines: &Vec<String>) -> (list: WordList)
        ensures
            list@ == words_of_lines(lines.deep_view()),
    {
        let mut list = WordList::new();
        let ghost all = lines.deep_view();
        let mut i: usize = 0;
        while i < lines.len()
            invariant
                i <= lines.len(),
                all == lines.deep_view(),
                all.len() == lines.len(),
                list@ == words_of_lines(all.take(i as int)),
            decreases lines.len() - i,
        {
            let parsed = Word::parse(lines[i].as_str());
            proof {
                let upto = all.take(i + 1);
                assert(upto.drop_last() =~= all.take(i as int));
                assert(upto.last() == lines[i as int]@);
            }
            match parsed {
                Some(word) => {
                    list.push(word);
                },
                None => {},
            }
            i = i + 1;
        }
        assert(all.take(i as int) =~= all);
        list
    }

    /// Number of words in the list.
    pub fn len(&self) -> (n: usize)
        ensures
            n == self@.len(),
    {
        self.words.len()
    }

    /// The word at position `index`.
    pub fn get(&self, index: usize) -> (word: Word)
        requires
            index < self@.len(),
        ensures
            word@ == self@[index as int],
    {
        self.words[index]
    }

    /// Whether the list holds `word`.
    pub fn contains(&self, word: &Word) -> (found: bool)
        ensures
            found == self@.contains(word@),
    {
        let mut i: usize = 0;
        while i < self.words.len()
            invariant
                i <= self.words.len(),
                forall|k: int| 0 <= k < i ==> self@[k] != word@,
            decreases self.words.len() - i,
        {
            if self.words[i] == *word {
                assert(self@[i as int] == word@);
                return true;
            }
            i = i + 1;
        }
        false
    }
}

/// Whether `word` is a legal guess: it stands in the list of answers or in
/// the list of further allowed words.
pub fn is_word_valid(word: &Word, answers: &WordList, allowed: &WordList) -> (valid: bool)
    ensures
        valid == (answers@.contains(word@) || allowed@.contains(word@)),
{
    answers.contains(word) || allowed.contains(word)
}

} // verus!
