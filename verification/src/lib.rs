//! A five-letter word-guessing game: words, the feedback colouring engine,
//! the six-attempt session and the text that the terminal shows.

pub mod counting;
pub mod feedback;
pub mod lexicon;
pub mod paint;
pub mod render;
pub mod select;
pub mod session;
pub mod text;
pub mod theorems;
pub mod word;
