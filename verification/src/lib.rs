//! Randomised multiple-choice quiz questions.
//!
//! A question source is a table of six-column rows: the letter of the correct
//! option, the question text and the four option texts. Each usable row becomes
//! a [`question::Question`] whose options stand in a random order, with the
//! answer letter moved along; a random selection of at most ten questions is
//! what a request is answered with.

pub mod letter;
pub mod loader;
pub mod question;
mod random;
pub mod records;
pub mod shuffle;
