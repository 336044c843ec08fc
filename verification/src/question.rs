//! The question record, its mathematical model, and what it means for a
//! question to be a shuffle of a source row.

use vstd::prelude::*;
use vstd::multiset::Multiset;
use vstd::seq_lib::group_to_multiset_ensures;
use crate::letter::{is_letter, letter_index};

verus! {

/// A question as it is handed out: the options in shuffled order, the letter
/// of the slot that now holds the correct option, and for each slot the
/// letter that its option had in the source row.
#[derive(Debug, Clone)]
pub struct Question {
    pub question: String,
    pub answer: String,
    pub options: Vec<String>,
    pub option_mapping: Vec<char>,
}

/// Model of a [`Question`]: every text as a sequence of characters.
pub struct QuestionView {
    pub question: Seq<char>,
    pub answer: Seq<char>,
    pub options: Seq<Seq<char>>,
    pub option_mapping: Seq<char>,
}

impl View for Question {
    type V = QuestionView;

    open spec fn view(&self) -> QuestionView {
        QuestionView {
            question: self.question@,
            answer: self.answer@,
            options: self.options.deep_view(),
            option_mapping: self.option_mapping@,
        }
    }
}

impl QuestionView {
    /// Four options, a mapping that names each of the four letters once, and
    /// a single answer letter.
    pub open spec fn well_formed(self) -> bool {
        &&& self.options.len() == 4
        &&& self.option_mapping.len() == 4
        &&& forall|i: int| 0 <= i < 4 ==> is_letter(#[trigger] self.option_mapping[i])
        &&& forall|i: int, j: int|
            0 <= i < j < 4 ==> self.option_mapping[i] != self.option_mapping[j]
        &&& self.answer.len() == 1
        &&& is_letter(self.answer[0])
    }

    /// Slot that the answer letter points at.
    pub open spec fn answer_slot(self) -> int {
        letter_index(self.answer[0])
    }
}

/// A source row that a question can be made from: at least six fields, the
/// first of which starts with an option letter.
pub open spec fn valid_row(row: Seq<Seq<char>>) -> bool {
    &&& row.len() >= 6
    &&& row[0].len() > 0
    &&& is_letter(row[0][0])
}

/// The letter that a valid row gives as correct.
pub open spec fn correct_letter(row: Seq<Seq<char>>) -> char {
    row[0][0]
}

/// The four option texts of a row, in the order `A` to `D`.
pub open spec fn row_options(row: Seq<Seq<char>>) -> Seq<Seq<char>> {
    row.subrange(2, 6)
}

/// The text that a valid row gives as the correct answer.
pub open spec fn correct_text(row: Seq<Seq<char>>) -> Seq<char> {
    row_options(row)[letter_index(correct_letter(row))]
}

/// `q` is `row` with its options rearranged: the question text is kept, every
/// slot holds the option that its mapping letter names, no letter is used
/// twice, and the answer letter is the slot whose mapping letter is the
/// row's correct letter.
pub open spec fn is_shuffle_of(q: QuestionView, row: Seq<Seq<char>>) -> bool {
    &&& q.well_formed()
    &&& q.question == row[1]
    &&& forall|i: int|
        0 <= i < 4 ==> #[trigger] q.options[i] == row_options(row)[letter_index(
            q.option_mapping[i],
        )]
    &&& q.option_mapping[q.answer_slot()] == correct_letter(row)
}

/// Shuffling is a permutation, not a mutation: the options of a shuffle of a
/// valid row are, as a multiset, the row's four option texts.
pub proof fn lemma_shuffle_keeps_options(q: QuestionView, row: Seq<Seq<char>>)
    requires
        valid_row(row),
        is_shuffle_of(q, row),
    ensures
        q.options.to_multiset() == row_options(row).to_multiset(),
{
    broadcast use group_to_multiset_ensures;

    let o = row_options(row);
    let m = q.option_mapping;
    let k0 = letter_index(m[0]);
    let k1 = letter_index(m[1]);
    let k2 = letter_index(m[2]);
    let k3 = letter_index(m[3]);
    assert(is_letter(m[0]) && is_letter(m[1]) && is_letter(m[2]) && is_letter(m[3]));
    assert(k0 != k1 && k0 != k2 && k0 != k3 && k1 != k2 && k1 != k3 && k2 != k3);
    let e = Seq::<Seq<char>>::empty();
    assert(q.options =~= e.push(o[k0]).push(o[k1]).push(o[k2]).push(o[k3])) by {
        assert(q.options[0] == o[k0]);
        assert(q.options[1] == o[k1]);
        assert(q.options[2] == o[k2]);
        assert(q.options[3] == o[k3]);
    }
    assert(o =~= e.push(o[0]).push(o[1]).push(o[2]).push(o[3]));
    assert(e.to_multiset() =~= Multiset::<Seq<char>>::empty());
    assert(q.options.to_multiset() =~= o.to_multiset());
}

/// Following the mapping from the answer letter recovers the correct answer:
/// the slot that the answer names holds the row's correct text and carries
/// the row's correct letter, and no other slot carries that letter.
pub proof fn lemma_answer_recovers_correct_text(q: QuestionView, row: Seq<Seq<char>>)
    requires
        valid_row(row),
        is_shuffle_of(q, row),
    ensures
        0 <= q.answer_slot() < 4,
        q.option_mapping[q.answer_slot()] == correct_letter(row),
        q.options[q.answer_slot()] == correct_text(row),
        forall|i: int|
            0 <= i < 4 && q.option_mapping[i] == correct_letter(row) ==> i == q.answer_slot(),
{
    let a = q.answer_slot();
    assert(q.options[a] == row_options(row)[letter_index(q.option_mapping[a])]);
}

} // verus!
