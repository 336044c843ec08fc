//! From the bytes of a question source to the questions that answer a request.

use vstd::prelude::*;
use vstd::seq_lib::{group_to_multiset_ensures, lemma_multiset_commutative, to_multiset_len};
use crate::question::{is_shuffle_of, valid_row, Question};
use crate::random::shuffle_in_place;
use crate::records::{csv_records, read_records};
use crate::shuffle::shuffle_row;

verus! {

/// The most questions that one request is answered with.
pub const MAX_QUESTIONS: usize = 10;

/// Status of a response that carries questions.
pub const STATUS_OK: u16 = 200;

/// Status of a response that carries an error message.
pub const STATUS_INTERNAL_ERROR: u16 = 500;

/// Why a request cannot be answered with questions.
#[derive(Debug, Clone, Copy, PartialEq, Eq, Structural)]
pub enum QuizError {
    /// The source could not be opened or read.
    SourceUnavailable,
    /// The source was read, but no row of it is usable.
    NoQuestionsAvailable,
}

impl QuizError {
    /// The message that the response carries for this error.
    pub open spec fn message_text(self) -> Seq<char> {
        match self {
            QuizError::SourceUnavailable => "Failed to load questions"@,
            QuizError::NoQuestionsAvailable => "No questions available"@,
        }
    }

    /// The message that the response carries for this error.
    pub fn message(&self) -> (s: String)
        ensures
            s@ == self.message_text(),
    {
        match self {
            QuizError::SourceUnavailable => "Failed to load questions".to_owned(),
            QuizError::NoQuestionsAvailable => "No questions available".to_owned(),
        }
    }
}

/// A row as far as a question can be made from it: the row itself where it
/// was read and is valid, `None` where it failed to parse or is not valid.
pub open spec fn usable_row(row: Option<Seq<Seq<char>>>) -> Option<Seq<Seq<char>>> {
    match row {
        Some(fields) => if valid_row(fields) {
            Some(fields)
        } else {
            None
        },
        None => None,
    }
}

/// The usable rows among `rows`, in their order.
pub open spec fn valid_rows(rows: Seq<Option<Seq<Seq<char>>>>) -> Seq<Seq<Seq<char>>> {
    rows.filter_map(|row: Option<Seq<Seq<char>>>| usable_row(row))
}

/// `questions` holds one question for each row, in order, each a shuffle of
/// its row.
pub open spec fn shuffles_of(questions: Seq<Question>, rows: Seq<Seq<Seq<char>>>) -> bool {
    &&& questions.len() == rows.len()
    &&& forall|k: int|
        0 <= k < rows.len() ==> is_shuffle_of((#[trigger] questions[k])@, rows[k])
}

/// The smaller of the number of questions at hand and [`MAX_QUESTIONS`].
pub open spec fn selection_len(available: int) -> int {
    if available < MAX_QUESTIONS {
        available
    } else {
        MAX_QUESTIONS as int
    }
}

/// `selected` answers a request over the usable rows `rows`: it has
/// [`selection_len`] questions, and they are taken, none more often than it
/// is there, from a list that holds one shuffle of every row.
pub open spec fn is_selection_of(selected: Seq<Question>, rows: Seq<Seq<Seq<char>>>) -> bool {
    &&& selected.len() == selection_len(rows.len() as int)
    &&& exists|built: Seq<Question>|
        #![auto]
        shuffles_of(built, rows) && selected.to_multiset().subset_of(built.to_multiset())
}

/// `q` is a shuffle of one of the rows.
pub open spec fn shuffles_one_of(q: Question, rows: Seq<Seq<Seq<char>>>) -> bool {
    exists|k: int| 0 <= k < rows.len() && #[trigger] is_shuffle_of(q@, rows[k])
}

/// Every question of a selection is a shuffle of one of the usable rows.
pub proof fn lemma_selected_are_shuffles(selected: Seq<Question>, rows: Seq<Seq<Seq<char>>>)
    requires
        is_selection_of(selected, rows),
    ensures
        forall|i: int| 0 <= i < selected.len() ==> shuffles_one_of(#[trigger] selected[i], rows),
{
    broadcast use group_to_multiset_ensures;

    let built = choose|built: Seq<Question>|
        #![auto]
        shuffles_of(built, rows) && selected.to_multiset().subset_of(built.to_multiset());
    assert forall|i: int| 0 <= i < selected.len() implies shuffles_one_of(
        #[trigger] selected[i],
        rows,
    ) by {
        let q = selected[i];
        assert(selected.contains(q));
        assert(selected.to_multiset().count(q) > 0);
        assert(built.to_multiset().count(q) > 0);
        assert(built.contains(q));
        let k = choose|k: int| 0 <= k < built.len() && built[k] == q;
        assert(is_shuffle_of(built[k]@, rows[k]));
    }
}

/// Makes a question with shuffled options from every usable row, in the
/// order of the rows; rows that failed to parse or are not valid are skipped.
pub fn build_questions(rows: &Vec<Option<Vec<String>>>) -> (questions: Vec<Question>)
    ensures
        shuffles_of(questions@, valid_rows(rows.deep_view())),
{
    let ghost all = rows.deep_view();
    let mut questions: Vec<Question> = Vec::new();
    let mut i: usize = 0;
    while i < rows.len()
        invariant
            i <= rows@.len(),
            all == rows.deep_view(),
            shuffles_of(questions@, valid_rows(all.take(i as int))),
        decreases rows@.len() - i,
    {
        proof {
            all.lemma_filter_map_take_succ(|row: Option<Seq<Seq<char>>>| usable_row(row), i as int);
            assert(all[i as int] == rows@[i as int].deep_view());
        }
        match &rows[i] {
            Some(record) => {
                match shuffle_row(record) {
                    Some(q) => {
                        questions.push(q);
                    },
                    None => {},
                }
            },
            None => {},
        }
        i += 1;
    }
    proof {
        assert(all.take(i as int) =~= all);
    }
    questions
}

/// The first [`MAX_QUESTIONS`] of the questions, or all of them where there
/// are fewer.
pub fn first_questions(questions: Vec<Question>) -> (selected: Vec<Question>)
    ensures
        selected@ == questions@.take(selection_len(questions@.len() as int)),
{
    let mut selected = questions;
    selected.truncate(MAX_QUESTIONS);
    assert(selected@ =~= questions@.take(selection_len(questions@.len() as int)));
    selected
}

/// Picks the questions for one response: a random selection of
/// [`MAX_QUESTIONS`] of them, or all of them in a random order where there
/// are fewer. With no question at hand there is nothing to pick, which is
/// [`QuizError::NoQuestionsAvailable`].
///
/// The order is random, so the contract bounds the selection instead of
/// fixing it: it never holds a question more often than it was given, and
/// it holds every given question where no more than [`MAX_QUESTIONS`] were
/// given.
pub fn select_questions(questions: Vec<Question>) -> (r: Result<Vec<Question>, QuizError>)
    ensures
        r is Err <==> questions@.len() == 0,
        r matches Err(e) ==> e == QuizError::NoQuestionsAvailable,
        r matches Ok(selected) ==> {
            &&& selected@.len() == selection_len(questions@.len() as int)
            &&& selected@.to_multiset().subset_of(questions@.to_multiset())
            &&& questions@.len() <= MAX_QUESTIONS ==> selected@.to_multiset()
                == questions@.to_multiset()
        },
{
    if questions.len() == 0 {
        return Err(QuizError::NoQuestionsAvailable);
    }
    let mut shuffled = questions;
    shuffle_in_place(&mut shuffled);
    let ghost mixed = shuffled@;
    let selected = first_questions(shuffled);
    proof {
        to_multiset_len(mixed);
        to_multiset_len(questions@);
        let n = selection_len(mixed.len() as int);
        let rest = mixed.skip(n);
        assert(mixed =~= selected@ + rest);
        lemma_multiset_commutative(selected@, rest);
        if questions@.len() <= MAX_QUESTIONS {
            assert(selected@ =~= mixed);
        }
    }
    Ok(selected)
}

/// Reads the rows of a source that has no header row and answers with a
/// random selection of shuffled questions.
///
/// The rows are those that the `csv` crate reads from `data`. The call fails,
/// with [`QuizError::NoQuestionsAvailable`], exactly when none of them is
/// usable. Otherwise there is one shuffled question for each usable row, and
/// the answer holds [`MAX_QUESTIONS`] of these, or all of them where there
/// are fewer.
pub fn load_questions(data: &[u8]) -> (r: Result<Vec<Question>, QuizError>)
    ensures
        r is Err <==> valid_rows(csv_records(data@, false)).len() == 0,
        r matches Err(e) ==> e == QuizError::NoQuestionsAvailable,
        r matches Ok(selected) ==> is_selection_of(
            selected@,
            valid_rows(csv_records(data@, false)),
        ),
{
    let rows = read_records(data, false);
    let questions = build_questions(&rows);
    let ghost built = questions@;
    let r = select_questions(questions);
    proof {
        if r is Ok {
            assert(shuffles_of(built, valid_rows(csv_records(data@, false))));
        }
    }
    r
}

/// Answers a request for questions. `source` holds the bytes of the question
/// source, or `None` where it could not be opened or read.
///
/// Without a source the request fails with [`QuizError::SourceUnavailable`];
/// with one, the answer is that of [`load_questions`]. A failed request
/// carries no questions at all.
pub fn get_random_questions(source: Option<&[u8]>) -> (r: Result<Vec<Question>, QuizError>)
    ensures
        source is None ==> r == Err::<Vec<Question>, QuizError>(QuizError::SourceUnavailable),
        source matches Some(data) ==> {
            &&& r is Err <==> valid_rows(csv_records(data@, false)).len() == 0
            &&& r matches Err(e) ==> e == QuizError::NoQuestionsAvailable
            &&& r matches Ok(selected) ==> is_selection_of(
                selected@,
                valid_rows(csv_records(data@, false)),
            )
        },
{
    match source {
        None => Err(QuizError::SourceUnavailable),
        Some(data) => load_questions(data),
    }
}

/// The status that a response carries: 200 with questions, 500 with an error.
pub fn response_status(outcome: &Result<Vec<Question>, QuizError>) -> (status: u16)
    ensures
        status == (if outcome is Ok {
            STATUS_OK
        } else {
            STATUS_INTERNAL_ERROR
        }),
{
    match outcome {
        Ok(_) => STATUS_OK,
        Err(_) => STATUS_INTERNAL_ERROR,
    }
}

} // verus!
