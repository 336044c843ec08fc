//! Turning one source row into a question with shuffled options.

use vstd::prelude::*;
use vstd::seq_lib::{group_to_multiset_ensures, to_multiset_len};
use vstd::string::StrSliceExecFns;
use crate::letter::{
    is_letter, letter_at, letter_for_position, letter_index, letters, position_of_letter,
};
use crate::question::{
    correct_text, is_shuffle_of, lemma_answer_recovers_correct_text, lemma_shuffle_keeps_options,
    row_options, valid_row, Question,
};
use crate::random::shuffle_in_place;

verus! {

/// The option texts of a list of (text, letter) pairs.
pub open spec fn pair_texts(pairs: Seq<(String, char)>) -> Seq<Seq<char>> {
    Seq::new(pairs.len(), |i: int| pairs[i].0@)
}

/// The letters of a list of (text, letter) pairs.
pub open spec fn pair_letters(pairs: Seq<(String, char)>) -> Seq<char> {
    Seq::new(pairs.len(), |i: int| pairs[i].1)
}

/// `p` is the first place at which `c` stands in `s`.
pub open spec fn is_first_position(s: Seq<char>, c: char, p: int) -> bool {
    &&& 0 <= p < s.len()
    &&& s[p] == c
    &&& forall|j: int| 0 <= j < p ==> s[j] != c
}

/// The one-letter text that names a slot: `"A"` for 0, up to `"D"` for 3.
pub fn answer_text(slot: usize) -> (s: String)
    requires
        slot < 4,
    ensures
        s@ == seq![letter_at(slot as int)],
{
    proof {
        reveal_strlit("A");
        reveal_strlit("B");
        reveal_strlit("C");
        reveal_strlit("D");
    }
    let s = if slot == 0 {
        "A".to_owned()
    } else if slot == 1 {
        "B".to_owned()
    } else if slot == 2 {
        "C".to_owned()
    } else {
        "D".to_owned()
    };
    assert(s@ =~= seq![letter_at(slot as int)]);
    s
}

/// The four options of a record paired with their letters, in the fixed
/// order `A`, `B`, `C`, `D`.
pub fn option_pairs(record: &Vec<String>) -> (pairs: Vec<(String, char)>)
    requires
        record@.len() >= 6,
    ensures
        pairs@.len() == 4,
        pair_texts(pairs@) == row_options(record.deep_view()),
        pair_letters(pairs@) == letters(),
{
    let mut pairs: Vec<(String, char)> = Vec::new();
    let mut k: usize = 0;
    while k < 4
        invariant
            record@.len() >= 6,
            k <= 4,
            pairs@.len() == k,
            forall|j: int|
                0 <= j < k ==> (#[trigger] pairs@[j]).0@ == record@[2 + j]@ && pairs@[j].1
                    == letter_at(j),
        decreases 4 - k,
    {
        let letter = letter_for_position(k);
        pairs.push((record[k + 2].clone(), letter));
        k += 1;
    }
    assert(pair_texts(pairs@) =~= row_options(record.deep_view()));
    assert(pair_letters(pairs@) =~= letters());
    pairs
}

/// Builds the question from pairs that stand in their final order: the
/// options and the mapping are the two halves of the pairs, and the answer
/// names the first slot whose pair carries the letter `correct`.
///
/// There is a question exactly when there are four pairs and one of them
/// carries `correct`.
pub fn assemble_question(question: String, correct: char, pairs: &Vec<(String, char)>) -> (r:
    Option<Question>)
    ensures
        r is Some <==> pairs@.len() == 4 && pair_letters(pairs@).contains(correct),
        r matches Some(q) ==> {
            &&& q@.question == question@
            &&& q@.options == pair_texts(pairs@)
            &&& q@.option_mapping == pair_letters(pairs@)
            &&& exists|p: int|
                is_first_position(pair_letters(pairs@), correct, p) && q@.answer == seq![
                    letter_at(p),
                ]
        },
{
    if pairs.len() != 4 {
        return None;
    }
    let ghost letters = pair_letters(pairs@);
    let mut options: Vec<String> = Vec::new();
    let mut mapping: Vec<char> = Vec::new();
    let mut found: Option<usize> = None;
    let mut i: usize = 0;
    while i < 4
        invariant
            pairs@.len() == 4,
            letters == pair_letters(pairs@),
            i <= 4,
            options@.len() == i,
            mapping@.len() == i,
            forall|k: int| 0 <= k < i ==> (#[trigger] options@[k])@ == pairs@[k].0@,
            forall|k: int| 0 <= k < i ==> #[trigger] mapping@[k] == pairs@[k].1,
            found matches Some(p) ==> p < i && is_first_position(letters, correct, p as int),
            found is None ==> forall|k: int| 0 <= k < i ==> #[trigger] letters[k] != correct,
        decreases 4 - i,
    {
        let text = pairs[i].0.clone();
        let letter = pairs[i].1;
        if found.is_none() && letter == correct {
            found = Some(i);
        }
        options.push(text);
        mapping.push(letter);
        i += 1;
    }
    match found {
        None => None,
        Some(p) => {
            let answer = answer_text(p);
            let q = Question { question, answer, options, option_mapping: mapping };
            proof {
                assert(q@.options =~= pair_texts(pairs@));
                assert(q@.option_mapping =~= letters);
                assert(is_first_position(letters, correct, p as int));
                assert(letters.contains(correct));
            }
            Some(q)
        },
    }
}

/// What a shuffle leaves of four lettered pairs: still four, each one of the
/// pairs from before and found under its letter, and no letter twice.
proof fn lemma_shuffled_pairs(before: Seq<(String, char)>, after: Seq<(String, char)>)
    requires
        before.len() == 4,
        pair_letters(before) == letters(),
        after.to_multiset() == before.to_multiset(),
    ensures
        after.len() == 4,
        forall|i: int|
            0 <= i < 4 ==> is_letter((#[trigger] after[i]).1) && after[i] == before[letter_index(
                after[i].1,
            )],
        forall|i: int, j: int| 0 <= i < j < 4 ==> after[i].1 != after[j].1,
{
    broadcast use group_to_multiset_ensures;

    to_multiset_len(after);
    to_multiset_len(before);
    assert(pair_letters(before)[0] == 'A' && pair_letters(before)[1] == 'B' && pair_letters(
        before,
    )[2] == 'C' && pair_letters(before)[3] == 'D');
    assert(before.contains(before[0]));
    assert(before.contains(before[1]));
    assert(before.contains(before[2]));
    assert(before.contains(before[3]));
    assert(after.contains(before[0])) by {
        assert(before.to_multiset().count(before[0]) > 0);
        assert(after.to_multiset().count(before[0]) > 0);
    }
    assert(after.contains(before[1])) by {
        assert(before.to_multiset().count(before[1]) > 0);
        assert(after.to_multiset().count(before[1]) > 0);
    }
    assert(after.contains(before[2])) by {
        assert(before.to_multiset().count(before[2]) > 0);
        assert(after.to_multiset().count(before[2]) > 0);
    }
    assert(after.contains(before[3])) by {
        assert(before.to_multiset().count(before[3]) > 0);
        assert(after.to_multiset().count(before[3]) > 0);
    }
    let i0 = choose|i: int| 0 <= i < 4 && after[i] == before[0];
    let i1 = choose|i: int| 0 <= i < 4 && after[i] == before[1];
    let i2 = choose|i: int| 0 <= i < 4 && after[i] == before[2];
    let i3 = choose|i: int| 0 <= i < 4 && after[i] == before[3];
    assert(after[i0].1 == 'A' && after[i1].1 == 'B' && after[i2].1 == 'C' && after[i3].1 == 'D');
}

/// Makes a question from one record, with its options in a random order.
///
/// A record is usable when it has at least six fields and its first field
/// starts with one of the letters `A` to `D`; any other record gives `None`.
/// Whatever order the shuffle picks, the question is a shuffle of the record:
/// its options are the record's four option texts, and its answer letter
/// leads to the text that the record marks as correct.
pub fn shuffle_row(record: &Vec<String>) -> (r: Option<Question>)
    ensures
        r is Some <==> valid_row(record.deep_view()),
        r matches Some(q) ==> {
            &&& is_shuffle_of(q@, record.deep_view())
            &&& q@.options.to_multiset() == row_options(record.deep_view()).to_multiset()
            &&& q@.options[q@.answer_slot()] == correct_text(record.deep_view())
        },
{
    let ghost row = record.deep_view();
    if record.len() < 6 {
        return None;
    }
    let first = record[0].as_str();
    if first.unicode_len() == 0 {
        return None;
    }
    let correct = first.get_char(0);
    if position_of_letter(correct).is_none() {
        return None;
    }
    let mut pairs = option_pairs(record);
    let ghost before = pairs@;
    shuffle_in_place(&mut pairs);
    proof {
        lemma_shuffled_pairs(before, pairs@);
        let k = letter_index(correct);
        assert(pair_letters(before)[k] == correct);
        broadcast use group_to_multiset_ensures;
        assert(before.contains(before[k]));
        assert(pairs@.contains(before[k])) by {
            assert(before.to_multiset().count(before[k]) > 0);
            assert(pairs@.to_multiset().count(before[k]) > 0);
        }
        let i = choose|i: int| 0 <= i < 4 && pairs@[i] == before[k];
        assert(pair_letters(pairs@)[i] == correct);
    }
    let r = assemble_question(record[1].clone(), correct, &pairs);
    proof {
        let q = r->Some_0@;
        let p = choose|p: int|
            is_first_position(pair_letters(pairs@), correct, p) && q.answer == seq![letter_at(p)];
        assert(q.answer[0] == letter_at(p));
        assert forall|i: int| 0 <= i < 4 implies #[trigger] q.options[i] == row_options(
            row,
        )[letter_index(q.option_mapping[i])] by {
            let j = letter_index(pairs@[i].1);
            assert(pairs@[i] == before[j]);
            assert(pair_texts(before)[j] == row_options(row)[j]);
        }
        assert forall|i: int| 0 <= i < 4 implies is_letter(#[trigger] q.option_mapping[i]) by {
            assert(is_letter(pairs@[i].1));
        }
        assert(is_shuffle_of(q, row));
        lemma_shuffle_keeps_options(q, row);
        lemma_answer_recovers_correct_text(q, row);
    }
    r
}

} // verus!
