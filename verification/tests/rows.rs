use quiz_server::letter::{letter_for_position, position_of_letter};
use quiz_server::question::Question;
use quiz_server::shuffle::{answer_text, assemble_question, option_pairs, shuffle_row};

fn record(fields: &[&str]) -> Vec<String> {
    fields.iter().map(|f| f.to_string()).collect()
}

fn sorted(mut texts: Vec<String>) -> Vec<String> {
    texts.sort();
    texts
}

fn answer_slot(q: &Question) -> usize {
    let letter = q.answer.chars().next().unwrap();
    position_of_letter(letter).unwrap()
}

#[test]
fn letters_map_to_slots() {
    assert_eq!(position_of_letter('A'), Some(0));
    assert_eq!(position_of_letter('B'), Some(1));
    assert_eq!(position_of_letter('C'), Some(2));
    assert_eq!(position_of_letter('D'), Some(3));
    assert_eq!(position_of_letter('E'), None);
    assert_eq!(position_of_letter('a'), None);
    assert_eq!(position_of_letter('@'), None);
}

#[test]
fn slots_map_to_letters() {
    assert_eq!(letter_for_position(0), 'A');
    assert_eq!(letter_for_position(1), 'B');
    assert_eq!(letter_for_position(2), 'C');
    assert_eq!(letter_for_position(3), 'D');
    for slot in 0..4 {
        assert_eq!(position_of_letter(letter_for_position(slot)), Some(slot));
    }
}

#[test]
fn answer_text_is_the_slot_letter() {
    assert_eq!(answer_text(0), "A");
    assert_eq!(answer_text(1), "B");
    assert_eq!(answer_text(2), "C");
    assert_eq!(answer_text(3), "D");
}

#[test]
fn option_pairs_keep_the_column_order() {
    let pairs = option_pairs(&record(&["B", "Capital of France?", "Rome", "Paris", "Oslo", "Bern"]));
    assert_eq!(
        pairs,
        vec![
            ("Rome".to_string(), 'A'),
            ("Paris".to_string(), 'B'),
            ("Oslo".to_string(), 'C'),
            ("Bern".to_string(), 'D'),
        ]
    );
}

#[test]
fn option_pairs_ignore_fields_past_the_sixth() {
    let pairs = option_pairs(&record(&["A", "q", "1", "2", "3", "4", "extra"]));
    assert_eq!(pairs.len(), 4);
    assert_eq!(pairs[3], ("4".to_string(), 'D'));
}

#[test]
fn assemble_question_follows_the_given_order() {
    let pairs = vec![
        ("3".to_string(), 'B'),
        ("6".to_string(), 'D'),
        ("4".to_string(), 'A'),
        ("5".to_string(), 'C'),
    ];
    let q = assemble_question("What is 2+2?".to_string(), 'A', &pairs).unwrap();
    assert_eq!(q.question, "What is 2+2?");
    assert_eq!(q.answer, "C");
    assert_eq!(q.options, vec!["3", "6", "4", "5"]);
    assert_eq!(q.option_mapping, vec!['B', 'D', 'A', 'C']);
}

#[test]
fn assemble_question_in_column_order_keeps_the_answer() {
    let pairs = option_pairs(&record(&["D", "q", "w", "x", "y", "z"]));
    let q = assemble_question("q".to_string(), 'D', &pairs).unwrap();
    assert_eq!(q.answer, "D");
    assert_eq!(q.options, vec!["w", "x", "y", "z"]);
    assert_eq!(q.option_mapping, vec!['A', 'B', 'C', 'D']);
}

#[test]
fn assemble_question_names_the_first_matching_slot() {
    let pairs = vec![
        ("w".to_string(), 'C'),
        ("x".to_string(), 'B'),
        ("y".to_string(), 'B'),
        ("z".to_string(), 'A'),
    ];
    let q = assemble_question("q".to_string(), 'B', &pairs).unwrap();
    assert_eq!(q.answer, "B");
}

#[test]
fn assemble_question_needs_the_correct_letter() {
    let pairs = vec![
        ("w".to_string(), 'A'),
        ("x".to_string(), 'B'),
        ("y".to_string(), 'C'),
        ("z".to_string(), 'C'),
    ];
    assert!(assemble_question("q".to_string(), 'D', &pairs).is_none());
    assert!(assemble_question("q".to_string(), 'E', &pairs).is_none());
}

#[test]
fn assemble_question_needs_four_pairs() {
    let three = vec![("w".to_string(), 'A'), ("x".to_string(), 'B'), ("y".to_string(), 'C')];
    assert!(assemble_question("q".to_string(), 'A', &three).is_none());
    let five = vec![
        ("v".to_string(), 'A'),
        ("w".to_string(), 'B'),
        ("x".to_string(), 'C'),
        ("y".to_string(), 'D'),
        ("z".to_string(), 'A'),
    ];
    assert!(assemble_question("q".to_string(), 'A', &five).is_none());
    assert!(assemble_question("q".to_string(), 'A', &Vec::new()).is_none());
}

#[test]
fn shuffle_keeps_the_four_options() {
    let row = record(&["C", "Largest planet?", "Mars", "Venus", "Jupiter", "Mercury"]);
    for _ in 0..200 {
        let q = shuffle_row(&row).unwrap();
        assert_eq!(q.question, "Largest planet?");
        assert_eq!(q.options.len(), 4);
        assert_eq!(
            sorted(q.options.clone()),
            sorted(record(&["Mars", "Venus", "Jupiter", "Mercury"]))
        );
        let mut letters = q.option_mapping.clone();
        letters.sort();
        assert_eq!(letters, vec!['A', 'B', 'C', 'D']);
    }
}

#[test]
fn shuffle_keeps_each_option_with_its_letter() {
    let row = record(&["B", "q", "first", "second", "third", "fourth"]);
    for _ in 0..200 {
        let q = shuffle_row(&row).unwrap();
        for slot in 0..4 {
            let column = position_of_letter(q.option_mapping[slot]).unwrap();
            assert_eq!(q.options[slot], row[2 + column]);
        }
    }
}

#[test]
fn answer_leads_back_to_the_correct_text() {
    let row = record(&["D", "q", "first", "second", "third", "fourth"]);
    for _ in 0..200 {
        let q = shuffle_row(&row).unwrap();
        let slot = answer_slot(&q);
        assert_eq!(q.option_mapping[slot], 'D');
        assert_eq!(q.options[slot], "fourth");
        let carriers = q.option_mapping.iter().filter(|c| **c == 'D').count();
        assert_eq!(carriers, 1);
    }
}

#[test]
fn two_plus_two_example() {
    let row = record(&["A", "What is 2+2?", "4", "3", "5", "6"]);
    for _ in 0..500 {
        let q = shuffle_row(&row).unwrap();
        assert_eq!(q.question, "What is 2+2?");
        assert_eq!(sorted(q.options.clone()), sorted(record(&["4", "3", "5", "6"])));
        assert_eq!(q.answer.chars().count(), 1);
        let slot = answer_slot(&q);
        assert_eq!(q.option_mapping[slot], 'A');
        assert_eq!(q.options[slot], "4");
    }
}

#[test]
fn duplicated_option_texts_are_kept() {
    let row = record(&["B", "q", "same", "same", "other", "same"]);
    for _ in 0..100 {
        let q = shuffle_row(&row).unwrap();
        assert_eq!(sorted(q.options.clone()), sorted(record(&["same", "same", "other", "same"])));
        let slot = answer_slot(&q);
        assert_eq!(q.option_mapping[slot], 'B');
        assert_eq!(q.options[slot], "same");
    }
}

#[test]
fn shuffle_does_change_the_order() {
    let row = record(&["A", "q", "1", "2", "3", "4"]);
    let mut moved = false;
    for _ in 0..400 {
        let q = shuffle_row(&row).unwrap();
        if q.option_mapping != vec!['A', 'B', 'C', 'D'] {
            moved = true;
        }
    }
    assert!(moved);
}

#[test]
fn correct_answer_lands_on_every_slot_about_equally_often() {
    let row = record(&["A", "q", "1", "2", "3", "4"]);
    let mut counts = [0usize; 4];
    let trials = 8000;
    for _ in 0..trials {
        let q = shuffle_row(&row).unwrap();
        counts[answer_slot(&q)] += 1;
    }
    assert_eq!(counts.iter().sum::<usize>(), trials);
    for count in counts {
        assert!(count > 1700 && count < 2300, "count {count} is far from a quarter");
    }
}

#[test]
fn only_the_first_character_of_the_answer_field_counts() {
    let row = record(&["Cx", "q", "1", "2", "3", "4"]);
    let q = shuffle_row(&row).unwrap();
    let slot = answer_slot(&q);
    assert_eq!(q.options[slot], "3");
}

#[test]
fn row_with_too_few_fields_is_not_usable() {
    assert!(shuffle_row(&record(&["A", "q", "1", "2", "3"])).is_none());
    assert!(shuffle_row(&record(&[])).is_none());
}

#[test]
fn row_with_other_answer_letter_is_not_usable() {
    assert!(shuffle_row(&record(&["E", "q", "1", "2", "3", "4"])).is_none());
    assert!(shuffle_row(&record(&["a", "q", "1", "2", "3", "4"])).is_none());
    assert!(shuffle_row(&record(&["", "q", "1", "2", "3", "4"])).is_none());
    assert!(shuffle_row(&record(&["1", "q", "1", "2", "3", "4"])).is_none());
}

#[test]
fn row_with_extra_fields_is_usable() {
    let q = shuffle_row(&record(&["B", "q", "1", "2", "3", "4", "note"])).unwrap();
    assert_eq!(sorted(q.options.clone()), sorted(record(&["1", "2", "3", "4"])));
}
