//! Keystroke handling: cursor movement, mistake recording, completion.

use std::collections::HashSet;

use typee::challenge::Key;
use typee::model::WordsChallengeModel;

fn model_with_text(text: &str) -> WordsChallengeModel {
    WordsChallengeModel::from_text(text.chars().collect())
}

fn model_with_text_and_pos(text: &str, pos: usize) -> WordsChallengeModel {
    WordsChallengeModel::from_parts(
        text.chars().collect(),
        pos,
        false,
        HashSet::new(),
        None,
        None,
        Vec::new(),
    )
}

#[test]
fn correct_character_advances_challenge() {
    let model = model_with_text("test");
    let result = model.handle_challenge_input(Key::Char('t'));
    assert_eq!(result.current_pos, 1);
}

#[test]
fn incorrect_character_advances_challenge() {
    let model = model_with_text("test");
    let result = model.handle_challenge_input(Key::Char('x'));
    assert_eq!(result.current_pos, 1);
}

#[test]
fn correct_space_advances_challenge() {
    let model = model_with_text_and_pos("space test", 5);
    let result = model.handle_challenge_input(Key::Char(' '));
    assert_eq!(result.current_pos, 6);
}

#[test]
fn incorrect_slace_advances_challenge() {
    let model = model_with_text_and_pos("space test", 2);
    let result = model.handle_challenge_input(Key::Char(' '));
    assert_eq!(result.current_pos, 3);
}

#[test]
fn backspace_at_start_does_nothing() {
    let model = model_with_text("test");
    let result = model.handle_challenge_input(Key::Backspace);
    assert_eq!(result.current_pos, 0);
}

#[test]
fn backspace_moves_backwards() {
    let model = model_with_text_and_pos("test", 2);
    let result = model.handle_challenge_input(Key::Backspace);
    assert_eq!(result.current_pos, 1);
}

#[test]
fn correct_final_character_finished_challenge() {
    let model = model_with_text_and_pos("test", 3);
    let result = model.handle_challenge_input(Key::Char('t'));
    assert_eq!(result.finished, true);
}

#[test]
fn incorrect_final_character_does_not_finish_challenge() {
    let model = model_with_text_and_pos("test", 3);
    let result = model.handle_challenge_input(Key::Char('x'));
    assert_eq!(result.current_pos, 4);
    assert_eq!(result.finished, false);
}

#[test]
fn further_incorrect_characters_are_not_registered() {
    let model = model_with_text_and_pos("test", 3);
    let result = model
        .handle_challenge_input(Key::Char('x'))
        .handle_challenge_input(Key::Char('x'))
        .handle_challenge_input(Key::Char('x'));

    assert_eq!(result.current_pos, 4);
    assert_eq!(result.finished, false);
}

#[test]
fn space_after_incorrect_final_character_finishes_challenge() {
    let model = model_with_text_and_pos("test", 3);
    let result = model
        .handle_challenge_input(Key::Char('x'))
        .handle_challenge_input(Key::Char(' '));

    assert_eq!(result.current_pos, 4);
    assert_eq!(result.finished, true);
}

#[test]
fn space_as_final_incorrect_letter_does_not_finished_challenge() {
    let model = model_with_text_and_pos("test", 3);
    let result = model.handle_challenge_input(Key::Char(' '));

    assert_eq!(result.current_pos, 4);
    assert_eq!(result.finished, false);
}

#[test]
#[should_panic]
fn further_characters_after_finished_panics() {
    let model = model_with_text("ab");
    let model = model
        .handle_challenge_input(Key::Char('a'))
        .handle_challenge_input(Key::Char('b'));

    // Character input on a finished challenge violates the state machine's
    // contract; enforce it here exactly as the application loop does.
    let key = Key::Char('c');
    if !model.accepts_input(key) {
        panic!("challenge should not be handling input after finishing");
    }
    let _ = model.handle_challenge_input(key);
}

#[test]
fn backspace_with_incorrect_final_character_moves_backwards() {
    let model = model_with_text_and_pos("test", 3);
    let result = model.handle_challenge_input(Key::Char('x'));
    assert_eq!(result.current_pos, 4);

    let result = result.handle_challenge_input(Key::Backspace);
    assert_eq!(result.current_pos, 3);
}

#[test]
fn other_key_leaves_finished_challenge_unchanged() {
    let model = model_with_text("ab");
    let finished = model
        .handle_challenge_input(Key::Char('a'))
        .handle_challenge_input(Key::Char('b'));
    assert!(finished.finished);
    let end_time = finished.end_time;

    let result = finished.handle_challenge_input(Key::Other);
    assert!(result.finished);
    assert_eq!(result.current_pos, 2);
    assert_eq!(result.end_time, end_time);
    assert!(result.incorrect_indices.is_empty());
}

#[test]
fn backspace_then_retype_restores_cursor() {
    let model = model_with_text("dog");
    let mistyped = model
        .handle_challenge_input(Key::Char('d'))
        .handle_challenge_input(Key::Char('x'));
    assert_eq!(mistyped.current_pos, 2);
    assert!(mistyped.incorrect_indices.contains(&1));

    let retyped = mistyped
        .handle_challenge_input(Key::Backspace)
        .handle_challenge_input(Key::Char('o'));
    assert_eq!(retyped.current_pos, 2);
    // The recorded mistake persists even though the retype was correct.
    assert!(retyped.incorrect_indices.contains(&1));
}

#[test]
fn empty_text_finishes_on_space() {
    let model = WordsChallengeModel::generate(0);
    assert_eq!(model.text_length, 0);
    assert!(!model.finished);

    let result = model.handle_challenge_input(Key::Char(' '));
    assert!(result.finished);
}

#[test]
fn generated_text_repeats_filler() {
    let model = WordsChallengeModel::generate(2);
    let text: String = model.text.iter().collect();
    assert_eq!(text, "bongle bongle ");
    assert_eq!(model.text_length, 14);
    assert_eq!(model.text_word_count, 2);
    assert_eq!(model.current_pos, 0);
    assert!(!model.finished);
    assert_eq!(model.start_time, None);
    assert_eq!(model.end_time, None);
}
