//! Derived statistics: accuracy, final words per minute, polled samples, and
//! the timing fields around them.  Percentages and rates come back in
//! tenths, so dividing by ten recovers the one-decimal reading.

use std::collections::HashSet;

use typee::challenge::Key;
use typee::model::WordsChallengeModel;

fn fresh_model(text: &str) -> WordsChallengeModel {
    WordsChallengeModel::from_text(text.chars().collect())
}

fn timed_model(
    text: &str,
    pos: usize,
    finished: bool,
    start_time: Option<u64>,
    end_time: Option<u64>,
) -> WordsChallengeModel {
    WordsChallengeModel::from_parts(
        text.chars().collect(),
        pos,
        finished,
        HashSet::new(),
        start_time,
        end_time,
        Vec::new(),
    )
}

#[test]
fn fully_correct_gives_100_percent_accuracy() {
    let model = fresh_model("dog");

    let result = model
        .handle_challenge_input(Key::Char('d'))
        .handle_challenge_input(Key::Char('o'))
        .handle_challenge_input(Key::Char('g'));

    assert_eq!(result.accuracy_percent() as f32 / 10.0, 100.0);
}

#[test]
fn fully_correct_with_retypes_gives_100_percent_accuracy() {
    let model = fresh_model("dog");

    let result = model
        .handle_challenge_input(Key::Char('d'))
        .handle_challenge_input(Key::Char('o'))
        .handle_challenge_input(Key::Backspace)
        .handle_challenge_input(Key::Char('o'))
        .handle_challenge_input(Key::Char('g'));

    assert_eq!(result.accuracy_percent() as f32 / 10.0, 100.0);
}

#[test]
fn fully_incorrect_gives_0_percent_accuracy() {
    let model = fresh_model("dog");

    let result = model
        .handle_challenge_input(Key::Char('c'))
        .handle_challenge_input(Key::Char('a'))
        .handle_challenge_input(Key::Char('t'))
        .handle_challenge_input(Key::Char(' '));

    assert_eq!(result.accuracy_percent() as f32 / 10.0, 0.0);
}

#[test]
fn fully_incorrect_with_retypes_gives_0_percent_accuracy() {
    let model = fresh_model("an");

    let result = model
        .handle_challenge_input(Key::Char('b'))
        .handle_challenge_input(Key::Backspace)
        .handle_challenge_input(Key::Char('a'))
        .handle_challenge_input(Key::Char('x'))
        .handle_challenge_input(Key::Backspace)
        .handle_challenge_input(Key::Char('n'));

    assert_eq!(result.accuracy_percent() as f32 / 10.0, 0.0);
}

#[test]
fn some_incorrect_gives_correct_percentage() {
    let model = fresh_model("dog");

    let result = model
        .handle_challenge_input(Key::Char('d'))
        .handle_challenge_input(Key::Char('a'))
        .handle_challenge_input(Key::Char('g'));

    assert_eq!(result.accuracy_percent() as f32 / 10.0, 66.7);
}

#[test]
fn accuracy_of_fresh_challenge_is_100_percent() {
    let model = fresh_model("");
    assert_eq!(model.accuracy_percent() as f32 / 10.0, 100.0);
    let model = fresh_model("dog");
    assert_eq!(model.accuracy_percent() as f32 / 10.0, 100.0);
}

#[test]
fn challenge_should_only_start_on_first_input() {
    let model = WordsChallengeModel::generate(3);
    assert_eq!(model.start_time, None);

    let result = model.handle_challenge_input(Key::Char('a'));
    assert!(result.start_time.is_some());
}

#[test]
fn challenge_end_time_should_populate_at_completion() {
    let model = fresh_model("an");
    assert_eq!(model.end_time, None);

    let result = model.handle_challenge_input(Key::Char('a'));
    assert_eq!(result.end_time, None);

    let result = result.handle_challenge_input(Key::Char('n'));
    assert!(result.start_time.is_some());
}

#[test]
fn challenge_wpm_is_correct() {
    // Three words finished in three seconds: 60 words per minute.
    let start_time: u64 = 25_000;
    let end_time = start_time + 3_000;
    let model = timed_model("three words long", 15, true, Some(start_time), Some(end_time));

    let wpm = model.wpm();
    assert_eq!(wpm as f32 / 10.0, 60.0);
}

#[test]
fn wpm_three_words_three_minutes() {
    // Three words finished in exactly three minutes: 1 word per minute.
    let start_time: u64 = 25_000;
    let end_time = start_time + 3 * 60_000;
    let model = timed_model("three words long", 15, true, Some(start_time), Some(end_time));

    let wpm = model.wpm();
    assert_eq!(wpm as f32 / 10.0, 1.0);
}

#[test]
fn poll_wpm_should_calculate_wpm_and_store() {
    // Three completed words in two seconds: 90 words per minute.
    let now: u64 = 1_000_000;
    let start_time = now - 2_000;
    let model = timed_model("five words long this text", 15, true, Some(start_time), None);

    let result = model.poll_wpm_at(now);
    assert_eq!(result.running_wpm[0] as f32 / 10.0, 90.0);
}

#[test]
fn poll_wpm_two_minutes_in() {
    // Three completed words, two minutes after the start: 1.5 words per
    // minute.
    let now: u64 = 1_000_000;
    let start_time = now - 2 * 60_000;
    let model = timed_model("five words long this text", 15, false, Some(start_time), None);

    let result = model.poll_wpm_at(now);
    assert_eq!(result.running_wpm[0] as f32 / 10.0, 1.5);
}

#[test]
fn poll_wpm_before_start_records_zero() {
    let model = fresh_model("five words long this text");
    let result = model.poll_wpm();
    assert_eq!(result.running_wpm.len(), 1);
    assert_eq!(result.running_wpm[0], 0);
}

#[test]
fn poll_wpm_with_no_completed_words_records_zero() {
    let now: u64 = 1_000_000;
    let start_time = now - 2_000;
    let model = timed_model("five words long this text", 2, false, Some(start_time), None);

    let result = model.poll_wpm_at(now);
    assert_eq!(result.running_wpm[0], 0);
}

#[test]
fn poll_wpm_appends_to_existing_samples() {
    let now: u64 = 1_000_000;
    let start_time = now - 60_000;
    let model = timed_model("five words long this text", 15, false, Some(start_time), None);

    // One minute for three words, then another minute later the same three
    // words give half the rate.
    let polled = model.poll_wpm_at(now);
    let polled = polled.poll_wpm_at(now + 60_000);
    assert_eq!(polled.running_wpm.len(), 2);
    assert_eq!(polled.running_wpm[0] as f32 / 10.0, 3.0);
    assert_eq!(polled.running_wpm[1] as f32 / 10.0, 1.5);
}
