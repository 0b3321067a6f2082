//! The mathematical model of a typing challenge.
//!
//! A challenge presents a fixed target text; the user reproduces it one
//! keystroke at a time.  The spec functions here define, over plain
//! mathematical values, how one keystroke transforms a challenge state and
//! what the derived statistics (accuracy, words per minute) mean.  The
//! executable state machine in [`crate::model`] is verified against these
//! definitions, and [`crate::laws`] proves the global properties of the
//! transition relation.

use vstd::prelude::*;

verus! {

/// A keystroke as the challenge sees it: a printable character, a backspace,
/// or anything else (which never changes typing progress).
#[derive(Clone, Copy, Debug)]
pub enum Key {
    Char(char),
    Backspace,
    Other,
}

/// The abstract state of one typing challenge.
///
/// - `text` is the fixed target text.
/// - `cursor` is the index of the next character awaiting submission; the
///   sentinel value `text.len()` means the final character was submitted
///   incorrectly and the challenge awaits a resolving space ("trailing
///   mistake").
/// - `mistakes` holds every index whose character was submitted incorrectly
///   at least once; it never shrinks, so accuracy measures first-attempt
///   correctness.
/// - `start_time` / `end_time` are clock readings in milliseconds, taken at
///   the first keystroke and at completion.
/// - `samples` is the append-only log of polled words-per-minute readings,
///   in tenths of a word per minute.
#[verifier::ext_equal]
pub ghost struct ChallengeView {
    pub text: Seq<char>,
    pub cursor: int,
    pub finished: bool,
    pub mistakes: Set<usize>,
    pub start_time: Option<u64>,
    pub end_time: Option<u64>,
    pub samples: Seq<u128>,
}

/// The invariant of a challenge state reachable from a fresh challenge:
/// the cursor stays inside `[0, text.len()]`, every mistyped position is a
/// valid text index, a finished challenge rests at the end of its text with
/// its end time stamped, and an end time implies a start time.
pub open spec fn inv(s: ChallengeView) -> bool {
    &&& s.text.len() <= usize::MAX
    &&& 0 <= s.cursor <= s.text.len()
    &&& forall|i: usize| s.mistakes.contains(i) ==> i < s.text.len()
    &&& s.finished ==> s.cursor == s.text.len()
    &&& s.finished ==> s.end_time is Some
    &&& s.end_time is Some ==> s.start_time is Some
}

/// The number of words in `text`: maximal runs of non-space characters.
/// `word_starts(text, upto)` counts the word starts among the first `upto`
/// characters; a word starts wherever a non-space character is at the start
/// of the text or right after a space.
pub open spec fn word_starts(text: Seq<char>, upto: int) -> nat
    decreases upto,
{
    if upto <= 0 || upto > text.len() {
        0
    } else {
        word_starts(text, upto - 1) + (if is_word_start(text, upto - 1) {
            1nat
        } else {
            0nat
        })
    }
}

/// Whether a word starts at index `i` of `text`.
pub open spec fn is_word_start(text: Seq<char>, i: int) -> bool {
    &&& 0 <= i < text.len()
    &&& text[i] != ' '
    &&& (i == 0 || text[i - 1] == ' ')
}

/// The number of space-delimited words in `text`.
pub open spec fn num_words(text: Seq<char>) -> nat {
    word_starts(text, text.len() as int)
}

/// The number of spaces among the first `upto` characters of `text`.
pub open spec fn spaces_in_prefix(text: Seq<char>, upto: int) -> nat
    decreases upto,
{
    if upto <= 0 || upto > text.len() {
        0
    } else {
        spaces_in_prefix(text, upto - 1) + (if text[upto - 1] == ' ' {
            1nat
        } else {
            0nat
        })
    }
}

/// `a / b` rounded half-up to the nearest integer, for `b > 0`.  Used to
/// round rates and percentages to one decimal place after scaling by ten.
pub open spec fn round_div(a: int, b: int) -> int
    recommends
        b > 0,
{
    (2 * a + b) / (2 * b)
}

/// How a printable character transforms a challenge state, given the clock
/// reading `now` in milliseconds.  A finished challenge is left untouched
/// (the executable machine refuses such input outright).  At the trailing
/// mistake position only a space resolves the challenge.  Otherwise the
/// cursor always advances; a wrong character records the position as
/// mistyped, and a correct final character finishes the challenge.
pub open spec fn step_char(s: ChallengeView, c: char, now: u64) -> ChallengeView {
    if s.finished {
        s
    } else if s.cursor == s.text.len() {
        if c == ' ' {
            ChallengeView { finished: true, end_time: Some(now), ..s }
        } else {
            s
        }
    } else {
        let correct = c == s.text[s.cursor];
        let done = s.cursor == s.text.len() - 1 && correct;
        ChallengeView {
            cursor: s.cursor + 1,
            finished: done,
            mistakes: if correct {
                s.mistakes
            } else {
                s.mistakes.insert(s.cursor as usize)
            },
            end_time: if done {
                Some(now)
            } else {
                None
            },
            ..s
        }
    }
}

/// How a backspace transforms a challenge state: the cursor moves back one
/// position, saturating at zero, and recorded mistakes persist.  A finished
/// challenge is left untouched (the executable machine refuses such input).
pub open spec fn step_backspace(s: ChallengeView) -> ChallengeView {
    if s.finished {
        s
    } else {
        ChallengeView {
            cursor: if s.cursor == 0 {
                0
            } else {
                s.cursor - 1
            },
            ..s
        }
    }
}

/// The start time after a keystroke: the clock starts on the first key of
/// any kind and is never reset.
pub open spec fn step_start_time(s: ChallengeView, now: u64) -> Option<u64> {
    if s.start_time is Some {
        s.start_time
    } else {
        Some(now)
    }
}

/// How one keystroke transforms a challenge state, given the clock reading
/// `now` in milliseconds.
pub open spec fn step(s: ChallengeView, key: Key, now: u64) -> ChallengeView {
    let stepped = match key {
        Key::Char(c) => step_char(s, c, now),
        Key::Backspace => step_backspace(s),
        Key::Other => s,
    };
    ChallengeView { start_time: step_start_time(s, now), ..stepped }
}

/// The state after a whole sequence of keystrokes, the `i`th arriving at
/// clock reading `times[i]`.
pub open spec fn run(s: ChallengeView, keys: Seq<Key>, times: Seq<u64>) -> ChallengeView
    recommends
        keys.len() == times.len(),
    decreases keys.len(),
{
    if keys.len() == 0 {
        s
    } else {
        run(step(s, keys[0], times[0]), keys.drop_first(), times.drop_first())
    }
}

/// The typing accuracy in tenths of a percent: the share of text positions
/// never submitted incorrectly, as a percentage rounded half-up to one
/// decimal place.  With no mistakes the accuracy is exactly 100 percent,
/// which also covers an empty text.
pub open spec fn accuracy_tenths(s: ChallengeView) -> int {
    if s.mistakes.is_empty() {
        1000
    } else {
        round_div(1000 * (s.text.len() - s.mistakes.len()), s.text.len() as int)
    }
}

/// The final typing rate of a finished challenge, in tenths of a word per
/// minute: the word count of the whole text divided by the elapsed minutes,
/// rounded half-up to one decimal place.  `600000 * words / elapsed_ms`
/// equals `10 * words / elapsed_minutes`.
pub open spec fn wpm_tenths(s: ChallengeView) -> int
    recommends
        s.start_time is Some,
        s.end_time is Some,
        s.start_time->0 < s.end_time->0,
{
    round_div(600000 * num_words(s.text) as int, s.end_time->0 - s.start_time->0)
}

/// The number of words already fully typed: spaces inside the prefix the
/// cursor has passed, the character under the cursor included.
pub open spec fn completed_words(s: ChallengeView) -> nat {
    spaces_in_prefix(
        s.text,
        if s.cursor + 1 <= s.text.len() {
            s.cursor + 1
        } else {
            s.text.len() as int
        },
    )
}

/// The words-per-minute reading polled at clock time `now`, in tenths of a
/// word per minute.  A challenge that has not started, has no completed
/// word, or whose clock has not advanced past its start reads zero.
pub open spec fn sample_at(s: ChallengeView, now: u64) -> u128 {
    match s.start_time {
        Some(start) => {
            let cw = completed_words(s);
            if cw == 0 || now <= start {
                0
            } else {
                round_div(600000 * cw as int, now - start) as u128
            }
        },
        None => 0,
    }
}

/// How polling transforms a challenge state: the reading at `now` is
/// appended to the sample log and nothing else changes.
pub open spec fn poll_at(s: ChallengeView, now: u64) -> ChallengeView {
    ChallengeView { samples: s.samples.push(sample_at(s, now)), ..s }
}

} // verus!
