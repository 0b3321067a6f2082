//! The executable typing-challenge state machine.
//!
//! [`WordsChallengeModel`] owns the target text, the typing cursor, the set
//! of mistyped positions, the completion flag and the timing data.  Every
//! mutation consumes the old state and returns a new one; each operation is
//! verified against the spec functions of [`crate::challenge`].

use vstd::prelude::*;

use crate::challenge::{
    num_words, step, step_backspace, step_char, word_starts, ChallengeView, Key,
};
use std::collections::HashSet;

verus! {

broadcast use vstd::std_specs::hash::group_hash_axioms;

/// One typing challenge: a fixed target text and the progress of the user
/// through it.  `text_length` and `text_word_count` cache the length and the
/// space-delimited word count of `text`; [`WordsChallengeModel::wf`] ties
/// them to the text.  Times are clock readings in milliseconds; rates are
/// recorded in tenths of a word per minute.
#[derive(Debug)]
pub struct WordsChallengeModel {
    pub text: Vec<char>,
    pub text_length: usize,
    pub text_word_count: usize,
    pub current_pos: usize,
    pub finished: bool,
    pub incorrect_indices: HashSet<usize>,
    pub start_time: Option<u64>,
    pub end_time: Option<u64>,
    pub running_wpm: Vec<u128>,
}

impl View for WordsChallengeModel {
    type V = ChallengeView;

    open spec fn view(&self) -> ChallengeView {
        ChallengeView {
            text: self.text@,
            cursor: self.current_pos as int,
            finished: self.finished,
            mistakes: self.incorrect_indices@,
            start_time: self.start_time,
            end_time: self.end_time,
            samples: self.running_wpm@,
        }
    }
}

impl WordsChallengeModel {
    /// Well-formedness: the cached length and word count agree with the
    /// text, the cursor is inside `[0, text_length]`, every mistyped
    /// position is a valid text index, and an end time implies a start time.
    pub open spec fn wf(self) -> bool {
        &&& self.text_length == self.text@.len()
        &&& self.text_word_count == num_words(self.text@)
        &&& self.current_pos <= self.text_length
        &&& forall|i: usize| self.incorrect_indices@.contains(i) ==> i < self.text_length
        &&& self.end_time is Some ==> self.start_time is Some
    }
}

/// The number of space-delimited words in `text`, counted as the positions
/// where a word starts.
pub fn count_words(text: &Vec<char>) -> (count: usize)
    ensures
        count == num_words(text@),
{
    let n = text.len();
    let mut count: usize = 0;
    let mut i: usize = 0;
    while i < n
        invariant
            i <= n,
            n == text@.len(),
            count == word_starts(text@, i as int),
            count <= i,
        decreases n - i,
    {
        if text[i] != ' ' && (i == 0 || text[i - 1] == ' ') {
            count = count + 1;
        }
        i = i + 1;
    }
    count
}

/// The filler word every generated challenge text is built from, with its
/// trailing separator.
pub open spec fn filler_word() -> Seq<char> {
    seq!['b', 'o', 'n', 'g', 'l', 'e', ' ']
}

/// The target text of a generated challenge: the filler word repeated
/// `n` times.
pub open spec fn filler_text(n: nat) -> Seq<char>
    decreases n,
{
    if n == 0 {
        Seq::empty()
    } else {
        filler_text((n - 1) as nat) + filler_word()
    }
}

/// `word_starts` looks only at the first `upto` characters of a text.
proof fn lemma_word_starts_prefix_agree(a: Seq<char>, b: Seq<char>, upto: int)
    requires
        0 <= upto <= a.len(),
        upto <= b.len(),
        forall|i: int| 0 <= i < upto ==> a[i] == b[i],
    ensures
        word_starts(a, upto) == word_starts(b, upto),
    decreases upto,
{
    if upto > 0 {
        lemma_word_starts_prefix_agree(a, b, upto - 1);
    }
}

/// Appending one filler word to a text that is empty or ends in a space adds
/// exactly one word: the word starts right at the seam and its trailing
/// separator starts none.
proof fn lemma_filler_word_append(prefix: Seq<char>)
    requires
        prefix.len() == 0 || prefix[prefix.len() - 1] == ' ',
    ensures
        num_words(prefix + filler_word()) == num_words(prefix) + 1,
{
    let t = prefix + filler_word();
    let l = prefix.len() as int;
    assert(t[l] == 'b');
    assert(t[l + 1] == 'o');
    assert(t[l + 2] == 'n');
    assert(t[l + 3] == 'g');
    assert(t[l + 4] == 'l');
    assert(t[l + 5] == 'e');
    assert(t[l + 6] == ' ');
    if l > 0 {
        assert(t[l - 1] == ' ');
    }
    lemma_word_starts_prefix_agree(t, prefix, l);
    assert(word_starts(t, l + 1) == word_starts(t, l) + 1);
    assert(word_starts(t, l + 2) == word_starts(t, l + 1));
    assert(word_starts(t, l + 3) == word_starts(t, l + 2));
    assert(word_starts(t, l + 4) == word_starts(t, l + 3));
    assert(word_starts(t, l + 5) == word_starts(t, l + 4));
    assert(word_starts(t, l + 6) == word_starts(t, l + 5));
    assert(word_starts(t, l + 7) == word_starts(t, l + 6));
}

/// The generated text over `n` filler words is `7 * n` characters long,
/// holds exactly `n` words, and ends with a space when non-empty.
pub proof fn lemma_filler_text_words(n: nat)
    ensures
        filler_text(n).len() == 7 * n,
        num_words(filler_text(n)) == n,
        n > 0 ==> filler_text(n)[filler_text(n).len() - 1] == ' ',
    decreases n,
{
    if n > 0 {
        let prefix = filler_text((n - 1) as nat);
        lemma_filler_text_words((n - 1) as nat);
        lemma_filler_word_append(prefix);
        assert(filler_text(n)[7 * n - 1] == filler_word()[6]);
    }
}

/// Relies on `std::time::SystemTime::now`: the current clock reading,
/// converted to whole milliseconds since the Unix epoch (zero for a clock
/// reading before the epoch).  Nothing is assumed of the value.
#[verifier::external_body]
pub(crate) fn now_millis() -> u64 {
    match std::time::SystemTime::now().duration_since(std::time::UNIX_EPOCH) {
        Ok(d) => d.as_millis() as u64,
        Err(_) => 0,
    }
}

impl WordsChallengeModel {
    /// A fresh challenge over the given target text: cursor at the start,
    /// no mistakes, clock not yet started, no samples.
    pub fn from_text(text: Vec<char>) -> (result: Self)
        ensures
            result.wf(),
            result@ == (ChallengeView {
                text: text@,
                cursor: 0,
                finished: false,
                mistakes: Set::<usize>::empty(),
                start_time: None::<u64>,
                end_time: None::<u64>,
                samples: Seq::<u128>::empty(),
            }),
    {
        let text_length = text.len();
        let text_word_count = count_words(&text);
        let result = WordsChallengeModel {
            text,
            text_length,
            text_word_count,
            current_pos: 0,
            finished: false,
            incorrect_indices: HashSet::new(),
            start_time: None,
            end_time: None,
            running_wpm: Vec::new(),
        };
        proof {
            assert(result@ =~= ChallengeView {
                text: result.text@,
                cursor: 0,
                finished: false,
                mistakes: Set::<usize>::empty(),
                start_time: None::<u64>,
                end_time: None::<u64>,
                samples: Seq::<u128>::empty(),
            });
        }
        result
    }

    /// A challenge in a caller-chosen intermediate state.  The length and
    /// word-count caches are derived from the text, so the result is
    /// well formed whenever the given cursor, mistyped positions and times
    /// are consistent with it.
    pub fn from_parts(
        text: Vec<char>,
        current_pos: usize,
        finished: bool,
        incorrect_indices: HashSet<usize>,
        start_time: Option<u64>,
        end_time: Option<u64>,
        running_wpm: Vec<u128>,
    ) -> (result: Self)
        requires
            current_pos <= text@.len(),
            forall|i: usize| incorrect_indices@.contains(i) ==> i < text@.len(),
            end_time is Some ==> start_time is Some,
        ensures
            result.wf(),
            result@ == (ChallengeView {
                text: text@,
                cursor: current_pos as int,
                finished: finished,
                mistakes: incorrect_indices@,
                start_time: start_time,
                end_time: end_time,
                samples: running_wpm@,
            }),
    {
        let text_length = text.len();
        let text_word_count = count_words(&text);
        WordsChallengeModel {
            text,
            text_length,
            text_word_count,
            current_pos,
            finished,
            incorrect_indices,
            start_time,
            end_time,
            running_wpm,
        }
    }

    /// A fresh challenge whose text is the filler word repeated `num_words`
    /// times.
    pub fn generate(num_words: usize) -> (result: Self)
        requires
            num_words <= usize::MAX / 7,
        ensures
            result.wf(),
            result@ == (ChallengeView {
                text: filler_text(num_words as nat),
                cursor: 0,
                finished: false,
                mistakes: Set::<usize>::empty(),
                start_time: None::<u64>,
                end_time: None::<u64>,
                samples: Seq::<u128>::empty(),
            }),
            result.text_length == 7 * num_words,
            result.text_word_count == num_words,
    {
        proof {
            lemma_filler_text_words(num_words as nat);
        }
        let mut text: Vec<char> = Vec::new();
        let mut i: usize = 0;
        while i < num_words
            invariant
                i <= num_words,
                num_words <= usize::MAX / 7,
                text@ == filler_text(i as nat),
                text@.len() == 7 * i,
            decreases num_words - i,
        {
            text.push('b');
            text.push('o');
            text.push('n');
            text.push('g');
            text.push('l');
            text.push('e');
            text.push(' ');
            i = i + 1;
            proof {
                assert(text@ =~= filler_text(i as nat));
            }
        }
        Self::from_text(text)
    }

    /// Whether the state machine may be handed this keystroke: a finished
    /// challenge accepts no further character or backspace input.  Callers
    /// outside the verified library test this before every keystroke they
    /// forward.
    pub fn accepts_input(&self, key: Key) -> (r: bool)
        ensures
            r == !(self.finished && !(key is Other)),
    {
        match key {
            Key::Char(_) => !self.finished,
            Key::Backspace => !self.finished,
            Key::Other => true,
        }
    }

    /// A printable character is submitted at clock reading `now_ms`.
    fn handle_character(self, input_char: char, now_ms: u64) -> (result: Self)
        requires
            self.wf(),
            !self.finished,
        ensures
            result@ == step_char(self@, input_char, now_ms),
            result.text_length == self.text_length,
            result.text_word_count == self.text_word_count,
    {
        let ghost s0 = self@;
        // The final character was previously submitted incorrectly; only a
        // space resolves the challenge, and nothing else can be typed.
        if self.current_pos == self.text_length {
            if input_char == ' ' {
                let result = WordsChallengeModel {
                    finished: true,
                    end_time: Some(now_ms),
                    ..self
                };
                proof {
                    assert(result@ =~= step_char(s0, input_char, now_ms));
                }
                return result;
            }
            proof {
                assert(self@ =~= step_char(s0, input_char, now_ms));
            }
            return self;
        }

        let pos = self.current_pos;
        let expected_char = self.text[pos];
        let is_correct = input_char == expected_char;
        let is_finished = pos == self.text_length - 1 && is_correct;
        let end_time = if is_finished {
            Some(now_ms)
        } else {
            None
        };

        let WordsChallengeModel {
            text,
            text_length,
            text_word_count,
            current_pos: _,
            finished: _,
            mut incorrect_indices,
            start_time,
            end_time: _,
            running_wpm,
        } = self;
        if !is_correct {
            incorrect_indices.insert(pos);
        }
        let result = WordsChallengeModel {
            text,
            text_length,
            text_word_count,
            current_pos: pos + 1,
            finished: is_finished,
            incorrect_indices,
            start_time,
            end_time,
            running_wpm,
        };
        proof {
            assert(result@ =~= step_char(s0, input_char, now_ms));
        }
        result
    }

    /// A backspace moves the cursor back one position, saturating at the
    /// start; recorded mistakes persist.
    fn handle_backspace(self) -> (result: Self)
        requires
            self.wf(),
            !self.finished,
        ensures
            result@ == step_backspace(self@),
            result.text_length == self.text_length,
            result.text_word_count == self.text_word_count,
    {
        let ghost s0 = self@;
        let current_pos = if self.current_pos == 0 {
            0
        } else {
            self.current_pos - 1
        };
        let result = WordsChallengeModel { current_pos, ..self };
        proof {
            assert(result@ =~= step_backspace(s0));
        }
        result
    }

    /// One keystroke arriving at clock reading `now_ms` is dispatched: the
    /// clock starts on the first key of any kind, a character or backspace
    /// updates typing progress, and any other key changes nothing further.
    /// A finished challenge must receive no character or backspace (see
    /// [`Self::accepts_input`]).
    pub fn handle_challenge_input_at(self, key: Key, now_ms: u64) -> (result: Self)
        requires
            self.wf(),
            self.finished ==> key is Other,
        ensures
            result.wf(),
            result@ == step(self@, key, now_ms),
    {
        let ghost s0 = self@;
        let start_time = if self.start_time.is_none() {
            Some(now_ms)
        } else {
            self.start_time
        };
        let new_self = match key {
            Key::Char(c) => self.handle_character(c, now_ms),
            Key::Backspace => self.handle_backspace(),
            Key::Other => self,
        };
        let result = WordsChallengeModel { start_time, ..new_self };
        proof {
            assert(result@ =~= step(s0, key, now_ms));
        }
        result
    }

    /// One keystroke arriving now: reads the clock and dispatches.  The
    /// resulting state is the stepped state for some clock reading.
    pub fn handle_challenge_input(self, key: Key) -> (result: Self)
        requires
            self.wf(),
            self.finished ==> key is Other,
        ensures
            result.wf(),
            exists|now: u64| result@ == step(self@, key, now),
    {
        let ghost s0 = self@;
        let now = now_millis();
        let result = self.handle_challenge_input_at(key, now);
        proof {
            assert(result@ == step(s0, key, now));
        }
        result
    }
}

} // verus!
