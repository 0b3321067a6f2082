//! Derived statistics of a typing challenge: accuracy, the final
//! words-per-minute rate, and periodic words-per-minute samples.
//!
//! Percentages and rates are reported in tenths (of a percent, of a word per
//! minute), rounded half-up, so that every value is an exact integer.

use vstd::prelude::*;

use crate::challenge::{
    accuracy_tenths, poll_at, round_div, sample_at, spaces_in_prefix, wpm_tenths, ChallengeView,
};
use crate::model::WordsChallengeModel;

verus! {

broadcast use vstd::std_specs::hash::group_hash_axioms;

/// A set of valid text indices is finite, no larger than the text, and, when
/// inhabited, forces the text to be non-empty; the accuracy derived from it
/// lies between 0 and 100 percent.
pub proof fn lemma_accuracy_bounds(s: ChallengeView)
    requires
        s.text.len() <= usize::MAX,
        forall|i: usize| s.mistakes.contains(i) ==> i < s.text.len(),
    ensures
        s.mistakes.finite(),
        s.mistakes.len() <= s.text.len(),
        !s.mistakes.is_empty() ==> s.text.len() >= 1,
        0 <= accuracy_tenths(s) <= 1000,
{
    broadcast use vstd::set_lib::range_set_properties;

    let hi = s.text.len() as usize;
    let full_range = Set::<usize>::range(0, hi);
    assert(s.mistakes.subset_of(full_range));
    vstd::set_lib::lemma_len_subset(s.mistakes, full_range);
    if !s.mistakes.is_empty() {
        let witness = s.mistakes.choose();
        assert(s.mistakes.contains(witness));
        let n = s.text.len() as int;
        let m = s.mistakes.len() as int;
        if m == 0 {
            s.mistakes.lemma_len0_is_empty();
        }
        assert(1 <= m <= n);
        let a = 1000 * (n - m);
        assert(2 * a + n <= 2001 * n);
        vstd::arithmetic::div_mod::lemma_div_is_ordered(0, 2 * a + n, 2 * n);
        vstd::arithmetic::div_mod::lemma_fundamental_div_mod_converse(0, 2 * n, 0, 0);
        vstd::arithmetic::div_mod::lemma_div_is_ordered(2 * a + n, 2001 * n, 2 * n);
        vstd::arithmetic::div_mod::lemma_fundamental_div_mod_converse(
            2001 * n,
            2 * n,
            1000,
            n,
        );
        assert(round_div(a, n) <= 1000);
    }
}

/// The number of spaces among the first `upto` characters of `text`.
pub fn count_spaces_prefix(text: &Vec<char>, upto: usize) -> (count: usize)
    requires
        upto <= text@.len(),
    ensures
        count == spaces_in_prefix(text@, upto as int),
{
    let mut count: usize = 0;
    let mut i: usize = 0;
    while i < upto
        invariant
            i <= upto <= text@.len(),
            count == spaces_in_prefix(text@, i as int),
            count <= i,
        decreases upto - i,
    {
        if text[i] == ' ' {
            count = count + 1;
        }
        i = i + 1;
    }
    count
}

impl WordsChallengeModel {
    /// The typing accuracy in tenths of a percent, between 0 and 1000: the
    /// share of text positions never submitted incorrectly, rounded half-up
    /// to one decimal place.  With no recorded mistakes the accuracy is
    /// exactly 100 percent, an empty text included.
    pub fn accuracy_percent(&self) -> (r: u64)
        requires
            self.wf(),
        ensures
            r == accuracy_tenths(self@),
            r <= 1000,
    {
        proof {
            lemma_accuracy_bounds(self@);
        }
        if self.incorrect_indices.is_empty() {
            return 1000;
        }

        let mistake_count = self.incorrect_indices.len();
        let correct_letters = self.text_length - mistake_count;
        let numerator: u128 = 2000u128 * (correct_letters as u128) + (self.text_length as u128);
        let denominator: u128 = 2u128 * (self.text_length as u128);
        let rounded = numerator / denominator;
        proof {
            assert(rounded == accuracy_tenths(self@));
        }
        rounded as u64
    }

    /// The final typing rate of a finished challenge, in tenths of a word
    /// per minute: the word count of the whole text divided by the elapsed
    /// minutes, rounded half-up to one decimal place.  Calling this before
    /// the challenge has started and finished, or with no elapsed time, is a
    /// caller error and is excluded outright.
    pub fn wpm(self) -> (r: u128)
        requires
            self.wf(),
            self.start_time is Some,
            self.end_time is Some,
            self.start_time->0 < self.end_time->0,
        ensures
            r == wpm_tenths(self@),
    {
        let start = self.start_time.unwrap();
        let end = self.end_time.unwrap();
        let elapsed_ms = end - start;
        let numerator: u128 = 1200000u128 * (self.text_word_count as u128) + (elapsed_ms as u128);
        let denominator: u128 = 2u128 * (elapsed_ms as u128);
        numerator / denominator
    }

    /// One words-per-minute reading, taken at clock time `now_ms`, is
    /// appended to the sample log; nothing else changes.  A challenge that
    /// has not started, has no completed word before its cursor, or whose
    /// clock has not advanced past its start samples zero.  Polling a
    /// finished challenge (one with an end time) is a caller error and is
    /// excluded outright.
    pub fn poll_wpm_at(self, now_ms: u64) -> (result: Self)
        requires
            self.wf(),
            self.end_time is None,
        ensures
            result.wf(),
            result@ == poll_at(self@, now_ms),
    {
        let ghost s0 = self@;
        let sample: u128;
        if self.start_time.is_none() {
            sample = 0;
        } else {
            let start = self.start_time.unwrap();
            let typed_prefix = if self.current_pos < self.text_length {
                self.current_pos + 1
            } else {
                self.text_length
            };
            let completed = count_spaces_prefix(&self.text, typed_prefix);
            if completed == 0 || now_ms <= start {
                sample = 0;
            } else {
                let elapsed_ms = now_ms - start;
                let numerator: u128 = 1200000u128 * (completed as u128) + (elapsed_ms as u128);
                let denominator: u128 = 2u128 * (elapsed_ms as u128);
                sample = numerator / denominator;
            }
        }
        proof {
            assert(sample == sample_at(s0, now_ms));
        }

        let WordsChallengeModel {
            text,
            text_length,
            text_word_count,
            current_pos,
            finished,
            incorrect_indices,
            start_time,
            end_time,
            mut running_wpm,
        } = self;
        running_wpm.push(sample);
        let result = WordsChallengeModel {
            text,
            text_length,
            text_word_count,
            current_pos,
            finished,
            incorrect_indices,
            start_time,
            end_time,
            running_wpm,
        };
        proof {
            assert(result@ =~= poll_at(s0, now_ms));
        }
        result
    }

    /// One words-per-minute reading, taken now: reads the clock and polls.
    /// The resulting state is the polled state for some clock reading.
    pub fn poll_wpm(self) -> (result: Self)
        requires
            self.wf(),
            self.end_time is None,
        ensures
            result.wf(),
            exists|now: u64| result@ == poll_at(self@, now),
    {
        let ghost s0 = self@;
        let now = crate::model::now_millis();
        let result = self.poll_wpm_at(now);
        proof {
            assert(result@ == poll_at(s0, now));
        }
        result
    }
}

} // verus!
