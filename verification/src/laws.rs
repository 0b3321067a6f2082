//! The proved laws of the typing-challenge state machine.
//!
//! Each proof function here states one global property of the transition
//! relation of [`crate::challenge`], over arbitrary texts and keystroke
//! sequences; the scenario-sized counterparts live in the crate's tests.

use vstd::prelude::*;

use crate::challenge::{
    accuracy_tenths, inv, round_div, run, step, ChallengeView, Key,
};

verus! {

/// One keystroke preserves the challenge invariant: the cursor stays in
/// `[0, text.len()]`, mistyped positions stay valid text indices, and a
/// finished challenge rests at the end of its text with its times stamped.
pub proof fn lemma_step_preserves_inv(s: ChallengeView, key: Key, now: u64)
    requires
        inv(s),
    ensures
        inv(step(s, key, now)),
{
}

/// A whole run of keystrokes preserves the challenge invariant, whatever the
/// keys and whenever they arrive.
pub proof fn lemma_run_preserves_inv(s: ChallengeView, keys: Seq<Key>, times: Seq<u64>)
    requires
        inv(s),
        keys.len() == times.len(),
    ensures
        inv(run(s, keys, times)),
    decreases keys.len(),
{
    if keys.len() != 0 {
        lemma_step_preserves_inv(s, keys[0], times[0]);
        lemma_run_preserves_inv(step(s, keys[0], times[0]), keys.drop_first(), times.drop_first());
    }
}

/// The clock reading handed to a keystroke affects only the recorded times:
/// the typing progress after a key is the same whenever it arrives.
pub proof fn lemma_step_time_independent(s: ChallengeView, key: Key, n1: u64, n2: u64)
    ensures
        step(s, key, n1).text == step(s, key, n2).text,
        step(s, key, n1).cursor == step(s, key, n2).cursor,
        step(s, key, n1).finished == step(s, key, n2).finished,
        step(s, key, n1).mistakes == step(s, key, n2).mistakes,
        step(s, key, n1).samples == step(s, key, n2).samples,
{
}

/// The set of mistyped positions never shrinks: no keystroke removes a
/// recorded mistake.
pub proof fn lemma_mistakes_monotone(s: ChallengeView, key: Key, now: u64)
    ensures
        s.mistakes.subset_of(step(s, key, now).mistakes),
{
}

/// The set of mistyped positions never shrinks over a whole run of
/// keystrokes.
pub proof fn lemma_run_mistakes_monotone(s: ChallengeView, keys: Seq<Key>, times: Seq<u64>)
    requires
        keys.len() == times.len(),
    ensures
        s.mistakes.subset_of(run(s, keys, times).mistakes),
    decreases keys.len(),
{
    if keys.len() != 0 {
        lemma_mistakes_monotone(s, keys[0], times[0]);
        lemma_run_mistakes_monotone(
            step(s, keys[0], times[0]),
            keys.drop_first(),
            times.drop_first(),
        );
    }
}

/// Backspace is a left inverse of character input on the cursor alone: from
/// any unfinished state with the cursor past at least one character, a
/// backspace followed by retyping the character it exposed restores the
/// cursor, while the recorded mistakes can only have grown.
pub proof fn lemma_backspace_retype(s: ChallengeView, t1: u64, t2: u64)
    requires
        inv(s),
        !s.finished,
        1 <= s.cursor,
    ensures
        ({
            let after = step(step(s, Key::Backspace, t1), Key::Char(s.text[s.cursor - 1]), t2);
            &&& after.cursor == s.cursor
            &&& s.mistakes.subset_of(after.mistakes)
        }),
{
    let mid = step(s, Key::Backspace, t1);
    lemma_mistakes_monotone(s, Key::Backspace, t1);
    lemma_mistakes_monotone(mid, Key::Char(s.text[s.cursor - 1]), t2);
}

/// Whether `keys` submits, in order, exactly the characters of `text` from
/// position `from` on.
pub open spec fn types_suffix_correctly(keys: Seq<Key>, text: Seq<char>, from: int) -> bool {
    &&& keys.len() == text.len() - from
    &&& forall|i: int| 0 <= i < keys.len() ==> keys[i] == Key::Char(text[from + i])
}

/// From any unfinished state with text remaining, typing the rest of the
/// text correctly finishes the challenge and records no new mistake.
proof fn lemma_type_remainder_correctly(s: ChallengeView, keys: Seq<Key>, times: Seq<u64>)
    requires
        inv(s),
        !s.finished,
        s.cursor < s.text.len(),
        types_suffix_correctly(keys, s.text, s.cursor),
        times.len() == keys.len(),
    ensures
        ({
            let t = run(s, keys, times);
            &&& t.finished
            &&& t.mistakes == s.mistakes
            &&& t.text == s.text
        }),
    decreases keys.len(),
{
    let s1 = step(s, keys[0], times[0]);
    lemma_step_preserves_inv(s, keys[0], times[0]);
    if s.cursor + 1 < s.text.len() {
        assert forall|i: int| 0 <= i < keys.drop_first().len() implies keys.drop_first()[i]
            == Key::Char(s1.text[s1.cursor + i]) by {
            assert(keys.drop_first()[i] == keys[i + 1]);
        }
        lemma_type_remainder_correctly(s1, keys.drop_first(), times.drop_first());
    }
}

/// Typing every character of the text correctly, from a fresh challenge over
/// a non-empty text, finishes the challenge with an accuracy of exactly
/// 100 percent, whenever the keystrokes arrive.  (A fresh challenge over an
/// empty text instead rests at its trailing-mistake position until a space
/// resolves it.)
pub proof fn lemma_perfect_typing(s: ChallengeView, keys: Seq<Key>, times: Seq<u64>)
    requires
        inv(s),
        !s.finished,
        s.cursor == 0,
        s.mistakes.is_empty(),
        s.text.len() > 0,
        types_suffix_correctly(keys, s.text, 0),
        times.len() == keys.len(),
    ensures
        run(s, keys, times).finished,
        accuracy_tenths(run(s, keys, times)) == 1000,
{
    lemma_type_remainder_correctly(s, keys, times);
}

/// Whether `k` is a printable character other than the one expected.
pub open spec fn wrong_char_for(k: Key, expected: char) -> bool {
    match k {
        Key::Char(c) => c != expected,
        Key::Backspace => false,
        Key::Other => false,
    }
}

/// From any unfinished state, typing a wrong character at every remaining
/// position records all of them as mistakes and leaves the challenge
/// unfinished at its trailing-mistake position.
proof fn lemma_type_remainder_wrongly(s: ChallengeView, keys: Seq<Key>, times: Seq<u64>)
    requires
        inv(s),
        !s.finished,
        keys.len() == s.text.len() - s.cursor,
        times.len() == keys.len(),
        forall|i: int| 0 <= i < keys.len() ==> wrong_char_for(keys[i], s.text[s.cursor + i]),
    ensures
        ({
            let t = run(s, keys, times);
            &&& !t.finished
            &&& t.cursor == s.text.len()
            &&& t.text == s.text
            &&& forall|j: usize|
                t.mistakes.contains(j) <==> (s.mistakes.contains(j) || s.cursor <= j
                    < s.text.len())
        }),
    decreases keys.len(),
{
    if keys.len() != 0 {
        let s1 = step(s, keys[0], times[0]);
        lemma_step_preserves_inv(s, keys[0], times[0]);
        lemma_type_remainder_wrongly(s1, keys.drop_first(), times.drop_first());
    }
}

/// Typing a wrong character at every position of a non-empty text, from a
/// fresh challenge, and resolving the trailing mistake with a space, finishes
/// the challenge with an accuracy of exactly 0 percent.
pub proof fn lemma_all_wrong_typing(s: ChallengeView, keys: Seq<Key>, times: Seq<u64>)
    requires
        inv(s),
        !s.finished,
        s.cursor == 0,
        s.mistakes.is_empty(),
        s.text.len() > 0,
        keys.len() == s.text.len() + 1,
        times.len() == keys.len(),
        forall|i: int| 0 <= i < s.text.len() ==> wrong_char_for(keys[i], s.text[i]),
        keys[s.text.len() as int] == Key::Char(' '),
    ensures
        run(s, keys, times).finished,
        accuracy_tenths(run(s, keys, times)) == 0,
{
    broadcast use vstd::set_lib::range_set_properties;

    let n = s.text.len() as int;
    lemma_run_split(s, keys, times, n);
    let t1 = run(s, keys.take(n), times.take(n));
    lemma_type_remainder_wrongly(s, keys.take(n), times.take(n));

    // The one key after the first `n` resolves the trailing mistake.
    let t = run(s, keys, times);
    let rest = keys.skip(n);
    let rest_times = times.skip(n);
    assert(rest.len() == 1);
    assert(rest[0] == keys[n]);
    let t2 = step(t1, rest[0], rest_times[0]);
    assert(run(t2, rest.drop_first(), rest_times.drop_first()) == t2);
    assert(t == t2);
    assert(t.finished);

    // Every text position was recorded as a mistake, so the accuracy is
    // round(0 / n), which is zero.
    assert(t.mistakes =~= Set::<usize>::range(0, s.text.len() as usize));
    assert(t.mistakes.len() == s.text.len());
    assert(t.mistakes.contains(0usize));
    assert(!t.mistakes.is_empty());
    vstd::arithmetic::div_mod::lemma_fundamental_div_mod_converse(n, 2 * n, 0, n);
    assert(accuracy_tenths(t) == round_div(1000 * (n - n), n));
    assert(round_div(0, n) == (0 + n) / (2 * n));
    assert(accuracy_tenths(t) == 0);
}

/// Running a key sequence is the same as running a prefix of it and then the
/// rest.
proof fn lemma_run_split(s: ChallengeView, keys: Seq<Key>, times: Seq<u64>, k: int)
    requires
        keys.len() == times.len(),
        0 <= k <= keys.len(),
    ensures
        run(s, keys, times) == run(
            run(s, keys.take(k), times.take(k)),
            keys.skip(k),
            times.skip(k),
        ),
    decreases k,
{
    if k == 0 {
        assert(keys.take(0).len() == 0);
        assert(keys.skip(0) =~= keys);
        assert(times.skip(0) =~= times);
    } else {
        let s1 = step(s, keys[0], times[0]);
        lemma_run_split(s1, keys.drop_first(), times.drop_first(), k - 1);
        assert(keys.drop_first().take(k - 1) =~= keys.take(k).drop_first());
        assert(times.drop_first().take(k - 1) =~= times.take(k).drop_first());
        assert(keys.drop_first().skip(k - 1) =~= keys.skip(k));
        assert(times.drop_first().skip(k - 1) =~= times.skip(k));
        assert(keys.take(k)[0] == keys[0]);
        assert(times.take(k)[0] == times[0]);
        assert(run(s, keys.take(k), times.take(k)) == run(
            s1,
            keys.take(k).drop_first(),
            times.take(k).drop_first(),
        ));
    }
}

/// Once a challenge is finished it is frozen: no keystroke of any kind
/// changes its state.  (The executable machine refuses character and
/// backspace input on a finished challenge outright; this lemma covers the
/// remaining keys too.)
pub proof fn lemma_finished_is_frozen(s: ChallengeView, key: Key, now: u64)
    requires
        inv(s),
        s.finished,
    ensures
        step(s, key, now) == s,
{
    assert(step(s, key, now) =~= s);
}

} // verus!
