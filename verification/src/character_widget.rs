//! Per-character display classification.
//!
//! A renderer draws the target text one character at a time; the only state
//! it may depend on is the classification computed here: whether a position
//! is still ahead of the cursor, was typed and never missed, or was typed
//! and recorded as mistyped.

use vstd::prelude::*;

use crate::challenge::ChallengeView;
use crate::model::WordsChallengeModel;

verus! {

broadcast use vstd::std_specs::hash::group_hash_axioms;

/// How one character of the target text is displayed: as the next character
/// awaiting input (at or beyond the cursor), as typed correctly, or as typed
/// incorrectly.
#[derive(Clone, Copy, Debug, PartialEq, Eq, Structural)]
pub enum CharacterStyle {
    NextCharacter,
    Correct,
    Incorrect,
}

/// The classification of text position `index`: positions the cursor has not
/// passed are awaiting input; passed positions are incorrect exactly when
/// they are recorded as mistyped.
pub open spec fn style_at(s: ChallengeView, index: usize) -> CharacterStyle {
    if s.cursor <= index {
        CharacterStyle::NextCharacter
    } else if s.mistakes.contains(index) {
        CharacterStyle::Incorrect
    } else {
        CharacterStyle::Correct
    }
}

/// One character of the target text together with its display
/// classification.
pub struct CharacterWidget {
    pub character: char,
    pub style: CharacterStyle,
}

impl CharacterWidget {
    /// The widget for text position `index` of a challenge: the character at
    /// that position, classified by [`style_at`].
    pub fn get_widget_from_model(model: &WordsChallengeModel, index: usize) -> (widget:
        CharacterWidget)
        requires
            model.wf(),
            index < model.text_length,
        ensures
            widget.character == model@.text[index as int],
            widget.style == style_at(model@, index),
    {
        let character = model.text[index];
        let is_typed = model.current_pos > index;
        let is_incorrect = model.incorrect_indices.contains(&index);

        let style = if is_typed {
            if is_incorrect {
                CharacterStyle::Incorrect
            } else {
                CharacterStyle::Correct
            }
        } else {
            CharacterStyle::NextCharacter
        };

        CharacterWidget { character, style }
    }
}

} // verus!
