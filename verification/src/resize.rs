//! The window-resize command: what the host is asked for, and what the
//! caller is told once the host has answered.

use vstd::prelude::*;
use vstd::string::*;
use crate::dimension::{pixels, pixels_of};

verus! {

/// A size in physical pixels.
#[derive(Clone, Copy, Debug, PartialEq, Eq, Structural)]
pub struct PhysicalSize {
    pub width: u32,
    pub height: u32,
}

/// What stands before the host's own words in a failure report.
pub open spec fn failure_prefix() -> Seq<char> {
    "Failed to resize window: "@
}

/// The report of a failed resize: the prefix, then the host's words.
pub open spec fn failure_text(detail: Seq<char>) -> Seq<char> {
    failure_prefix() + detail
}

/// What the caller is told for each answer of the host: success for
/// success, and for a failure the report made of the host's words.
pub open spec fn outcome_of(answer: Result<(), Seq<char>>) -> Result<(), Seq<char>> {
    match answer {
        Ok(()) => Ok(()),
        Err(detail) => Err(failure_text(detail)),
    }
}

/// The view of an outcome: its error as a sequence of characters.
pub open spec fn outcome_view(outcome: Result<(), String>) -> Result<(), Seq<char>> {
    match outcome {
        Ok(()) => Ok(()),
        Err(text) => Err(text@),
    }
}

/// The prefix of a failure report has twenty-five characters.
pub proof fn lemma_failure_prefix_len()
    ensures
        failure_prefix().len() == 25,
{
    reveal_strlit("Failed to resize window: ");
}

/// A failure report is never empty, and ends with the host's words.
pub proof fn lemma_failure_text_nonempty(detail: Seq<char>)
    ensures
        failure_text(detail).len() == 25 + detail.len(),
        failure_text(detail).len() > 0,
        failure_text(detail).subrange(25, 25 + detail.len() as int) == detail,
{
    lemma_failure_prefix_len();
    assert(failure_text(detail).subrange(25, 25 + detail.len() as int) =~= detail);
}

/// Every outcome is either success or a report that is not empty.
pub proof fn lemma_outcome_ok_or_nonempty(answer: Result<(), Seq<char>>)
    ensures
        outcome_of(answer) is Ok <==> answer is Ok,
        outcome_of(answer) is Err ==> outcome_of(answer)->Err_0.len() > 0,
{
    if let Err(detail) = answer {
        lemma_failure_text_nonempty(detail);
    }
}

/// The size to ask the host for, from the encodings of the requested width
/// and height.
pub fn requested_size(width_bits: u64, height_bits: u64) -> (size: PhysicalSize)
    ensures
        size.width == pixels_of(width_bits),
        size.height == pixels_of(height_bits),
{
    PhysicalSize { width: pixels(width_bits), height: pixels(height_bits) }
}

/// The report of a failed resize, from the host's words.
pub fn failure_message(detail: &str) -> (message: String)
    ensures
        message@ == failure_text(detail@),
        message@.len() > 0,
{
    let mut message = String::from_str("Failed to resize window: ");
    message.append(detail);
    proof {
        lemma_failure_text_nonempty(detail@);
    }
    message
}

/// What the caller of the resize command is told, from the host's answer.
pub fn resize_outcome(answer: Result<(), String>) -> (outcome: Result<(), String>)
    ensures
        outcome_view(outcome) == outcome_of(outcome_view(answer)),
        outcome is Ok <==> answer is Ok,
        outcome is Err ==> outcome->Err_0@.len() > 0,
{
    match answer {
        Ok(()) => Ok(()),
        Err(detail) => Err(failure_message(detail.as_str())),
    }
}

} // verus!
