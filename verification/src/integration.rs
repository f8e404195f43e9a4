//! Whether a process takes part in the system clipboard.

use crate::text::{eq_ignoring_ascii_case, same_ignoring_ascii_case};
use vstd::prelude::*;

verus! {

/// How far a process takes part in the system clipboard.
#[derive(Clone, Copy, Debug, PartialEq, Eq, Structural)]
pub enum ClipboardIntegrationMode {
    /// It reads and writes the clipboard.
    Full,
    /// It leaves the clipboard alone.
    Passive,
}

/// The text is `passive`, in any case.
pub open spec fn asks_for_passive(text: Seq<char>) -> bool {
    same_ignoring_ascii_case(text, "passive"@)
}

/// The text is `full`, in any case.
pub open spec fn asks_for_full(text: Seq<char>) -> bool {
    same_ignoring_ascii_case(text, "full"@)
}

/// The mode that a configured text asks for. Only `passive`, in any case, asks
/// for the passive mode; no text, an empty text, and a text that is not
/// recognized, one with space around the word among them, asks for full
/// integration.
pub fn parse_clipboard_integration_mode(raw: Option<&str>) -> (r: ClipboardIntegrationMode)
    ensures
        r == (match raw {
            Some(text) => if asks_for_passive(text@) {
                ClipboardIntegrationMode::Passive
            } else {
                ClipboardIntegrationMode::Full
            },
            None => ClipboardIntegrationMode::Full,
        }),
{
    match raw {
        Some(text) => {
            if eq_ignoring_ascii_case(text, "passive") {
                ClipboardIntegrationMode::Passive
            } else {
                ClipboardIntegrationMode::Full
            }
        },
        None => ClipboardIntegrationMode::Full,
    }
}

/// Whether the text names a mode, rather than falling back to one.
pub fn names_a_mode(text: &str) -> (r: bool)
    ensures
        r == (asks_for_passive(text@) || asks_for_full(text@)),
{
    eq_ignoring_ascii_case(text, "passive") || eq_ignoring_ascii_case(text, "full")
}

} // verus!
