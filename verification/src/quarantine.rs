//! The confirmation that quarantine operations demand before they touch a
//! file.

use vstd::prelude::*;

verus! {

broadcast use vstd::string::group_string_axioms;

/// The two quarantine operations.
#[derive(Debug, Clone, Copy, PartialEq, Eq, Structural)]
pub enum QuarantineAction {
    /// Move a file into quarantine.
    File,
    /// Put a quarantined file back.
    Restore,
}

/// The refusal given when `action` was asked for without confirmation.
pub open spec fn refusal(action: QuarantineAction) -> Seq<char> {
    match action {
        QuarantineAction::File => "refusing to quarantine without explicit --yes confirmation"@,
        QuarantineAction::Restore => "refusing to restore without explicit --yes confirmation"@,
    }
}

/// Lets `action` go ahead only when it was confirmed with `--yes`; otherwise
/// the refusal message.
pub fn require_confirmation(action: QuarantineAction, yes: bool) -> (r: Result<(), String>)
    ensures
        r is Ok <==> yes,
        r matches Err(msg) ==> msg@ == refusal(action),
{
    if yes {
        return Ok(());
    }
    match action {
        QuarantineAction::File => Err(String::from_str(
            "refusing to quarantine without explicit --yes confirmation",
        )),
        QuarantineAction::Restore => Err(String::from_str(
            "refusing to restore without explicit --yes confirmation",
        )),
    }
}

} // verus!
