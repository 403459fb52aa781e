use defense::quarantine::{require_confirmation, QuarantineAction};

#[test]
fn quarantine_without_yes_is_refused() {
    assert_eq!(
        require_confirmation(QuarantineAction::File, false),
        Err("refusing to quarantine without explicit --yes confirmation".to_string())
    );
}

#[test]
fn restore_without_yes_is_refused() {
    assert_eq!(
        require_confirmation(QuarantineAction::Restore, false),
        Err("refusing to restore without explicit --yes confirmation".to_string())
    );
}

#[test]
fn confirmed_actions_go_ahead() {
    assert_eq!(require_confirmation(QuarantineAction::File, true), Ok(()));
    assert_eq!(require_confirmation(QuarantineAction::Restore, true), Ok(()));
}
