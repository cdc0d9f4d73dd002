use birdnest::operation::{is_valid_flatpak_id, Backend, OperationAction, OperationKind, OperationState, Phase};
use birdnest::records::PackageDetail;

fn detail(name: &str) -> PackageDetail {
    PackageDetail {
        name: name.to_string(),
        version: "1".to_string(),
        description: "d".to_string(),
        size: "1 KB".to_string(),
        is_flatpak: false,
    }
}

fn running_remove() -> OperationState {
    let (mut st, _) = OperationState::new(OperationKind::Remove, Backend::System, vec!["vim".to_string()]);
    st.on_details_loaded(vec![detail("vim")]);
    st.on_confirm();
    st
}

#[test]
fn auth_failure_wins_over_conflict_text() {
    let mut st = running_remove();
    st.on_output_line("The following packages have unmet dependencies:");
    st.on_output_line(" vim : Depends: x");
    assert!(st.conflict.is_some());
    let a = st.on_exit(Some(126), "");
    assert!(matches!(a, OperationAction::Nothing));
    assert_eq!(st.phase, Phase::Failed);
    assert_eq!(st.failure.as_deref(), Some("Authentication cancelled or failed. Please try again."));
    assert!(st.conflict.is_none());
}

#[test]
fn exit_127_is_auth_failure_too() {
    let mut st = running_remove();
    st.on_exit(Some(127), "denied");
    assert_eq!(st.phase, Phase::Failed);
}

#[test]
fn confirm_invalidates_and_runs_command() {
    let (mut st, a) = OperationState::new(OperationKind::Remove, Backend::System, vec!["vim".to_string(), "nano".to_string()]);
    match a {
        OperationAction::LoadDetails(ns) => assert_eq!(ns, vec!["vim", "nano"]),
        _ => panic!("expected details load"),
    }
    st.on_details_loaded(vec![detail("vim")]);
    assert_eq!(st.phase, Phase::Confirming);
    match st.on_confirm() {
        OperationAction::InvalidateCacheAndRun(inv) => {
            assert_eq!(inv.program, "apt-get");
            assert_eq!(inv.args, vec!["remove", "-y", "vim", "nano"]);
            assert!(inv.elevate);
        }
        _ => panic!("expected run"),
    }
    assert_eq!(st.phase, Phase::Executing);
}

#[test]
fn all_details_failing_fails_operation() {
    let (mut st, _) = OperationState::new(OperationKind::Install, Backend::System, vec!["x".to_string()]);
    st.on_details_loaded(Vec::new());
    assert_eq!(st.phase, Phase::Failed);
}

#[test]
fn streaming_then_success_completes() {
    let mut st = running_remove();
    st.on_output_line("Building dependency tree");
    assert_eq!(st.phase, Phase::StreamingOutput);
    assert_eq!(st.status, "Building dependency tree...");
    st.on_output_line("Removing vim (2:9.1) ...");
    assert_eq!(st.phase, Phase::StreamingOutput);
    assert_eq!(st.status, "Removing packages...");
    assert_eq!(st.accumulated_output, "Building dependency tree\nRemoving vim (2:9.1) ...\n");
    st.on_exit(Some(0), "");
    assert_eq!(st.phase, Phase::Complete);
}

#[test]
fn completion_keyword_completes() {
    let mut st = running_remove();
    st.on_output_line("Reading package lists... Done");
    assert_eq!(st.phase, Phase::Complete);
    assert_eq!(st.status, "Reading package lists...");
    st.on_output_line("0 upgraded, 0 newly installed, 1 to remove");
    assert_eq!(st.phase, Phase::Complete);
    assert_eq!(st.status, "Complete!");
    assert_eq!(st.accumulated_output, "Reading package lists... Done\n0 upgraded, 0 newly installed, 1 to remove\n");
    st.on_exit(Some(100), "E: failure");
    assert_eq!(st.phase, Phase::Failed);
    assert_eq!(st.failure.as_deref(), Some("E: failure"));
    assert_eq!(st.exit_code, Some(100));
}

#[test]
fn completion_then_success_stays_complete() {
    let mut st = running_remove();
    st.on_output_line("Reading package lists... Done");
    st.on_exit(Some(0), "");
    assert_eq!(st.phase, Phase::Complete);
    assert!(st.failure.is_none());
}

#[test]
fn conflict_output_is_never_completed() {
    let mut st = running_remove();
    st.on_output_line("Reading package lists... Done");
    assert_eq!(st.phase, Phase::Complete);
    st.on_output_line("E: Package vim is held");
    assert_eq!(st.phase, Phase::StreamingOutput);
    st.on_output_line("Done");
    assert_eq!(st.phase, Phase::StreamingOutput);
    match st.on_exit(Some(100), "E: held") {
        OperationAction::PresentConflict { summary, .. } => {
            assert_eq!(summary, "Package is held and cannot be removed")
        }
        _ => panic!("expected conflict"),
    }
    assert_eq!(st.phase, Phase::ConflictDetected);
}

#[test]
fn auth_failure_after_completion_line_fails() {
    let mut st = running_remove();
    st.on_output_line("Done");
    assert_eq!(st.phase, Phase::Complete);
    st.on_exit(Some(126), "");
    assert_eq!(st.phase, Phase::Failed);
    assert_eq!(st.failure.as_deref(), Some("Authentication cancelled or failed. Please try again."));
}

#[test]
fn failure_with_conflict_is_presented() {
    let mut st = running_remove();
    st.on_output_line("E: Package vim is held");
    match st.on_exit(Some(100), "E: held") {
        OperationAction::PresentConflict { packages, summary, output } => {
            assert_eq!(packages, vec!["vim"]);
            assert_eq!(summary, "Package is held and cannot be removed");
            assert_eq!(output, "E: Package vim is held\n");
        }
        _ => panic!("expected conflict"),
    }
    assert_eq!(st.phase, Phase::ConflictDetected);
}

#[test]
fn plain_failure_keeps_stderr() {
    let mut st = running_remove();
    st.on_output_line("E: Unable to locate package vim");
    st.on_exit(Some(100), "E: Unable to locate package vim");
    assert_eq!(st.phase, Phase::Failed);
    assert_eq!(st.failure.as_deref(), Some("E: Unable to locate package vim"));
    assert_eq!(st.exit_code, Some(100));
}

#[test]
fn flatpak_exit_126_is_ordinary_failure() {
    let (mut st, _) = OperationState::new(OperationKind::Remove, Backend::Flatpak, vec!["org.a.B".to_string()]);
    st.on_details_loaded(vec![detail("org.a.B")]);
    st.on_confirm();
    st.on_exit(Some(126), "boom");
    assert_eq!(st.failure.as_deref(), Some("boom"));
}

#[test]
fn invalid_flatpak_ids_are_never_used() {
    assert!(is_valid_flatpak_id("org.example.App"));
    assert!(!is_valid_flatpak_id("firefox"));
    let (st, a) = OperationState::new(OperationKind::Install, Backend::Flatpak, vec!["org.mozilla.firefox".to_string(), "firefox".to_string()]);
    assert!(matches!(a, OperationAction::Nothing));
    assert_eq!(st.phase, Phase::Failed);
    assert_eq!(
        st.failure.as_deref(),
        Some("Invalid Flatpak application ID: 'firefox'. Application IDs must be in the format 'org.example.App' (containing at least one period).")
    );
    let (mut st, a) = OperationState::new(OperationKind::Install, Backend::Flatpak, vec!["org.mozilla.firefox".to_string()]);
    match a {
        OperationAction::LoadDetails(ns) => assert_eq!(ns, vec!["org.mozilla.firefox"]),
        _ => panic!(),
    }
    st.on_details_loaded(vec![detail("org.mozilla.firefox")]);
    match st.on_confirm() {
        OperationAction::InvalidateCacheAndRun(inv) => {
            assert_eq!(inv.program, "flatpak");
            assert_eq!(inv.args, vec!["install", "-y", "org.mozilla.firefox"]);
            assert!(!inv.elevate);
        }
        _ => panic!(),
    }
}

#[test]
fn system_targets_need_no_dot() {
    let (st, a) = OperationState::new(OperationKind::Remove, Backend::System, vec!["vim".to_string()]);
    assert_eq!(st.phase, Phase::Loading);
    assert!(matches!(a, OperationAction::LoadDetails(_)));
}

#[test]
fn launch_failure_is_distinct() {
    let mut st = running_remove();
    st.on_launch_failed("No such file");
    assert_eq!(st.phase, Phase::Failed);
    assert_eq!(st.failure.as_deref(), Some("Failed to launch the command: No such file"));
}
