use birdnest::conflict::{classify, detect_conflicts, parse_conflict_message, ConflictCategory};

#[test]
fn unmet_dependencies_details_hold_depends_line() {
    let out = "Reading package lists...\nSome packages could not be installed.\nThe following packages have unmet dependencies:\n foo : Depends: libbar (>= 2) but it is not going to be installed\nE: Unable to correct problems, you have held broken packages.\n";
    let r = classify(out).expect("conflict");
    assert_eq!(r.category, ConflictCategory::UnmetDependencies);
    assert!(r.details.contains(" foo : Depends: libbar (>= 2) but it is not going to be installed"));
    assert!(r.details.starts_with("The following packages have unmet dependencies:"));
}

#[test]
fn unmet_dependencies_literal_header() {
    let out = "E: Unmet dependencies:\n app : Depends: lib\nYou can run 'apt --fix-broken install'\nafter the fix\n";
    let r = classify(out).unwrap();
    assert_eq!(r.category, ConflictCategory::UnmetDependencies);
    assert_eq!(r.details, "E: Unmet dependencies:\n app : Depends: lib\nYou can run 'apt --fix-broken install'");
}

#[test]
fn conflicts_with_excerpt_window() {
    let out = "line0\nbefore\npkg-a conflicts with pkg-b\n\nx1\nx2\nx3\nx4\nx5\nx6\nx7\nx8\n";
    let r = classify(out).unwrap();
    assert_eq!(r.category, ConflictCategory::PackageConflict);
    assert_eq!(r.summary, "Package conflicts detected");
    assert_eq!(r.details, "before\npkg-a conflicts with pkg-b\nx1\nx2\nx3\nx4\nx5\nx6\nx7");
}

#[test]
fn each_category_has_an_input() {
    assert_eq!(classify("E: Package foo is held\n").unwrap().category, ConflictCategory::HeldPackage);
    assert_eq!(classify("some packages could not be removed\n").unwrap().category, ConflictCategory::RemovalBlocked);
    assert_eq!(classify("There are dependency problems\n").unwrap().category, ConflictCategory::BrokenDependencies);
    assert_eq!(classify("ERROR: a dependency cycle\n").unwrap().category, ConflictCategory::Generic);
    assert!(classify("E: Unable to locate package nothing\n").is_none());
    assert!(classify("").is_none());
}

#[test]
fn detect_message_formats() {
    let m = detect_conflicts("E: pkg is held back\n").unwrap();
    assert_eq!(m, "Package is held and cannot be removed\n\nDetails:\nE: pkg is held back");
    let m = detect_conflicts("Depends: x\n").unwrap();
    assert!(m.starts_with("The following packages have unmet dependencies or dependency conflicts:\n\nDepends: x\n\nThis usually means"));
}

#[test]
fn conflict_message_split_at_details() {
    let (main, details) = parse_conflict_message("Package conflicts detected\n\nDetails:\nline a\n  line b  \n");
    assert_eq!(main, "Package conflicts detected");
    assert_eq!(details, "line a\nline b");
    let (main, details) = parse_conflict_message("");
    assert_eq!(main, "Unknown conflict");
    assert_eq!(details, "");
}

#[test]
fn conflict_message_long_reason_is_cut() {
    let long = "x".repeat(250);
    let (main, details) = parse_conflict_message(&format!("{}\nDetails:\nd", long));
    assert_eq!(main, format!("{}...", "x".repeat(200)));
    assert_eq!(details, format!("{}\nd", "x".repeat(50)));
}

#[test]
fn case_folding_follows_unicode() {
    let r = classify("BRO\u{212A}EN PACKAGES\n").unwrap();
    assert_eq!(r.category, ConflictCategory::BrokenDependencies);
    let r = classify("E: oops\nThe following pac\u{212A}ages have unmet dependencies:\n a : Depends: b\n").unwrap();
    assert_eq!(r.category, ConflictCategory::UnmetDependencies);
    assert!(r.details.starts_with("The following pac\u{212A}ages"));
}

#[test]
fn excerpt_window_stops_after_eight_lines() {
    let r = classify("a conflicts with b\n1\n2\n3\n4\n5\n6\n7\n8\n9\n").unwrap();
    assert_eq!(r.details, "a conflicts with b\n1\n2\n3\n4\n5\n6\n7\n8");
}
