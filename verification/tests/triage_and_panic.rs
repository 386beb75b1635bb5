use eval_harness::memory::Memory;
use eval_harness::triage::{
    classify_can, join_reports, should_abort, triage, triage_module, CanProblemKind,
    ModuleProblems, Severity,
};

fn module(
    can: Vec<(CanProblemKind, &str)>,
    types: Vec<&str>,
    monos: Vec<&str>,
) -> ModuleProblems {
    ModuleProblems {
        can_problems: can.into_iter().map(|(k, s)| (k, s.to_string())).collect(),
        type_problems: types.into_iter().map(|s| s.to_string()).collect(),
        mono_problems: monos.into_iter().map(|s| s.to_string()).collect(),
    }
}

#[test]
fn unused_import_is_delayed_not_fatal() {
    let m = module(
        vec![(CanProblemKind::UnusedImport, "unused import `List`")],
        vec![],
        vec![],
    );
    let out = triage(vec![m]);
    assert_eq!(out.reports, vec!["unused import `List`".to_string()]);
    assert_eq!(out.delayed_errors, vec!["unused import `List`".to_string()]);
    assert!(out.fatal_errors.is_empty());
    assert!(!should_abort(&out, false));
}

#[test]
fn benign_kinds_classify_as_delayed() {
    for kind in [
        CanProblemKind::UnusedDef,
        CanProblemKind::UnusedArgument,
        CanProblemKind::UnusedImport,
        CanProblemKind::RuntimeError,
        CanProblemKind::UnsupportedPattern,
        CanProblemKind::ExposedButNotDefined,
    ] {
        assert_eq!(classify_can(kind), Severity::Delayed);
    }
    assert_eq!(classify_can(CanProblemKind::Other), Severity::Fatal);
}

#[test]
fn type_problems_are_always_fatal() {
    let m = module(vec![], vec!["type mismatch"], vec![]);
    let out = triage(vec![m]);
    assert_eq!(out.reports, vec!["type mismatch".to_string()]);
    assert_eq!(out.fatal_errors, vec!["type mismatch".to_string()]);
    assert!(out.delayed_errors.is_empty());
    assert!(should_abort(&out, false));
    assert!(!should_abort(&out, true));
}

#[test]
fn other_can_problems_are_fatal() {
    let m = module(vec![(CanProblemKind::Other, "shadowed name")], vec![], vec![]);
    let out = triage(vec![m]);
    assert_eq!(out.fatal_errors, vec!["shadowed name".to_string()]);
    assert!(out.delayed_errors.is_empty());
    assert!(should_abort(&out, false));
}

#[test]
fn every_problem_is_rendered_once_and_routed_once() {
    let m = module(
        vec![
            (CanProblemKind::UnusedDef, "unused def"),
            (CanProblemKind::Other, "bad canonical form"),
        ],
        vec!["type mismatch"],
        vec!["pattern match failure"],
    );
    let out = triage_module(&m);
    assert_eq!(
        out.reports,
        vec![
            "unused def".to_string(),
            "bad canonical form".to_string(),
            "type mismatch".to_string(),
            "pattern match failure".to_string(),
        ],
    );
    assert_eq!(
        out.delayed_errors,
        vec!["unused def".to_string(), "pattern match failure".to_string()],
    );
    assert_eq!(
        out.fatal_errors,
        vec!["bad canonical form".to_string(), "type mismatch".to_string()],
    );
    assert_eq!(
        out.reports.len(),
        out.delayed_errors.len() + out.fatal_errors.len()
    );
}

#[test]
fn modules_are_reported_in_order() {
    let a = module(vec![(CanProblemKind::UnusedImport, "first")], vec![], vec![]);
    let b = module(vec![], vec![], vec!["second"]);
    let out = triage(vec![a, b]);
    assert_eq!(out.reports, vec!["first".to_string(), "second".to_string()]);
    assert_eq!(
        out.delayed_errors,
        vec!["first".to_string(), "second".to_string()]
    );
    assert!(out.fatal_errors.is_empty());
}

#[test]
fn intentional_pattern_match_failure_is_delayed_and_panic_message_readable() {
    // A module whose entry point is an intentional pattern-match failure
    // reports a monomorphization-phase diagnostic: delayed, not fatal.
    let m = module(vec![], vec![], vec!["pattern match is not exhaustive"]);
    let out = triage(vec![m]);
    assert!(!should_abort(&out, false));
    assert_eq!(
        out.delayed_errors,
        vec!["pattern match is not exhaustive".to_string()]
    );
    // Executing such an artifact fires the panic import with an address
    // of a NUL-terminated message in the artifact's memory; the harness
    // recovers it with a bounded scan.
    let mut bytes = vec![0u8; 16];
    bytes.extend_from_slice(b"hit a pattern match failure\0garbage");
    bytes.resize(140, 0x77);
    let memory = Memory::new(bytes);
    let message = memory.read_c_string(16, 100);
    assert_eq!(message, b"hit a pattern match failure".to_vec());
}

#[test]
fn panic_message_scan_is_bounded() {
    // No NUL within the scan width: exactly `width` bytes come back.
    let bytes = vec![b'x'; 64];
    let memory = Memory::new(bytes);
    let message = memory.read_c_string(0, 10);
    assert_eq!(message, vec![b'x'; 10]);
}

#[test]
fn joining_reports_puts_line_feeds_between_neighbours() {
    assert_eq!(join_reports(&vec![]), "");
    assert_eq!(join_reports(&vec!["only".to_string()]), "only");
    assert_eq!(
        join_reports(&vec!["first".to_string(), "second".to_string()]),
        "first\nsecond"
    );
}
