use artefact_audit::{Entry, FileKind, PathParts, Project, ScanError};
use artefact_audit::path::relative_display;
use std::cell::Cell;

fn abs(parts: &[&str]) -> PathParts {
    PathParts { absolute: true, parts: parts.iter().map(|p| p.to_string()).collect() }
}

fn entry(parts: &[&str], kind: FileKind) -> Result<Entry, ScanError> {
    Ok(Entry { path: abs(parts), kind })
}

fn failure() -> Result<Entry, ScanError> {
    Err(ScanError { message: "permission denied".to_string() })
}

fn sample_project() -> Project {
    Project::from_c_project_path(
        abs(&["proj"]),
        vec![
            entry(&["proj", "a.c"], FileKind::Source),
            entry(&["proj", "a.o"], FileKind::Temporary),
            entry(&["proj", "app"], FileKind::Deliverable),
            entry(&["proj", "README"], FileKind::Other),
        ],
    )
}

fn sample_size(p: &PathParts) -> Option<u64> {
    match p.parts.last().map(|s| s.as_str()) {
        Some("a.c") => Some(10),
        Some("a.o") => Some(100),
        Some("app") => Some(500),
        Some("README") => Some(5),
        _ => None,
    }
}

#[test]
fn sample_project_summary() {
    let mut p = sample_project();
    let lines = p.summary_lines(sample_size);
    assert_eq!(
        lines,
        vec![
            "- Project /proj".to_string(),
            "    - 1 temporary files".to_string(),
            "    - 1 deliverable files".to_string(),
            "    - size of artefacts 100 ".to_string(),
        ]
    );
}

#[test]
fn sample_project_listing() {
    let p = sample_project();
    assert_eq!(
        p.temp_and_deliverables_lines(),
        vec!["- a.o Temporary".to_string(), "- app Deliverable".to_string()]
    );
}

#[test]
fn empty_project_reports_nothing() {
    let mut p = Project::from_c_project_path(abs(&["proj"]), vec![]);
    assert!(p.files().is_empty());
    assert!(p.temp_and_deliverables_lines().is_empty());
    assert_eq!(p.get_or_compute_artefact_sizes(|_: &PathParts| Some(7)), 0);
    let lines = p.summary_lines(|_: &PathParts| Some(7));
    assert_eq!(lines[1], "    - 0 temporary files");
    assert_eq!(lines[2], "    - 0 deliverable files");
    assert_eq!(lines[3], "    - size of artefacts 0 ");
}

#[test]
fn failed_results_are_dropped_in_order() {
    let p = Project::from_c_project_path(
        abs(&["proj"]),
        vec![
            failure(),
            entry(&["proj", "b.o"], FileKind::Temporary),
            failure(),
            entry(&["proj", "a.c"], FileKind::Source),
            entry(&["proj", "b.o"], FileKind::Temporary),
            failure(),
        ],
    );
    assert_eq!(p.files().len(), 3);
    assert_eq!(p.files()[0].path.parts, vec!["proj".to_string(), "b.o".to_string()]);
    assert_eq!(p.files()[1].kind, FileKind::Source);
    assert_eq!(p.files()[2].kind, FileKind::Temporary);
    assert_eq!(p.path().parts, vec!["proj".to_string()]);
    assert_eq!(p.artefacts_sizes(), None);
}

#[test]
fn artefact_size_is_measured_once() {
    let mut p = sample_project();
    let calls = Cell::new(0usize);
    let first = p.get_or_compute_artefact_sizes(|q: &PathParts| {
        calls.set(calls.get() + 1);
        sample_size(q)
    });
    assert_eq!(first, 100);
    assert_eq!(calls.get(), 1);
    let second = p.get_or_compute_artefact_sizes(|q: &PathParts| {
        calls.set(calls.get() + 1);
        sample_size(q).map(|n| n * 3)
    });
    assert_eq!(second, 100);
    assert_eq!(calls.get(), 1);
    assert_eq!(p.artefacts_sizes(), Some(100));
}

#[test]
fn summary_reuses_stored_size() {
    let mut p = sample_project();
    assert_eq!(p.get_or_compute_artefact_sizes(sample_size), 100);
    let lines = p.summary_lines(|_: &PathParts| Some(999));
    assert_eq!(lines[3], "    - size of artefacts 100 ");
}

#[test]
fn only_temporary_entries_are_measured_and_summed() {
    let mut p = Project::from_c_project_path(
        abs(&["proj"]),
        vec![
            entry(&["proj", "x.o"], FileKind::Temporary),
            entry(&["proj", "main.c"], FileKind::Source),
            entry(&["proj", "sub", "y.o"], FileKind::Temporary),
            entry(&["proj", "bin"], FileKind::Deliverable),
        ],
    );
    let measured = Cell::new(0usize);
    let size = p.get_or_compute_artefact_sizes(|q: &PathParts| {
        measured.set(measured.get() + 1);
        match q.parts.last().map(|s| s.as_str()) {
            Some("x.o") => Some(40),
            Some("y.o") => Some(2),
            _ => Some(1000),
        }
    });
    assert_eq!(size, 42);
    assert_eq!(measured.get(), 2);
}

#[test]
fn deleted_temporary_counts_as_zero() {
    let mut p = Project::from_c_project_path(
        abs(&["proj"]),
        vec![
            entry(&["proj", "a.o"], FileKind::Temporary),
            entry(&["proj", "b.o"], FileKind::Temporary),
        ],
    );
    let size = p.get_or_compute_artefact_sizes(|q: &PathParts| {
        if q.parts.last().map(|s| s.as_str()) == Some("a.o") { None } else { Some(64) }
    });
    assert_eq!(size, 64);
}

#[test]
fn compute_from_given_sizes() {
    let mut p = sample_project();
    let r = p.compute_artefacts_sizes(&vec![Some(10), Some(100), Some(500), Some(5)]);
    assert_eq!(r, 100);
    assert_eq!(p.artefacts_sizes(), Some(100));
}

#[test]
fn compute_with_unmeasurable_temporary() {
    let mut p = sample_project();
    assert_eq!(p.compute_artefacts_sizes(&vec![Some(10), None, Some(500), Some(5)]), 0);
}

#[test]
fn artefact_size_saturates_at_u64_max() {
    let mut p = Project::from_c_project_path(
        abs(&["proj"]),
        vec![
            entry(&["proj", "a.o"], FileKind::Temporary),
            entry(&["proj", "b.o"], FileKind::Temporary),
        ],
    );
    assert_eq!(p.compute_artefacts_sizes(&vec![Some(u64::MAX - 1), Some(5)]), u64::MAX);
}

#[test]
fn large_size_in_summary() {
    let mut p = sample_project();
    let lines = p.summary_lines(|_: &PathParts| Some(18_446_744_073_709_551_615));
    assert_eq!(lines[3], "    - size of artefacts 18446744073709551615 ");
}

#[test]
fn listing_has_one_line_per_reported_entry() {
    let p = Project::from_c_project_path(
        abs(&["proj"]),
        vec![
            entry(&["proj", "out", "lib.a"], FileKind::Deliverable),
            entry(&["proj", "x.c"], FileKind::Source),
            entry(&["proj", "x.o"], FileKind::Temporary),
            entry(&["proj", "notes"], FileKind::Other),
            entry(&["proj", "x.o"], FileKind::Temporary),
        ],
    );
    assert_eq!(
        p.temp_and_deliverables_lines(),
        vec![
            "- out/lib.a Deliverable".to_string(),
            "- x.o Temporary".to_string(),
            "- x.o Temporary".to_string(),
        ]
    );
}

#[test]
fn listing_skips_entries_outside_root() {
    let p = Project::from_c_project_path(
        abs(&["proj"]),
        vec![
            entry(&["other", "a.o"], FileKind::Temporary),
            entry(&["projx", "b.o"], FileKind::Temporary),
            Ok(Entry { path: PathParts { absolute: false, parts: vec!["proj".to_string(), "c.o".to_string()] }, kind: FileKind::Temporary }),
            entry(&["proj", "d.o"], FileKind::Temporary),
        ],
    );
    assert_eq!(p.temp_and_deliverables_lines(), vec!["- d.o Temporary".to_string()]);
}

#[test]
fn counts_by_kind() {
    let p = sample_project();
    assert_eq!(p.count_kind(FileKind::Temporary), 1);
    assert_eq!(p.count_kind(FileKind::Deliverable), 1);
    assert_eq!(p.count_kind(FileKind::Source), 1);
    assert_eq!(p.count_kind(FileKind::Other), 1);
}

#[test]
fn kind_labels() {
    assert_eq!(FileKind::Source.label(), "Source");
    assert_eq!(FileKind::Deliverable.label(), "Deliverable");
    assert_eq!(FileKind::Temporary.label(), "Temporary");
    assert_eq!(FileKind::Other.label(), "Other");
}

#[test]
fn path_display() {
    assert_eq!(abs(&["proj", "sub", "a.o"]).display(), "/proj/sub/a.o");
    assert_eq!(abs(&[]).display(), "/");
    let rel = PathParts { absolute: false, parts: vec![".".to_string(), "build".to_string()] };
    assert_eq!(rel.display(), "./build");
}

#[test]
fn relative_display_strips_whole_components() {
    let root = abs(&["proj"]);
    assert_eq!(relative_display(&abs(&["proj", "sub", "a.o"]), &root), Some("sub/a.o".to_string()));
    assert_eq!(relative_display(&abs(&["proj"]), &root), Some(String::new()));
    assert_eq!(relative_display(&abs(&["projx", "a.o"]), &root), None);
}
