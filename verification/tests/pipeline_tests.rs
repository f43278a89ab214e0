use preflight_rs::models::{
    CheckResult, CheckStatus, DataField, DataValue, FileInfo, PreflightResult, ResultStatus,
    Severity,
};
use preflight_rs::pdf::{metadata_inspection, PageContentFact, PdfInspection};
use preflight_rs::pipeline::checks::{
    blank_pages, colour, encrypted, image_resolution, margins, page_count, page_dimensions,
    pdf_valid, readable, PageFinding,
};
use preflight_rs::config::ColorMode;
use preflight_rs::pipeline::{
    check_id, finish, next_action, push_step, rejected_pdf_valid, released_pdf, FinalEvent,
    RunAction, RunStage, TOTAL_CHECKS,
};

fn field(key: &str, value: DataValue) -> DataField {
    DataField { key: key.to_owned(), value }
}

fn result() -> PreflightResult<(), ()> {
    let file = || FileInfo {
        bytes: 10,
        sha256: "abc".to_owned(),
        pdf_version: Some("1.7".to_owned()),
    };
    PreflightResult::new(uuid::Uuid::nil(), file(), file(), ())
}

fn pages_of(check: &CheckResult, key: &str) -> Vec<u32> {
    match check.data.iter().find(|f| f.key == key).map(|f| &f.value) {
        Some(DataValue::Pages(p)) => p.clone(),
        _ => panic!("no page list {key}"),
    }
}

fn finding(page: u32, flagged: bool) -> PageFinding {
    PageFinding { page, flagged }
}

#[test]
fn result_summary_counts_errors_warnings_pages_and_colour() {
    let mut result = result();
    result.push_check(CheckResult::new(
        "page_count",
        Severity::Info,
        CheckStatus::Pass,
        vec![field("count", DataValue::UInt(3))],
    ));
    result.push_check(CheckResult::new(
        "colour",
        Severity::Info,
        CheckStatus::Pass,
        vec![
            field("has_colour", DataValue::Bool(true)),
            field("colour_pages", DataValue::Pages(vec![2])),
        ],
    ));
    result.push_check(CheckResult::new(
        "margins",
        Severity::Warning,
        CheckStatus::Warn,
        vec![field("tight_pages", DataValue::Pages(vec![1]))],
    ));
    result.push_check(CheckResult::new(
        "pdf_valid",
        Severity::Error,
        CheckStatus::Fail,
        vec![
            field("magic", DataValue::Bool(false)),
            field("mupdf_open", DataValue::Bool(false)),
        ],
    ));
    result.finalize();

    assert_eq!(result.status, ResultStatus::Failed);
    assert_eq!(result.summary.pages, 3);
    assert!(result.summary.has_colour);
    assert_eq!(result.summary.errors, 1);
    assert_eq!(result.summary.warnings, 1);
}

#[test]
fn colour_check_failure_is_a_hard_failure() {
    let check = colour::check(Err(()));

    assert_eq!(check.severity, Severity::Error);
    assert_eq!(check.status, CheckStatus::Fail);
    assert!(check.is_hard_failure());
}

#[test]
fn encrypted_check_only_rejects_encryption_or_disabled_printing() {
    let printable: PdfInspection<()> = PdfInspection {
        readable: true,
        encrypted: false,
        printing_disallowed: false,
        page_count: Some(1),
        pages: Vec::new(),
    };
    let blocked: PdfInspection<()> = PdfInspection {
        printing_disallowed: true,
        pages: Vec::new(),
        ..printable
    };

    assert_eq!(encrypted::check(&printable).status, CheckStatus::Pass);
    assert_eq!(encrypted::check(&blocked).status, CheckStatus::Fail);
}

#[test]
fn new_result_is_completed_and_empty() {
    let r = result();
    assert_eq!(r.schema_version, "3.0");
    assert_eq!(r.status, ResultStatus::Completed);
    assert!(r.checks.is_empty() && r.pages.is_empty());
    assert_eq!(r.summary.pages, 0);
    assert_eq!(r.job_id, uuid::Uuid::nil());
}

#[test]
fn finalize_keeps_earlier_totals_when_checks_do_not_report_them() {
    let mut r = result();
    r.push_check(page_count::check(&metadata_inspection::<()>(false, false, Some(4)), 10));
    r.finalize();
    assert_eq!(r.summary.pages, 4);
    r.push_check(CheckResult::new("other", Severity::Info, CheckStatus::Pass, Vec::new()));
    r.finalize();
    r.finalize();
    assert_eq!(r.summary.pages, 4);
    assert!(!r.summary.has_colour);
    assert_eq!(r.status, ResultStatus::Completed);
}

#[test]
fn first_page_count_check_decides_the_page_total() {
    let mut r = result();
    r.push_check(CheckResult::new("page_count", Severity::Info, CheckStatus::Pass, vec![field("count", DataValue::Bool(true))]));
    r.push_check(CheckResult::new("page_count", Severity::Info, CheckStatus::Pass, vec![field("count", DataValue::UInt(7))]));
    r.finalize();
    assert_eq!(r.summary.pages, 0);
}

#[test]
fn warnings_count_only_non_passing_warning_checks() {
    let mut r = result();
    r.push_check(CheckResult::new("a", Severity::Warning, CheckStatus::Pass, Vec::new()));
    r.push_check(CheckResult::new("b", Severity::Warning, CheckStatus::Fail, Vec::new()));
    r.push_check(CheckResult::new("c", Severity::Info, CheckStatus::Warn, Vec::new()));
    r.push_check(CheckResult::new("d", Severity::Error, CheckStatus::Warn, Vec::new()));
    r.finalize();
    assert_eq!(r.summary.warnings, 1);
    assert_eq!(r.summary.errors, 0);
    assert_eq!(r.status, ResultStatus::Completed);
}

#[test]
fn pdf_valid_needs_magic_and_an_open_document() {
    assert_eq!(pdf_valid::check(true, true).status, CheckStatus::Pass);
    assert_eq!(pdf_valid::check(true, false).status, CheckStatus::Fail);
    assert_eq!(pdf_valid::check(false, true).status, CheckStatus::Fail);
    let c = pdf_valid::check(false, true);
    assert_eq!(c.id, "pdf_valid");
    assert_eq!(c.severity, Severity::Error);
    assert_eq!(c.data[0].key, "magic");
    assert!(matches!(c.data[1].value, DataValue::Bool(true)));
}

#[test]
fn readable_check_follows_the_inspection() {
    let mut i: PdfInspection<()> = metadata_inspection(false, false, Some(1));
    assert_eq!(readable::check(&i).status, CheckStatus::Pass);
    i.readable = false;
    let c = readable::check(&i);
    assert_eq!(c.status, CheckStatus::Fail);
    assert!(c.is_hard_failure());
}

#[test]
fn page_count_fails_for_zero_or_too_many_pages() {
    let count = |n: Option<i32>, max: u32| {
        page_count::check(&metadata_inspection::<()>(false, false, n), max)
    };
    assert_eq!(count(Some(2), 2).status, CheckStatus::Pass);
    assert_eq!(count(Some(3), 2).status, CheckStatus::Fail);
    assert_eq!(count(Some(0), 2).status, CheckStatus::Fail);
    assert_eq!(count(None, 2).status, CheckStatus::Fail);
    let c = count(Some(3), 2);
    assert!(matches!(c.data[0].value, DataValue::UInt(3)));
    assert!(matches!(c.data[1].value, DataValue::UInt(2)));
    assert!(matches!(c.data[2].value, DataValue::Bool(false)));
    let encrypted = page_count::check(&metadata_inspection::<()>(true, false, Some(5)), 10);
    assert!(matches!(encrypted.data[0].value, DataValue::UInt(0)));
}

#[test]
fn page_level_checks_list_flagged_pages_in_order() {
    let findings = vec![finding(1, false), finding(2, true), finding(3, false), finding(4, true)];
    let dims = page_dimensions::check(&findings);
    assert_eq!(dims.status, CheckStatus::Warn);
    assert_eq!(pages_of(&dims, "non_a4_pages"), vec![2, 4]);
    let tight = margins::check(&findings);
    assert_eq!(tight.severity, Severity::Warning);
    assert_eq!(pages_of(&tight, "tight_pages"), vec![2, 4]);
    let clear = margins::check(&vec![finding(1, false)]);
    assert_eq!(clear.status, CheckStatus::Pass);
    assert!(pages_of(&clear, "tight_pages").is_empty());
}

#[test]
fn colour_check_reports_coloured_pages() {
    let c = colour::check(Ok(vec![finding(1, false), finding(2, true)]));
    assert_eq!(c.severity, Severity::Info);
    assert_eq!(c.status, CheckStatus::Pass);
    assert!(matches!(c.data[0].value, DataValue::Bool(true)));
    assert_eq!(pages_of(&c, "colour_pages"), vec![2]);
    let grey = colour::check(Ok(vec![finding(1, false)]));
    assert!(matches!(grey.data[0].value, DataValue::Bool(false)));
}

#[test]
fn blank_pages_check_lists_empty_pages() {
    let page = |page, text_chars| PageContentFact { page, text_chars, image_count: 0, drawing_count: 0 };
    let c = blank_pages::check(&vec![page(1, 3), page(2, 0), page(3, 0)]);
    assert_eq!(c.status, CheckStatus::Warn);
    assert_eq!(pages_of(&c, "blank_pages"), vec![2, 3]);
    assert_eq!(blank_pages::check(&vec![page(1, 1)]).status, CheckStatus::Pass);
}

#[test]
fn low_resolution_pages_are_sorted_once_each() {
    let c = image_resolution::check(&vec![5, 2, 5, 1, 2]);
    assert_eq!(c.status, CheckStatus::Warn);
    assert_eq!(pages_of(&c, "low_res_pages"), vec![1, 2, 5]);
    let none = image_resolution::check(&Vec::new());
    assert_eq!(none.status, CheckStatus::Pass);
    assert_eq!(image_resolution::sorted_unique(&vec![3, 3, 3]), vec![3]);
}

#[test]
fn admission_checks_end_the_run_on_hard_failure() {
    let mut r = result();
    let step = push_step(&mut r, pdf_valid::check(true, true), 1);
    assert_eq!((step.index, step.total), (1, TOTAL_CHECKS));
    assert_eq!(
        next_action(RunStage::Admission(1), r.status, ColorMode::Color, false, true, true),
        (RunStage::Admission(2), RunAction::ApplyCheck(2))
    );
    let locked: PdfInspection<()> = metadata_inspection(true, false, None);
    push_step(&mut r, encrypted::check(&locked), 3);
    assert_eq!(r.status, ResultStatus::Failed);
    assert_eq!(
        next_action(RunStage::Admission(3), r.status, ColorMode::Color, false, true, true),
        (RunStage::Closed, RunAction::Close { release_pdf: false })
    );
    assert_eq!(
        next_action(RunStage::Analysis(7), r.status, ColorMode::Color, false, true, true),
        (RunStage::Analysis(8), RunAction::ApplyCheck(8))
    );
    assert_eq!(r.checks[1].id, "encrypted");
    assert_eq!(finish(&mut r), FinalEvent::Failed);
    assert_eq!(r.summary.errors, 1);
}

#[test]
fn a_run_without_hard_failures_completes() {
    let mut r = result();
    push_step(&mut r, pdf_valid::check(true, true), 1);
    push_step(&mut r, page_count::check(&metadata_inspection::<()>(false, false, Some(2)), 5), 4);
    push_step(&mut r, margins::check(&vec![finding(1, true)]), 6);
    assert_eq!(finish(&mut r), FinalEvent::Completed);
    assert_eq!(r.summary.pages, 2);
    assert_eq!(r.summary.warnings, 1);
}

fn walk(
    statuses: &[ResultStatus],
    color_mode: ColorMode,
    fit_to_page: bool,
    metadata_read: bool,
) -> Vec<RunAction> {
    let mut stage = RunStage::Start;
    let mut actions = Vec::new();
    for status in statuses {
        let (next, action) =
            next_action(stage, *status, color_mode, fit_to_page, metadata_read, true);
        stage = next;
        actions.push(action);
        if let RunAction::Close { .. } = action {
            break;
        }
    }
    actions
}

#[test]
fn a_passing_mono_fitted_run_prepares_after_admission_and_releases_the_pdf() {
    let actions = walk(&[ResultStatus::Completed; 20], ColorMode::Mono, true, true);
    assert_eq!(
        actions,
        vec![
            RunAction::ReadMetadata,
            RunAction::ApplyCheck(1),
            RunAction::ApplyCheck(2),
            RunAction::ApplyCheck(3),
            RunAction::ApplyCheck(4),
            RunAction::ConvertToMono,
            RunAction::FitToA4,
            RunAction::Inspect,
            RunAction::ApplyCheck(5),
            RunAction::ApplyCheck(6),
            RunAction::ApplyCheck(7),
            RunAction::ApplyCheck(8),
            RunAction::ApplyCheck(9),
            RunAction::Close { release_pdf: true },
        ]
    );
}

#[test]
fn a_colour_run_without_fitting_goes_straight_to_inspection() {
    let actions = walk(&[ResultStatus::Completed; 20], ColorMode::Color, false, true);
    assert_eq!(actions[4], RunAction::ApplyCheck(4));
    assert_eq!(actions[5], RunAction::Inspect);
    assert_eq!(actions.len(), 12);
}

#[test]
fn unreadable_metadata_closes_after_pdf_valid() {
    let actions = walk(&[ResultStatus::Completed; 20], ColorMode::Mono, true, false);
    assert_eq!(
        actions,
        vec![
            RunAction::ReadMetadata,
            RunAction::ApplyCheck(1),
            RunAction::Close { release_pdf: false },
        ]
    );
}

#[test]
fn a_failed_full_run_keeps_the_pdf() {
    let (stage, action) =
        next_action(RunStage::Analysis(9), ResultStatus::Failed, ColorMode::Color, false, true, true);
    assert_eq!(stage, RunStage::Closed);
    assert_eq!(action, RunAction::Close { release_pdf: false });
    assert_eq!(released_pdf(FinalEvent::Failed, Some(vec![1, 2])), None);
    assert_eq!(released_pdf(FinalEvent::Completed, Some(vec![1, 2])), Some(vec![1, 2]));
}

#[test]
fn check_ids_follow_the_documented_order() {
    let ids: Vec<&str> = (1..=TOTAL_CHECKS).map(check_id).collect();
    assert_eq!(
        ids,
        vec![
            "pdf_valid",
            "readable",
            "encrypted",
            "page_count",
            "page_dimensions",
            "margins",
            "colour",
            "blank_pages",
            "image_resolution",
        ]
    );
}

#[test]
fn a_failed_conversion_rejects_the_document_without_its_header() {
    let (stage, action) =
        next_action(RunStage::Prepare(1), ResultStatus::Completed, ColorMode::Mono, true, true, false);
    assert_eq!(stage, RunStage::Rejected);
    assert_eq!(action, RunAction::RejectPrepared { magic_kept: false });
    assert_eq!(
        next_action(stage, ResultStatus::Failed, ColorMode::Mono, true, true, true),
        (RunStage::Closed, RunAction::Close { release_pdf: false })
    );
}

#[test]
fn a_failed_fitting_or_inspection_rejects_the_document() {
    assert_eq!(
        next_action(RunStage::Prepare(2), ResultStatus::Completed, ColorMode::Color, true, true, false).1,
        RunAction::RejectPrepared { magic_kept: true }
    );
    assert_eq!(
        next_action(RunStage::Analysis(4), ResultStatus::Completed, ColorMode::Color, false, true, false).1,
        RunAction::RejectPrepared { magic_kept: true }
    );
    assert_eq!(
        next_action(RunStage::Analysis(5), ResultStatus::Completed, ColorMode::Color, false, true, false).1,
        RunAction::ApplyCheck(6)
    );
}

#[test]
fn a_rejected_document_fails_the_run_at_pdf_valid() {
    let mut r = result();
    push_step(&mut r, pdf_valid::check(true, true), 1);
    let check = rejected_pdf_valid(false, true);
    assert_eq!(check.id, "pdf_valid");
    assert_eq!(check.status, CheckStatus::Fail);
    push_step(&mut r, check, 1);
    assert_eq!(r.status, ResultStatus::Failed);
    assert_eq!(finish(&mut r), FinalEvent::Failed);
    assert_eq!(released_pdf(FinalEvent::Failed, Some(vec![1])), None);
}
