//! The ordered checks of a run and the decisions between them.

pub mod checks;

use vstd::prelude::*;

use crate::config::ColorMode;
use crate::models::{spec_is_hard_failure, CheckStatus, Severity};
use crate::pipeline::checks::is_bool_field;
use crate::models::{
    finalized_status, finalized_summary, CheckResult, PreflightResult, ResultStatus,
};

verus! {

/// The number of checks a complete run applies.
pub const TOTAL_CHECKS: u8 = 9;

/// The number of leading checks whose hard failure ends a run at once:
/// `pdf_valid`, `readable`, `encrypted` and `page_count`.
pub const ADMISSION_CHECKS: u8 = 4;

/// The progress announced after a check: its position (from 1) and the
/// number of checks in a complete run.
#[derive(Debug, Clone, Copy, PartialEq, Eq, Structural)]
pub struct StepEvent {
    pub index: u8,
    pub total: u8,
}

/// The closing event of a run.
#[derive(Debug, Clone, Copy, PartialEq, Eq, Structural)]
pub enum FinalEvent {
    Completed,
    Failed,
}

/// The ids of the checks, in the order a run applies them.
pub open spec fn check_order() -> Seq<Seq<char>> {
    seq![
        "pdf_valid"@,
        "readable"@,
        "encrypted"@,
        "page_count"@,
        "page_dimensions"@,
        "margins"@,
        "colour"@,
        "blank_pages"@,
        "image_resolution"@,
    ]
}

/// The id of the check at position `index` (from 1).
pub fn check_id(index: u8) -> (id: &'static str)
    requires
        1 <= index <= TOTAL_CHECKS,
    ensures
        id@ == check_order()[index - 1],
{
    match index {
        1 => "pdf_valid",
        2 => "readable",
        3 => "encrypted",
        4 => "page_count",
        5 => "page_dimensions",
        6 => "margins",
        7 => "colour",
        8 => "blank_pages",
        _ => "image_resolution",
    }
}

/// Where a run stands: nothing done yet; `n` admission checks applied;
/// preparation under way, `p` of its steps (grayscale conversion, A4
/// fitting) settled; `n` checks applied after the document was inspected;
/// the prepared document rejected; or closed.
#[derive(Debug, Clone, Copy, PartialEq, Eq, Structural)]
pub enum RunStage {
    Start,
    Admission(u8),
    Prepare(u8),
    Analysis(u8),
    Rejected,
    Closed,
}

/// What a run does next: read the document's metadata, apply the check at a
/// position, convert the document to grayscale, fit its pages to A4,
/// inspect the prepared document, record that the prepared document is not
/// a valid PDF (its PDF header kept or not), or close, offering the
/// analysed document back or not.
#[derive(Debug, Clone, Copy, PartialEq, Eq, Structural)]
pub enum RunAction {
    ReadMetadata,
    ApplyCheck(u8),
    ConvertToMono,
    FitToA4,
    Inspect,
    RejectPrepared { magic_kept: bool },
    Close { release_pdf: bool },
}

/// A close that offers nothing back.
pub open spec fn close_without_pdf() -> (RunStage, RunAction) {
    (RunStage::Closed, RunAction::Close { release_pdf: false })
}

/// The preparation step after `done` of them are settled: grayscale
/// conversion when the mode is `Mono`, then A4 fitting when asked for, then
/// inspection of the result.
pub open spec fn spec_prepare_step(done: u8, color_mode: ColorMode, fit_to_page: bool) -> (
    RunStage,
    RunAction,
) {
    if done == 0 && color_mode == ColorMode::Mono {
        (RunStage::Prepare(1), RunAction::ConvertToMono)
    } else if done <= 1 && fit_to_page {
        (RunStage::Prepare(2), RunAction::FitToA4)
    } else if done <= 2 {
        (RunStage::Analysis(ADMISSION_CHECKS), RunAction::Inspect)
    } else {
        close_without_pdf()
    }
}

/// The rejection of a prepared document after a failed preparation step:
/// a failed grayscale conversion leaves no PDF to speak of, a failed fitting
/// or inspection leaves one that cannot be opened.
pub open spec fn reject_prepared(stage: RunStage) -> (RunStage, RunAction) {
    (RunStage::Rejected, RunAction::RejectPrepared { magic_kept: stage != RunStage::Prepare(1) })
}

/// The next stage and action of a run at `stage`, whose result has status
/// `status`, whose metadata was read (`metadata_read`) or not, and whose
/// last preparation step succeeded (`prepared`) or not.
///
/// The admission checks come first, one by one; a hard failure among them,
/// or metadata that could not be read once `pdf_valid` is applied, closes
/// the run without the document. Then the document is prepared and
/// inspected; when a preparation step fails, the prepared document is
/// rejected as no valid PDF and the run closes without it. Otherwise the
/// remaining checks are all applied, and a run that applied every check
/// closes offering the analysed document exactly when it has not failed.
pub open spec fn spec_next_action(
    stage: RunStage,
    status: ResultStatus,
    color_mode: ColorMode,
    fit_to_page: bool,
    metadata_read: bool,
    prepared: bool,
) -> (RunStage, RunAction) {
    match stage {
        RunStage::Start => (RunStage::Admission(0), RunAction::ReadMetadata),
        RunStage::Admission(n) => if n > ADMISSION_CHECKS {
            close_without_pdf()
        } else if n >= 1 && (status == ResultStatus::Failed || !metadata_read) {
            close_without_pdf()
        } else if n < ADMISSION_CHECKS {
            (RunStage::Admission((n + 1) as u8), RunAction::ApplyCheck((n + 1) as u8))
        } else {
            spec_prepare_step(0, color_mode, fit_to_page)
        },
        RunStage::Prepare(p) => if (p == 1 || p == 2) && !prepared {
            reject_prepared(stage)
        } else {
            spec_prepare_step(p, color_mode, fit_to_page)
        },
        RunStage::Analysis(n) => if n < ADMISSION_CHECKS || n > TOTAL_CHECKS {
            close_without_pdf()
        } else if n == ADMISSION_CHECKS && !prepared {
            reject_prepared(stage)
        } else if n < TOTAL_CHECKS {
            (RunStage::Analysis((n + 1) as u8), RunAction::ApplyCheck((n + 1) as u8))
        } else {
            (RunStage::Closed, RunAction::Close { release_pdf: status != ResultStatus::Failed })
        },
        RunStage::Rejected => close_without_pdf(),
        RunStage::Closed => close_without_pdf(),
    }
}

fn prepare_step(done: u8, color_mode: ColorMode, fit_to_page: bool) -> (out: (RunStage, RunAction))
    ensures
        out == spec_prepare_step(done, color_mode, fit_to_page),
{
    if done == 0 && color_mode == ColorMode::Mono {
        (RunStage::Prepare(1), RunAction::ConvertToMono)
    } else if done <= 1 && fit_to_page {
        (RunStage::Prepare(2), RunAction::FitToA4)
    } else if done <= 2 {
        (RunStage::Analysis(ADMISSION_CHECKS), RunAction::Inspect)
    } else {
        (RunStage::Closed, RunAction::Close { release_pdf: false })
    }
}

/// Decides the next stage and action of a run; see `spec_next_action`.
pub fn next_action(
    stage: RunStage,
    status: ResultStatus,
    color_mode: ColorMode,
    fit_to_page: bool,
    metadata_read: bool,
    prepared: bool,
) -> (out: (RunStage, RunAction))
    ensures
        out == spec_next_action(stage, status, color_mode, fit_to_page, metadata_read, prepared),
{
    let failed = match status {
        ResultStatus::Failed => true,
        ResultStatus::Completed => false,
    };
    match stage {
        RunStage::Start => (RunStage::Admission(0), RunAction::ReadMetadata),
        RunStage::Admission(n) => if n > ADMISSION_CHECKS {
            (RunStage::Closed, RunAction::Close { release_pdf: false })
        } else if n >= 1 && (failed || !metadata_read) {
            (RunStage::Closed, RunAction::Close { release_pdf: false })
        } else if n < ADMISSION_CHECKS {
            (RunStage::Admission(n + 1), RunAction::ApplyCheck(n + 1))
        } else {
            prepare_step(0, color_mode, fit_to_page)
        },
        RunStage::Prepare(p) => if (p == 1 || p == 2) && !prepared {
            (RunStage::Rejected, RunAction::RejectPrepared { magic_kept: p != 1 })
        } else {
            prepare_step(p, color_mode, fit_to_page)
        },
        RunStage::Analysis(n) => if n < ADMISSION_CHECKS || n > TOTAL_CHECKS {
            (RunStage::Closed, RunAction::Close { release_pdf: false })
        } else if n == ADMISSION_CHECKS && !prepared {
            (RunStage::Rejected, RunAction::RejectPrepared { magic_kept: true })
        } else if n < TOTAL_CHECKS {
            (RunStage::Analysis(n + 1), RunAction::ApplyCheck(n + 1))
        } else {
            (RunStage::Closed, RunAction::Close { release_pdf: !failed })
        },
        RunStage::Rejected => (RunStage::Closed, RunAction::Close { release_pdf: false }),
        RunStage::Closed => (RunStage::Closed, RunAction::Close { release_pdf: false }),
    }
}

/// The `pdf_valid` verdict on a rejected prepared document: it holds the
/// PDF header only when the header was kept (`magic_kept`) and the prepared
/// bytes still carry it (`prepared_magic`), and it never opened.
pub fn rejected_pdf_valid(magic_kept: bool, prepared_magic: bool) -> (res: CheckResult)
    ensures
        res.id@ == check_order()[0],
        res.severity == Severity::Error,
        res.status == CheckStatus::Fail,
        res.data@.len() == 2,
        is_bool_field(res.data@[0], "magic"@, magic_kept && prepared_magic),
        is_bool_field(res.data@[1], "mupdf_open"@, false),
        spec_is_hard_failure(res),
{
    checks::pdf_valid::check(magic_kept && prepared_magic, false)
}

/// The document a closed run hands back: the analysed one when the run
/// completed, none when it failed.
pub fn released_pdf(outcome: FinalEvent, analysed: Option<Vec<u8>>) -> (pdf: Option<Vec<u8>>)
    ensures
        pdf == (if outcome == FinalEvent::Completed { analysed } else { None }),
{
    match outcome {
        FinalEvent::Completed => analysed,
        FinalEvent::Failed => None,
    }
}

/// Records the check at position `index`, which must be the check that
/// `check_order` puts there: appends it, brings status and summary up to
/// date, and announces the step.
pub fn push_step<A, P>(result: &mut PreflightResult<A, P>, check: CheckResult, index: u8) -> (event:
    StepEvent)
    requires
        1 <= index <= TOTAL_CHECKS,
        check.id@ == check_order()[index - 1],
    ensures
        final(result).checks@ == old(result).checks@.push(check),
        final(result).status == finalized_status(final(result).checks@),
        final(result).summary == finalized_summary(final(result).checks@, old(result).summary),
        final(result).schema_version == old(result).schema_version,
        final(result).job_id == old(result).job_id,
        final(result).source_file == old(result).source_file,
        final(result).analysed_file == old(result).analysed_file,
        final(result).analysis == old(result).analysis,
        final(result).pages == old(result).pages,
        event == (StepEvent { index, total: TOTAL_CHECKS }),
{
    result.push_check(check);
    result.finalize();
    StepEvent { index, total: TOTAL_CHECKS }
}

/// Closes a run: brings status and summary up to date and names the closing
/// event, `Failed` exactly when some check failed hard.
pub fn finish<A, P>(result: &mut PreflightResult<A, P>) -> (event: FinalEvent)
    ensures
        final(result).status == finalized_status(old(result).checks@),
        final(result).summary == finalized_summary(old(result).checks@, old(result).summary),
        final(result).checks == old(result).checks,
        final(result).schema_version == old(result).schema_version,
        final(result).job_id == old(result).job_id,
        final(result).source_file == old(result).source_file,
        final(result).analysed_file == old(result).analysed_file,
        final(result).analysis == old(result).analysis,
        final(result).pages == old(result).pages,
        event == (if final(result).status == ResultStatus::Failed {
            FinalEvent::Failed
        } else {
            FinalEvent::Completed
        }),
{
    result.finalize();
    if result.status == ResultStatus::Failed {
        FinalEvent::Failed
    } else {
        FinalEvent::Completed
    }
}

} // verus!
