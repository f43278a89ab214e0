//! Properties that hold across calls of the library.

use vstd::prelude::*;

use crate::callback::{backoff_ms, spec_after_attempt, DeliveryOutcome, DeliveryStep, MAX_ATTEMPTS};
use crate::models::{
    count_errors, count_warnings, finalized_status, finalized_summary, has_hard_failure,
    lemma_errors_count_hard_failures, spec_is_hard_failure, CheckResult, CheckStatus,
    ResultStatus, Severity, Summary,
};
use crate::routes::{host_listed, spec_upload_field, upload_acceptable, UploadField};
use crate::models::{first_with_id, lookup, DataField, DataValue};
use crate::pdf::hex_lower;
use crate::text::{ascii_lower, ascii_lower_all};
use crate::config::ColorMode;
use crate::pipeline::{
    check_order, spec_next_action, RunAction, RunStage, ADMISSION_CHECKS, TOTAL_CHECKS,
};
use crate::pipeline::checks::{flagged_pages, PageFinding};
use crate::pipeline::checks::image_resolution::strictly_increasing;
use crate::pipeline::checks::blank_pages::blank_page_numbers;
use crate::pdf::{
    first_line, is_line_break, lemma_ascii_char_encoded, lemma_encode_concat, lemma_encode_no_break,
    lemma_first_line, lemma_first_line_prefix, pdf_header_prefix, pdf_magic, spec_is_blank, spec_pdf_version,
    PageContentFact,
};
use vstd::utf8::*;
use vstd::arithmetic::power2::*;

verus! {

/// Finalizing twice changes nothing: the summary that finalizing gives is
/// the same whatever summary it starts from a second time.
pub proof fn finalize_is_idempotent(checks: Seq<CheckResult>, prev: Summary)
    ensures
        finalized_summary(checks, finalized_summary(checks, prev)) == finalized_summary(checks, prev),
{
}

/// A run is failed exactly when at least one error is counted.
pub proof fn failed_iff_errors(checks: Seq<CheckResult>)
    ensures
        (finalized_status(checks) == ResultStatus::Failed) == (count_errors(checks) > 0),
{
    lemma_errors_count_hard_failures(checks);
}

/// Errors and warnings are counted over different checks: together they
/// never exceed the number of checks.
pub proof fn errors_and_warnings_are_disjoint(checks: Seq<CheckResult>)
    ensures
        count_errors(checks) + count_warnings(checks) <= checks.len(),
    decreases checks.len(),
{
    if checks.len() > 0 {
        errors_and_warnings_are_disjoint(checks.drop_last());
    }
}

/// After an admission check (one of the first four) whose metadata was
/// read, the run closes exactly when some recorded check is a hard failure;
/// after a later check, short of the last, it applies the next check
/// whatever the status.
pub proof fn admission_ends_run_exactly_on_hard_failure(
    index: u8,
    checks: Seq<CheckResult>,
    color_mode: ColorMode,
    fit_to_page: bool,
)
    ensures
        1 <= index <= ADMISSION_CHECKS ==> (spec_next_action(
            RunStage::Admission(index),
            finalized_status(checks),
            color_mode,
            fit_to_page,
            true,
            true,
        ).1 is Close == has_hard_failure(checks)),
        ADMISSION_CHECKS <= index < TOTAL_CHECKS ==> spec_next_action(
            RunStage::Analysis(index),
            finalized_status(checks),
            color_mode,
            fit_to_page,
            true,
            true,
        ).1 == RunAction::ApplyCheck((index + 1) as u8),
{
}

/// The actions a run takes from `stage` when, before its `k`-th decision,
/// the result's status and whether the metadata was read are `inputs[k]`.
pub open spec fn run_actions(
    stage: RunStage,
    inputs: Seq<(ResultStatus, bool, bool)>,
    color_mode: ColorMode,
    fit_to_page: bool,
) -> Seq<RunAction>
    decreases inputs.len(),
{
    if inputs.len() == 0 {
        Seq::empty()
    } else {
        let (next, action) = spec_next_action(
            stage,
            inputs[0].0,
            color_mode,
            fit_to_page,
            inputs[0].1,
            inputs[0].2,
        );
        seq![action] + run_actions(next, inputs.drop_first(), color_mode, fit_to_page)
    }
}

/// The positions of the checks that `actions` apply, in order.
pub open spec fn applied_checks(actions: Seq<RunAction>) -> Seq<u8>
    decreases actions.len(),
{
    if actions.len() == 0 {
        Seq::empty()
    } else {
        let rest = applied_checks(actions.drop_first());
        match actions[0] {
            RunAction::ApplyCheck(i) => seq![i] + rest,
            _ => rest,
        }
    }
}

/// The ids of the checks that `actions` apply, in order.
pub open spec fn applied_ids(actions: Seq<RunAction>) -> Seq<Seq<char>> {
    applied_checks(actions).map_values(|i: u8| check_order()[i - 1])
}

/// How many checks a run at `stage` has applied, or the total where it can
/// apply no more.
spec fn applied_before(stage: RunStage) -> int {
    match stage {
        RunStage::Start => 0,
        RunStage::Admission(n) => if n <= ADMISSION_CHECKS { n as int } else { TOTAL_CHECKS as int },
        RunStage::Prepare(p) => if p <= 2 { ADMISSION_CHECKS as int } else { TOTAL_CHECKS as int },
        RunStage::Analysis(n) => if ADMISSION_CHECKS <= n <= TOTAL_CHECKS {
            n as int
        } else {
            TOTAL_CHECKS as int
        },
        RunStage::Rejected => TOTAL_CHECKS as int,
        RunStage::Closed => TOTAL_CHECKS as int,
    }
}

proof fn lemma_step_count(
    stage: RunStage,
    status: ResultStatus,
    color_mode: ColorMode,
    fit_to_page: bool,
    metadata_read: bool,
    prepared: bool,
)
    ensures
        0 <= applied_before(stage) <= TOTAL_CHECKS,
        ({
            let (next, action) = spec_next_action(
                stage,
                status,
                color_mode,
                fit_to_page,
                metadata_read,
                prepared,
            );
            &&& action matches RunAction::ApplyCheck(i) ==> i == applied_before(stage) + 1
                && applied_before(next) == i
            &&& !(action is ApplyCheck) ==> (applied_before(next) == applied_before(stage)
                || next is Closed || next is Rejected)
            &&& (next is Closed || next is Rejected) ==> applied_before(next) == TOTAL_CHECKS
            &&& next == RunStage::Prepare(1) ==> action == RunAction::ConvertToMono
            &&& next == RunStage::Prepare(2) ==> action == RunAction::FitToA4
            &&& next == RunStage::Analysis(ADMISSION_CHECKS) ==> action == RunAction::Inspect
            &&& action == RunAction::ConvertToMono ==> next == RunStage::Prepare(1)
            &&& action == RunAction::FitToA4 ==> next == RunStage::Prepare(2)
            &&& action == RunAction::Inspect ==> next == RunStage::Analysis(ADMISSION_CHECKS)
            &&& action is RejectPrepared ==> next == RunStage::Rejected && !prepared && (
            stage == RunStage::Prepare(1) || stage == RunStage::Prepare(2) || stage
                == RunStage::Analysis(ADMISSION_CHECKS))
            &&& action matches RunAction::RejectPrepared { magic_kept } ==> magic_kept == (stage
                != RunStage::Prepare(1))
        }),
{
}

proof fn lemma_applied_from(
    stage: RunStage,
    inputs: Seq<(ResultStatus, bool, bool)>,
    color_mode: ColorMode,
    fit_to_page: bool,
)
    ensures
        ({
            let applied = applied_checks(run_actions(stage, inputs, color_mode, fit_to_page));
            &&& applied_before(stage) + applied.len() <= TOTAL_CHECKS
            &&& forall|j: int|
                0 <= j < applied.len() ==> #[trigger] applied[j] == applied_before(stage) + j + 1
        }),
    decreases inputs.len(),
{
    lemma_step_count(stage, ResultStatus::Completed, color_mode, fit_to_page, true, true);
    if inputs.len() > 0 {
        let (next, action) = spec_next_action(
            stage,
            inputs[0].0,
            color_mode,
            fit_to_page,
            inputs[0].1,
            inputs[0].2,
        );
        lemma_step_count(stage, inputs[0].0, color_mode, fit_to_page, inputs[0].1, inputs[0].2);
        lemma_applied_from(next, inputs.drop_first(), color_mode, fit_to_page);
        let actions = run_actions(stage, inputs, color_mode, fit_to_page);
        assert(actions.drop_first() =~= run_actions(next, inputs.drop_first(), color_mode, fit_to_page));
        assert(actions[0] == action);
    }
}

/// Every run applies its checks in the order `check_order` gives: the ids
/// of the checks it applies, in order, are a prefix of `check_order`.
pub proof fn checks_run_in_order(
    inputs: Seq<(ResultStatus, bool, bool)>,
    color_mode: ColorMode,
    fit_to_page: bool,
)
    ensures
        applied_ids(run_actions(RunStage::Start, inputs, color_mode, fit_to_page)).len()
            <= check_order().len(),
        applied_ids(run_actions(RunStage::Start, inputs, color_mode, fit_to_page)) == check_order().take(
            applied_ids(run_actions(RunStage::Start, inputs, color_mode, fit_to_page)).len() as int,
        ),
{
    lemma_applied_from(RunStage::Start, inputs, color_mode, fit_to_page);
    let applied = applied_checks(run_actions(RunStage::Start, inputs, color_mode, fit_to_page));
    let ids = applied_ids(run_actions(RunStage::Start, inputs, color_mode, fit_to_page));
    assert(ids =~= check_order().take(ids.len() as int)) by {
        assert forall|j: int| 0 <= j < ids.len() implies ids[j] == check_order()[j] by {
            assert(applied[j] == j + 1);
        }
    }
}

/// Whether an action prepares the document for analysis.
pub open spec fn is_preparation(action: RunAction) -> bool {
    action is ConvertToMono || action is FitToA4 || action is Inspect
}

/// Whether a run at `stage` has yet to convert the document to grayscale
/// (when the mode asks for it) before inspecting it.
spec fn owes_conversion(stage: RunStage, color_mode: ColorMode) -> bool {
    color_mode == ColorMode::Mono && (stage is Start || stage is Admission || stage == RunStage::Prepare(
        0,
    ))
}

/// Whether a run at `stage` has yet to fit the document to A4 (when asked
/// to) before inspecting it.
spec fn owes_fitting(stage: RunStage, fit_to_page: bool) -> bool {
    fit_to_page && (stage is Start || stage is Admission || stage == RunStage::Prepare(0)
        || stage == RunStage::Prepare(1))
}

/// What holds of a rejection at position `k` of a run from `stage`: it
/// follows a failed preparation step, and only closes without the document
/// follow it.
spec fn reject_facts(
    stage: RunStage,
    inputs: Seq<(ResultStatus, bool, bool)>,
    color_mode: ColorMode,
    fit_to_page: bool,
    k: int,
) -> bool {
    let actions = run_actions(stage, inputs, color_mode, fit_to_page);
    &&& actions[k] is RejectPrepared ==> !inputs[k].2 && (forall|j: int|
        k < j < actions.len() ==> #[trigger] actions[j] == RunAction::Close { release_pdf: false })
    &&& actions[k] matches RunAction::RejectPrepared { magic_kept } ==> (k == 0 ==> (stage
        == RunStage::Prepare(1) && !magic_kept) || ((stage == RunStage::Prepare(2) || stage
        == RunStage::Analysis(ADMISSION_CHECKS)) && magic_kept)) && (k > 0 ==> is_preparation(
        actions[k - 1],
    ) && magic_kept == (actions[k - 1] != RunAction::ConvertToMono))
    &&& k > 0 && is_preparation(actions[k - 1]) && !inputs[k].2 ==> actions[k] is RejectPrepared
}

/// What holds of the action at position `k` of a run from `stage`.
spec fn trace_facts(
    stage: RunStage,
    inputs: Seq<(ResultStatus, bool, bool)>,
    color_mode: ColorMode,
    fit_to_page: bool,
    k: int,
) -> bool {
    let actions = run_actions(stage, inputs, color_mode, fit_to_page);
    let before = applied_before(stage) + applied_checks(actions.take(k)).len();
    &&& actions[k] is ConvertToMono ==> color_mode == ColorMode::Mono
    &&& actions[k] is FitToA4 ==> fit_to_page
    &&& is_preparation(actions[k]) ==> before == ADMISSION_CHECKS
    &&& actions[k] is Inspect ==> (owes_conversion(stage, color_mode) ==> actions.take(k).contains(
        RunAction::ConvertToMono,
    )) && (owes_fitting(stage, fit_to_page) ==> actions.take(k).contains(RunAction::FitToA4))
    &&& (stage is Analysis || stage is Closed || stage is Rejected) ==> !is_preparation(actions[k])
    &&& (stage is Closed || stage is Rejected) ==> actions[k] == RunAction::Close {
        release_pdf: false,
    }
    &&& actions[k] == RunAction::Close { release_pdf: true } ==> before == TOTAL_CHECKS
        && inputs[k].0 != ResultStatus::Failed
}

proof fn lemma_applied_push_front(a: RunAction, t: Seq<RunAction>)
    ensures
        applied_checks(seq![a] + t).len() == applied_checks(t).len() + (if a is ApplyCheck {
            1int
        } else {
            0int
        }),
{
    assert((seq![a] + t).drop_first() =~= t);
    assert((seq![a] + t)[0] == a);
}

proof fn lemma_run_len(
    stage: RunStage,
    inputs: Seq<(ResultStatus, bool, bool)>,
    color_mode: ColorMode,
    fit_to_page: bool,
)
    ensures
        run_actions(stage, inputs, color_mode, fit_to_page).len() == inputs.len(),
    decreases inputs.len(),
{
    if inputs.len() > 0 {
        let (next, action) = spec_next_action(
            stage,
            inputs[0].0,
            color_mode,
            fit_to_page,
            inputs[0].1,
            inputs[0].2,
        );
        lemma_run_len(next, inputs.drop_first(), color_mode, fit_to_page);
    }
}

proof fn lemma_trace(
    stage: RunStage,
    inputs: Seq<(ResultStatus, bool, bool)>,
    color_mode: ColorMode,
    fit_to_page: bool,
)
    ensures
        forall|k: int|
            0 <= k < inputs.len() ==> #[trigger] trace_facts(
                stage,
                inputs,
                color_mode,
                fit_to_page,
                k,
            ),
    decreases inputs.len(),
{
    if inputs.len() > 0 {
        let (next, action) = spec_next_action(
            stage,
            inputs[0].0,
            color_mode,
            fit_to_page,
            inputs[0].1,
            inputs[0].2,
        );
        lemma_step_count(stage, inputs[0].0, color_mode, fit_to_page, inputs[0].1, inputs[0].2);
        let rest_inputs = inputs.drop_first();
        lemma_trace(next, rest_inputs, color_mode, fit_to_page);
        lemma_run_len(next, rest_inputs, color_mode, fit_to_page);
        let actions = run_actions(stage, inputs, color_mode, fit_to_page);
        let rest = run_actions(next, rest_inputs, color_mode, fit_to_page);
        assert(actions == seq![action] + rest);
        assert forall|k: int| 0 <= k < inputs.len() implies #[trigger] trace_facts(
            stage,
            inputs,
            color_mode,
            fit_to_page,
            k,
        ) by {
            if k == 0 {
                assert(actions.take(0) =~= Seq::<RunAction>::empty());
                assert(actions[0] == action);
            } else {
                assert(trace_facts(next, rest_inputs, color_mode, fit_to_page, k - 1));
                assert(actions[k] == rest[k - 1]);
                assert(inputs[k] == rest_inputs[k - 1]);
                assert(actions.take(k) =~= seq![action] + rest.take(k - 1));
                lemma_applied_push_front(action, rest.take(k - 1));
                let head = rest.take(k - 1);
                if head.contains(RunAction::ConvertToMono) {
                    let q = choose|q: int| 0 <= q < head.len() && #[trigger] head[q] == RunAction::ConvertToMono;
                    assert(actions.take(k)[q + 1] == RunAction::ConvertToMono);
                }
                if head.contains(RunAction::FitToA4) {
                    let q = choose|q: int| 0 <= q < head.len() && #[trigger] head[q] == RunAction::FitToA4;
                    assert(actions.take(k)[q + 1] == RunAction::FitToA4);
                }
                if action == RunAction::ConvertToMono {
                    assert(actions.take(k)[0] == RunAction::ConvertToMono);
                }
                if action == RunAction::FitToA4 {
                    assert(actions.take(k)[0] == RunAction::FitToA4);
                }
            }
        }
    }
}

proof fn lemma_reject_trace(
    stage: RunStage,
    inputs: Seq<(ResultStatus, bool, bool)>,
    color_mode: ColorMode,
    fit_to_page: bool,
)
    ensures
        forall|k: int|
            0 <= k < inputs.len() ==> #[trigger] reject_facts(
                stage,
                inputs,
                color_mode,
                fit_to_page,
                k,
            ),
    decreases inputs.len(),
{
    if inputs.len() > 0 {
        let (next, action) = spec_next_action(
            stage,
            inputs[0].0,
            color_mode,
            fit_to_page,
            inputs[0].1,
            inputs[0].2,
        );
        lemma_step_count(stage, inputs[0].0, color_mode, fit_to_page, inputs[0].1, inputs[0].2);
        let rest_inputs = inputs.drop_first();
        lemma_reject_trace(next, rest_inputs, color_mode, fit_to_page);
        lemma_trace(next, rest_inputs, color_mode, fit_to_page);
        lemma_run_len(next, rest_inputs, color_mode, fit_to_page);
        let actions = run_actions(stage, inputs, color_mode, fit_to_page);
        let rest = run_actions(next, rest_inputs, color_mode, fit_to_page);
        assert(actions == seq![action] + rest);
        assert forall|k: int| 0 <= k < inputs.len() implies #[trigger] reject_facts(
            stage,
            inputs,
            color_mode,
            fit_to_page,
            k,
        ) by {
            if k == 0 {
                assert(actions[0] == action);
                if action is RejectPrepared {
                    assert forall|j: int| 0 < j < actions.len() implies #[trigger] actions[j]
                        == RunAction::Close { release_pdf: false } by {
                        assert(trace_facts(next, rest_inputs, color_mode, fit_to_page, j - 1));
                        assert(actions[j] == rest[j - 1]);
                    }
                }
            } else {
                assert(reject_facts(next, rest_inputs, color_mode, fit_to_page, k - 1));
                assert(actions[k] == rest[k - 1]);
                if k == 1 {
                    let (n2, a2) = spec_next_action(
                        next,
                        rest_inputs[0].0,
                        color_mode,
                        fit_to_page,
                        rest_inputs[0].1,
                        rest_inputs[0].2,
                    );
                    assert(rest[0] == a2);
                }
                assert(inputs[k] == rest_inputs[k - 1]);
                assert(actions[k - 1] == (if k == 1 { action } else { rest[k - 2] }));
                if actions[k] is RejectPrepared {
                    assert forall|j: int| k < j < actions.len() implies #[trigger] actions[j]
                        == RunAction::Close { release_pdf: false } by {
                        assert(actions[j] == rest[j - 1]);
                    }
                }
            }
        }
    }
}

proof fn lemma_run_prefix(
    stage: RunStage,
    inputs: Seq<(ResultStatus, bool, bool)>,
    color_mode: ColorMode,
    fit_to_page: bool,
    k: int,
)
    requires
        0 <= k <= inputs.len(),
    ensures
        run_actions(stage, inputs, color_mode, fit_to_page).len() == inputs.len(),
        run_actions(stage, inputs.take(k), color_mode, fit_to_page) == run_actions(
            stage,
            inputs,
            color_mode,
            fit_to_page,
        ).take(k),
    decreases inputs.len(),
{
    if inputs.len() > 0 {
        let (next, action) = spec_next_action(
            stage,
            inputs[0].0,
            color_mode,
            fit_to_page,
            inputs[0].1,
            inputs[0].2,
        );
        let k2 = if k > 0 { k - 1 } else { 0 };
        lemma_run_prefix(next, inputs.drop_first(), color_mode, fit_to_page, k2);
        if k > 0 {
            assert(inputs.take(k).drop_first() =~= inputs.drop_first().take(k - 1));
            assert(inputs.take(k)[0] == inputs[0]);
            assert(run_actions(stage, inputs.take(k), color_mode, fit_to_page) =~= run_actions(
                stage,
                inputs,
                color_mode,
                fit_to_page,
            ).take(k));
        } else {
            assert(inputs.take(0) =~= Seq::<(ResultStatus, bool, bool)>::empty());
            assert(run_actions(stage, inputs, color_mode, fit_to_page).take(0) =~= Seq::<
                RunAction,
            >::empty());
        }
    }
}

/// The ids of the checks that the first `k` actions of a run from the start
/// apply are the first ones of `check_order`, as many as were applied.
proof fn lemma_ids_before(
    inputs: Seq<(ResultStatus, bool, bool)>,
    color_mode: ColorMode,
    fit_to_page: bool,
    k: int,
)
    requires
        0 <= k <= inputs.len(),
    ensures
        applied_ids(run_actions(RunStage::Start, inputs, color_mode, fit_to_page).take(k))
            == check_order().take(
            applied_checks(run_actions(RunStage::Start, inputs, color_mode, fit_to_page).take(
                k,
            )).len() as int,
        ),
{
    lemma_run_prefix(RunStage::Start, inputs, color_mode, fit_to_page, k);
    checks_run_in_order(inputs.take(k), color_mode, fit_to_page);
}

/// Grayscale conversion happens only in `Mono` mode and A4 fitting only
/// when asked for; both, and the inspection of the prepared document, come
/// once exactly the four admission checks have been applied, and the
/// inspection comes after every preparation the run was asked for.
pub proof fn preparation_follows_admission(
    inputs: Seq<(ResultStatus, bool, bool)>,
    color_mode: ColorMode,
    fit_to_page: bool,
    k: int,
)
    requires
        0 <= k < inputs.len(),
    ensures
        ({
            let actions = run_actions(RunStage::Start, inputs, color_mode, fit_to_page);
            &&& actions[k] is ConvertToMono ==> color_mode == ColorMode::Mono
            &&& actions[k] is FitToA4 ==> fit_to_page
            &&& is_preparation(actions[k]) ==> applied_ids(actions.take(k)) == check_order().take(
                ADMISSION_CHECKS as int,
            )
            &&& actions[k] is Inspect ==> (color_mode == ColorMode::Mono ==> actions.take(k).contains(
                RunAction::ConvertToMono,
            )) && (fit_to_page ==> actions.take(k).contains(RunAction::FitToA4))
        }),
{
    lemma_trace(RunStage::Start, inputs, color_mode, fit_to_page);
    assert(trace_facts(RunStage::Start, inputs, color_mode, fit_to_page, k));
    lemma_ids_before(inputs, color_mode, fit_to_page, k);
}

/// A run offers the analysed document back only when it closes after all
/// nine checks were applied, in order, and its result has not failed.
pub proof fn pdf_released_only_after_every_check(
    inputs: Seq<(ResultStatus, bool, bool)>,
    color_mode: ColorMode,
    fit_to_page: bool,
    k: int,
)
    requires
        0 <= k < inputs.len(),
        run_actions(RunStage::Start, inputs, color_mode, fit_to_page)[k] == (RunAction::Close {
            release_pdf: true,
        }),
    ensures
        applied_ids(run_actions(RunStage::Start, inputs, color_mode, fit_to_page).take(k))
            == check_order(),
        inputs[k].0 != ResultStatus::Failed,
{
    lemma_trace(RunStage::Start, inputs, color_mode, fit_to_page);
    assert(trace_facts(RunStage::Start, inputs, color_mode, fit_to_page, k));
    lemma_ids_before(inputs, color_mode, fit_to_page, k);
    assert(check_order().take(TOTAL_CHECKS as int) =~= check_order());
}

/// A failed preparation step (grayscale conversion, A4 fitting or the
/// inspection of the prepared document) makes the run reject the prepared
/// document, and a rejection comes only right after such a failed step. The
/// rejection counts the PDF header as lost exactly when the failed step was
/// the conversion, and the run then only closes, without the document.
pub proof fn failed_preparation_rejects_the_run(
    inputs: Seq<(ResultStatus, bool, bool)>,
    color_mode: ColorMode,
    fit_to_page: bool,
    k: int,
)
    requires
        0 < k < inputs.len(),
    ensures
        ({
            let actions = run_actions(RunStage::Start, inputs, color_mode, fit_to_page);
            &&& is_preparation(actions[k - 1]) && !inputs[k].2 ==> actions[k] is RejectPrepared
            &&& actions[k] matches RunAction::RejectPrepared { magic_kept } ==> is_preparation(
                actions[k - 1],
            ) && !inputs[k].2 && magic_kept == (actions[k - 1] != RunAction::ConvertToMono)
            &&& actions[k] is RejectPrepared ==> forall|j: int|
                k < j < actions.len() ==> #[trigger] actions[j] == RunAction::Close {
                    release_pdf: false,
                }
        }),
{
    lemma_reject_trace(RunStage::Start, inputs, color_mode, fit_to_page);
    assert(reject_facts(RunStage::Start, inputs, color_mode, fit_to_page, k));
}

/// Appending a check that is a hard failure fails the run, whatever came
/// before.
pub proof fn hard_failure_is_final(checks: Seq<CheckResult>, check: CheckResult)
    requires
        spec_is_hard_failure(check),
    ensures
        finalized_status(checks.push(check)) == ResultStatus::Failed,
{
    assert(checks.push(check)[checks.len() as int] == check);
}

/// A page is listed by a page-level check exactly when some finding for it
/// is flagged.
pub proof fn flagged_pages_are_the_flagged_ones(findings: Seq<PageFinding>, page: u32)
    ensures
        flagged_pages(findings).contains(page) <==> exists|i: int|
            0 <= i < findings.len() && (#[trigger] findings[i]).flagged && findings[i].page == page,
    decreases findings.len(),
{
    if findings.len() > 0 {
        let init = findings.drop_last();
        flagged_pages_are_the_flagged_ones(init, page);
        let prev = flagged_pages(init);
        if findings.last().flagged {
            assert(flagged_pages(findings) == prev.push(findings.last().page));
            if prev.push(findings.last().page).contains(page) && !prev.contains(page) {
                let k = choose|k: int| 0 <= k < prev.push(findings.last().page).len()
                    && prev.push(findings.last().page)[k] == page;
                assert(k == prev.len());
                assert(findings[findings.len() - 1].flagged);
            }
            if prev.contains(page) {
                let k = choose|k: int| 0 <= k < prev.len() && prev[k] == page;
                assert(prev.push(findings.last().page)[k] == page);
            }
            if findings.last().page == page {
                assert(prev.push(findings.last().page)[prev.len() as int] == page);
            }
        }
        if exists|i: int|
            0 <= i < findings.len() && (#[trigger] findings[i]).flagged && findings[i].page
                == page {
            let i = choose|i: int|
                0 <= i < findings.len() && (#[trigger] findings[i]).flagged && findings[i].page
                    == page;
            if i < init.len() {
                assert(init[i] == findings[i]);
            }
        }
        if exists|i: int|
            0 <= i < init.len() && (#[trigger] init[i]).flagged && init[i].page == page {
            let i = choose|i: int|
                0 <= i < init.len() && (#[trigger] init[i]).flagged && init[i].page == page;
            assert(findings[i] == init[i]);
        }
    }
}

/// A page is listed by the blank-page check exactly when its content facts
/// show no text, no image and no drawing.
pub proof fn blank_pages_are_the_blank_ones(pages: Seq<PageContentFact>, page: u32)
    ensures
        blank_page_numbers(pages).contains(page) <==> exists|i: int|
            0 <= i < pages.len() && spec_is_blank(#[trigger] pages[i]) && pages[i].page == page,
    decreases pages.len(),
{
    if pages.len() > 0 {
        let init = pages.drop_last();
        blank_pages_are_the_blank_ones(init, page);
        let prev = blank_page_numbers(init);
        if spec_is_blank(pages.last()) {
            let next = prev.push(pages.last().page);
            if next.contains(page) && !prev.contains(page) {
                let k = choose|k: int| 0 <= k < next.len() && next[k] == page;
                assert(k == prev.len());
                assert(spec_is_blank(pages[pages.len() - 1]));
            }
            if prev.contains(page) {
                let k = choose|k: int| 0 <= k < prev.len() && prev[k] == page;
                assert(next[k] == page);
            }
            if pages.last().page == page {
                assert(next[prev.len() as int] == page);
            }
        }
        if exists|i: int|
            0 <= i < pages.len() && spec_is_blank(#[trigger] pages[i]) && pages[i].page == page {
            let i = choose|i: int|
                0 <= i < pages.len() && spec_is_blank(#[trigger] pages[i]) && pages[i].page == page;
            if i < init.len() {
                assert(init[i] == pages[i]);
            }
        }
        if exists|i: int|
            0 <= i < init.len() && spec_is_blank(#[trigger] init[i]) && init[i].page == page {
            let i = choose|i: int|
                0 <= i < init.len() && spec_is_blank(#[trigger] init[i]) && init[i].page == page;
            assert(pages[i] == init[i]);
        }
    }
}

/// When the header gives a version `v`, the bytes open with `%PDF` (what
/// `has_pdf_magic` tests), they start with the UTF-8 encoding of `%PDF-`
/// followed by `v`, and `v` holds no line break.
pub proof fn pdf_version_is_the_header(bytes: Seq<u8>, v: Seq<char>)
    requires
        spec_pdf_version(bytes) == Some(v),
    ensures
        bytes.len() >= 4 && bytes.take(4) == pdf_magic(),
        encode_utf8(pdf_header_prefix() + v).len() <= bytes.len(),
        bytes.take(encode_utf8(pdf_header_prefix() + v).len() as int) == encode_utf8(
            pdf_header_prefix() + v,
        ),
        !v.contains('\n'),
        !v.contains('\r'),
{
    let line = first_line(bytes);
    let p = pdf_header_prefix();
    lemma_first_line_prefix(bytes);
    let d = decode_utf8(line);
    assert(d =~= p + v) by {
        assert(d.take(5) == p);
        assert(d.skip(5) == v);
        assert(d =~= d.take(5) + d.skip(5));
    }
    decode_utf8_encode_utf8(line);
    lemma_encode_concat(p, v);
    assert(is_ascii_chars(p));
    is_ascii_chars_encode_utf8(p);
    let ep = encode_utf8(p);
    assert(ep[0] == 37u8 && ep[1] == 80u8 && ep[2] == 68u8 && ep[3] == 70u8) by {
        assert(p[0] == '%' && p[1] == 'P' && p[2] == 'D' && p[3] == 'F');
    }
    assert(line == ep + encode_utf8(v));
    assert(bytes.take(4) =~= pdf_magic()) by {
        assert forall|j: int| 0 <= j < 4 implies bytes.take(4)[j] == pdf_magic()[j] by {
            assert(bytes.take(line.len() as int)[j] == line[j]);
            assert(line[j] == ep[j]);
        }
    }
    if v.contains('\n') || v.contains('\r') {
        let i = choose|i: int| 0 <= i < v.len() && (v[i] == '\n' || v[i] == '\r');
        lemma_ascii_char_encoded(v, i);
        let at = (ep.len() + encode_utf8(v.take(i)).len()) as int;
        assert(line[at] == encode_utf8(v)[encode_utf8(v.take(i)).len() as int]);
        assert(is_line_break(line[at]));
    }
}

/// Ascending order without repeats fixes a sequence by its elements: the
/// low-resolution page list is the one that sorting and removing repeats
/// gives.
pub proof fn sorted_unique_is_determined(a: Seq<u32>, b: Seq<u32>)
    requires
        strictly_increasing(a),
        strictly_increasing(b),
        a.to_set() == b.to_set(),
    ensures
        a == b,
    decreases a.len() + b.len(),
{
    if a.len() == 0 || b.len() == 0 {
        if a.len() > 0 {
            assert(a.to_set().contains(a[0]));
            assert(b.to_set().contains(a[0]));
        }
        if b.len() > 0 {
            assert(b.to_set().contains(b[0]));
            assert(a.to_set().contains(b[0]));
        }
        assert(a =~= b);
    } else {
        let la = a.last();
        let lb = b.last();
        assert(a.to_set().contains(la));
        assert(b.to_set().contains(lb));
        assert(b.contains(la));
        assert(a.contains(lb));
        let i = choose|i: int| 0 <= i < b.len() && b[i] == la;
        let j = choose|j: int| 0 <= j < a.len() && a[j] == lb;
        assert(la == lb) by {
            if la < lb {
                assert(a[j] <= la);
            } else if la > lb {
                assert(b[i] <= lb);
            }
        }
        let a2 = a.drop_last();
        let b2 = b.drop_last();
        assert forall|x: u32| a2.to_set().contains(x) <==> b2.to_set().contains(x) by {
            if a2.contains(x) {
                let k = choose|k: int| 0 <= k < a2.len() && a2[k] == x;
                assert(a[k] == x && x < la);
                assert(b.to_set().contains(x));
                let m = choose|m: int| 0 <= m < b.len() && b[m] == x;
                assert(m != b.len() - 1);
                assert(b2[m] == x);
            }
            if b2.contains(x) {
                let k = choose|k: int| 0 <= k < b2.len() && b2[k] == x;
                assert(b[k] == x && x < lb);
                assert(a.to_set().contains(x));
                let m = choose|m: int| 0 <= m < a.len() && a[m] == x;
                assert(m != a.len() - 1);
                assert(a2[m] == x);
            }
        }
        assert(a2.to_set() =~= b2.to_set());
        sorted_unique_is_determined(a2, b2);
        assert(a =~= a2.push(la));
        assert(b =~= b2.push(lb));
    }
}

/// The number of sends a delivery makes when attempt `k` comes to
/// `outcomes[k]`, starting at attempt `attempt`.
pub open spec fn sends(outcomes: Seq<DeliveryOutcome>, attempt: u32) -> nat
    decreases MAX_ATTEMPTS - attempt,
{
    if attempt >= MAX_ATTEMPTS || attempt >= outcomes.len() {
        0
    } else {
        match spec_after_attempt(attempt, outcomes[attempt as int]) {
            DeliveryStep::Retry { .. } => 1 + sends(outcomes, (attempt + 1) as u32),
            _ => 1,
        }
    }
}

/// An event is sent at most three times, and each pause doubles the one
/// before.
pub proof fn delivery_is_bounded(outcomes: Seq<DeliveryOutcome>, attempt: u32)
    requires
        attempt <= MAX_ATTEMPTS,
    ensures
        sends(outcomes, attempt) <= MAX_ATTEMPTS - attempt,
        attempt + 1 < MAX_ATTEMPTS ==> backoff_ms((attempt + 1) as u32) == 2 * backoff_ms(attempt),
    decreases MAX_ATTEMPTS - attempt,
{
    if attempt < MAX_ATTEMPTS {
        delivery_is_bounded(outcomes, (attempt + 1) as u32);
    }
}

/// A run that has applied all nine checks closes, handing the analysed
/// document back exactly when its result has not failed, whatever the
/// colour mode, fitting, metadata reading or preparation.
pub proof fn full_run_releases_exactly_when_not_failed(
    status: ResultStatus,
    color_mode: ColorMode,
    fit_to_page: bool,
    metadata_read: bool,
    prepared: bool,
)
    ensures
        spec_next_action(
            RunStage::Analysis(TOTAL_CHECKS),
            status,
            color_mode,
            fit_to_page,
            metadata_read,
            prepared,
        ) == (RunStage::Closed, RunAction::Close { release_pdf: status == ResultStatus::Completed }),
{
}

/// The stage a run from `stage` reaches after its first `k` decisions.
pub open spec fn stage_after(
    stage: RunStage,
    inputs: Seq<(ResultStatus, bool, bool)>,
    color_mode: ColorMode,
    fit_to_page: bool,
    k: nat,
) -> RunStage
    decreases k,
{
    if k == 0 || inputs.len() == 0 {
        stage
    } else {
        stage_after(
            spec_next_action(
                stage,
                inputs[0].0,
                color_mode,
                fit_to_page,
                inputs[0].1,
                inputs[0].2,
            ).0,
            inputs.drop_first(),
            color_mode,
            fit_to_page,
            (k - 1) as nat,
        )
    }
}

proof fn lemma_stage_after(
    stage: RunStage,
    inputs: Seq<(ResultStatus, bool, bool)>,
    color_mode: ColorMode,
    fit_to_page: bool,
    k: int,
)
    requires
        0 <= k < inputs.len(),
    ensures
        ({
            let here = stage_after(stage, inputs, color_mode, fit_to_page, k as nat);
            let (next, action) = spec_next_action(
                here,
                inputs[k].0,
                color_mode,
                fit_to_page,
                inputs[k].1,
                inputs[k].2,
            );
            &&& run_actions(stage, inputs, color_mode, fit_to_page)[k] == action
            &&& stage_after(stage, inputs, color_mode, fit_to_page, (k + 1) as nat) == next
        }),
    decreases k,
{
    let (first, a0) = spec_next_action(
        stage,
        inputs[0].0,
        color_mode,
        fit_to_page,
        inputs[0].1,
        inputs[0].2,
    );
    let rest = inputs.drop_first();
    if k > 0 {
        lemma_stage_after(first, rest, color_mode, fit_to_page, k - 1);
        assert(rest[k - 1] == inputs[k]);
        lemma_run_len(first, rest, color_mode, fit_to_page);
        assert(run_actions(stage, inputs, color_mode, fit_to_page) == seq![a0] + run_actions(
            first,
            rest,
            color_mode,
            fit_to_page,
        ));
    } else {
        assert(stage_after(first, rest, color_mode, fit_to_page, 0) == first);
    }
}

/// In any run, once the ninth check is applied the run closes at its next
/// decision, handing the analysed document back exactly when the result has
/// not failed.
pub proof fn passing_run_hands_back_the_document(
    inputs: Seq<(ResultStatus, bool, bool)>,
    color_mode: ColorMode,
    fit_to_page: bool,
    k: int,
)
    requires
        0 <= k,
        k + 1 < inputs.len(),
        run_actions(RunStage::Start, inputs, color_mode, fit_to_page)[k] == RunAction::ApplyCheck(
            TOTAL_CHECKS,
        ),
    ensures
        run_actions(RunStage::Start, inputs, color_mode, fit_to_page)[k + 1] == (RunAction::Close {
            release_pdf: inputs[k + 1].0 == ResultStatus::Completed,
        }),
{
    lemma_stage_after(RunStage::Start, inputs, color_mode, fit_to_page, k);
    lemma_stage_after(RunStage::Start, inputs, color_mode, fit_to_page, k + 1);
    let here = stage_after(RunStage::Start, inputs, color_mode, fit_to_page, k as nat);
    lemma_step_count(here, inputs[k].0, color_mode, fit_to_page, inputs[k].1, inputs[k].2);
}

/// Counting warnings: none among no checks, and appending a check adds one
/// exactly when it has warning severity and did not pass.
pub proof fn warnings_count_each_unpassed_warning(checks: Seq<CheckResult>, c: CheckResult)
    ensures
        count_warnings(Seq::<CheckResult>::empty()) == 0,
        count_warnings(checks.push(c)) == count_warnings(checks) + (if c.severity
            == Severity::Warning && c.status != CheckStatus::Pass {
            1int
        } else {
            0int
        }),
{
    assert(checks.push(c).drop_last() =~= checks);
}

/// Counting errors: none among no checks, and appending a check adds one
/// exactly when it has error severity and failed.
pub proof fn errors_count_each_failed_error(checks: Seq<CheckResult>, c: CheckResult)
    ensures
        count_errors(Seq::<CheckResult>::empty()) == 0,
        count_errors(checks.push(c)) == count_errors(checks) + (if c.severity == Severity::Error
            && c.status == CheckStatus::Fail {
            1int
        } else {
            0int
        }),
{
    assert(checks.push(c).drop_last() =~= checks);
}

/// The summary counts what finalizing sees: with no checks it counts no
/// errors and no warnings; appending a check raises the error count by one
/// exactly for a failed error-severity check and the warning count by one
/// exactly for an unpassed warning-severity check.
pub proof fn summary_counts_each_check(checks: Seq<CheckResult>, c: CheckResult, prev: Summary)
    requires
        checks.len() + 1 <= u32::MAX,
    ensures
        finalized_summary(Seq::<CheckResult>::empty(), prev).errors == 0,
        finalized_summary(Seq::<CheckResult>::empty(), prev).warnings == 0,
        finalized_summary(checks.push(c), prev).errors == finalized_summary(checks, prev).errors + (
        if c.severity == Severity::Error && c.status == CheckStatus::Fail {
            1int
        } else {
            0int
        }),
        finalized_summary(checks.push(c), prev).warnings == finalized_summary(checks, prev).warnings
            + (if c.severity == Severity::Warning && c.status != CheckStatus::Pass {
            1int
        } else {
            0int
        }),
{
    warnings_count_each_unpassed_warning(checks, c);
    errors_count_each_failed_error(checks, c);
    errors_and_warnings_are_disjoint(checks.push(c));
    errors_and_warnings_are_disjoint(checks);
}

/// The first line ends at the first line feed or carriage return: bytes
/// without one are all first line, and bytes that have one start with their
/// first line.
pub proof fn first_line_ends_at_the_first_break(line: Seq<u8>, sep: u8, rest: Seq<u8>)
    requires
        forall|j: int| 0 <= j < line.len() ==> #[trigger] line[j] != 10u8 && line[j] != 13u8,
        sep == 10u8 || sep == 13u8,
    ensures
        first_line(line) == line,
        first_line(line + seq![sep] + rest) == line,
{
    lemma_first_line(line, line.len() as int);
    assert(line.take(line.len() as int) =~= line);
    let bytes = line + seq![sep] + rest;
    assert forall|j: int| 0 <= j < line.len() implies !is_line_break(#[trigger] bytes[j]) by {
        assert(bytes[j] == line[j]);
    }
    assert(bytes[line.len() as int] == sep);
    lemma_first_line(bytes, line.len() as int);
    assert(bytes.take(line.len() as int) =~= line);
}

/// The version depends on the first line alone: two byte strings with the
/// same first line give the same version, whatever follows it.
pub proof fn pdf_version_reads_only_the_first_line(a: Seq<u8>, b: Seq<u8>)
    requires
        first_line(a) == first_line(b),
    ensures
        spec_pdf_version(a) == spec_pdf_version(b),
{
}

/// A header line `%PDF-` followed by any text `v` without line breaks gives
/// the version `v`, alone or followed by a line break and any bytes at all.
pub proof fn pdf_version_of_a_header_line(v: Seq<char>, sep: u8, rest: Seq<u8>)
    requires
        !v.contains('\n'),
        !v.contains('\r'),
        sep == 10u8 || sep == 13u8,
    ensures
        spec_pdf_version(encode_utf8(pdf_header_prefix() + v)) == Some(v),
        spec_pdf_version(encode_utf8(pdf_header_prefix() + v) + seq![sep] + rest) == Some(v),
{
    let p = pdf_header_prefix();
    let text = p + v;
    if text.contains('\n') || text.contains('\r') {
        let q = choose|q: int| 0 <= q < text.len() && (text[q] == '\n' || text[q] == '\r');
        if q >= 5 {
            assert(v[q - 5] == text[q]);
        }
    }
    lemma_encode_no_break(text);
    let line = encode_utf8(text);
    first_line_ends_at_the_first_break(line, sep, rest);
    encode_utf8_valid_utf8(text);
    encode_utf8_decode_utf8(text);
    assert(decode_utf8(line).take(5) =~= p);
    assert(decode_utf8(line).skip(5) =~= v);
}

/// A multipart part selects a field exactly when its name is that field's
/// documented name; every other name is ignored.
pub proof fn upload_fields_follow_their_names(name: Seq<char>)
    ensures
        (spec_upload_field(name) == UploadField::File) == (name == "file"@),
        (spec_upload_field(name) == UploadField::CallbackUrl) == (name == "callback_url"@),
        (spec_upload_field(name) == UploadField::CallbackToken) == (name == "callback_token"@),
        (spec_upload_field(name) == UploadField::MaxPages) == (name == "max_pages"@),
        (spec_upload_field(name) == UploadField::MarginMm) == (name == "margin_mm"@),
        (spec_upload_field(name) == UploadField::MinDpi) == (name == "min_dpi"@),
        (spec_upload_field(name) == UploadField::ColourThreshold) == (name
            == "colour_threshold"@),
        (spec_upload_field(name) == UploadField::ColorMode) == (name == "color_mode"@),
        (spec_upload_field(name) == UploadField::FitToPage) == (name == "fit_to_page"@),
{
    reveal_strlit("file");
    reveal_strlit("callback_url");
    reveal_strlit("callback_token");
    reveal_strlit("max_pages");
    reveal_strlit("margin_mm");
    reveal_strlit("min_dpi");
    reveal_strlit("colour_threshold");
    reveal_strlit("color_mode");
    reveal_strlit("fit_to_page");
    assert("file"@.len() == 4 && "callback_url"@.len() == 12 && "callback_token"@.len() == 14);
    assert("max_pages"@.len() == 9 && "margin_mm"@.len() == 9 && "min_dpi"@.len() == 7);
    assert("colour_threshold"@.len() == 16 && "color_mode"@.len() == 10);
    assert("fit_to_page"@.len() == 11);
    assert("max_pages"@[2] != "margin_mm"@[2]);
}

/// What follows an attempt, by its outcome: a 2xx response delivers the
/// event; a response that is neither 2xx nor 5xx refuses it for good; a 5xx
/// response or no response at all waits `100 * 2^attempt` ms and then tries
/// again while attempts remain, or gives up after the last one.
pub proof fn delivery_step_by_outcome(attempt: u32, status: u16)
    requires
        attempt < MAX_ATTEMPTS,
    ensures
        (spec_after_attempt(attempt, DeliveryOutcome::Response(status)) == DeliveryStep::Delivered)
            == (200 <= status < 300),
        (spec_after_attempt(attempt, DeliveryOutcome::Response(status)) == DeliveryStep::Rejected)
            == (!(200 <= status < 300) && !(500 <= status < 600)),
        500 <= status < 600 ==> spec_after_attempt(attempt, DeliveryOutcome::Response(status))
            == spec_after_attempt(attempt, DeliveryOutcome::TransportError),
        spec_after_attempt(attempt, DeliveryOutcome::TransportError) == (if attempt + 1
            < MAX_ATTEMPTS {
            DeliveryStep::Retry { delay_ms: (100 * pow2(attempt as nat)) as u64 }
        } else {
            DeliveryStep::GiveUp { delay_ms: (100 * pow2(attempt as nat)) as u64 }
        }),
{
    lemma2_to64();
}

/// The value of a lower-case hexadecimal digit.
pub open spec fn hex_value(c: char) -> int {
    if '0' <= c <= '9' {
        c as int - '0' as int
    } else {
        c as int - 'a' as int + 10
    }
}

/// Whether `c` is a lower-case hexadecimal digit.
pub open spec fn is_lower_hex(c: char) -> bool {
    ('0' <= c <= '9') || ('a' <= c <= 'f')
}

/// The hexadecimal form of a digest writes each byte as two lower-case hex
/// digits, high half first, which read back give the byte.
pub proof fn hex_digest_reads_back(bytes: Seq<u8>)
    ensures
        hex_lower(bytes).len() == 2 * bytes.len(),
        forall|i: int|
            0 <= i < bytes.len() ==> is_lower_hex(#[trigger] hex_lower(bytes)[2 * i])
                && is_lower_hex(hex_lower(bytes)[2 * i + 1]) && hex_value(hex_lower(bytes)[2 * i])
                * 16 + hex_value(hex_lower(bytes)[2 * i + 1]) == bytes[i],
    decreases bytes.len(),
{
    if bytes.len() > 0 {
        let init = bytes.drop_last();
        hex_digest_reads_back(init);
        let b = bytes.last();
        let h = hex_lower(bytes);
        let hi = init.len();
        assert(h == hex_lower(init).push(crate::pdf::hex_digit(b / 16)).push(
            crate::pdf::hex_digit(b % 16),
        ));
        assert forall|i: int| 0 <= i < bytes.len() implies is_lower_hex(#[trigger] h[2 * i])
            && is_lower_hex(h[2 * i + 1]) && hex_value(h[2 * i]) * 16 + hex_value(h[2 * i + 1])
            == bytes[i] by {
            if i < init.len() {
                assert(h[2 * i] == hex_lower(init)[2 * i]);
                assert(h[2 * i + 1] == hex_lower(init)[2 * i + 1]);
                assert(bytes[i] == init[i]);
            } else {
                assert(i == hi);
                assert(h[2 * i] == crate::pdf::hex_digit(b / 16));
                assert(h[2 * i + 1] == crate::pdf::hex_digit(b % 16));
                assert(b / 16 < 16 && b % 16 < 16);
                assert(b == (b / 16) * 16 + b % 16);
            }
        }
    }
}

proof fn lemma_first_with_id_push(checks: Seq<CheckResult>, c: CheckResult, id: Seq<char>)
    ensures
        first_with_id(checks.push(c), id) == (match first_with_id(checks, id) {
            Some(f) => Some(f),
            None => if c.id@ == id {
                Some(c)
            } else {
                None
            },
        }),
    decreases checks.len(),
{
    if checks.len() > 0 {
        assert(checks.push(c).drop_first() =~= checks.drop_first().push(c));
        assert(checks.push(c)[0] == checks[0]);
        lemma_first_with_id_push(checks.drop_first(), c, id);
    } else {
        let one = checks.push(c);
        assert(one.drop_first() =~= Seq::<CheckResult>::empty());
        assert(one[0] == c);
        assert(first_with_id(checks, id) is None);
        assert(first_with_id(one.drop_first(), id) is None);
        assert(first_with_id(one, id) == (if c.id@ == id {
            Some(c)
        } else {
            first_with_id(one.drop_first(), id)
        }));
    }
}

/// Whether a check is `id` and reports `key` first among its facts, as
/// `value`.
pub open spec fn reports_first(c: CheckResult, id: Seq<char>, key: Seq<char>, value: DataValue) -> bool {
    &&& c.id@ == id
    &&& c.data@.len() > 0
    &&& c.data@[0].key@ == key
    &&& c.data@[0].value == value
}

/// The page total and colour flag of the summary come from the first
/// `page_count` and `colour` checks: appending a check that is not the
/// first of its id changes neither; appending the first `page_count` check,
/// reporting `count` as `n`, sets the page total to `n`; appending the first
/// `colour` check, reporting `has_colour` as `b`, sets the flag to `b`.
pub proof fn summary_pages_and_colour_come_from_the_first_report(
    checks: Seq<CheckResult>,
    c: CheckResult,
    prev: Summary,
    n: u64,
    b: bool,
)
    ensures
        c.id@ != "page_count"@ || first_with_id(checks, "page_count"@) is Some ==> finalized_summary(
            checks.push(c),
            prev,
        ).pages == finalized_summary(checks, prev).pages,
        c.id@ != "colour"@ || first_with_id(checks, "colour"@) is Some ==> finalized_summary(
            checks.push(c),
            prev,
        ).has_colour == finalized_summary(checks, prev).has_colour,
        first_with_id(checks, "page_count"@) is None && reports_first(
            c,
            "page_count"@,
            "count"@,
            DataValue::UInt(n),
        ) && n <= u32::MAX ==> finalized_summary(checks.push(c), prev).pages == n,
        first_with_id(checks, "colour"@) is None && reports_first(
            c,
            "colour"@,
            "has_colour"@,
            DataValue::Bool(b),
        ) ==> finalized_summary(checks.push(c), prev).has_colour == b,
        finalized_summary(Seq::<CheckResult>::empty(), prev).pages == prev.pages,
        finalized_summary(Seq::<CheckResult>::empty(), prev).has_colour == prev.has_colour,
{
    lemma_first_with_id_push(checks, c, "page_count"@);
    lemma_first_with_id_push(checks, c, "colour"@);
    if c.data@.len() > 0 {
        assert(lookup(c.data@, c.data@[0].key@) == Some(c.data@[0].value));
    }
}

/// Whether `b` is `a` with some ASCII letters in another case.
pub open spec fn same_up_to_ascii_case(a: Seq<char>, b: Seq<char>) -> bool {
    &&& a.len() == b.len()
    &&& forall|i: int|
        0 <= i < a.len() ==> #[trigger] a[i] == b[i] || ('A' <= a[i] <= 'Z' && b[i] as u32 == a[i]
            as u32 + 32) || ('A' <= b[i] <= 'Z' && a[i] as u32 == b[i] as u32 + 32)
}

proof fn lemma_lower_char(a: char, b: char)
    ensures
        (ascii_lower(a) == ascii_lower(b)) == (a == b || ('A' <= a <= 'Z' && b as u32 == a as u32
            + 32) || ('A' <= b <= 'Z' && a as u32 == b as u32 + 32)),
{
    let la = ascii_lower(a);
    let lb = ascii_lower(b);
    if 'A' <= a <= 'Z' {
        assert(la as u32 == a as u32 + 32);
    } else {
        assert(la == a);
    }
    if 'A' <= b <= 'Z' {
        assert(lb as u32 == b as u32 + 32);
    } else {
        assert(lb == b);
    }
    if la == lb {
        assert(la as u32 == lb as u32);
    }
}

/// A callback host is allowed exactly when some allowed host equals it up
/// to the case of ASCII letters.
pub proof fn hosts_match_up_to_ascii_case(host: Seq<char>, allowed: Seq<String>)
    ensures
        host_listed(host, allowed) == exists|i: int|
            0 <= i < allowed.len() && same_up_to_ascii_case(host, #[trigger] allowed[i]@),
{
    assert forall|i: int| 0 <= i < allowed.len() implies (ascii_lower_all(host) == ascii_lower_all(
        #[trigger] allowed[i]@,
    )) == same_up_to_ascii_case(host, allowed[i]@) by {
        let other = allowed[i]@;
        if host.len() == other.len() {
            assert forall|j: int| 0 <= j < host.len() implies (ascii_lower(host[j]) == ascii_lower(
                other[j],
            )) == (#[trigger] host[j] == other[j] || ('A' <= host[j] <= 'Z' && other[j] as u32
                == host[j] as u32 + 32) || ('A' <= other[j] <= 'Z' && host[j] as u32 == other[j]
                as u32 + 32)) by {
                lemma_lower_char(host[j], other[j]);
            }
            if same_up_to_ascii_case(host, other) {
                assert(ascii_lower_all(host) =~= ascii_lower_all(other));
            }
            if ascii_lower_all(host) == ascii_lower_all(other) {
                assert forall|j: int| 0 <= j < host.len() implies #[trigger] host[j] == other[j]
                    || ('A' <= host[j] <= 'Z' && other[j] as u32 == host[j] as u32 + 32) || ('A'
                    <= other[j] <= 'Z' && host[j] as u32 == other[j] as u32 + 32) by {
                    assert(ascii_lower_all(host)[j] == ascii_lower_all(other)[j]);
                }
            }
        } else {
            assert(ascii_lower_all(host).len() != ascii_lower_all(other).len());
        }
    }
}

/// Upload acceptance: nothing is accepted without a file or with a page
/// limit of zero or measures out of range; when no callback is required,
/// the callback fields play no part; when one is required, it must be
/// present, not empty and allowed; and an upload with everything in order
/// is accepted.
pub proof fn upload_acceptance(
    require_callback: bool,
    callback_url: Option<Seq<char>>,
    callback_is_allowed: bool,
    max_pages: u32,
    measures_in_range: bool,
    has_file: bool,
    other_url: Option<Seq<char>>,
    other_allowed: bool,
)
    ensures
        !has_file || max_pages == 0 || !measures_in_range ==> !upload_acceptable(
            require_callback,
            callback_url,
            callback_is_allowed,
            max_pages,
            measures_in_range,
            has_file,
        ),
        !require_callback ==> upload_acceptable(
            false,
            callback_url,
            callback_is_allowed,
            max_pages,
            measures_in_range,
            has_file,
        ) == upload_acceptable(false, other_url, other_allowed, max_pages, measures_in_range, has_file),
        require_callback && (callback_url is None || callback_url == Some(Seq::<char>::empty())
            || !callback_is_allowed) ==> !upload_acceptable(
            true,
            callback_url,
            callback_is_allowed,
            max_pages,
            measures_in_range,
            has_file,
        ),
        has_file && max_pages > 0 && measures_in_range && (callback_url matches Some(u) && u.len() > 0)
            && callback_is_allowed ==> upload_acceptable(
            require_callback,
            callback_url,
            callback_is_allowed,
            max_pages,
            measures_in_range,
            has_file,
        ),
{
}

} // verus!
