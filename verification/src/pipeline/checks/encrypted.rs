use vstd::prelude::*;

use crate::models::{CheckResult, CheckStatus, Severity};
use crate::pdf::PdfInspection;
use super::{bool_field, is_bool_field};

verus! {

/// `encrypted`: fails when the document is encrypted or forbids printing.
pub fn check<P>(inspection: &PdfInspection<P>) -> (res: CheckResult)
    ensures
        res.id@ == "encrypted"@,
        res.severity == Severity::Error,
        res.status == (if inspection.encrypted || inspection.printing_disallowed {
            CheckStatus::Fail
        } else {
            CheckStatus::Pass
        }),
        res.data@.len() == 1,
        is_bool_field(
            res.data@[0],
            "encrypted"@,
            inspection.encrypted || inspection.printing_disallowed,
        ),
{
    let encrypted = inspection.encrypted || inspection.printing_disallowed;
    let status = if encrypted {
        CheckStatus::Fail
    } else {
        CheckStatus::Pass
    };
    let mut data = Vec::new();
    data.push(bool_field("encrypted", encrypted));
    CheckResult::new("encrypted", Severity::Error, status, data)
}

} // verus!
