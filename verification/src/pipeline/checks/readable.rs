use vstd::prelude::*;

use crate::models::{CheckResult, CheckStatus, Severity};
use crate::pdf::PdfInspection;
use super::{bool_field, is_bool_field};

verus! {

/// `readable`: the document could be read.
pub fn check<P>(inspection: &PdfInspection<P>) -> (res: CheckResult)
    ensures
        res.id@ == "readable"@,
        res.severity == Severity::Error,
        res.status == (if inspection.readable { CheckStatus::Pass } else { CheckStatus::Fail }),
        res.data@.len() == 1,
        is_bool_field(res.data@[0], "readable"@, inspection.readable),
{
    let status = if inspection.readable {
        CheckStatus::Pass
    } else {
        CheckStatus::Fail
    };
    let mut data = Vec::new();
    data.push(bool_field("readable", inspection.readable));
    CheckResult::new("readable", Severity::Error, status, data)
}

} // verus!
