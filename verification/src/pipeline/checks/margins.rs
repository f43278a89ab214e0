use vstd::prelude::*;

use crate::models::{CheckResult, CheckStatus, Severity};
use super::{collect_flagged, flagged_pages, is_pages_field, pages_field, PageFinding};

verus! {

/// `margins`: warns about the pages whose content is flagged as tight to
/// an edge.
pub fn check(tight: &Vec<PageFinding>) -> (res: CheckResult)
    ensures
        res.id@ == "margins"@,
        res.severity == Severity::Warning,
        res.status == (if flagged_pages(tight@).len() == 0 {
            CheckStatus::Pass
        } else {
            CheckStatus::Warn
        }),
        res.data@.len() == 1,
        is_pages_field(res.data@[0], "tight_pages"@, flagged_pages(tight@)),
{
    let pages = collect_flagged(tight);
    let status = if pages.len() == 0 {
        CheckStatus::Pass
    } else {
        CheckStatus::Warn
    };
    let mut data = Vec::new();
    data.push(pages_field("tight_pages", pages));
    CheckResult::new("margins", Severity::Warning, status, data)
}

} // verus!
