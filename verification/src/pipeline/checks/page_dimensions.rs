use vstd::prelude::*;

use crate::models::{CheckResult, CheckStatus, Severity};
use super::{collect_flagged, flagged_pages, is_pages_field, pages_field, PageFinding};

verus! {

/// `page_dimensions`: warns about the pages flagged as not A4, listed in
/// page order as given.
pub fn check(not_a4: &Vec<PageFinding>) -> (res: CheckResult)
    ensures
        res.id@ == "page_dimensions"@,
        res.severity == Severity::Warning,
        res.status == (if flagged_pages(not_a4@).len() == 0 {
            CheckStatus::Pass
        } else {
            CheckStatus::Warn
        }),
        res.data@.len() == 1,
        is_pages_field(res.data@[0], "non_a4_pages"@, flagged_pages(not_a4@)),
{
    let pages = collect_flagged(not_a4);
    let status = if pages.len() == 0 {
        CheckStatus::Pass
    } else {
        CheckStatus::Warn
    };
    let mut data = Vec::new();
    data.push(pages_field("non_a4_pages", pages));
    CheckResult::new("page_dimensions", Severity::Warning, status, data)
}

} // verus!
