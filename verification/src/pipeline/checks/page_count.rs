use vstd::prelude::*;

use crate::models::{CheckResult, CheckStatus, Severity};
use crate::pdf::PdfInspection;
use super::{bool_field, is_bool_field, is_uint_field, uint_field};

verus! {

/// The page total the check works with: unknown counts as zero.
pub open spec fn counted_pages<P>(inspection: PdfInspection<P>) -> u32 {
    match inspection.page_count {
        Some(n) => n,
        None => 0,
    }
}

/// `page_count`: fails when the document has no pages or more than
/// `max_pages`.
pub fn check<P>(inspection: &PdfInspection<P>, max_pages: u32) -> (res: CheckResult)
    ensures
        res.id@ == "page_count"@,
        res.severity == Severity::Error,
        res.status == (if counted_pages(*inspection) == 0 || counted_pages(*inspection) > max_pages {
            CheckStatus::Fail
        } else {
            CheckStatus::Pass
        }),
        res.data@.len() == 3,
        is_uint_field(res.data@[0], "count"@, counted_pages(*inspection) as u64),
        is_uint_field(res.data@[1], "max"@, max_pages as u64),
        is_bool_field(res.data@[2], "within_max"@, counted_pages(*inspection) <= max_pages),
{
    let count = match inspection.page_count {
        Some(n) => n,
        None => 0,
    };
    let failed = count == 0 || count > max_pages;
    let status = if failed {
        CheckStatus::Fail
    } else {
        CheckStatus::Pass
    };
    let mut data = Vec::new();
    data.push(uint_field("count", count as u64));
    data.push(uint_field("max", max_pages as u64));
    data.push(bool_field("within_max", count <= max_pages));
    CheckResult::new("page_count", Severity::Error, status, data)
}

} // verus!
