use vstd::prelude::*;

use crate::models::{CheckResult, CheckStatus, Severity};
use super::{
    bool_field, collect_flagged, flagged_pages, is_bool_field, is_pages_field, pages_field,
    PageFinding,
};

verus! {

/// `colour`: reports the pages whose colour ink is flagged as above the
/// threshold; when ink coverage could not be measured (`Err`), the check
/// fails hard.
pub fn check(coverage: Result<Vec<PageFinding>, ()>) -> (res: CheckResult)
    ensures
        res.id@ == "colour"@,
        res.data@.len() == 2,
        match coverage {
            Ok(findings) => {
                &&& res.severity == Severity::Info
                &&& res.status == CheckStatus::Pass
                &&& is_bool_field(res.data@[0], "has_colour"@, flagged_pages(findings@).len() > 0)
                &&& is_pages_field(res.data@[1], "colour_pages"@, flagged_pages(findings@))
            },
            Err(()) => {
                &&& res.severity == Severity::Error
                &&& res.status == CheckStatus::Fail
                &&& is_bool_field(res.data@[0], "has_colour"@, false)
                &&& is_pages_field(res.data@[1], "colour_pages"@, Seq::empty())
            },
        },
{
    match coverage {
        Ok(findings) => {
            let pages = collect_flagged(&findings);
            let has_colour = pages.len() > 0;
            let mut data = Vec::new();
            data.push(bool_field("has_colour", has_colour));
            data.push(pages_field("colour_pages", pages));
            CheckResult::new("colour", Severity::Info, CheckStatus::Pass, data)
        },
        Err(()) => {
            let mut data = Vec::new();
            data.push(bool_field("has_colour", false));
            data.push(pages_field("colour_pages", Vec::new()));
            CheckResult::new("colour", Severity::Error, CheckStatus::Fail, data)
        },
    }
}

} // verus!
