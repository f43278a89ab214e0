use vstd::prelude::*;

use crate::models::{CheckResult, CheckStatus, Severity};
use super::{bool_field, is_bool_field};

verus! {

/// `pdf_valid`: the upload carries the PDF magic bytes and opens as a PDF.
pub fn check(magic: bool, mupdf_open: bool) -> (res: CheckResult)
    ensures
        res.id@ == "pdf_valid"@,
        res.severity == Severity::Error,
        res.status == (if magic && mupdf_open { CheckStatus::Pass } else { CheckStatus::Fail }),
        res.data@.len() == 2,
        is_bool_field(res.data@[0], "magic"@, magic),
        is_bool_field(res.data@[1], "mupdf_open"@, mupdf_open),
{
    let status = if magic && mupdf_open {
        CheckStatus::Pass
    } else {
        CheckStatus::Fail
    };
    let mut data = Vec::new();
    data.push(bool_field("magic", magic));
    data.push(bool_field("mupdf_open", mupdf_open));
    CheckResult::new("pdf_valid", Severity::Error, status, data)
}

} // verus!
