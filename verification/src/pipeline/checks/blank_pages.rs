use vstd::prelude::*;

use crate::models::{CheckResult, CheckStatus, Severity};
use crate::pdf::{is_blank_page, spec_is_blank, PageContentFact};
use super::{is_pages_field, pages_field};

verus! {

/// The numbers of the blank pages, in the order given.
pub open spec fn blank_page_numbers(pages: Seq<PageContentFact>) -> Seq<u32>
    decreases pages.len(),
{
    if pages.len() == 0 {
        Seq::empty()
    } else if spec_is_blank(pages.last()) {
        blank_page_numbers(pages.drop_last()).push(pages.last().page)
    } else {
        blank_page_numbers(pages.drop_last())
    }
}

/// `blank_pages`: warns about the pages with no text, image or drawing.
pub fn check(pages: &Vec<PageContentFact>) -> (res: CheckResult)
    ensures
        res.id@ == "blank_pages"@,
        res.severity == Severity::Warning,
        res.status == (if blank_page_numbers(pages@).len() == 0 {
            CheckStatus::Pass
        } else {
            CheckStatus::Warn
        }),
        res.data@.len() == 1,
        is_pages_field(res.data@[0], "blank_pages"@, blank_page_numbers(pages@)),
{
    let mut blank: Vec<u32> = Vec::new();
    let mut i: usize = 0;
    while i < pages.len()
        invariant
            i <= pages@.len(),
            blank@ == blank_page_numbers(pages@.take(i as int)),
        decreases pages.len() - i,
    {
        assert(pages@.take(i + 1).drop_last() =~= pages@.take(i as int));
        if is_blank_page(&pages[i]) {
            blank.push(pages[i].page);
        }
        i = i + 1;
    }
    assert(pages@.take(i as int) =~= pages@);
    let status = if blank.len() == 0 {
        CheckStatus::Pass
    } else {
        CheckStatus::Warn
    };
    let mut data = Vec::new();
    data.push(pages_field("blank_pages", blank));
    CheckResult::new("blank_pages", Severity::Warning, status, data)
}

} // verus!
