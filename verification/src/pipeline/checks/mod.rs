//! The checks, in the order in which a run applies them.

pub mod blank_pages;
pub mod colour;
pub mod encrypted;
pub mod image_resolution;
pub mod margins;
pub mod page_count;
pub mod page_dimensions;
pub mod pdf_valid;
pub mod readable;

use vstd::prelude::*;

use crate::models::{DataField, DataValue};

verus! {

/// The verdict on one page for a page-level test made from measurements
/// (size, margins, ink): the page number and whether the page is flagged.
#[derive(Debug, Clone, Copy, PartialEq, Eq, Structural)]
pub struct PageFinding {
    pub page: u32,
    pub flagged: bool,
}

/// The numbers of the flagged pages, in the order given.
pub open spec fn flagged_pages(findings: Seq<PageFinding>) -> Seq<u32>
    decreases findings.len(),
{
    if findings.len() == 0 {
        Seq::empty()
    } else if findings.last().flagged {
        flagged_pages(findings.drop_last()).push(findings.last().page)
    } else {
        flagged_pages(findings.drop_last())
    }
}

/// The numbers of the flagged pages, in the order given.
pub fn collect_flagged(findings: &Vec<PageFinding>) -> (pages: Vec<u32>)
    ensures
        pages@ == flagged_pages(findings@),
{
    let mut pages: Vec<u32> = Vec::new();
    let mut i: usize = 0;
    while i < findings.len()
        invariant
            i <= findings@.len(),
            pages@ == flagged_pages(findings@.take(i as int)),
        decreases findings.len() - i,
    {
        assert(findings@.take(i + 1).drop_last() =~= findings@.take(i as int));
        if findings[i].flagged {
            pages.push(findings[i].page);
        }
        i = i + 1;
    }
    assert(findings@.take(i as int) =~= findings@);
    pages
}

/// A fact holding a boolean.
pub fn bool_field(key: &str, value: bool) -> (f: DataField)
    ensures
        f.key@ == key@,
        f.value == DataValue::Bool(value),
{
    DataField { key: key.to_owned(), value: DataValue::Bool(value) }
}

/// A fact holding an unsigned number.
pub fn uint_field(key: &str, value: u64) -> (f: DataField)
    ensures
        f.key@ == key@,
        f.value == DataValue::UInt(value),
{
    DataField { key: key.to_owned(), value: DataValue::UInt(value) }
}

/// A fact holding a list of page numbers.
pub fn pages_field(key: &str, pages: Vec<u32>) -> (f: DataField)
    ensures
        f.key@ == key@,
        f.value == DataValue::Pages(pages),
{
    DataField { key: key.to_owned(), value: DataValue::Pages(pages) }
}

/// Whether a fact is the boolean `value` under `key`.
pub open spec fn is_bool_field(f: DataField, key: Seq<char>, value: bool) -> bool {
    f.key@ == key && f.value == DataValue::Bool(value)
}

/// Whether a fact is the number `value` under `key`.
pub open spec fn is_uint_field(f: DataField, key: Seq<char>, value: u64) -> bool {
    f.key@ == key && f.value == DataValue::UInt(value)
}

/// Whether a fact is the page list `pages` under `key`.
pub open spec fn is_pages_field(f: DataField, key: Seq<char>, pages: Seq<u32>) -> bool {
    f.key@ == key && (f.value matches DataValue::Pages(v) && v@ == pages)
}

} // verus!
