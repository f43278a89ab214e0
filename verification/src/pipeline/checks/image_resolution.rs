use vstd::prelude::*;

use crate::models::{CheckResult, CheckStatus, Severity};
use super::{is_pages_field, pages_field};

verus! {

/// Strictly increasing: sorted with no repeats.
pub open spec fn strictly_increasing(s: Seq<u32>) -> bool {
    forall|i: int, j: int| 0 <= i < j < s.len() ==> s[i] < s[j]
}

/// `pages` sorted ascending with repeats removed.
pub open spec fn is_sorted_unique_of(res: Seq<u32>, pages: Seq<u32>) -> bool {
    &&& strictly_increasing(res)
    &&& res.to_set() == pages.to_set()
}

proof fn lemma_push_to_set(s: Seq<u32>, x: u32)
    ensures
        s.push(x).to_set() == s.to_set().insert(x),
{
    assert forall|y: u32| #[trigger] s.push(x).to_set().contains(y) <==> s.to_set().insert(x).contains(y) by {
        if s.push(x).contains(y) {
            let k = choose|k: int| 0 <= k < s.push(x).len() && s.push(x)[k] == y;
            if k < s.len() {
                assert(s[k] == y);
            }
        }
        if s.contains(y) {
            let k = choose|k: int| 0 <= k < s.len() && s[k] == y;
            assert(s.push(x)[k] == y);
        }
        if y == x {
            assert(s.push(x)[s.len() as int] == x);
        }
    }
    assert(s.push(x).to_set() =~= s.to_set().insert(x));
}

/// The distinct values of `pages`, ascending.
pub fn sorted_unique(pages: &Vec<u32>) -> (res: Vec<u32>)
    ensures
        is_sorted_unique_of(res@, pages@),
{
    let mut out: Vec<u32> = Vec::new();
    let mut i: usize = 0;
    while i < pages.len()
        invariant
            i <= pages@.len(),
            strictly_increasing(out@),
            out@.to_set() == pages@.take(i as int).to_set(),
        decreases pages.len() - i,
    {
        let x = pages[i];
        let mut p: usize = 0;
        while p < out.len() && out[p] < x
            invariant
                p <= out@.len(),
                forall|k: int| 0 <= k < p ==> out@[k] < x,
            decreases out.len() - p,
        {
            p = p + 1;
        }
        let ghost before = out@;
        assert(pages@.take(i + 1) =~= pages@.take(i as int).push(x));
        if p < out.len() && out[p] == x {
            assert(before.contains(x)) by {
                assert(before[p as int] == x);
            }
            proof { lemma_push_to_set(pages@.take(i as int), x); }
            assert(out@.to_set().insert(x) =~= out@.to_set()) by {
                assert(out@.to_set().contains(x));
            }
        } else {
            out.insert(p, x);
            assert forall|a: int, b: int| 0 <= a < b < out@.len() implies out@[a] < out@[b] by {
                if b < p {
                    assert(out@[a] == before[a] && out@[b] == before[b]);
                } else if b == p {
                    assert(out@[a] == before[a]);
                } else if a < p {
                    assert(out@[a] == before[a] && out@[b] == before[b - 1]);
                    assert(before[b - 1] >= x) by {
                        if before[b - 1] < x {
                            assert(before[p as int] < before[b - 1] || p == b - 1);
                        }
                    }
                    assert(before[b - 1] != x) by {
                        if before[b - 1] == x {
                            assert(p < before.len() && before[p as int] <= before[b - 1]);
                        }
                    }
                } else if a == p {
                    assert(out@[b] == before[b - 1]);
                    assert(before[p as int] >= x);
                    assert(before[p as int] != x);
                    assert(before[p as int] <= before[b - 1]);
                } else {
                    assert(out@[a] == before[a - 1] && out@[b] == before[b - 1]);
                }
            }
            assert(out@.to_set() =~= before.to_set().insert(x)) by {
                assert forall|y: u32| out@.to_set().contains(y) <==> before.to_set().insert(x).contains(y) by {
                    if out@.contains(y) {
                        let k = choose|k: int| 0 <= k < out@.len() && out@[k] == y;
                        if k < p {
                            assert(before[k] == y);
                        } else if k > p {
                            assert(before[k - 1] == y);
                        }
                    }
                    if before.contains(y) {
                        let k = choose|k: int| 0 <= k < before.len() && before[k] == y;
                        if k < p {
                            assert(out@[k] == y);
                        } else {
                            assert(out@[k + 1] == y);
                        }
                    }
                    if y == x {
                        assert(out@[p as int] == x);
                    }
                }
            }
            proof { lemma_push_to_set(pages@.take(i as int), x); }
        }
        i = i + 1;
    }
    assert(pages@.take(i as int) =~= pages@);
    out
}

/// `image_resolution`: given the page of every image whose resolution is
/// below the minimum, warns about those pages, listed once each in
/// ascending order.
pub fn check(low_res_image_pages: &Vec<u32>) -> (res: CheckResult)
    ensures
        res.id@ == "image_resolution"@,
        res.severity == Severity::Warning,
        res.status == (if low_res_image_pages@.len() == 0 {
            CheckStatus::Pass
        } else {
            CheckStatus::Warn
        }),
        res.data@.len() == 1,
        res.data@[0].key@ == "low_res_pages"@,
        res.data@[0].value matches crate::models::DataValue::Pages(v) && is_sorted_unique_of(
            v@,
            low_res_image_pages@,
        ),
{
    let pages = sorted_unique(low_res_image_pages);
    proof {
        if low_res_image_pages@.len() > 0 {
            assert(low_res_image_pages@.to_set().contains(low_res_image_pages@[0]));
            assert(pages@.to_set().contains(low_res_image_pages@[0]));
        }
        if pages@.len() > 0 {
            assert(pages@.to_set().contains(pages@[0]));
        }
    }
    let status = if pages.len() == 0 {
        CheckStatus::Pass
    } else {
        CheckStatus::Warn
    };
    let mut data = Vec::new();
    data.push(pages_field("low_res_pages", pages));
    CheckResult::new("image_resolution", Severity::Warning, status, data)
}

} // verus!
