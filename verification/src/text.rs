use vstd::prelude::*;
use vstd::string::*;

verus! {

broadcast use vstd::string::group_string_axioms;

/// The characters of a string slice, in order.
pub fn chars_of(s: &str) -> (v: Vec<char>)
    ensures
        v@ == s@,
{
    let mut v: Vec<char> = Vec::new();
    for c in it: s.chars()
        invariant
            v@ == it.seq().take(it.index() as int),
    {
        v.push(c);
    }
    v
}

/// `std::iter::FromIterator<char>` for `String`: the characters of
/// `chars[from..to]`, in order.
#[verifier::external_body]
pub(crate) fn string_from_range(chars: &Vec<char>, from: usize, to: usize) -> (s: String)
    requires
        from <= to <= chars@.len(),
    ensures
        s@ == chars@.subrange(from as int, to as int),
{
    chars[from..to].iter().collect()
}

/// Unicode `White_Space`, the characters that `char::is_whitespace` accepts.
pub open spec fn is_ws(c: char) -> bool {
    let u = c as u32;
    (9 <= u <= 13) || u == 32 || u == 0x85 || u == 0xa0 || u == 0x1680 || (0x2000 <= u
        <= 0x200a) || u == 0x2028 || u == 0x2029 || u == 0x202f || u == 0x205f || u == 0x3000
}

/// Whether `c` is Unicode whitespace.
pub fn is_whitespace(c: char) -> (res: bool)
    ensures
        res == is_ws(c),
{
    let u = c as u32;
    (9 <= u && u <= 13) || u == 32 || u == 0x85 || u == 0xa0 || u == 0x1680 || (0x2000 <= u && u
        <= 0x200a) || u == 0x2028 || u == 0x2029 || u == 0x202f || u == 0x205f || u == 0x3000
}

/// `s` without its leading whitespace.
pub open spec fn trim_start(s: Seq<char>) -> Seq<char>
    decreases s.len(),
{
    if s.len() > 0 && is_ws(s[0]) {
        trim_start(s.drop_first())
    } else {
        s
    }
}

/// `s` without its trailing whitespace.
pub open spec fn trim_end(s: Seq<char>) -> Seq<char>
    decreases s.len(),
{
    if s.len() > 0 && is_ws(s.last()) {
        trim_end(s.drop_last())
    } else {
        s
    }
}

/// `s` without leading and trailing whitespace, as `str::trim` gives it.
pub open spec fn trim(s: Seq<char>) -> Seq<char> {
    trim_end(trim_start(s))
}

proof fn lemma_trim_start(s: Seq<char>, lo: int)
    requires
        0 <= lo <= s.len(),
        forall|k: int| 0 <= k < lo ==> is_ws(#[trigger] s[k]),
        lo < s.len() ==> !is_ws(s[lo]),
    ensures
        trim_start(s) == s.skip(lo),
    decreases lo,
{
    if lo == 0 {
        assert(s.skip(0) =~= s);
    } else {
        let r = s.drop_first();
        assert forall|k: int| 0 <= k < lo - 1 implies is_ws(#[trigger] r[k]) by {
            assert(r[k] == s[k + 1]);
        }
        if lo - 1 < r.len() {
            assert(r[lo - 1] == s[lo]);
        }
        lemma_trim_start(r, lo - 1);
        assert(r.skip(lo - 1) =~= s.skip(lo));
    }
}

proof fn lemma_trim_end(s: Seq<char>, hi: int)
    requires
        0 <= hi <= s.len(),
        forall|k: int| hi <= k < s.len() ==> is_ws(#[trigger] s[k]),
        hi > 0 ==> !is_ws(s[hi - 1]),
    ensures
        trim_end(s) == s.take(hi),
    decreases s.len() - hi,
{
    if hi == s.len() {
        assert(s.take(hi) =~= s);
    } else {
        let r = s.drop_last();
        assert(is_ws(s[s.len() - 1]));
        assert forall|k: int| hi <= k < r.len() implies is_ws(#[trigger] r[k]) by {
            assert(r[k] == s[k]);
        }
        if hi > 0 {
            assert(r[hi - 1] == s[hi - 1]);
        }
        lemma_trim_end(r, hi);
        assert(r.take(hi) =~= s.take(hi));
    }
}

/// The bounds of `chars[from..to]` once trimmed: `chars[lo..hi]` is
/// `trim(chars[from..to])`.
pub fn trim_bounds(chars: &Vec<char>, from: usize, to: usize) -> (res: (usize, usize))
    requires
        from <= to <= chars@.len(),
    ensures
        from <= res.0 <= res.1 <= to,
        chars@.subrange(res.0 as int, res.1 as int) == trim(
            chars@.subrange(from as int, to as int),
        ),
{
    let ghost seg = chars@.subrange(from as int, to as int);
    let mut lo = from;
    while lo < to && is_whitespace(chars[lo])
        invariant
            from <= lo <= to <= chars@.len(),
            seg == chars@.subrange(from as int, to as int),
            forall|k: int| from <= k < lo ==> is_ws(#[trigger] chars@[k]),
        decreases to - lo,
    {
        lo = lo + 1;
    }
    proof {
        assert forall|k: int| 0 <= k < lo - from implies is_ws(#[trigger] seg[k]) by {
            assert(seg[k] == chars@[from + k]);
        }
        if lo < to {
            assert(seg[lo - from] == chars@[lo as int]);
        }
        lemma_trim_start(seg, lo - from);
    }
    let ghost rest = seg.skip(lo - from);
    assert(rest =~= chars@.subrange(lo as int, to as int));
    let mut hi = to;
    while hi > lo && is_whitespace(chars[hi - 1])
        invariant
            from <= lo <= hi <= to <= chars@.len(),
            forall|k: int| hi <= k < to ==> is_ws(#[trigger] chars@[k]),
        decreases hi - lo,
    {
        hi = hi - 1;
    }
    proof {
        assert forall|k: int| hi - lo <= k < rest.len() implies is_ws(#[trigger] rest[k]) by {
            assert(rest[k] == chars@[lo + k]);
        }
        if hi > lo {
            assert(rest[hi - lo - 1] == chars@[hi - 1]);
        }
        lemma_trim_end(rest, hi - lo);
        assert(rest.take(hi - lo) =~= chars@.subrange(lo as int, hi as int));
    }
    (lo, hi)
}

/// The text pieces between occurrences of `sep`, as `str::split` gives them.
pub open spec fn split_on(s: Seq<char>, sep: char) -> Seq<Seq<char>>
    decreases s.len(),
{
    if s.len() == 0 {
        seq![Seq::empty()]
    } else {
        let parts = split_on(s.drop_last(), sep);
        if s.last() == sep {
            parts.push(Seq::empty())
        } else {
            parts.update(parts.len() - 1, parts.last().push(s.last()))
        }
    }
}

pub proof fn lemma_split_on_nonempty(s: Seq<char>, sep: char)
    ensures
        split_on(s, sep).len() >= 1,
    decreases s.len(),
{
    if s.len() > 0 {
        lemma_split_on_nonempty(s.drop_last(), sep);
    }
}

/// Index pairs that each select a range of a text of length `len`.
pub open spec fn bounds_within(bounds: Seq<(usize, usize)>, len: nat) -> bool {
    forall|k: int| 0 <= k < bounds.len() ==> #[trigger] bounds[k].0 <= bounds[k].1 <= len
}

pub proof fn lemma_bounds_push(bounds: Seq<(usize, usize)>, p: (usize, usize), len: nat)
    requires
        bounds_within(bounds, len),
        p.0 <= p.1 <= len,
    ensures
        bounds_within(bounds.push(p), len),
{
    assert forall|k: int| 0 <= k < bounds.push(p).len() implies #[trigger] bounds.push(p)[k].0
        <= bounds.push(p)[k].1 <= len by {
        if k < bounds.len() {
            assert(bounds.push(p)[k] == bounds[k]);
        }
    }
}

/// The pieces that index pairs select from `chars`.
pub open spec fn pieces(chars: Seq<char>, bounds: Seq<(usize, usize)>) -> Seq<Seq<char>> {
    Seq::new(bounds.len(), |k: int| chars.subrange(bounds[k].0 as int, bounds[k].1 as int))
}

/// The bounds of the pieces of `chars` between occurrences of `sep`.
pub fn split_bounds(chars: &Vec<char>, sep: char) -> (bounds: Vec<(usize, usize)>)
    ensures
        pieces(chars@, bounds@) == split_on(chars@, sep),
        bounds_within(bounds@, chars@.len()),
{
    let mut bounds: Vec<(usize, usize)> = Vec::new();
    let mut start: usize = 0;
    let mut i: usize = 0;
    assert(chars@.take(0) =~= Seq::<char>::empty());
    assert(pieces(chars@, bounds@).push(chars@.subrange(0, 0)) =~= seq![Seq::<char>::empty()]);
    while i < chars.len()
        invariant
            start <= i <= chars@.len(),
            bounds_within(bounds@, chars@.len()),
            pieces(chars@, bounds@).push(chars@.subrange(start as int, i as int)) == split_on(
                chars@.take(i as int),
                sep,
            ),
        decreases chars.len() - i,
    {
        let ghost prev = chars@.take(i as int);
        assert(chars@.take(i + 1).drop_last() =~= prev);
        assert(chars@.take(i + 1).last() == chars@[i as int]);
        proof {
            lemma_split_on_nonempty(prev, sep);
        }
        if chars[i] == sep {
            let ghost before = bounds@;
            bounds.push((start, i));
            proof {
                lemma_bounds_push(before, (start, i), chars@.len());
            }
            start = i + 1;
            assert(pieces(chars@, bounds@) =~= pieces(chars@, bounds@.drop_last()).push(
                chars@.subrange(bounds@.last().0 as int, bounds@.last().1 as int),
            ));
            assert(chars@.subrange(start as int, i + 1) =~= Seq::<char>::empty());
        } else {
            assert(chars@.subrange(start as int, i + 1) =~= chars@.subrange(
                start as int,
                i as int,
            ).push(chars@[i as int]));
        }
        i = i + 1;
        assert(pieces(chars@, bounds@).push(chars@.subrange(start as int, i as int)) =~= split_on(
            chars@.take(i as int),
            sep,
        ));
    }
    let ghost before = bounds@;
    bounds.push((start, i));
    proof {
        lemma_bounds_push(before, (start, i), chars@.len());
    }
    assert(chars@.take(i as int) =~= chars@);
    assert(pieces(chars@, bounds@) =~= pieces(chars@, bounds@.drop_last()).push(
        chars@.subrange(start as int, i as int),
    ));
    bounds
}

/// The whitespace-separated words of `s`, as `str::split_whitespace`
/// gives them.
pub open spec fn words(s: Seq<char>) -> Seq<Seq<char>>
    decreases s.len(),
{
    if s.len() == 0 {
        Seq::empty()
    } else {
        let w = words(s.drop_last());
        if is_ws(s.last()) {
            w
        } else if s.len() >= 2 && !is_ws(s[s.len() - 2]) {
            w.update(w.len() - 1, w.last().push(s.last()))
        } else {
            w.push(seq![s.last()])
        }
    }
}

/// The words of `s` while a word is open at its end: all but that word,
/// then that word.
pub open spec fn open_words(closed: Seq<Seq<char>>, current: Option<Seq<char>>) -> Seq<Seq<char>> {
    match current {
        Some(w) => closed.push(w),
        None => closed,
    }
}

/// The bounds of the words of `chars[from..to]`.
pub fn word_bounds(chars: &Vec<char>, from: usize, to: usize) -> (bounds: Vec<(usize, usize)>)
    requires
        from <= to <= chars@.len(),
    ensures
        pieces(chars@, bounds@) == words(chars@.subrange(from as int, to as int)),
        bounds_within(bounds@, chars@.len()),
{
    let mut bounds: Vec<(usize, usize)> = Vec::new();
    let mut in_word = false;
    let mut ws: usize = from;
    let mut i: usize = from;
    assert(chars@.subrange(from as int, from as int) =~= Seq::<char>::empty());
    assert(pieces(chars@, bounds@) =~= Seq::<Seq<char>>::empty());
    while i < to
        invariant
            from <= ws <= i <= to <= chars@.len(),
            bounds_within(bounds@, chars@.len()),
            in_word == (i > from && !is_ws(chars@[i - 1])),
            words(chars@.subrange(from as int, i as int)) == open_words(
                pieces(chars@, bounds@),
                if in_word {
                    Some(chars@.subrange(ws as int, i as int))
                } else {
                    None
                },
            ),
        decreases to - i,
    {
        let ghost pre = chars@.subrange(from as int, i as int);
        let ghost next = chars@.subrange(from as int, i + 1);
        assert(next.drop_last() =~= pre);
        assert(next.last() == chars@[i as int]);
        if i > from {
            assert(next[next.len() - 2] == chars@[i - 1]);
        }
        let c = chars[i];
        if is_whitespace(c) {
            if in_word {
                let ghost before = bounds@;
                bounds.push((ws, i));
                proof {
                    lemma_bounds_push(before, (ws, i), chars@.len());
                }
                assert(pieces(chars@, bounds@) =~= pieces(chars@, bounds@.drop_last()).push(
                    chars@.subrange(ws as int, i as int),
                ));
            }
            in_word = false;
        } else {
            if in_word {
                assert(chars@.subrange(ws as int, i + 1) =~= chars@.subrange(
                    ws as int,
                    i as int,
                ).push(c));
            } else {
                ws = i;
                in_word = true;
                assert(chars@.subrange(i as int, i + 1) =~= seq![c]);
            }
        }
        i = i + 1;
        assert(words(chars@.subrange(from as int, i as int)) =~= open_words(
            pieces(chars@, bounds@),
            if in_word {
                Some(chars@.subrange(ws as int, i as int))
            } else {
                None
            },
        ));
    }
    if in_word {
        let ghost before = bounds@;
        bounds.push((ws, to));
        proof {
            lemma_bounds_push(before, (ws, to), chars@.len());
        }
        assert(pieces(chars@, bounds@) =~= pieces(chars@, bounds@.drop_last()).push(
            chars@.subrange(ws as int, to as int),
        ));
    }
    bounds
}

} // verus!

verus! {

/// `c` with `A`..`Z` mapped to `a`..`z`, as `char::to_ascii_lowercase`.
pub open spec fn ascii_lower(c: char) -> char {
    if 'A' <= c && c <= 'Z' {
        ((c as u32) + 32) as char
    } else {
        c
    }
}

/// Every character of `s` lowered as ASCII.
pub open spec fn ascii_lower_all(s: Seq<char>) -> Seq<char> {
    Seq::new(s.len(), |i: int| ascii_lower(s[i]))
}

/// Equal up to ASCII case, as `str::eq_ignore_ascii_case`.
pub open spec fn eq_ignore_ascii_case(a: Seq<char>, b: Seq<char>) -> bool {
    ascii_lower_all(a) == ascii_lower_all(b)
}

pub fn lower_char(c: char) -> (r: char)
    ensures
        r == ascii_lower(c),
{
    if 'A' <= c && c <= 'Z' {
        ((c as u8) + 32u8) as char
    } else {
        c
    }
}

/// Whether `chars[lo..hi]` equals `other` once both are lowered as ASCII.
pub fn range_eq_ignore_ascii_case(chars: &Vec<char>, lo: usize, hi: usize, other: &Vec<char>) -> (res:
    bool)
    requires
        lo <= hi <= chars@.len(),
    ensures
        res == eq_ignore_ascii_case(chars@.subrange(lo as int, hi as int), other@),
{
    let ghost a = chars@.subrange(lo as int, hi as int);
    if hi - lo != other.len() {
        assert(ascii_lower_all(a).len() != ascii_lower_all(other@).len());
        return false;
    }
    let mut i: usize = 0;
    while i < other.len()
        invariant
            i <= other@.len(),
            hi - lo == other@.len(),
            lo <= hi <= chars@.len(),
            a == chars@.subrange(lo as int, hi as int),
            forall|k: int| 0 <= k < i ==> ascii_lower(a[k]) == ascii_lower(#[trigger] other@[k]),
        decreases other.len() - i,
    {
        if lower_char(chars[lo + i]) != lower_char(other[i]) {
            assert(ascii_lower_all(a)[i as int] != ascii_lower_all(other@)[i as int]);
            return false;
        }
        i = i + 1;
    }
    assert(ascii_lower_all(a) =~= ascii_lower_all(other@));
    true
}

/// Whether `chars[lo..hi]` equals `other`.
pub fn range_eq(chars: &Vec<char>, lo: usize, hi: usize, other: &Vec<char>) -> (res: bool)
    requires
        lo <= hi <= chars@.len(),
    ensures
        res == (chars@.subrange(lo as int, hi as int) == other@),
{
    let ghost a = chars@.subrange(lo as int, hi as int);
    if hi - lo != other.len() {
        return false;
    }
    let mut i: usize = 0;
    while i < other.len()
        invariant
            i <= other@.len(),
            hi - lo == other@.len(),
            lo <= hi <= chars@.len(),
            a == chars@.subrange(lo as int, hi as int),
            forall|k: int| 0 <= k < i ==> a[k] == #[trigger] other@[k],
        decreases other.len() - i,
    {
        if chars[lo + i] != other[i] {
            assert(a[i as int] != other@[i as int]);
            return false;
        }
        i = i + 1;
    }
    assert(a =~= other@);
    true
}

/// Whether two string slices hold the same characters.
pub fn str_eq(a: &str, b: &str) -> (res: bool)
    ensures
        res == (a@ == b@),
{
    let ca = chars_of(a);
    let cb = chars_of(b);
    assert(ca@.subrange(0, ca@.len() as int) =~= ca@);
    range_eq(&ca, 0, ca.len(), &cb)
}

/// The trimmed characters of `s`.
pub fn trimmed(s: &str) -> (t: Vec<char>)
    ensures
        t@ == trim(s@),
{
    let chars = chars_of(s);
    let (lo, hi) = trim_bounds(&chars, 0, chars.len());
    assert(chars@.subrange(0, chars@.len() as int) =~= chars@);
    let mut t: Vec<char> = Vec::new();
    let mut i = lo;
    while i < hi
        invariant
            lo <= i <= hi <= chars@.len(),
            t@ == chars@.subrange(lo as int, i as int),
        decreases hi - i,
    {
        t.push(chars[i]);
        i = i + 1;
        assert(t@ =~= chars@.subrange(lo as int, i as int));
    }
    t
}

} // verus!
