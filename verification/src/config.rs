//! Settings that come from the environment and from upload fields.

use vstd::prelude::*;

use crate::text::{
    ascii_lower_all, chars_of, range_eq_ignore_ascii_case, split_bounds, split_on,
    string_from_range, trim, trim_bounds, trimmed, eq_ignore_ascii_case, str_eq, pieces,
};

verus! {

/// Whether pages are analysed as uploaded or converted to grayscale first.
#[derive(Debug, Clone, Copy, PartialEq, Eq, Structural)]
pub enum ColorMode {
    Color,
    Mono,
}

/// Why the configuration was refused: the token is missing, or the named
/// setting is invalid.
#[derive(Debug, Clone, Copy, PartialEq, Eq)]
pub enum ConfigError {
    MissingToken,
    Invalid(&'static str),
}

/// The colour mode that a setting names: `color` or `mono`, ignoring
/// surrounding whitespace and ASCII case.
pub open spec fn spec_color_mode(value: Seq<char>) -> Option<ColorMode> {
    let t = ascii_lower_all(trim(value));
    if t == seq!['c', 'o', 'l', 'o', 'r'] {
        Some(ColorMode::Color)
    } else if t == seq!['m', 'o', 'n', 'o'] {
        Some(ColorMode::Mono)
    } else {
        None
    }
}

proof fn lemma_lower_literal(t: Seq<char>, lit: Seq<char>)
    requires
        ascii_lower_all(lit) == lit,
    ensures
        eq_ignore_ascii_case(t, lit) == (ascii_lower_all(t) == lit),
{
}

impl ColorMode {
    /// Reads a colour mode: `color` or `mono`, ignoring surrounding
    /// whitespace and ASCII case; anything else is refused.
    pub fn parse(value: &str) -> (res: Result<ColorMode, ()>)
        ensures
            match spec_color_mode(value@) {
                Some(m) => res == Ok::<ColorMode, ()>(m),
                None => res is Err,
            },
    {
        let t = trimmed(value);
        let color = chars_of("color");
        let mono = chars_of("mono");
        proof {
            reveal_strlit("color");
            reveal_strlit("mono");
            assert(color@ =~= seq!['c', 'o', 'l', 'o', 'r']);
            assert(mono@ =~= seq!['m', 'o', 'n', 'o']);
            assert(ascii_lower_all(color@) =~= color@);
            assert(ascii_lower_all(mono@) =~= mono@);
            lemma_lower_literal(t@, color@);
            lemma_lower_literal(t@, mono@);
        }
        assert(t@.subrange(0, t@.len() as int) =~= t@);
        if range_eq_ignore_ascii_case(&t, 0, t.len(), &color) {
            Ok(ColorMode::Color)
        } else if range_eq_ignore_ascii_case(&t, 0, t.len(), &mono) {
            Ok(ColorMode::Mono)
        } else {
            Err(())
        }
    }
}

impl std::str::FromStr for ColorMode {
    type Err = ();

    fn from_str(value: &str) -> (res: Result<Self, Self::Err>)
        ensures
            match spec_color_mode(value@) {
                Some(m) => res == Ok::<ColorMode, ()>(m),
                None => res is Err,
            },
    {
        ColorMode::parse(value)
    }
}

/// An ASCII decimal digit.
pub open spec fn is_decimal_digit(c: char) -> bool {
    '0' <= c <= '9'
}

/// The number that the decimal digits `ds` write.
pub open spec fn decimal_value(ds: Seq<char>) -> int
    decreases ds.len(),
{
    if ds.len() == 0 {
        0
    } else {
        decimal_value(ds.drop_last()) * 10 + (ds.last() as int - '0' as int)
    }
}

/// The digits of an unsigned number's text: what follows a leading `+`, or
/// the whole text.
pub open spec fn unsigned_digits(text: Seq<char>) -> Seq<char> {
    if text.len() > 0 && text[0] == '+' {
        text.drop_first()
    } else {
        text
    }
}

/// The unsigned number that `text` writes, as `str::parse` reads one for an
/// integer type whose largest value is `max`: an optional `+`, then one or
/// more decimal digits and nothing else, with a value of at most `max`.
pub open spec fn spec_parse_unsigned(text: Seq<char>, max: int) -> Option<int> {
    let ds = unsigned_digits(text);
    if ds.len() > 0 && (forall|i: int| 0 <= i < ds.len() ==> is_decimal_digit(#[trigger] ds[i]))
        && decimal_value(ds) <= max {
        Some(decimal_value(ds))
    } else {
        None
    }
}

proof fn lemma_decimal_value_grows(ds: Seq<char>, k: int)
    requires
        0 <= k <= ds.len(),
        forall|i: int| 0 <= i < ds.len() ==> is_decimal_digit(#[trigger] ds[i]),
    ensures
        0 <= decimal_value(ds.take(k)) <= decimal_value(ds),
    decreases ds.len(),
{
    if k < ds.len() {
        let init = ds.drop_last();
        assert forall|i: int| 0 <= i < init.len() implies is_decimal_digit(#[trigger] init[i]) by {
            assert(init[i] == ds[i]);
        }
        assert(ds.take(k) =~= init.take(k));
        lemma_decimal_value_grows(init, k);
        lemma_decimal_value_grows(init, init.len() as int);
        assert(init.take(init.len() as int) =~= init);
        assert(is_decimal_digit(ds[ds.len() - 1]));
    } else {
        assert(ds.take(k) =~= ds);
        if ds.len() > 0 {
            let init = ds.drop_last();
            assert forall|i: int| 0 <= i < init.len() implies is_decimal_digit(
                #[trigger] init[i],
            ) by {
                assert(init[i] == ds[i]);
            }
            lemma_decimal_value_grows(init, init.len() as int);
            assert(init.take(init.len() as int) =~= init);
            assert(is_decimal_digit(ds[ds.len() - 1]));
        }
    }
}

/// Reads an unsigned number of at most `max`, as `str::parse` does for an
/// integer type whose largest value is `max`.
pub fn parse_unsigned(text: &str, max: u64) -> (res: Option<u64>)
    ensures
        match spec_parse_unsigned(text@, max as int) {
            Some(v) => res matches Some(r) && r == v,
            None => res is None,
        },
{
    let chars = chars_of(text);
    let start: usize = if chars.len() > 0 && chars[0] == '+' {
        1
    } else {
        0
    };
    let ghost ds = unsigned_digits(text@);
    assert(ds =~= chars@.skip(start as int));
    if start == chars.len() {
        return None;
    }
    let mut value: u64 = 0;
    let mut i: usize = start;
    while i < chars.len()
        invariant
            start <= i <= chars@.len(),
            start < chars@.len(),
            chars@ == text@,
            ds == chars@.skip(start as int),
            ds == unsigned_digits(text@),
            forall|q: int| 0 <= q < i - start ==> is_decimal_digit(#[trigger] ds[q]),
            value as int == decimal_value(ds.take(i - start)),
            value <= max,
        decreases chars.len() - i,
    {
        let c = chars[i];
        if !('0' <= c && c <= '9') {
            assert(ds[i - start] == c);
            return None;
        }
        let d: u64 = (c as u32 - '0' as u32) as u64;
        let next: u128 = value as u128 * 10 + d as u128;
        let ghost k = i - start;
        assert(ds.take(k + 1).drop_last() =~= ds.take(k));
        assert(ds.take(k + 1).last() == c);
        assert(ds[k] == c);
        if next > max as u128 {
            proof {
                if forall|q: int| 0 <= q < ds.len() ==> is_decimal_digit(#[trigger] ds[q]) {
                    lemma_decimal_value_grows(ds, k + 1);
                }
            }
            return None;
        }
        value = next as u64;
        i = i + 1;
    }
    assert(ds.take(ds.len() as int) =~= ds);
    Some(value)
}

/// Reads a `u32` as `str::parse` does.
pub fn parse_u32(text: &str) -> (res: Option<u32>)
    ensures
        match spec_parse_unsigned(text@, u32::MAX as int) {
            Some(v) => res matches Some(r) && r == v,
            None => res is None,
        },
{
    match parse_unsigned(text, u32::MAX as u64) {
        Some(v) => Some(v as u32),
        None => None,
    }
}

/// Reads a `u64` as `str::parse` does.
pub fn parse_u64(text: &str) -> (res: Option<u64>)
    ensures
        match spec_parse_unsigned(text@, u64::MAX as int) {
            Some(v) => res matches Some(r) && r == v,
            None => res is None,
        },
{
    parse_unsigned(text, u64::MAX)
}

/// Reads a `usize` as `str::parse` does.
pub fn parse_usize(text: &str) -> (res: Option<usize>)
    ensures
        match spec_parse_unsigned(text@, usize::MAX as int) {
            Some(v) => res matches Some(r) && r == v,
            None => res is None,
        },
{
    match parse_unsigned(text, usize::MAX as u64) {
        Some(v) => Some(v as usize),
        None => None,
    }
}

/// Reads a `bool` as `str::parse` does: exactly `true` or `false`.
pub fn parse_bool(text: &str) -> (res: Option<bool>)
    ensures
        res == (if text@ == "true"@ {
            Some(true)
        } else if text@ == "false"@ {
            Some(false)
        } else {
            None::<bool>
        }),
{
    if str_eq(text, "true") {
        Some(true)
    } else if str_eq(text, "false") {
        Some(false)
    } else {
        None
    }
}

/// The number of Ghostscript processes allowed at once: the
/// `GS_CONCURRENCY` setting when it is present and not blank, read as a
/// `usize` (anything else is `Invalid("GS_CONCURRENCY")`); otherwise the
/// machine's CPU count `cpus`, but at least one.
pub fn gs_concurrency(setting: Option<&str>, cpus: usize) -> (res: Result<usize, ConfigError>)
    ensures
        match setting {
            Some(v) if trim(v@).len() > 0 => match spec_parse_unsigned(v@, usize::MAX as int) {
                Some(n) => res matches Ok(r) && r == n,
                None => res matches Err(ConfigError::Invalid(name)) && name@ == "GS_CONCURRENCY"@,
            },
            _ => res == Ok::<usize, ConfigError>(if cpus > 1 { cpus } else { 1 }),
        },
{
    match setting {
        Some(v) => {
            let t = trimmed(v);
            if t.len() > 0 {
                match parse_usize(v) {
                    Some(n) => Ok(n),
                    None => Err(ConfigError::Invalid("GS_CONCURRENCY")),
                }
            } else if cpus > 1 {
                Ok(cpus)
            } else {
                Ok(1)
            }
        },
        None => if cpus > 1 {
            Ok(cpus)
        } else {
            Ok(1)
        },
    }
}

/// Whether an API token is refused: blank, or the placeholder `change-me`.
pub open spec fn token_is_refused(token: Seq<char>) -> bool {
    trim(token).len() == 0 || token == "change-me"@
}

/// Checks the API bearer token that the environment supplies: none is
/// `MissingToken`; a blank one or the placeholder `change-me` is
/// `Invalid("API_BEARER_TOKEN")`.
pub fn validate_api_token(token: Option<&str>) -> (res: Result<(), ConfigError>)
    ensures
        match token {
            None => res == Err::<(), ConfigError>(ConfigError::MissingToken),
            Some(t) => if token_is_refused(t@) {
                res matches Err(ConfigError::Invalid(name)) && name@ == "API_BEARER_TOKEN"@
            } else {
                res is Ok
            },
        },
{
    match token {
        None => Err(ConfigError::MissingToken),
        Some(t) => {
            let trimmed_token = trimmed(t);
            if trimmed_token.len() == 0 || str_eq(t, "change-me") {
                Err(ConfigError::Invalid("API_BEARER_TOKEN"))
            } else {
                Ok(())
            }
        },
    }
}

/// The non-blank pieces of `parts`, trimmed, in order.
pub open spec fn nonblank_trimmed(parts: Seq<Seq<char>>) -> Seq<Seq<char>>
    decreases parts.len(),
{
    if parts.len() == 0 {
        Seq::empty()
    } else if trim(parts.last()).len() == 0 {
        nonblank_trimmed(parts.drop_last())
    } else {
        nonblank_trimmed(parts.drop_last()).push(trim(parts.last()))
    }
}

/// The allowed callback hosts that a comma-separated setting lists.
pub open spec fn spec_callback_hosts(raw: Seq<char>) -> Seq<Seq<char>> {
    nonblank_trimmed(split_on(raw, ','))
}

/// The hosts of a comma-separated list, trimmed, blank entries left out.
pub fn parse_callback_hosts(raw: &str) -> (hosts: Vec<String>)
    ensures
        hosts@.len() == spec_callback_hosts(raw@).len(),
        forall|i: int| 0 <= i < hosts@.len() ==> #[trigger] hosts@[i]@ == spec_callback_hosts(
            raw@,
        )[i],
{
    let chars = chars_of(raw);
    let parts = split_bounds(&chars, ',');
    let ghost all = split_on(chars@, ',');
    let mut hosts: Vec<String> = Vec::new();
    let mut j: usize = 0;
    assert(all.take(0) =~= Seq::<Seq<char>>::empty());
    while j < parts.len()
        invariant
            j <= parts@.len(),
            pieces(chars@, parts@) == all,
            crate::text::bounds_within(parts@, chars@.len()),
            hosts@.len() == nonblank_trimmed(all.take(j as int)).len(),
            forall|i: int| 0 <= i < hosts@.len() ==> #[trigger] hosts@[i]@ == nonblank_trimmed(
                all.take(j as int),
            )[i],
        decreases parts.len() - j,
    {
        let ghost prev = all.take(j as int);
        assert(all.take(j + 1).drop_last() =~= prev);
        assert(all.take(j + 1).last() == chars@.subrange(
            parts@[j as int].0 as int,
            parts@[j as int].1 as int,
        ));
        let (from, to) = parts[j];
        let (lo, hi) = trim_bounds(&chars, from, to);
        if lo < hi {
            let ghost before = hosts@;
            hosts.push(string_from_range(&chars, lo, hi));
            assert forall|i: int| 0 <= i < hosts@.len() implies #[trigger] hosts@[i]@
                == nonblank_trimmed(all.take(j + 1))[i] by {
                if i < before.len() {
                    assert(hosts@[i] == before[i]);
                }
            }
        }
        j = j + 1;
    }
    assert(all.take(j as int) =~= all);
    hosts
}

} // verus!
