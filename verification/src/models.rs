use vstd::prelude::*;

verus! {

/// `uuid::Uuid`, the job identifier carried through a result untouched.
#[verifier::external_type_specification]
#[verifier::external_body]
pub struct ExUuid(uuid::Uuid);

/// How much a failing check matters.
#[derive(Debug, Clone, Copy, PartialEq, Eq, Structural)]
pub enum Severity {
    Error,
    Warning,
    Info,
}

/// The outcome of one check.
#[derive(Debug, Clone, Copy, PartialEq, Eq, Structural)]
pub enum CheckStatus {
    Pass,
    Warn,
    Fail,
}

/// The outcome of a whole preflight run.
#[derive(Debug, Clone, Copy, PartialEq, Eq, Structural)]
pub enum ResultStatus {
    Completed,
    Failed,
}

/// One value in the structured facts that a check reports.
#[derive(Debug)]
pub enum DataValue {
    Bool(bool),
    UInt(u64),
    Pages(Vec<u32>),
}

/// A named fact reported by a check.
#[derive(Debug)]
pub struct DataField {
    pub key: String,
    pub value: DataValue,
}

/// The result of one check: its id, severity, status and reported facts.
#[derive(Debug)]
pub struct CheckResult {
    pub id: String,
    pub severity: Severity,
    pub status: CheckStatus,
    pub data: Vec<DataField>,
}

/// Size, digest and announced version of a PDF file.
#[derive(Debug)]
pub struct FileInfo {
    pub bytes: u64,
    pub sha256: String,
    pub pdf_version: Option<String>,
}

/// Totals over all checks of a run.
#[derive(Debug, Clone, Copy, PartialEq, Eq, Structural)]
pub struct Summary {
    pub pages: u32,
    pub has_colour: bool,
    pub errors: u32,
    pub warnings: u32,
}

/// Whether a page's content comes closer to an edge than the margin.
#[derive(Debug, Clone, Copy, PartialEq, Eq, Structural)]
pub struct PageMarginResult {
    pub tight: bool,
}

/// Where and with which credential job events are delivered.
#[derive(Debug)]
pub struct CallbackTarget {
    pub url: String,
    pub token: Option<String>,
}

/// The full result of a run. `A` is the description of the analysis
/// settings and `P` the per-page report; both are carried, never read here.
#[derive(Debug)]
pub struct PreflightResult<A, P> {
    pub schema_version: String,
    pub job_id: uuid::Uuid,
    pub status: ResultStatus,
    pub source_file: FileInfo,
    pub analysed_file: FileInfo,
    pub analysis: A,
    pub summary: Summary,
    pub pages: Vec<P>,
    pub checks: Vec<CheckResult>,
}

/// The schema version every result announces.
pub open spec fn schema_version() -> Seq<char> {
    "3.0"@
}

/// A failing check of error severity: it fails the whole run.
pub open spec fn spec_is_hard_failure(c: CheckResult) -> bool {
    c.severity == Severity::Error && c.status == CheckStatus::Fail
}

/// A check of warning severity that did not pass.
pub open spec fn spec_is_warning(c: CheckResult) -> bool {
    c.severity == Severity::Warning && c.status != CheckStatus::Pass
}

/// The number of hard failures among `checks`.
pub open spec fn count_errors(checks: Seq<CheckResult>) -> nat
    decreases checks.len(),
{
    if checks.len() == 0 {
        0
    } else {
        count_errors(checks.drop_last()) + if spec_is_hard_failure(checks.last()) {
            1nat
        } else {
            0nat
        }
    }
}

/// The number of warnings among `checks`.
pub open spec fn count_warnings(checks: Seq<CheckResult>) -> nat
    decreases checks.len(),
{
    if checks.len() == 0 {
        0
    } else {
        count_warnings(checks.drop_last()) + if spec_is_warning(checks.last()) {
            1nat
        } else {
            0nat
        }
    }
}

/// Whether some check among `checks` is a hard failure.
pub open spec fn has_hard_failure(checks: Seq<CheckResult>) -> bool {
    exists|i: int| 0 <= i < checks.len() && spec_is_hard_failure(#[trigger] checks[i])
}

/// The first check whose id is `id`.
pub open spec fn first_with_id(checks: Seq<CheckResult>, id: Seq<char>) -> Option<CheckResult>
    decreases checks.len(),
{
    if checks.len() == 0 {
        None
    } else if checks[0].id@ == id {
        Some(checks[0])
    } else {
        first_with_id(checks.drop_first(), id)
    }
}

/// The value of the first fact named `key`.
pub open spec fn lookup(data: Seq<DataField>, key: Seq<char>) -> Option<DataValue>
    decreases data.len(),
{
    if data.len() == 0 {
        None
    } else if data[0].key@ == key {
        Some(data[0].value)
    } else {
        lookup(data.drop_first(), key)
    }
}

/// The page total that the first `page_count` check reports as `count`,
/// if it reports one as an unsigned number.
pub open spec fn reported_count(checks: Seq<CheckResult>) -> Option<u64> {
    match first_with_id(checks, "page_count"@) {
        Some(c) => match lookup(c.data@, "count"@) {
            Some(DataValue::UInt(n)) => Some(n),
            _ => None,
        },
        None => None,
    }
}

/// Whether colour was found, as the first `colour` check reports it as
/// `has_colour`, if it reports it as a boolean.
pub open spec fn reported_colour(checks: Seq<CheckResult>) -> Option<bool> {
    match first_with_id(checks, "colour"@) {
        Some(c) => match lookup(c.data@, "has_colour"@) {
            Some(DataValue::Bool(b)) => Some(b),
            _ => None,
        },
        None => None,
    }
}

/// The summary and status that finalizing gives `checks`, starting from
/// the summary `prev`.
pub open spec fn finalized_summary(checks: Seq<CheckResult>, prev: Summary) -> Summary {
    Summary {
        pages: match reported_count(checks) {
            Some(n) => n as u32,
            None => prev.pages,
        },
        has_colour: match reported_colour(checks) {
            Some(b) => b,
            None => prev.has_colour,
        },
        errors: count_errors(checks) as u32,
        warnings: count_warnings(checks) as u32,
    }
}

pub open spec fn finalized_status(checks: Seq<CheckResult>) -> ResultStatus {
    if has_hard_failure(checks) {
        ResultStatus::Failed
    } else {
        ResultStatus::Completed
    }
}

/// A result whose status and summary agree with its checks.
pub open spec fn is_finalized<A, P>(r: PreflightResult<A, P>, prev: Summary) -> bool {
    &&& r.status == finalized_status(r.checks@)
    &&& r.summary == finalized_summary(r.checks@, prev)
}

pub proof fn lemma_errors_count_hard_failures(checks: Seq<CheckResult>)
    ensures
        count_errors(checks) > 0 <==> has_hard_failure(checks),
    decreases checks.len(),
{
    if checks.len() > 0 {
        let init = checks.drop_last();
        lemma_errors_count_hard_failures(init);
        if has_hard_failure(init) {
            let i = choose|i: int| 0 <= i < init.len() && spec_is_hard_failure(#[trigger] init[i]);
            assert(checks[i] == init[i]);
        }
        if has_hard_failure(checks) && !spec_is_hard_failure(checks.last()) {
            let i = choose|i: int| 0 <= i < checks.len() && spec_is_hard_failure(#[trigger] checks[i]);
            assert(init[i] == checks[i]);
        }
        if spec_is_hard_failure(checks.last()) {
            assert(spec_is_hard_failure(checks[checks.len() - 1]));
        }
    }
}

impl CheckResult {
    /// A check result with the given id, severity, status and facts.
    pub fn new(id: &str, severity: Severity, status: CheckStatus, data: Vec<DataField>) -> (res:
        Self)
        ensures
            res.id@ == id@,
            res.severity == severity,
            res.status == status,
            res.data == data,
    {
        CheckResult { id: id.to_owned(), severity, status, data }
    }

    /// Whether this check fails the whole run.
    pub fn is_hard_failure(&self) -> (res: bool)
        ensures
            res == spec_is_hard_failure(*self),
    {
        self.severity == Severity::Error && self.status == CheckStatus::Fail
    }
}

impl Default for Summary {
    fn default() -> (s: Self)
        ensures
            s == (Summary { pages: 0, has_colour: false, errors: 0, warnings: 0 }),
    {
        Summary { pages: 0, has_colour: false, errors: 0, warnings: 0 }
    }
}

impl<A, P> PreflightResult<A, P> {
    /// A completed result with no pages, no checks and an empty summary.
    pub fn new(job_id: uuid::Uuid, source_file: FileInfo, analysed_file: FileInfo, analysis: A) -> (res:
        Self)
        ensures
            res.schema_version@ == schema_version(),
            res.job_id == job_id,
            res.status == ResultStatus::Completed,
            res.source_file == source_file,
            res.analysed_file == analysed_file,
            res.analysis == analysis,
            res.summary == (Summary { pages: 0, has_colour: false, errors: 0, warnings: 0 }),
            res.pages@.len() == 0,
            res.checks@.len() == 0,
    {
        PreflightResult {
            schema_version: "3.0".to_owned(),
            job_id,
            status: ResultStatus::Completed,
            source_file,
            analysed_file,
            analysis,
            summary: Summary { pages: 0, has_colour: false, errors: 0, warnings: 0 },
            pages: Vec::new(),
            checks: Vec::new(),
        }
    }

    /// Appends a check; nothing else changes.
    pub fn push_check(&mut self, check: CheckResult)
        ensures
            final(self).checks@ == old(self).checks@.push(check),
            final(self).schema_version == old(self).schema_version,
            final(self).job_id == old(self).job_id,
            final(self).status == old(self).status,
            final(self).source_file == old(self).source_file,
            final(self).analysed_file == old(self).analysed_file,
            final(self).analysis == old(self).analysis,
            final(self).summary == old(self).summary,
            final(self).pages == old(self).pages,
    {
        self.checks.push(check);
    }

    /// Sets the status and the summary from the checks: the run failed iff
    /// some check is a hard failure; errors and warnings are counted; the
    /// page total and colour flag are taken from the `page_count` and
    /// `colour` checks where those report them.
    pub fn finalize(&mut self)
        ensures
            final(self).status == finalized_status(old(self).checks@),
            final(self).summary == finalized_summary(old(self).checks@, old(self).summary),
            final(self).checks == old(self).checks,
            final(self).schema_version == old(self).schema_version,
            final(self).job_id == old(self).job_id,
            final(self).source_file == old(self).source_file,
            final(self).analysed_file == old(self).analysed_file,
            final(self).analysis == old(self).analysis,
            final(self).pages == old(self).pages,
    {
        let errors = count_hard_failures(&self.checks);
        let warnings = count_warning_checks(&self.checks);
        proof {
            lemma_errors_count_hard_failures(self.checks@);
        }
        self.status = if errors > 0 {
            ResultStatus::Failed
        } else {
            ResultStatus::Completed
        };
        self.summary.errors = errors as u32;
        self.summary.warnings = warnings as u32;
        match find_count(&self.checks) {
            Some(n) => {
                self.summary.pages = n as u32;
            },
            None => {},
        }
        match find_colour(&self.checks) {
            Some(b) => {
                self.summary.has_colour = b;
            },
            None => {},
        }
    }
}

fn count_hard_failures(checks: &Vec<CheckResult>) -> (n: usize)
    ensures
        n == count_errors(checks@),
{
    let mut n: usize = 0;
    let mut i: usize = 0;
    while i < checks.len()
        invariant
            i <= checks@.len(),
            n == count_errors(checks@.take(i as int)),
            n <= i,
        decreases checks.len() - i,
    {
        assert(checks@.take(i + 1).drop_last() =~= checks@.take(i as int));
        if checks[i].is_hard_failure() {
            n = n + 1;
        }
        i = i + 1;
    }
    assert(checks@.take(i as int) =~= checks@);
    n
}

fn count_warning_checks(checks: &Vec<CheckResult>) -> (n: usize)
    ensures
        n == count_warnings(checks@),
{
    let mut n: usize = 0;
    let mut i: usize = 0;
    while i < checks.len()
        invariant
            i <= checks@.len(),
            n == count_warnings(checks@.take(i as int)),
            n <= i,
        decreases checks.len() - i,
    {
        assert(checks@.take(i + 1).drop_last() =~= checks@.take(i as int));
        if checks[i].severity == Severity::Warning && checks[i].status != CheckStatus::Pass {
            n = n + 1;
        }
        i = i + 1;
    }
    assert(checks@.take(i as int) =~= checks@);
    n
}

/// The index of the first check with the id `id`, if any.
fn position_of_id(checks: &Vec<CheckResult>, id: &String) -> (res: Option<usize>)
    ensures
        match res {
            Some(i) => i < checks@.len() && first_with_id(checks@, id@) == Some(checks@[i as int]),
            None => first_with_id(checks@, id@) is None,
        },
{
    let mut i: usize = 0;
    assert(checks@.skip(0) =~= checks@);
    while i < checks.len()
        invariant
            i <= checks@.len(),
            first_with_id(checks@, id@) == first_with_id(checks@.skip(i as int), id@),
        decreases checks.len() - i,
    {
        assert(checks@.skip(i as int)[0] == checks@[i as int]);
        if checks[i].id == *id {
            return Some(i);
        }
        assert(checks@.skip(i as int).drop_first() =~= checks@.skip(i + 1));
        i = i + 1;
    }
    None
}

/// The first fact named `key`, if any.
fn find_field<'a>(data: &'a Vec<DataField>, key: &String) -> (res: Option<&'a DataValue>)
    ensures
        match res {
            Some(v) => lookup(data@, key@) == Some(*v),
            None => lookup(data@, key@) is None,
        },
{
    let mut i: usize = 0;
    assert(data@.skip(0) =~= data@);
    while i < data.len()
        invariant
            i <= data@.len(),
            lookup(data@, key@) == lookup(data@.skip(i as int), key@),
        decreases data.len() - i,
    {
        assert(data@.skip(i as int)[0] == data@[i as int]);
        if data[i].key == *key {
            return Some(&data[i].value);
        }
        assert(data@.skip(i as int).drop_first() =~= data@.skip(i + 1));
        i = i + 1;
    }
    None
}

fn find_count(checks: &Vec<CheckResult>) -> (res: Option<u64>)
    ensures
        res == reported_count(checks@),
{
    let id = "page_count".to_owned();
    let key = "count".to_owned();
    match position_of_id(checks, &id) {
        None => None,
        Some(i) => match find_field(&checks[i].data, &key) {
            Some(DataValue::UInt(n)) => Some(*n),
            _ => None,
        },
    }
}

fn find_colour(checks: &Vec<CheckResult>) -> (res: Option<bool>)
    ensures
        res == reported_colour(checks@),
{
    let id = "colour".to_owned();
    let key = "has_colour".to_owned();
    match position_of_id(checks, &id) {
        None => None,
        Some(i) => match find_field(&checks[i].data, &key) {
            Some(DataValue::Bool(b)) => Some(*b),
            _ => None,
        },
    }
}

} // verus!
