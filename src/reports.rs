//! Reports for each kind of lookup: the page to fetch, and how the fetched
//! page becomes records. A page without the expected table becomes one
//! placeholder record that carries the page's status text.

use vstd::prelude::*;
use vstd::string::*;

use crate::changes::changes_of;
use crate::evaluation::Evaluation;
use crate::naming::ResolvedArgs;
use crate::records::{
    builds_view, evals_view,
    bare_build, bare_eval, BuildStatus, BuildStatusView, EvalInput, EvalInputChanges,
    EvalInputChangesView, EvalInputView, EvalStatus, StatusIcon,
};
use crate::rows::{builds_of, evals_of, inputs_of, ParseError};
use crate::soup::{find_tbody, page_rows, table_of, table_rows, table_status};
use crate::table::{rows_view, Row};
use crate::text::{decimal, decimal_string, ends_with, opt_view, slice_string};

verus! {

/// The builds of one job.
#[derive(Debug)]
pub struct PackageReport {
    pub package: String,
    pub url: String,
    pub builds: Vec<BuildStatus>,
}

/// The recent evaluations of one jobset.
#[derive(Debug)]
pub struct JobsetReport {
    pub jobset: String,
    pub url: String,
    pub evals: Vec<EvalStatus>,
}

/// The inputs of one build.
#[derive(Debug)]
pub struct BuildReport {
    pub url: String,
    pub inputs: Vec<EvalInput>,
}

/// The details of one evaluation.
#[derive(Debug)]
pub struct EvalReport {
    pub eval: Evaluation,
    pub url: String,
    pub inputs: Vec<EvalInput>,
    pub changes: Vec<EvalInputChanges>,
    pub aborted: Vec<BuildStatus>,
    pub now_fail: Vec<BuildStatus>,
    pub now_succeed: Vec<BuildStatus>,
    pub new: Vec<BuildStatus>,
    pub removed: Vec<BuildStatus>,
    pub still_fail: Vec<BuildStatus>,
    pub still_succeed: Vec<BuildStatus>,
    pub unfinished: Vec<BuildStatus>,
}

pub open spec fn inputs_view(v: Seq<EvalInput>) -> Seq<EvalInputView> {
    v.map_values(|e: EvalInput| e@)
}

pub open spec fn changes_view(v: Seq<EvalInputChanges>) -> Seq<EvalInputChangesView> {
    v.map_values(|e: EvalInputChanges| e@)
}

/// The placeholder input that carries a status text.
pub open spec fn warning_input(status: Seq<char>) -> EvalInputView {
    EvalInputView {
        name: Some("⚠"@),
        input_type: None,
        value: Some(status),
        revision: None,
        store_path: None,
    }
}

fn warning_input_exec(status: String) -> (r: EvalInput)
    ensures
        r@ == warning_input(status@),
{
    EvalInput {
        name: Some(String::from_str(StatusIcon::Warning.symbol())),
        input_type: None,
        value: Some(status),
        revision: None,
        store_path: None,
    }
}

/// The page of a job's builds.
pub open spec fn package_url(host: Seq<char>, jobset: Seq<char>, package: Seq<char>) -> Seq<char> {
    host + "/job/"@ + jobset + "/"@ + package
}

/// The page of a jobset's evaluations.
pub open spec fn jobset_url(host: Seq<char>, jobset: Seq<char>) -> Seq<char> {
    host + "/jobset/"@ + jobset + "/evals"@
}

/// The page of an evaluation, filtered where it has a filter.
pub open spec fn eval_url(host: Seq<char>, id: u64, filter: Option<Seq<char>>) -> Seq<char> {
    match filter {
        Some(f) => host + "/eval/"@ + decimal(id as nat) + "?filter="@ + f,
        None => host + "/eval/"@ + decimal(id as nat),
    }
}

/// `url` without every trailing `/all`.
pub open spec fn strip_all_suffix(url: Seq<char>) -> Seq<char>
    decreases url.len(),
{
    if url.len() >= 4 && url.subrange(url.len() - 4, url.len() as int) == "/all"@ {
        strip_all_suffix(url.subrange(0, url.len() - 4))
    } else {
        url
    }
}

/// The page of a job without any trailing `/all`.
pub fn strip_all(package_url: &str) -> (r: String)
    ensures
        r@ == strip_all_suffix(package_url@),
{
    proof {
        reveal_strlit("/all");
    }
    let mut u = String::from_str(package_url);
    while ends_with(u.as_str(), "/all")
        invariant
            strip_all_suffix(package_url@) == strip_all_suffix(u@),
        decreases u@.len(),
    {
        proof {
            reveal_strlit("/all");
        }
        let n = u.unicode_len();
        u = slice_string(u.as_str(), 0, n - 4);
    }
    u
}

/// The page of the latest successful build of a finished evaluation.
pub fn latest_finished_url(package_url: &str) -> (r: String)
    ensures
        r@ == strip_all_suffix(package_url@) + "/latest-finished"@,
{
    strip_all(package_url).concat("/latest-finished")
}

impl PackageReport {
    /// The report of the job `package` on the resolved jobset, on `host`.
    pub fn from_package_with_args(package: &str, args: &ResolvedArgs, host: &str) -> (r: PackageReport)
        ensures
            r.package@ == package@,
            r.url@ == package_url(host@, args.jobset@, package@),
            r.builds@.len() == 0,
    {
        let url = String::from_str(host).concat("/job/").concat(args.jobset.as_str()).concat(
            "/",
        ).concat(package);
        PackageReport { package: String::from_str(package), url, builds: Vec::new() }
    }

    /// The report with one placeholder build that carries `status`.
    pub fn finish_with_error(self, status: String) -> (r: PackageReport)
        ensures
            r.package@ == self.package@,
            r.url@ == self.url@,
            builds_view(r.builds@) == seq![bare_build(StatusIcon::Warning, status@)],
    {
        let b = BuildStatus::bare(StatusIcon::Warning, status);
        let builds = vec![b];
        assert(builds_view(builds@) =~= seq![bare_build(StatusIcon::Warning, status@)]);
        PackageReport { builds, ..self }
    }

    /// The report with the builds listed in `rows`.
    pub fn with_rows(self, rows: &Vec<Row>) -> (r: Result<PackageReport, ParseError>)
        ensures
            match builds_of(rows_view(rows@)) {
                Ok(v) => r matches Ok(x) && x.package@ == self.package@ && x.url@ == self.url@
                    && builds_view(x.builds@) == v,
                Err(e) => r matches Err(f) && f@ == e,
            },
    {
        match BuildStatus::from_rows(rows) {
            Ok(builds) => Ok(PackageReport { builds, ..self }),
            Err(e) => Err(e),
        }
    }

    /// The report read from the fetched page of the job: the builds of its
    /// table, or a placeholder that carries the page's status text where the
    /// page has no table.
    pub fn read_page(self, page: &str) -> (r: Result<PackageReport, ParseError>)
        ensures
            match table_of(page@, ""@) {
                Some(rows) => match builds_of(rows) {
                    Ok(v) => r matches Ok(x) && x.package@ == self.package@ && x.url@ == self.url@
                        && builds_view(x.builds@) == v,
                    Err(e) => r matches Err(f) && f@ == e,
                },
                None => r matches Ok(x) && x.package@ == self.package@ && x.url@ == self.url@
                    && builds_view(x.builds@) == seq![
                    bare_build(StatusIcon::Warning, table_status(page@, ""@, self.url@)),
                ],
            },
    {
        match find_tbody(page, "", self.url.as_str()) {
            Ok(rows) => self.with_rows(&rows),
            Err(status) => Ok(self.finish_with_error(status)),
        }
    }

    /// The latest build of the job succeeded.
    pub fn latest_succeeded(&self) -> (r: bool)
        ensures
            r == (self.builds@.len() > 0 && self.builds@[0].success),
    {
        latest_build_succeeded(&self.builds)
    }
}

impl JobsetReport {
    /// The report of the resolved jobset, on `host`.
    pub fn from_args(args: &ResolvedArgs, host: &str) -> (r: JobsetReport)
        ensures
            r.jobset@ == args.jobset@,
            r.url@ == jobset_url(host@, args.jobset@),
            r.evals@.len() == 0,
    {
        let url = String::from_str(host).concat("/jobset/").concat(args.jobset.as_str()).concat(
            "/evals",
        );
        JobsetReport { jobset: args.jobset.clone(), url, evals: Vec::new() }
    }

    /// The report with one placeholder evaluation that carries `status`.
    pub fn finish_with_error(self, status: String) -> (r: JobsetReport)
        ensures
            r.jobset@ == self.jobset@,
            r.url@ == self.url@,
            evals_view(r.evals@) == seq![bare_eval(StatusIcon::Warning, status@)],
    {
        let e = EvalStatus::bare(StatusIcon::Warning, status);
        let evals = vec![e];
        assert(evals_view(evals@) =~= seq![bare_eval(StatusIcon::Warning, status@)]);
        JobsetReport { evals, ..self }
    }

    /// The report with the evaluations listed in `rows`.
    pub fn with_rows(self, rows: &Vec<Row>) -> (r: Result<JobsetReport, ParseError>)
        ensures
            match evals_of(rows_view(rows@)) {
                Ok(v) => r matches Ok(x) && x.jobset@ == self.jobset@ && x.url@ == self.url@
                    && evals_view(x.evals@) == v,
                Err(e) => r matches Err(f) && f@ == e,
            },
    {
        match EvalStatus::from_rows(rows) {
            Ok(evals) => Ok(JobsetReport { evals, ..self }),
            Err(e) => Err(e),
        }
    }

    /// The report read from the fetched page of the jobset's evaluations:
    /// those of its table, or a placeholder that carries the page's status
    /// text where the page has no table.
    pub fn read_page(self, page: &str) -> (r: Result<JobsetReport, ParseError>)
        ensures
            match table_of(page@, ""@) {
                Some(rows) => match evals_of(rows) {
                    Ok(v) => r matches Ok(x) && x.jobset@ == self.jobset@ && x.url@ == self.url@
                        && evals_view(x.evals@) == v,
                    Err(e) => r matches Err(f) && f@ == e,
                },
                None => r matches Ok(x) && x.jobset@ == self.jobset@ && x.url@ == self.url@
                    && evals_view(x.evals@) == seq![
                    bare_eval(StatusIcon::Warning, table_status(page@, ""@, self.url@)),
                ],
            },
    {
        match find_tbody(page, "", self.url.as_str()) {
            Ok(rows) => self.with_rows(&rows),
            Err(status) => Ok(self.finish_with_error(status)),
        }
    }

    /// The id of the most recent evaluation, where the first record has one.
    pub fn latest_id(&self) -> (r: Option<u64>)
        ensures
            r == if self.evals@.len() > 0 {
                self.evals@[0].id
            } else {
                None
            },
    {
        if self.evals.len() > 0 {
            self.evals[0].id
        } else {
            None
        }
    }
}

impl BuildReport {
    /// The report of the build page `url`.
    pub fn from_url(url: &str) -> (r: BuildReport)
        ensures
            r.url@ == url@,
            r.inputs@.len() == 0,
    {
        BuildReport { url: String::from_str(url), inputs: Vec::new() }
    }

    /// The report with one placeholder input that carries `status`.
    pub fn finish_with_error(self, status: String) -> (r: BuildReport)
        ensures
            r.url@ == self.url@,
            inputs_view(r.inputs@) == seq![warning_input(status@)],
    {
        let inputs = vec![warning_input_exec(status)];
        assert(inputs_view(inputs@) =~= seq![warning_input(status@)]);
        BuildReport { inputs, ..self }
    }

    /// The report with the inputs listed in `rows`.
    pub fn with_rows(self, rows: &Vec<Row>) -> (r: Result<BuildReport, ParseError>)
        ensures
            match inputs_of(rows_view(rows@)) {
                Ok(v) => r matches Ok(x) && x.url@ == self.url@ && inputs_view(x.inputs@) == v,
                Err(e) => r matches Err(f) && f@ == e,
            },
    {
        match EvalInput::from_rows(rows) {
            Ok(inputs) => Ok(BuildReport { inputs, ..self }),
            Err(e) => Err(e),
        }
    }

    /// The report read from the fetched page of the build: the inputs of its
    /// input table, or a placeholder input that carries the page's status
    /// text where the page has no such table.
    pub fn read_page(self, page: &str) -> (r: Result<BuildReport, ParseError>)
        ensures
            match table_of(page@, "div#tabs-buildinputs"@) {
                Some(rows) => match inputs_of(rows) {
                    Ok(v) => r matches Ok(x) && x.url@ == self.url@ && inputs_view(x.inputs@) == v,
                    Err(e) => r matches Err(f) && f@ == e,
                },
                None => r matches Ok(x) && x.url@ == self.url@ && inputs_view(x.inputs@) == seq![
                    warning_input(table_status(page@, "div#tabs-buildinputs"@, self.url@)),
                ],
            },
    {
        match find_tbody(page, "div#tabs-buildinputs", self.url.as_str()) {
            Ok(rows) => self.with_rows(&rows),
            Err(status) => Ok(self.finish_with_error(status)),
        }
    }
}

/// The builds of the table under `selector` in a page: none where the table
/// is missing or cannot be read.
pub open spec fn soft_builds(page: Seq<char>, selector: Seq<char>) -> Seq<BuildStatusView> {
    match table_of(page, selector) {
        Some(rows) => match builds_of(rows) {
            Ok(v) => v,
            Err(_) => Seq::empty(),
        },
        None => Seq::empty(),
    }
}

/// The changed inputs of an evaluation page (its second input table): none
/// where that table is missing or cannot be read.
pub open spec fn soft_changes(page: Seq<char>) -> Seq<EvalInputChangesView> {
    match page_rows(page, "div#tabs-inputs table"@, 1) {
        Some(rows) => match changes_of(rows) {
            Ok(v) => v,
            Err(_) => Seq::empty(),
        },
        None => Seq::empty(),
    }
}

/// The builds of the table under `selector` (see `soft_builds`).
pub fn build_table(page: &str, selector: &str) -> (r: Vec<BuildStatus>)
    ensures
        builds_view(r@) == soft_builds(page@, selector@),
{
    match find_tbody(page, selector, "") {
        Ok(rows) => match BuildStatus::from_rows(&rows) {
            Ok(v) => v,
            Err(_) => {
                let v: Vec<BuildStatus> = Vec::new();
                assert(builds_view(v@) =~= Seq::<BuildStatusView>::empty());
                v
            },
        },
        Err(_) => {
            let v: Vec<BuildStatus> = Vec::new();
            assert(builds_view(v@) =~= Seq::<BuildStatusView>::empty());
            v
        },
    }
}

/// The changed inputs of an evaluation page (see `soft_changes`).
pub fn change_table(page: &str) -> (r: Vec<EvalInputChanges>)
    ensures
        changes_view(r@) == soft_changes(page@),
{
    let empty: Vec<EvalInputChanges> = Vec::new();
    assert(changes_view(empty@) =~= Seq::<EvalInputChangesView>::empty());
    match table_rows(page, "div#tabs-inputs table", 1) {
        Some(rows) => match EvalInputChanges::from_rows(&rows) {
            Ok(v) => v,
            Err(_) => empty,
        },
        None => empty,
    }
}

/// The eight build lists of an evaluation report are empty.
pub open spec fn no_builds(r: EvalReport) -> bool {
    &&& r.aborted@.len() == 0
    &&& r.now_fail@.len() == 0
    &&& r.now_succeed@.len() == 0
    &&& r.new@.len() == 0
    &&& r.removed@.len() == 0
    &&& r.still_fail@.len() == 0
    &&& r.still_succeed@.len() == 0
    &&& r.unfinished@.len() == 0
}

/// The report keeps the evaluation and the page of `other`.
pub open spec fn same_evaluation(r: EvalReport, other: EvalReport) -> bool {
    &&& r.eval.id == other.eval.id
    &&& opt_view(r.eval.filter) == opt_view(other.eval.filter)
    &&& r.eval.spec@ == other.eval.spec@
    &&& r.url@ == other.url@
}

impl EvalReport {
    /// The report of an evaluation, on `host`.
    pub fn from_evaluation(eval: Evaluation, host: &str) -> (r: EvalReport)
        ensures
            r.eval.id == eval.id,
            opt_view(r.eval.filter) == opt_view(eval.filter),
            r.eval.spec@ == eval.spec@,
            r.url@ == eval_url(host@, eval.id, opt_view(eval.filter)),
            r.inputs@.len() == 0 && r.changes@.len() == 0,
            no_builds(r),
    {
        let base = String::from_str(host).concat("/eval/").concat(decimal_string(eval.id).as_str());
        let url = match &eval.filter {
            Some(f) => base.concat("?filter=").concat(f.as_str()),
            None => base,
        };
        EvalReport {
            eval,
            url,
            inputs: Vec::new(),
            changes: Vec::new(),
            aborted: Vec::new(),
            now_fail: Vec::new(),
            now_succeed: Vec::new(),
            new: Vec::new(),
            removed: Vec::new(),
            still_fail: Vec::new(),
            still_succeed: Vec::new(),
            unfinished: Vec::new(),
        }
    }

    /// The report with one placeholder input that carries `status`, and
    /// nothing else.
    pub fn finish_with_error(self, status: String) -> (r: EvalReport)
        ensures
            same_evaluation(r, self),
            inputs_view(r.inputs@) == seq![warning_input(status@)],
            r.changes@.len() == 0,
            no_builds(r),
    {
        let inputs = vec![warning_input_exec(status)];
        assert(inputs_view(inputs@) =~= seq![warning_input(status@)]);
        EvalReport {
            inputs,
            changes: Vec::new(),
            aborted: Vec::new(),
            now_fail: Vec::new(),
            now_succeed: Vec::new(),
            new: Vec::new(),
            removed: Vec::new(),
            still_fail: Vec::new(),
            still_succeed: Vec::new(),
            unfinished: Vec::new(),
            ..self
        }
    }

    /// The report with the inputs listed in `rows`.
    pub fn with_input_rows(self, rows: &Vec<Row>) -> (r: Result<EvalReport, ParseError>)
        ensures
            match inputs_of(rows_view(rows@)) {
                Ok(v) => r matches Ok(x) && same_evaluation(x, self) && inputs_view(x.inputs@) == v,
                Err(e) => r matches Err(f) && f@ == e,
            },
    {
        match EvalInput::from_rows(rows) {
            Ok(inputs) => Ok(EvalReport { inputs, ..self }),
            Err(e) => Err(e),
        }
    }

    /// The report read from the fetched page of the evaluation. Its inputs
    /// table is required: where it is missing the report holds a placeholder
    /// input and nothing else; where it cannot be read that is the error. The
    /// changed inputs and the eight build tables are read where they can be,
    /// and are empty otherwise.
    pub fn read_page(self, page: &str) -> (r: Result<EvalReport, ParseError>)
        ensures
            match table_of(page@, "div#tabs-inputs"@) {
                None => r matches Ok(x) && same_evaluation(x, self) && inputs_view(x.inputs@)
                    == seq![warning_input(table_status(page@, "div#tabs-inputs"@, self.url@))]
                    && x.changes@.len() == 0 && no_builds(x),
                Some(rows) => match inputs_of(rows) {
                    Err(e) => r matches Err(f) && f@ == e,
                    Ok(v) => r matches Ok(x) && same_evaluation(x, self) && inputs_view(x.inputs@)
                        == v && changes_view(x.changes@) == soft_changes(page@) && builds_view(
                        x.aborted@,
                    ) == soft_builds(page@, "div#tabs-aborted"@) && builds_view(x.now_fail@)
                        == soft_builds(page@, "div#tabs-now-fail"@) && builds_view(
                        x.now_succeed@,
                    ) == soft_builds(page@, "div#tabs-now-succeed"@) && builds_view(x.new@)
                        == soft_builds(page@, "div#tabs-new"@) && builds_view(x.removed@)
                        == soft_builds(page@, "div#tabs-removed"@) && builds_view(x.still_fail@)
                        == soft_builds(page@, "div#tabs-still-fail"@) && builds_view(
                        x.still_succeed@,
                    ) == soft_builds(page@, "div#tabs-still-succeed"@) && builds_view(
                        x.unfinished@,
                    ) == soft_builds(page@, "div#tabs-unfinished"@),
                },
            },
    {
        let rows = match find_tbody(page, "div#tabs-inputs", self.url.as_str()) {
            Ok(rows) => rows,
            Err(status) => {
                return Ok(self.finish_with_error(status));
            },
        };
        let mut report = match self.with_input_rows(&rows) {
            Ok(x) => x,
            Err(e) => {
                return Err(e);
            },
        };
        report.changes = change_table(page);
        report.aborted = build_table(page, "div#tabs-aborted");
        report.now_fail = build_table(page, "div#tabs-now-fail");
        report.now_succeed = build_table(page, "div#tabs-now-succeed");
        report.new = build_table(page, "div#tabs-new");
        report.removed = build_table(page, "div#tabs-removed");
        report.still_fail = build_table(page, "div#tabs-still-fail");
        report.still_succeed = build_table(page, "div#tabs-still-succeed");
        report.unfinished = build_table(page, "div#tabs-unfinished");
        Ok(report)
    }
}

/// The run succeeds: the latest build of every package queried succeeded.
pub fn all_succeeded(latest: &Vec<bool>) -> (r: bool)
    ensures
        r == forall|i: int| 0 <= i < latest@.len() ==> #[trigger] latest@[i],
{
    let mut i: usize = 0;
    while i < latest.len()
        invariant
            i <= latest@.len(),
            forall|j: int| 0 <= j < i ==> #[trigger] latest@[j],
        decreases latest@.len() - i,
    {
        if !latest[i] {
            return false;
        }
        i += 1;
    }
    true
}

/// The latest build of a job succeeded.
pub fn latest_build_succeeded(builds: &Vec<BuildStatus>) -> (r: bool)
    ensures
        r == (builds@.len() > 0 && builds@[0].success),
{
    builds.len() > 0 && builds[0].success
}

/// Some evaluation asks for the latest one (id 0).
pub fn needs_latest(evals: &Vec<Evaluation>) -> (r: bool)
    ensures
        r == exists|i: int| 0 <= i < evals@.len() && (#[trigger] evals@[i]).id == 0,
{
    let mut i: usize = 0;
    while i < evals.len()
        invariant
            i <= evals@.len(),
            forall|j: int| 0 <= j < i ==> (#[trigger] evals@[j]).id != 0,
        decreases evals@.len() - i,
    {
        if evals[i].id == 0 {
            return true;
        }
        i += 1;
    }
    false
}

/// The evaluations with each id 0 replaced by the latest id.
pub fn with_latest(evals: &Vec<Evaluation>, latest: u64) -> (r: Vec<Evaluation>)
    ensures
        r@.len() == evals@.len(),
        forall|i: int|
            0 <= i < r@.len() ==> (#[trigger] r@[i]).id == if evals@[i].id == 0 {
                latest
            } else {
                evals@[i].id
            } && opt_view(r@[i].filter) == opt_view(evals@[i].filter) && r@[i].spec@
                == evals@[i].spec@,
{
    let mut r: Vec<Evaluation> = Vec::new();
    let mut i: usize = 0;
    while i < evals.len()
        invariant
            i <= evals@.len(),
            r@.len() == i,
            forall|j: int|
                0 <= j < i ==> (#[trigger] r@[j]).id == if evals@[j].id == 0 {
                    latest
                } else {
                    evals@[j].id
                } && opt_view(r@[j].filter) == opt_view(evals@[j].filter) && r@[j].spec@
                    == evals@[j].spec@,
        decreases evals@.len() - i,
    {
        let id = if evals[i].id == 0 {
            latest
        } else {
            evals[i].id
        };
        r.push(evals[i].with_id(id));
        i += 1;
    }
    r
}

} // verus!
