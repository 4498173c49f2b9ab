//! Parsers from table rows to status records. A row is matched by its number
//! of cells; a row of no known shape is dropped where its first link leads to
//! an aggregate view, and is an error otherwise.

use vstd::prelude::*;
use vstd::string::*;

use crate::records::{
    bare_build, BuildStatus, BuildStatusView, EvalInput, EvalInputView, EvalStatus, EvalStatusView,
    StatusIcon,
};
use crate::table::{rows_view, Cell, CellView, Row, RowView};
use crate::text::{
    clone_opt, opt_view, collapse_ws, collapse_ws_exec, contains, contains_str, ends_with, has_suffix,
    parse_u64, parsed_u64, remove_all, remove_all_exec, str_eq, trim, trimmed,
};

verus! {

/// Why a table could not be read.
#[derive(Debug, Clone)]
pub enum ParseError {
    /// A row of no known shape; its markup.
    UnexpectedRow(String),
    /// An element that the row's shape requires is missing.
    MissingElement,
    /// A number column holds other than a number.
    InvalidNumber,
    /// The table's header is not the one expected.
    UnexpectedTable,
}

pub enum ParseErrorView {
    UnexpectedRow(Seq<char>),
    MissingElement,
    InvalidNumber,
    UnexpectedTable,
}

impl View for ParseError {
    type V = ParseErrorView;

    open spec fn view(&self) -> ParseErrorView {
        match self {
            ParseError::UnexpectedRow(h) => ParseErrorView::UnexpectedRow(h@),
            ParseError::MissingElement => ParseErrorView::MissingElement,
            ParseError::InvalidNumber => ParseErrorView::InvalidNumber,
            ParseError::UnexpectedTable => ParseErrorView::UnexpectedTable,
        }
    }
}

/// What one row gives.
pub enum RowOutcome<T> {
    Record(T),
    Skip,
    Fail(ParseErrorView),
}

/// The records of all rows, in order, or the error of the first row that fails.
pub open spec fn collect_rows<T>(rows: Seq<RowView>, f: spec_fn(RowView) -> RowOutcome<T>) -> Result<
    Seq<T>,
    ParseErrorView,
>
    decreases rows.len(),
{
    if rows.len() == 0 {
        Ok(Seq::empty())
    } else {
        match collect_rows(rows.drop_last(), f) {
            Err(e) => Err(e),
            Ok(v) => match f(rows.last()) {
                RowOutcome::Record(x) => Ok(v.push(x)),
                RowOutcome::Skip => Ok(v),
                RowOutcome::Fail(e) => Err(e),
            },
        }
    }
}

/// Whether a row of no known shape may be dropped: its first cell's link
/// leads to an aggregate view. `None` where that link or its target is missing.
pub open spec fn skip_check(row: RowView) -> Option<bool> {
    let c = row.cells;
    if c.len() > 0 && c[0].link is Some && c[0].link.unwrap().href is Some {
        let h = c[0].link.unwrap().href.unwrap();
        Some(has_suffix(h, "/all"@) || contains(h, "full=1"@))
    } else {
        None
    }
}

/// The outcome of a row of no known shape.
pub open spec fn unmatched_row<T>(row: RowView) -> RowOutcome<T> {
    match skip_check(row) {
        Some(true) => RowOutcome::Skip,
        _ => RowOutcome::Fail(ParseErrorView::UnexpectedRow(row.html)),
    }
}

/// Status text of a build that has not been attempted.
pub open spec fn queued_text(span: Seq<char>) -> Seq<char> {
    if trimmed(span) == "Queued"@ {
        "Queued: no build has been attempted for this package yet (still queued)"@
    } else {
        "Unknown Hydra status: "@ + span
    }
}

/// The icon of a build status title.
pub open spec fn title_icon(title: Seq<char>) -> StatusIcon {
    if title == "Succeeded"@ {
        StatusIcon::Succeeded
    } else if title == "Cancelled"@ {
        StatusIcon::Cancelled
    } else if title == "Queued"@ {
        StatusIcon::Queued
    } else {
        StatusIcon::Failed
    }
}

/// A build row of five or six cells: status, build, (job,) time, name, system.
pub open spec fn build_cells(
    status: CellView,
    build: CellView,
    job: Option<CellView>,
    time: CellView,
    name: CellView,
    arch: CellView,
) -> RowOutcome<BuildStatusView> {
    if status.span is Some {
        RowOutcome::Record(bare_build(StatusIcon::Queued, queued_text(status.span.unwrap())))
    } else if !(status.image_title is Some && status.image_title.unwrap() is Some) {
        RowOutcome::Fail(ParseErrorView::MissingElement)
    } else if build.link is None {
        RowOutcome::Fail(ParseErrorView::MissingElement)
    } else if arch.tt is None {
        RowOutcome::Fail(ParseErrorView::MissingElement)
    } else {
        let title = status.image_title.unwrap().unwrap();
        let link = build.link.unwrap();
        RowOutcome::Record(
            BuildStatusView {
                icon: title_icon(title),
                success: title == "Succeeded"@,
                status: title,
                timestamp: match time.time {
                    Some(t) => t.datetime,
                    None => None,
                },
                build_id: Some(link.text),
                build_url: link.href,
                name: Some(name.text),
                arch: Some(arch.tt.unwrap()),
                evals: true,
                job_name: match job {
                    Some(j) => Some(trimmed(j.text)),
                    None => None,
                },
            },
        )
    }
}

/// A row of a build listing: two cells for a removed job, five or six for a build.
pub open spec fn build_row(row: RowView) -> RowOutcome<BuildStatusView> {
    let c = row.cells;
    if c.len() == 2 {
        if c[0].link is None || c[1].tt is None {
            RowOutcome::Fail(ParseErrorView::MissingElement)
        } else {
            RowOutcome::Record(
                BuildStatusView {
                    icon: StatusIcon::Warning,
                    success: false,
                    status: "Removed"@,
                    timestamp: None,
                    build_id: None,
                    build_url: c[0].link.unwrap().href,
                    name: None,
                    arch: Some(c[1].tt.unwrap()),
                    evals: false,
                    job_name: Some(trimmed(c[0].text)),
                },
            )
        }
    } else if c.len() == 5 {
        build_cells(c[0], c[1], None, c[2], c[3], c[4])
    } else if c.len() == 6 {
        build_cells(c[0], c[1], Some(c[2]), c[3], c[4], c[5])
    } else {
        unmatched_row(row)
    }
}

/// The builds of a build table.
pub open spec fn builds_of(rows: Seq<RowView>) -> Result<Seq<BuildStatusView>, ParseErrorView> {
    collect_rows(rows, |row: RowView| build_row(row))
}

/// A count column: empty reads as zero.
pub open spec fn count_of(cell: CellView) -> Option<u64> {
    let t = trimmed(cell.text);
    if t.len() == 0 {
        Some(0)
    } else {
        parsed_u64(t)
    }
}

/// A row of a jobset's evaluation listing, of seven cells: id, time, input
/// changes, succeeded, failed, queued, delta.
pub open spec fn eval_row(row: RowView) -> RowOutcome<EvalStatusView> {
    let c = row.cells;
    if c.len() != 7 {
        unmatched_row(row)
    } else if c[0].link is None || c[0].link.unwrap().href is None {
        RowOutcome::Fail(ParseErrorView::MissingElement)
    } else if parsed_u64(c[0].text) is None {
        RowOutcome::Fail(ParseErrorView::InvalidNumber)
    } else if c[1].time is None || c[1].time.unwrap().datetime is None
        || c[1].time.unwrap().timestamp is None {
        RowOutcome::Fail(ParseErrorView::MissingElement)
    } else if parsed_u64(c[1].time.unwrap().timestamp.unwrap()) is None {
        RowOutcome::Fail(ParseErrorView::InvalidNumber)
    } else if c[2].tt is None {
        RowOutcome::Fail(ParseErrorView::MissingElement)
    } else if count_of(c[3]) is None || count_of(c[4]) is None || count_of(c[5]) is None {
        RowOutcome::Fail(ParseErrorView::InvalidNumber)
    } else {
        let time = c[1].time.unwrap();
        let status = match c[2].span {
            Some(s) => s,
            None => Seq::empty(),
        };
        let finished = count_of(c[5]) == Some(0u64);
        let delta = trimmed(c[6].text);
        RowOutcome::Record(
            EvalStatusView {
                icon: if finished {
                    StatusIcon::Succeeded
                } else {
                    StatusIcon::Queued
                },
                finished: Some(finished),
                id: parsed_u64(c[0].text),
                url: Some(c[0].link.unwrap().href.unwrap()),
                datetime: Some(time.datetime.unwrap()),
                relative: Some(time.text),
                timestamp: parsed_u64(time.timestamp.unwrap()),
                status,
                short_rev: Some(c[2].tt.unwrap()),
                input_changes: Some(collapse_ws(remove_all(c[2].text, status))),
                succeeded: count_of(c[3]),
                failed: count_of(c[4]),
                queued: count_of(c[5]),
                delta: if delta.len() == 0 {
                    None
                } else {
                    Some(delta)
                },
            },
        )
    }
}

/// The evaluations of a jobset's evaluation table.
pub open spec fn evals_of(rows: Seq<RowView>) -> Result<Seq<EvalStatusView>, ParseErrorView> {
    collect_rows(rows, |row: RowView| eval_row(row))
}

/// A text trimmed, or nothing where it is blank.
pub open spec fn nonblank(s: Seq<char>) -> Option<Seq<char>> {
    if trimmed(s).len() == 0 {
        None
    } else {
        Some(trimmed(s))
    }
}

/// A row of an input listing, of five cells: name, type, value, revision, store path.
pub open spec fn input_row(row: RowView) -> RowOutcome<EvalInputView> {
    let c = row.cells;
    if c.len() == 5 {
        RowOutcome::Record(
            EvalInputView {
                name: nonblank(c[0].text),
                input_type: nonblank(c[1].text),
                value: nonblank(c[2].text),
                revision: nonblank(c[3].text),
                store_path: nonblank(c[4].text),
            },
        )
    } else {
        match skip_check(row) {
            Some(true) => RowOutcome::Skip,
            _ => RowOutcome::Fail(ParseErrorView::UnexpectedRow(row.html)),
        }
    }
}

/// The inputs of an input table.
pub open spec fn inputs_of(rows: Seq<RowView>) -> Result<Seq<EvalInputView>, ParseErrorView> {
    collect_rows(rows, |row: RowView| input_row(row))
}

pub open spec fn result_view<T: View>(r: Result<Vec<T>, ParseError>) -> Result<
    Seq<T::V>,
    ParseErrorView,
> {
    match r {
        Ok(v) => Ok(v@.map_values(|x: T| x@)),
        Err(e) => Err(e@),
    }
}

/// What one row gives, as values.
pub enum Parsed<T> {
    Record(T),
    Skip,
    Fail(ParseError),
}

pub open spec fn parsed_view<T: View>(p: Parsed<T>) -> RowOutcome<T::V> {
    match p {
        Parsed::Record(x) => RowOutcome::Record(x@),
        Parsed::Skip => RowOutcome::Skip,
        Parsed::Fail(e) => RowOutcome::Fail(e@),
    }
}

/// Whether a row of no known shape may be dropped (see `skip_check`).
pub fn is_skipable_row(row: &Row) -> (r: Result<bool, ParseError>)
    ensures
        match skip_check(row@) {
            Some(b) => r matches Ok(x) && x == b,
            None => r matches Err(e) && e@ == ParseErrorView::MissingElement,
        },
{
    if row.cells.len() == 0 {
        return Err(ParseError::MissingElement);
    }
    match &row.cells[0].link {
        Some(link) => match &link.href {
            Some(h) => Ok(ends_with(h.as_str(), "/all") || contains_str(h.as_str(), "full=1")),
            None => Err(ParseError::MissingElement),
        },
        None => Err(ParseError::MissingElement),
    }
}

fn unmatched<T: View>(row: &Row) -> (r: Parsed<T>)
    ensures
        parsed_view(r) == unmatched_row::<T::V>(row@),
{
    match is_skipable_row(row) {
        Ok(true) => Parsed::Skip,
        _ => Parsed::Fail(ParseError::UnexpectedRow(row.html.clone())),
    }
}

fn title_icon_exec(title: &str) -> (r: StatusIcon)
    ensures
        r == title_icon(title@),
{
    if str_eq(title, "Succeeded") {
        StatusIcon::Succeeded
    } else if str_eq(title, "Cancelled") {
        StatusIcon::Cancelled
    } else if str_eq(title, "Queued") {
        StatusIcon::Queued
    } else {
        StatusIcon::Failed
    }
}

fn build_from_cells(
    status: &Cell,
    build: &Cell,
    job: Option<&Cell>,
    time: &Cell,
    name: &Cell,
    arch: &Cell,
) -> (r: Parsed<BuildStatus>)
    ensures
        parsed_view(r) == build_cells(
            status@,
            build@,
            match job {
                Some(j) => Some(j@),
                None => None,
            },
            time@,
            name@,
            arch@,
        ),
{
    if let Some(span) = &status.span {
        let t = trim(span.as_str());
        let text = if str_eq(t.as_str(), "Queued") {
            String::from_str("Queued: no build has been attempted for this package yet (still queued)")
        } else {
            String::from_str("Unknown Hydra status: ").concat(span.as_str())
        };
        return Parsed::Record(BuildStatus::bare(StatusIcon::Queued, text));
    }
    let title = match &status.image_title {
        Some(Some(t)) => t,
        _ => {
            return Parsed::Fail(ParseError::MissingElement);
        },
    };
    let link = match &build.link {
        Some(l) => l,
        None => {
            return Parsed::Fail(ParseError::MissingElement);
        },
    };
    let arch_text = match &arch.tt {
        Some(t) => t.clone(),
        None => {
            return Parsed::Fail(ParseError::MissingElement);
        },
    };
    let timestamp = match &time.time {
        Some(t) => clone_opt(&t.datetime),
        None => None,
    };
    let job_name = match job {
        Some(j) => Some(trim(j.text.as_str())),
        None => None,
    };
    Parsed::Record(
        BuildStatus {
            icon: title_icon_exec(title.as_str()),
            success: str_eq(title.as_str(), "Succeeded"),
            status: title.clone(),
            timestamp,
            build_id: Some(link.text.clone()),
            build_url: clone_opt(&link.href),
            name: Some(name.text.clone()),
            arch: Some(arch_text),
            evals: true,
            job_name,
        },
    )
}

fn build_from_row(row: &Row) -> (r: Parsed<BuildStatus>)
    ensures
        parsed_view(r) == build_row(row@),
{
    let c = &row.cells;
    if c.len() == 2 {
        let link = match &c[0].link {
            Some(l) => l,
            None => {
                return Parsed::Fail(ParseError::MissingElement);
            },
        };
        let arch = match &c[1].tt {
            Some(t) => t.clone(),
            None => {
                return Parsed::Fail(ParseError::MissingElement);
            },
        };
        let mut b = BuildStatus::bare(StatusIcon::Warning, String::from_str("Removed"));
        b.build_url = clone_opt(&link.href);
        b.arch = Some(arch);
        b.job_name = Some(trim(c[0].text.as_str()));
        Parsed::Record(b)
    } else if c.len() == 5 {
        build_from_cells(&c[0], &c[1], None, &c[2], &c[3], &c[4])
    } else if c.len() == 6 {
        build_from_cells(&c[0], &c[1], Some(&c[2]), &c[3], &c[4], &c[5])
    } else {
        unmatched(row)
    }
}

impl BuildStatus {
    /// The builds listed in the rows of a build table.
    pub fn from_rows(rows: &Vec<Row>) -> (r: Result<Vec<BuildStatus>, ParseError>)
        ensures
            result_view(r) == collect_rows(rows_view(rows@), |row: RowView| build_row(row)),
    {
        let mut out: Vec<BuildStatus> = Vec::new();
        let mut i: usize = 0;
        assert(out@.map_values(|x: BuildStatus| x@) =~= Seq::<BuildStatusView>::empty());
        assert(rows_view(rows@).subrange(0, 0) =~= Seq::<RowView>::empty());
        while i < rows.len()
            invariant
                i <= rows@.len(),
                collect_rows(rows_view(rows@).subrange(0, i as int), |row: RowView| build_row(row)) == Ok::<
                    Seq<BuildStatusView>,
                    ParseErrorView,
                >(out@.map_values(|x: BuildStatus| x@)),
            decreases rows@.len() - i,
        {
            let ghost before = out@.map_values(|x: BuildStatus| x@);
            assert(rows_view(rows@).subrange(0, i + 1).drop_last() =~= rows_view(rows@).subrange(0, i as int));
            assert(rows_view(rows@).subrange(0, i + 1).last() == rows@[i as int]@);
            match build_from_row(&rows[i]) {
                Parsed::Record(b) => {
                    out.push(b);
                    assert(out@.map_values(|x: BuildStatus| x@) =~= before.push(b@));
                },
                Parsed::Skip => {},
                Parsed::Fail(e) => {
                    proof {
                        lemma_collect_fails(rows_view(rows@), |row: RowView| build_row(row), i as int + 1);
                    }
                    return Err(e);
                },
            }
            i += 1;
        }
        assert(rows_view(rows@).subrange(0, i as int) =~= rows_view(rows@));
        Ok(out)
    }
}

fn count_exec(cell: &Cell) -> (r: Option<u64>)
    ensures
        r == count_of(cell@),
{
    let t = trim(cell.text.as_str());
    if t.unicode_len() == 0 {
        Some(0)
    } else {
        parse_u64(t.as_str())
    }
}

fn eval_from_row(row: &Row) -> (r: Parsed<EvalStatus>)
    ensures
        parsed_view(r) == eval_row(row@),
{
    let c = &row.cells;
    if c.len() != 7 {
        return unmatched(row);
    }
    let url = match &c[0].link {
        Some(l) => match &l.href {
            Some(h) => h.clone(),
            None => {
                return Parsed::Fail(ParseError::MissingElement);
            },
        },
        None => {
            return Parsed::Fail(ParseError::MissingElement);
        },
    };
    let id = match parse_u64(c[0].text.as_str()) {
        Some(x) => x,
        None => {
            return Parsed::Fail(ParseError::InvalidNumber);
        },
    };
    let time = match &c[1].time {
        Some(t) => t,
        None => {
            return Parsed::Fail(ParseError::MissingElement);
        },
    };
    let datetime = match &time.datetime {
        Some(d) => d.clone(),
        None => {
            return Parsed::Fail(ParseError::MissingElement);
        },
    };
    let stamp_text = match &time.timestamp {
        Some(t) => t,
        None => {
            return Parsed::Fail(ParseError::MissingElement);
        },
    };
    let timestamp = match parse_u64(stamp_text.as_str()) {
        Some(x) => x,
        None => {
            return Parsed::Fail(ParseError::InvalidNumber);
        },
    };
    let short_rev = match &c[2].tt {
        Some(t) => t.clone(),
        None => {
            return Parsed::Fail(ParseError::MissingElement);
        },
    };
    let succeeded = count_exec(&c[3]);
    let failed = count_exec(&c[4]);
    let queued = count_exec(&c[5]);
    if succeeded.is_none() || failed.is_none() || queued.is_none() {
        return Parsed::Fail(ParseError::InvalidNumber);
    }
    let status = match &c[2].span {
        Some(s) => s.clone(),
        None => String::new(),
    };
    let removed = remove_all_exec(c[2].text.as_str(), status.as_str());
    let input_changes = collapse_ws_exec(removed.as_str());
    let finished = match queued {
        Some(q) => q == 0,
        None => false,
    };
    let d = trim(c[6].text.as_str());
    let delta = if d.unicode_len() == 0 {
        None
    } else {
        Some(d)
    };
    Parsed::Record(
        EvalStatus {
            icon: if finished {
                StatusIcon::Succeeded
            } else {
                StatusIcon::Queued
            },
            finished: Some(finished),
            id: Some(id),
            url: Some(url),
            datetime: Some(datetime),
            relative: Some(time.text.clone()),
            timestamp: Some(timestamp),
            status,
            short_rev: Some(short_rev),
            input_changes: Some(input_changes),
            succeeded,
            failed,
            queued,
            delta,
        },
    )
}

impl EvalStatus {
    /// The evaluations listed in the rows of a jobset's evaluation table.
    pub fn from_rows(rows: &Vec<Row>) -> (r: Result<Vec<EvalStatus>, ParseError>)
        ensures
            result_view(r) == collect_rows(rows_view(rows@), |row: RowView| eval_row(row)),
    {
        let mut out: Vec<EvalStatus> = Vec::new();
        let mut i: usize = 0;
        assert(out@.map_values(|x: EvalStatus| x@) =~= Seq::<EvalStatusView>::empty());
        assert(rows_view(rows@).subrange(0, 0) =~= Seq::<RowView>::empty());
        while i < rows.len()
            invariant
                i <= rows@.len(),
                collect_rows(rows_view(rows@).subrange(0, i as int), |row: RowView| eval_row(row)) == Ok::<
                    Seq<EvalStatusView>,
                    ParseErrorView,
                >(out@.map_values(|x: EvalStatus| x@)),
            decreases rows@.len() - i,
        {
            let ghost before = out@.map_values(|x: EvalStatus| x@);
            assert(rows_view(rows@).subrange(0, i + 1).drop_last() =~= rows_view(rows@).subrange(0, i as int));
            assert(rows_view(rows@).subrange(0, i + 1).last() == rows@[i as int]@);
            match eval_from_row(&rows[i]) {
                Parsed::Record(b) => {
                    out.push(b);
                    assert(out@.map_values(|x: EvalStatus| x@) =~= before.push(b@));
                },
                Parsed::Skip => {},
                Parsed::Fail(e) => {
                    proof {
                        lemma_collect_fails(rows_view(rows@), |row: RowView| eval_row(row), i as int + 1);
                    }
                    return Err(e);
                },
            }
            i += 1;
        }
        assert(rows_view(rows@).subrange(0, i as int) =~= rows_view(rows@));
        Ok(out)
    }
}

fn nonblank_exec(s: &String) -> (r: Option<String>)
    ensures
        opt_view(r) == nonblank(s@),
{
    let t = trim(s.as_str());
    if t.unicode_len() == 0 {
        None
    } else {
        Some(t)
    }
}

fn input_from_row(row: &Row) -> (r: Parsed<EvalInput>)
    ensures
        parsed_view(r) == input_row(row@),
{
    let c = &row.cells;
    if c.len() == 5 {
        Parsed::Record(
            EvalInput {
                name: nonblank_exec(&c[0].text),
                input_type: nonblank_exec(&c[1].text),
                value: nonblank_exec(&c[2].text),
                revision: nonblank_exec(&c[3].text),
                store_path: nonblank_exec(&c[4].text),
            },
        )
    } else {
        match is_skipable_row(row) {
            Ok(true) => Parsed::Skip,
            _ => Parsed::Fail(ParseError::UnexpectedRow(row.html.clone())),
        }
    }
}

impl EvalInput {
    /// The inputs listed in the rows of an input table.
    pub fn from_rows(rows: &Vec<Row>) -> (r: Result<Vec<EvalInput>, ParseError>)
        ensures
            result_view(r) == collect_rows(rows_view(rows@), |row: RowView| input_row(row)),
    {
        let mut out: Vec<EvalInput> = Vec::new();
        let mut i: usize = 0;
        assert(out@.map_values(|x: EvalInput| x@) =~= Seq::<EvalInputView>::empty());
        assert(rows_view(rows@).subrange(0, 0) =~= Seq::<RowView>::empty());
        while i < rows.len()
            invariant
                i <= rows@.len(),
                collect_rows(rows_view(rows@).subrange(0, i as int), |row: RowView| input_row(row)) == Ok::<
                    Seq<EvalInputView>,
                    ParseErrorView,
                >(out@.map_values(|x: EvalInput| x@)),
            decreases rows@.len() - i,
        {
            let ghost before = out@.map_values(|x: EvalInput| x@);
            assert(rows_view(rows@).subrange(0, i + 1).drop_last() =~= rows_view(rows@).subrange(0, i as int));
            assert(rows_view(rows@).subrange(0, i + 1).last() == rows@[i as int]@);
            match input_from_row(&rows[i]) {
                Parsed::Record(b) => {
                    out.push(b);
                    assert(out@.map_values(|x: EvalInput| x@) =~= before.push(b@));
                },
                Parsed::Skip => {},
                Parsed::Fail(e) => {
                    proof {
                        lemma_collect_fails(rows_view(rows@), |row: RowView| input_row(row), i as int + 1);
                    }
                    return Err(e);
                },
            }
            i += 1;
        }
        assert(rows_view(rows@).subrange(0, i as int) =~= rows_view(rows@));
        Ok(out)
    }
}

/// How build rows are told apart: a row of two cells is a removed job (or
/// lacks an element that a removed job needs), never dropped and never of an
/// unknown shape; a row of no known shape whose first link ends in `/all` is
/// dropped; one whose first link leads to no aggregate view is an error that
/// carries the row's markup.
pub proof fn lemma_build_row_shapes(row: RowView)
    ensures
        row.cells.len() == 2 ==> match build_row(row) {
            RowOutcome::Record(b) => b.status == "Removed"@ && b.icon == StatusIcon::Warning,
            RowOutcome::Fail(e) => e == ParseErrorView::MissingElement,
            RowOutcome::Skip => false,
        },
        row.cells.len() == 2 && row.cells[0].link is Some && row.cells[1].tt is Some ==> build_row(
            row,
        ) == RowOutcome::Record(
            BuildStatusView {
                icon: StatusIcon::Warning,
                success: false,
                status: "Removed"@,
                timestamp: None,
                build_id: None,
                build_url: row.cells[0].link.unwrap().href,
                name: None,
                arch: row.cells[1].tt,
                evals: false,
                job_name: Some(trimmed(row.cells[0].text)),
            },
        ),
        row.cells.len() != 2 && row.cells.len() != 5 && row.cells.len() != 6 && row.cells.len()
            > 0 && row.cells[0].link is Some && row.cells[0].link.unwrap().href is Some
            && has_suffix(row.cells[0].link.unwrap().href.unwrap(), "/all"@) ==> build_row(
            row,
        ) is Skip,
        row.cells.len() != 2 && row.cells.len() != 5 && row.cells.len() != 6 && skip_check(row)
            != Some(true) ==> build_row(row) == RowOutcome::<BuildStatusView>::Fail(
            ParseErrorView::UnexpectedRow(row.html),
        ),
{
}

/// Once a prefix of the rows fails, all the rows fail the same way.
pub proof fn lemma_collect_fails<T>(rows: Seq<RowView>, f: spec_fn(RowView) -> RowOutcome<T>, k: int)
    requires
        0 <= k <= rows.len(),
        collect_rows(rows.subrange(0, k), f) is Err,
    ensures
        collect_rows(rows, f) == collect_rows(rows.subrange(0, k), f),
    decreases rows.len() - k,
{
    if k < rows.len() {
        assert(rows.subrange(0, k + 1).drop_last() =~= rows.subrange(0, k));
        assert(collect_rows(rows.subrange(0, k + 1), f) == collect_rows(rows.subrange(0, k), f));
        lemma_collect_fails(rows, f, k + 1);
    } else {
        assert(rows.subrange(0, k) =~= rows);
    }
}

/// A row that is dropped leaves the result of its table as if it were not there.
pub proof fn lemma_collect_skip<T>(rows: Seq<RowView>, f: spec_fn(RowView) -> RowOutcome<T>, i: int)
    requires
        0 <= i < rows.len(),
        f(rows[i]) is Skip,
    ensures
        collect_rows(rows, f) == collect_rows(rows.remove(i), f),
    decreases rows.len(),
{
    if i == rows.len() - 1 {
        assert(rows.remove(i) =~= rows.drop_last());
    } else {
        assert(rows.remove(i).drop_last() =~= rows.drop_last().remove(i));
        assert(rows.remove(i).last() == rows.last());
        lemma_collect_skip(rows.drop_last(), f, i);
    }
}

/// Rows that all give a record or are dropped give no error.
pub proof fn lemma_collect_ok<T>(rows: Seq<RowView>, f: spec_fn(RowView) -> RowOutcome<T>)
    requires
        forall|j: int| 0 <= j < rows.len() ==> !(#[trigger] f(rows[j]) is Fail),
    ensures
        collect_rows(rows, f) is Ok,
    decreases rows.len(),
{
    if rows.len() > 0 {
        assert forall|j: int| 0 <= j < rows.drop_last().len() implies !(#[trigger] f(
            rows.drop_last()[j],
        ) is Fail) by {
            assert(rows.drop_last()[j] == rows[j]);
        }
        lemma_collect_ok(rows.drop_last(), f);
        assert(!(f(rows[rows.len() - 1]) is Fail));
    }
}

/// The first row that fails decides the error of its whole table.
pub proof fn lemma_collect_first_failure<T>(
    rows: Seq<RowView>,
    f: spec_fn(RowView) -> RowOutcome<T>,
    i: int,
)
    requires
        0 <= i < rows.len(),
        f(rows[i]) is Fail,
        forall|j: int| 0 <= j < i ==> !(#[trigger] f(rows[j]) is Fail),
    ensures
        collect_rows(rows, f) == Err::<Seq<T>, ParseErrorView>(f(rows[i])->Fail_0),
{
    let pre = rows.subrange(0, i);
    assert forall|j: int| 0 <= j < pre.len() implies !(#[trigger] f(pre[j]) is Fail) by {
        assert(pre[j] == rows[j]);
    }
    lemma_collect_ok(pre, f);
    assert(rows.subrange(0, i + 1).drop_last() =~= pre);
    assert(rows.subrange(0, i + 1).last() == rows[i]);
    lemma_collect_fails(rows, f, i + 1);
}

/// In a build table: a row of no known shape whose first link ends in
/// `/all` is dropped, leaving the rest in order; a row of no known shape
/// that is not dropped, after rows that all read, makes the table fail with
/// that row's markup.
pub proof fn lemma_build_table_shapes(rows: Seq<RowView>, i: int)
    requires
        0 <= i < rows.len(),
        rows[i].cells.len() != 2 && rows[i].cells.len() != 5 && rows[i].cells.len() != 6,
    ensures
        rows[i].cells.len() > 0 && rows[i].cells[0].link is Some
            && rows[i].cells[0].link.unwrap().href is Some && has_suffix(
            rows[i].cells[0].link.unwrap().href.unwrap(),
            "/all"@,
        ) ==> builds_of(rows) == builds_of(rows.remove(i)),
        skip_check(rows[i]) != Some(true) && (forall|j: int|
            0 <= j < i ==> !(#[trigger] build_row(rows[j]) is Fail)) ==> builds_of(rows) == Err::<
            Seq<BuildStatusView>,
            ParseErrorView,
        >(ParseErrorView::UnexpectedRow(rows[i].html)),
{
    let f = |row: RowView| build_row(row);
    if rows[i].cells.len() > 0 && rows[i].cells[0].link is Some
        && rows[i].cells[0].link.unwrap().href is Some && has_suffix(
        rows[i].cells[0].link.unwrap().href.unwrap(),
        "/all"@,
    ) {
        lemma_collect_skip(rows, f, i);
    }
    if skip_check(rows[i]) != Some(true) && (forall|j: int|
        0 <= j < i ==> !(#[trigger] build_row(rows[j]) is Fail)) {
        assert forall|j: int| 0 <= j < i implies !(#[trigger] f(rows[j]) is Fail) by {
            assert(!(build_row(rows[j]) is Fail));
        }
        lemma_collect_first_failure(rows, f, i);
    }
}

} // verus!
