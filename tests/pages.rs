use hydra_check::soup::SoupError;
use hydra_check::{SoupFind, TryAttr};
use hydra_check::changes::{rev_param_exec, short_rev_pair_exec};
use hydra_check::naming::ResolvedArgs;
use hydra_check::naming::Queries;
use hydra_check::records::{BuildStatus, EvalInput, EvalInputChanges, EvalStatus, StatusIcon};
use hydra_check::reports::{latest_finished_url, BuildReport, EvalReport, JobsetReport, PackageReport};
use hydra_check::rows::ParseError;
use hydra_check::soup::missing_table_status_exec;
use hydra_check::table::{Cell, Link, Row, TimeTag};
use hydra_check::evaluation::Evaluation;
use hydra_check::text::{collapse_ws_exec, one_line_exec, parse_u64, remove_all_exec};

fn link(text: &str, href: &str) -> Cell {
    let mut c = Cell::plain(text.into());
    c.link = Some(Link {
        text: text.into(),
        href: Some(href.into()),
    });
    c
}

fn tt(text: &str) -> Cell {
    let mut c = Cell::plain(text.into());
    c.tt = Some(text.into());
    c
}

fn row(cells: Vec<Cell>) -> Row {
    Row {
        cells,
        headers: vec![],
        html: "<tr>row</tr>".into(),
    }
}

fn status_cell(title: &str) -> Cell {
    let mut c = Cell::plain(String::new());
    c.image_title = Some(Some(title.into()));
    c
}

fn time_cell(datetime: &str) -> Cell {
    let mut c = Cell::plain("1d ago".into());
    c.time = Some(TimeTag {
        text: "1d ago".into(),
        datetime: Some(datetime.into()),
        timestamp: Some("1700000000".into()),
    });
    c
}

#[test]
fn two_column_row_is_removed_job() {
    let rows = vec![row(vec![link(" hello ", "https://h/job/x/hello"), tt("x86_64-linux")])];
    let builds = BuildStatus::from_rows(&rows).unwrap();
    assert_eq!(builds.len(), 1);
    assert_eq!(builds[0].status, "Removed");
    assert_eq!(builds[0].icon, StatusIcon::Warning);
    assert_eq!(builds[0].job_name.as_deref(), Some("hello"));
    assert_eq!(builds[0].arch.as_deref(), Some("x86_64-linux"));
    assert_eq!(builds[0].build_url.as_deref(), Some("https://h/job/x/hello"));
    let rows = vec![row(vec![Cell::plain("hello".into()), tt("x86_64-linux")])];
    assert!(matches!(BuildStatus::from_rows(&rows), Err(ParseError::MissingElement)));
}

#[test]
fn unmatched_rows_are_dropped_or_rejected() {
    let rows = vec![row(vec![link("more", "https://h/job/nixpkgs/trunk/hello/all")])];
    assert_eq!(BuildStatus::from_rows(&rows).unwrap().len(), 0);
    let rows = vec![row(vec![link("more", "https://h/eval/1?full=1")])];
    assert_eq!(BuildStatus::from_rows(&rows).unwrap().len(), 0);
    let rows = vec![row(vec![link("more", "https://h/job/hello")])];
    match BuildStatus::from_rows(&rows) {
        Err(ParseError::UnexpectedRow(html)) => assert_eq!(html, "<tr>row</tr>"),
        other => panic!("unexpected {other:?}"),
    }
    let rows = vec![row(vec![Cell::plain("x".into())])];
    match BuildStatus::from_rows(&rows) {
        Err(ParseError::UnexpectedRow(html)) => assert_eq!(html, "<tr>row</tr>"),
        other => panic!("unexpected {other:?}"),
    }
}

#[test]
fn build_rows_with_and_without_job_column() {
    let five = row(vec![
        status_cell("Succeeded"),
        link("123", "https://h/build/123"),
        time_cell("2024-05-01T10:00:00Z"),
        Cell::plain("hello-2.12".into()),
        tt("x86_64-linux"),
    ]);
    let six = row(vec![
        status_cell("Cancelled"),
        link("124", "https://h/build/124"),
        Cell::plain(" nixpkgs.hello ".into()),
        Cell::plain("".into()),
        Cell::plain("hello-2.13".into()),
        tt("aarch64-linux"),
    ]);
    let mut queued = status_cell("x");
    queued.span = Some(" Queued ".into());
    let queued = row(vec![
        queued,
        Cell::plain("".into()),
        Cell::plain("".into()),
        Cell::plain("".into()),
        Cell::plain("".into()),
    ]);
    let builds = BuildStatus::from_rows(&vec![five, six, queued]).unwrap();
    assert_eq!(builds.len(), 3);
    assert!(builds[0].success && builds[0].evals);
    assert_eq!(builds[0].icon, StatusIcon::Succeeded);
    assert_eq!(builds[0].build_id.as_deref(), Some("123"));
    assert_eq!(builds[0].timestamp.as_deref(), Some("2024-05-01T10:00:00Z"));
    assert_eq!(builds[0].job_name, None);
    assert_eq!(builds[1].icon, StatusIcon::Cancelled);
    assert!(!builds[1].success);
    assert_eq!(builds[1].job_name.as_deref(), Some("nixpkgs.hello"));
    assert_eq!(builds[1].timestamp, None);
    assert_eq!(builds[2].icon, StatusIcon::Queued);
    assert_eq!(
        builds[2].status,
        "Queued: no build has been attempted for this package yet (still queued)"
    );
}

#[test]
fn failed_build_title() {
    let r = row(vec![
        status_cell("Dependency failed"),
        link("9", "https://h/build/9"),
        time_cell("t"),
        Cell::plain("n".into()),
        tt("x86_64-linux"),
    ]);
    let b = BuildStatus::from_rows(&vec![r]).unwrap();
    assert_eq!(b[0].icon, StatusIcon::Failed);
    assert_eq!(b[0].status, "Dependency failed");
}

#[test]
fn jobset_rows() {
    let mut changes = tt("5d8f4beac036");
    changes.text = "\n  5d8f4beac036  \n Evaluation failed \n".into();
    changes.span = Some("Evaluation failed".into());
    let r = row(vec![
        link("1809808", "https://h/eval/1809808"),
        time_cell("2024-05-01"),
        changes,
        Cell::plain(" 100 ".into()),
        Cell::plain("".into()),
        Cell::plain("3".into()),
        Cell::plain(" +2 ".into()),
    ]);
    let evals = EvalStatus::from_rows(&vec![r]).unwrap();
    assert_eq!(evals.len(), 1);
    let e = &evals[0];
    assert_eq!(e.id, Some(1809808));
    assert_eq!(e.finished, Some(false));
    assert_eq!(e.icon, StatusIcon::Queued);
    assert_eq!(e.succeeded, Some(100));
    assert_eq!(e.failed, Some(0));
    assert_eq!(e.queued, Some(3));
    assert_eq!(e.delta.as_deref(), Some("+2"));
    assert_eq!(e.timestamp, Some(1700000000));
    assert_eq!(e.short_rev.as_deref(), Some("5d8f4beac036"));
    assert_eq!(e.status, "Evaluation failed");
    assert_eq!(e.input_changes.as_deref(), Some("5d8f4beac036"));
    let bad = row(vec![
        link("x", "https://h/eval/x"),
        time_cell("t"),
        tt("r"),
        Cell::plain("".into()),
        Cell::plain("".into()),
        Cell::plain("".into()),
        Cell::plain("".into()),
    ]);
    assert!(matches!(EvalStatus::from_rows(&vec![bad]), Err(ParseError::InvalidNumber)));
}

#[test]
fn input_rows() {
    let r = row(vec![
        Cell::plain(" nixpkgs ".into()),
        Cell::plain("Git checkout".into()),
        Cell::plain("https://github.com/nixos/nixpkgs.git".into()),
        Cell::plain("1e9e641a3fc1b22fbdb823a99d8ff96692cc4fba".into()),
        Cell::plain("  ".into()),
    ]);
    let inputs = EvalInput::from_rows(&vec![r]).unwrap();
    assert_eq!(inputs[0].name.as_deref(), Some("nixpkgs"));
    assert_eq!(inputs[0].store_path, None);
    let odd = row(vec![Cell::plain("x".into())]);
    assert!(matches!(EvalInput::from_rows(&vec![odd]), Err(ParseError::UnexpectedRow(_))));
}

#[test]
fn revision_extraction() {
    let url = "https://hydra.nixos.org/api/scmdiff?rev2=1e9e641a3fc1&uri=x&rev1=8c4dc69b9732&type=git";
    assert_eq!(rev_param_exec(url, "rev1=").as_deref(), Some("8c4dc69b9732"));
    assert_eq!(rev_param_exec(url, "rev2=").as_deref(), Some("1e9e641a3fc1"));
    assert_eq!(rev_param_exec("a?rev1=ab&rev1=cd", "rev1=").as_deref(), Some("cd"));
    assert_eq!(rev_param_exec("a?rev1=ab&rev1=", "rev1=").as_deref(), Some("ab"));
    assert_eq!(rev_param_exec("a?rev1=AB", "rev1="), None);
    assert_eq!(rev_param_exec("a?rev1=ab\n", "rev1="), None);
    let pair = short_rev_pair_exec("8c4dc69b9732 to 1e9e641a3fc1").unwrap();
    assert_eq!(pair, ("8c4dc69b9732".to_string(), "1e9e641a3fc1".to_string()));
    assert_eq!(short_rev_pair_exec("8c4dc69b9732 to "), None);
    assert_eq!(short_rev_pair_exec("8c4dc69b9732 to 1e9e 641a"), None);
}

#[test]
fn input_change_rows() {
    let header = Row {
        cells: vec![],
        headers: vec![" Input ".into(), "Changes".into()],
        html: String::new(),
    };
    let mut changes = Cell::plain(" 8c4dc69b9732 to 1e9e641a3fc1 ".into());
    changes.link = Some(Link {
        text: "8c4dc69b9732 to 1e9e641a3fc1".into(),
        href: Some(
            "https://hydra.nixos.org/api/scmdiff?rev1=8c4dc69b9732f6bbe826b5fbb32184987520ff26&rev2=1e9e641a3fc1b22fbdb823a99d8ff96692cc4fba".into(),
        ),
    });
    let body = row(vec![Cell::plain("nixpkgs".into()), changes]);
    let all = EvalInputChanges::from_rows(&vec![header.clone(), body]).unwrap();
    assert_eq!(all.len(), 1);
    assert_eq!(all[0].input, "nixpkgs");
    assert_eq!(all[0].description, "8c4dc69b9732 to 1e9e641a3fc1");
    assert_eq!(
        all[0].revs,
        Some((
            "8c4dc69b9732f6bbe826b5fbb32184987520ff26".to_string(),
            "1e9e641a3fc1b22fbdb823a99d8ff96692cc4fba".to_string()
        ))
    );
    assert_eq!(
        all[0].short_revs,
        Some(("8c4dc69b9732".to_string(), "1e9e641a3fc1".to_string()))
    );
    let bad_header = Row {
        headers: vec!["Name".into()],
        ..header
    };
    assert!(matches!(
        EvalInputChanges::from_rows(&vec![bad_header]),
        Err(ParseError::UnexpectedTable)
    ));
    assert!(matches!(EvalInputChanges::from_rows(&vec![]), Err(ParseError::MissingElement)));
}

#[test]
fn text_functions() {
    assert_eq!(one_line_exec("\n  This job is not\n  built.\n"), " This job is not built.");
    assert_eq!(collapse_ws_exec("  a \n b\t\tc  "), "a b c");
    assert_eq!(remove_all_exec("abcabd", "ab"), "cd");
    assert_eq!(remove_all_exec("abc", ""), "abc");
    assert_eq!(parse_u64("+12"), Some(12));
    assert_eq!(parse_u64("-1"), None);
    assert_eq!(parse_u64(""), None);
    assert_eq!(missing_table_status_exec(Some(" x \n\n  y  z "), "t", "u"), "x y z");
    assert_eq!(
        missing_table_status_exec(None, " tbody", "https://h/x"),
        "Unknown Hydra Error with ' tbody' found at https://h/x"
    );
}

fn resolved(jobset: &str) -> ResolvedArgs {
    ResolvedArgs {
        queries: Queries::Jobset,
        url: false,
        json: false,
        short: false,
        releases: false,
        jobset: jobset.into(),
        channel: None,
    }
}

const BUILD_PAGE: &str = r#"<html><body><table><tbody>
<tr><td><img title="Succeeded"></td><td><a href="https://hydra.nixos.org/build/1">1</a></td><td><time datetime="2024-01-01T00:00:00Z">x</time></td><td>hello-2.12</td><td><tt>x86_64-linux</tt></td></tr>
<tr><td><a href="https://hydra.nixos.org/job/nixpkgs/trunk/hello.x86_64-linux/all">more</a></td></tr>
</tbody></table></body></html>"#;

#[test]
fn package_report_from_page() {
    let args = resolved("nixpkgs/trunk");
    let report = PackageReport::from_package_with_args("hello.x86_64-linux", &args, "https://hydra.nixos.org");
    assert_eq!(report.url, "https://hydra.nixos.org/job/nixpkgs/trunk/hello.x86_64-linux");
    let report = report.read_page(BUILD_PAGE).unwrap();
    assert_eq!(report.builds.len(), 1);
    let b = &report.builds[0];
    assert!(b.success);
    assert_eq!(b.build_id.as_deref(), Some("1"));
    assert_eq!(b.build_url.as_deref(), Some("https://hydra.nixos.org/build/1"));
    assert_eq!(b.name.as_deref(), Some("hello-2.12"));
    assert_eq!(b.arch.as_deref(), Some("x86_64-linux"));
    assert_eq!(b.timestamp.as_deref(), Some("2024-01-01T00:00:00Z"));
}

#[test]
fn missing_table_degrades() {
    let args = resolved("nixpkgs/trunk");
    let page = "<html><body><div class=\"alert\">\n  This job is not\n  built.\n</div></body></html>";
    let report = PackageReport::from_package_with_args("nope", &args, "https://h")
        .read_page(page)
        .unwrap();
    assert_eq!(report.builds.len(), 1);
    assert_eq!(report.builds[0].icon, StatusIcon::Warning);
    assert_eq!(report.builds[0].status, "This job is not built.");
    let page = "<div class=\"alert\">a  b\n\n c</div>";
    let report = PackageReport::from_package_with_args("nope", &args, "https://h")
        .read_page(page)
        .unwrap();
    assert_eq!(report.builds[0].status, "a b c");
    let report = JobsetReport::from_args(&args, "https://h").read_page("<html></html>").unwrap();
    assert_eq!(report.url, "https://h/jobset/nixpkgs/trunk/evals");
    assert_eq!(
        report.evals[0].status,
        "Unknown Hydra Error with ' tbody' found at https://h/jobset/nixpkgs/trunk/evals"
    );
    let report = BuildReport::from_url("https://h/build/1").read_page("<p>gone</p>").unwrap();
    assert_eq!(report.inputs[0].name.as_deref(), Some("⚠"));
    assert_eq!(
        report.inputs[0].value.as_deref(),
        Some("Unknown Hydra Error with 'div#tabs-buildinputs tbody' found at https://h/build/1")
    );
}

#[test]
fn eval_page_tables() {
    let page = r#"<html><body>
<div id="tabs-inputs"><table><tbody>
<tr><td>nixpkgs</td><td>Git checkout</td><td>https://github.com/nixos/nixpkgs.git</td><td>1e9e641a3fc1</td><td></td></tr>
</tbody></table>
<table><tr><th>Input</th><th>Changes</th></tr>
<tr><td>nixpkgs</td><td><a href="https://h/api/scmdiff?rev1=aa11&rev2=bb22">aa11 to bb22</a></td></tr></table></div>
<div id="tabs-new"><table><tbody>
<tr><td><img title="Succeeded"></td><td><a href="https://h/build/5">5</a></td><td>hello</td><td></td><td>hello-1</td><td><tt>x86_64-linux</tt></td></tr>
</tbody></table></div>
<div id="tabs-removed"><table><tbody><tr><td>odd</td></tr></tbody></table></div>
</body></html>"#;
    let report = EvalReport::from_evaluation(Evaluation::guess_from_spec("5/"), "https://h")
        .read_page(page)
        .unwrap();
    assert_eq!(report.inputs.len(), 1);
    assert_eq!(report.inputs[0].store_path, None);
    assert_eq!(report.changes.len(), 1);
    assert_eq!(report.changes[0].revs, Some(("aa11".to_string(), "bb22".to_string())));
    assert_eq!(report.new.len(), 1);
    assert_eq!(report.new[0].job_name.as_deref(), Some("hello"));
    assert!(report.removed.is_empty());
    assert!(report.aborted.is_empty());
    let missing = EvalReport::from_evaluation(Evaluation::guess_from_spec("5/"), "https://h")
        .read_page("<div class='alert'>No such evaluation</div>")
        .unwrap();
    assert_eq!(missing.inputs[0].value.as_deref(), Some("No such evaluation"));
    assert!(missing.changes.is_empty() && missing.new.is_empty());
}

#[test]
fn eval_report_urls() {
    let eval = Evaluation::guess_from_spec("123/rustc");
    let report = EvalReport::from_evaluation(eval, "https://h");
    assert_eq!(report.url, "https://h/eval/123?filter=rustc");
    let eval = Evaluation::guess_from_spec("123/");
    assert_eq!(EvalReport::from_evaluation(eval, "https://h").url, "https://h/eval/123");
    assert_eq!(
        latest_finished_url("https://h/job/j/p/all/all"),
        "https://h/job/j/p/latest-finished"
    );
}

#[test]
fn soup_queries() {
    let doc = scraper::Html::parse_document("<html><body data-x=\"1\"><p class=\"a\">one</p><p>two</p></body></html>");
    assert_eq!((&doc).find_all("p").len(), 2);
    let body = (&doc).find("body").unwrap();
    assert_eq!(body.try_attr("data-x").unwrap(), "1");
    assert!(matches!(body.try_attr("data-y"), Err(SoupError::MissingAttribute(_))));
    assert!(matches!((&doc).find("table"), Err(SoupError::NotFound(_))));
    assert!(matches!((&doc).find("p[[["), Err(SoupError::InvalidSelector(_))));
    assert_eq!(body.find_all("p.a").len(), 1);
    assert!(body.find("p").is_ok());
}
