//! Changed inputs of an evaluation, with the revisions read from the diff
//! link (`...rev1=<hash>...rev2=<hash>...`) and from the description
//! (`<short> to <short>`).

use vstd::prelude::*;
use vstd::string::*;

use crate::records::{pair_view, EvalInputChanges, EvalInputChangesView};
use crate::rows::{collect_rows, lemma_collect_fails, result_view, ParseError, ParseErrorView, RowOutcome};
use crate::table::{rows_view, Row, RowView};
use crate::text::{chars_of, clone_opt, contains, contains_str, occurs_at, occurs_at_exec, opt_view, slice_string, trim, trimmed};

verus! {

/// A character of a revision: an ASCII digit or lower-case letter.
pub open spec fn is_rev_char(c: char) -> bool {
    ('0' as u32 <= c as u32 && c as u32 <= '9' as u32) || ('a' as u32 <= c as u32 && c as u32
        <= 'z' as u32)
}

/// Length of the run of revision characters that begins `s`.
pub open spec fn rev_run(s: Seq<char>) -> nat
    decreases s.len(),
{
    if s.len() > 0 && is_rev_char(s[0]) {
        1 + rev_run(s.drop_first())
    } else {
        0
    }
}

pub open spec fn all_rev_chars(s: Seq<char>) -> bool {
    forall|i: int| 0 <= i < s.len() ==> #[trigger] is_rev_char(s[i])
}

/// `key` occurs at `i` and a revision character follows it.
pub open spec fn param_at(s: Seq<char>, key: Seq<char>, i: int) -> bool {
    occurs_at(s, key, i) && i + key.len() < s.len() && is_rev_char(s[i + key.len()])
}

/// `i` is the last position of `key` followed by a revision character.
pub open spec fn last_param_at(s: Seq<char>, key: Seq<char>, i: int) -> bool {
    param_at(s, key, i) && forall|j: int| i < j ==> !#[trigger] param_at(s, key, j)
}

/// The revision after the last `key` in a one-line text, as the pattern
/// `^.*<key>([0-9a-z]+).*$` captures it.
pub open spec fn rev_param(s: Seq<char>, key: Seq<char>) -> Option<Seq<char>> {
    if !s.contains('\n') && exists|i: int| last_param_at(s, key, i) {
        let i = choose|i: int| last_param_at(s, key, i);
        let st = i + key.len();
        Some(s.subrange(st, st + rev_run(s.skip(st))))
    } else {
        None
    }
}

/// The two revisions of `<rev> to <rev>`, as the pattern
/// `^([0-9a-z]+) to ([0-9a-z]+)$` captures them.
pub open spec fn short_rev_pair(s: Seq<char>) -> Option<(Seq<char>, Seq<char>)> {
    let k = rev_run(s) as int;
    if k >= 1 && occurs_at(s, " to "@, k) && k + 4 < s.len() && all_rev_chars(
        s.subrange(k + 4, s.len() as int),
    ) {
        Some((s.subrange(0, k), s.subrange(k + 4, s.len() as int)))
    } else {
        None
    }
}

/// The full revisions of a diff link: both or none.
pub open spec fn revs_of(url: Option<Seq<char>>) -> Option<(Seq<char>, Seq<char>)> {
    match url {
        Some(u) => match (rev_param(u, "rev1="@), rev_param(u, "rev2="@)) {
            (Some(a), Some(b)) => Some((a, b)),
            _ => None,
        },
        None => None,
    }
}

/// A row of the table of changed inputs: input, then description with its link.
pub open spec fn change_row(row: RowView) -> RowOutcome<EvalInputChangesView> {
    let c = row.cells;
    if c.len() < 2 {
        RowOutcome::Fail(ParseErrorView::MissingElement)
    } else {
        let description = trimmed(c[1].text);
        let url = match c[1].link {
            Some(l) => l.href,
            None => None,
        };
        RowOutcome::Record(
            EvalInputChangesView {
                input: trimmed(c[0].text),
                description,
                url,
                revs: revs_of(url),
                short_revs: if description.len() == 0 {
                    None
                } else {
                    short_rev_pair(description)
                },
            },
        )
    }
}

/// Every header names the input or its changes.
pub open spec fn change_headers(headers: Seq<Seq<char>>) -> bool {
    forall|i: int|
        0 <= i < headers.len() ==> contains(trimmed(#[trigger] headers[i]), "Input"@) || contains(
            trimmed(headers[i]),
            "Changes"@,
        )
}

/// The changes of a table whose first row is its header.
pub open spec fn changes_of(rows: Seq<RowView>) -> Result<Seq<EvalInputChangesView>, ParseErrorView> {
    if rows.len() == 0 {
        Err(ParseErrorView::MissingElement)
    } else if !change_headers(rows[0].headers) {
        Err(ParseErrorView::UnexpectedTable)
    } else {
        collect_rows(rows.skip(1), |row: RowView| change_row(row))
    }
}

fn is_rev_char_exec(c: char) -> (r: bool)
    ensures
        r == is_rev_char(c),
{
    let u = c as u32;
    ('0' as u32 <= u && u <= '9' as u32) || ('a' as u32 <= u && u <= 'z' as u32)
}

proof fn lemma_rev_run_bound(s: Seq<char>)
    ensures
        rev_run(s) <= s.len(),
    decreases s.len(),
{
    if s.len() > 0 && is_rev_char(s[0]) {
        lemma_rev_run_bound(s.drop_first());
    }
}

fn rev_run_from(s: &Vec<char>, from: usize) -> (r: usize)
    requires
        from <= s@.len(),
    ensures
        r as nat == rev_run(s@.skip(from as int)),
        from + r <= s@.len(),
        all_rev_chars(s@.subrange(from as int, from + r)),
{
    let mut i: usize = from;
    while i < s.len() && is_rev_char_exec(s[i])
        invariant
            from <= i <= s@.len(),
            rev_run(s@.skip(from as int)) == (i - from) + rev_run(s@.skip(i as int)),
            all_rev_chars(s@.subrange(from as int, i as int)),
        decreases s@.len() - i,
    {
        assert(s@.skip(i as int).drop_first() =~= s@.skip(i + 1));
        i += 1;
        assert forall|j: int| 0 <= j < i - from implies #[trigger] is_rev_char(
            s@.subrange(from as int, i as int)[j],
        ) by {
            if j < i - from - 1 {
                assert(s@.subrange(from as int, i as int)[j] == s@.subrange(from as int, i - 1)[j]);
            }
        }
    }
    if i < s.len() {
        assert(s@.skip(i as int)[0] == s@[i as int]);
    }
    i - from
}

/// The revision after the last `key` in `s` (see `rev_param`).
pub fn rev_param_exec(s: &str, key: &str) -> (r: Option<String>)
    ensures
        opt_view(r) == rev_param(s@, key@),
{
    let cs = chars_of(s);
    let n = cs.len();
    let m = key.unicode_len();
    let mut j: usize = 0;
    while j < n
        invariant
            cs@ == s@,
            n == s@.len(),
            j <= n,
            forall|k: int| 0 <= k < j ==> s@[k] != '\n',
        decreases n - j,
    {
        if cs[j] == '\n' {
            assert(s@.contains('\n'));
            return None;
        }
        j += 1;
    }
    assert(!s@.contains('\n'));
    let mut i: usize = n;
    while i > 0
        invariant
            cs@ == s@,
            n == s@.len(),
            m == key@.len(),
            i <= n,
            !s@.contains('\n'),
            forall|k: int| i <= k ==> !#[trigger] param_at(s@, key@, k),
        decreases i,
    {
        i -= 1;
        if occurs_at_exec(&cs, key, i) && m < n - i {
            let st = i + m;
            if is_rev_char_exec(cs[st]) {
                assert(last_param_at(s@, key@, i as int));
                let len = rev_run_from(&cs, st);
                proof {
                    let w = choose|w: int| last_param_at(s@, key@, w);
                    if w < i {
                        assert(param_at(s@, key@, i as int));
                    }
                    if w > i {
                        assert(param_at(s@, key@, w));
                    }
                    assert(w == i);
                }
                return Some(slice_string(s, st, st + len));
            }
        }
    }
    assert(forall|k: int| !last_param_at(s@, key@, k)) by {
        assert forall|k: int| !last_param_at(s@, key@, k) by {
            if k < 0 {
                assert(!occurs_at(s@, key@, k));
            }
        }
    }
    None
}

/// The two revisions of `<rev> to <rev>` (see `short_rev_pair`).
pub fn short_rev_pair_exec(s: &str) -> (r: Option<(String, String)>)
    ensures
        pair_view(r) == short_rev_pair(s@),
{
    let cs = chars_of(s);
    let n = cs.len();
    assert(cs@.skip(0) =~= cs@);
    let k = rev_run_from(&cs, 0);
    proof {
        reveal_strlit(" to ");
    }
    if k >= 1 && occurs_at_exec(&cs, " to ", k) && n - k > 4 {
        let len = rev_run_from(&cs, k + 4);
        if k + 4 + len == n {
            return Some((slice_string(s, 0, k), slice_string(s, k + 4, n)));
        }
        assert(!all_rev_chars(s@.subrange(k + 4, n as int))) by {
            let t = s@.skip(k + 4);
            assert(!is_rev_char(s@[k + 4 + len])) by {
                assert(t.skip(len as int)[0] == s@[k + 4 + len]);
                assert(rev_run(t.skip(len as int)) == 0) by {
                    lemma_rev_run_split(t, len as int);
                }
            }
            assert(s@.subrange(k + 4, n as int)[len as int] == s@[k + 4 + len]);
        }
    }
    None
}

proof fn lemma_rev_run_split(s: Seq<char>, k: int)
    requires
        0 <= k <= rev_run(s),
    ensures
        rev_run(s) == k + rev_run(s.skip(k)),
    decreases k,
{
    lemma_rev_run_bound(s);
    if k > 0 {
        assert(s.drop_first().skip(k - 1) =~= s.skip(k));
        lemma_rev_run_split(s.drop_first(), k - 1);
    } else {
        assert(s.skip(0) =~= s);
    }
}

fn change_from_row(row: &Row) -> (r: Result<EvalInputChanges, ParseError>)
    ensures
        match change_row(row@) {
            RowOutcome::Record(x) => r matches Ok(v) && v@ == x,
            RowOutcome::Fail(e) => r matches Err(f) && f@ == e,
            RowOutcome::Skip => false,
        },
{
    let c = &row.cells;
    if c.len() < 2 {
        return Err(ParseError::MissingElement);
    }
    let input = trim(c[0].text.as_str());
    let description = trim(c[1].text.as_str());
    let url = match &c[1].link {
        Some(l) => clone_opt(&l.href),
        None => None,
    };
    let revs = match &url {
        Some(u) => match (rev_param_exec(u.as_str(), "rev1="), rev_param_exec(u.as_str(), "rev2=")) {
            (Some(a), Some(b)) => Some((a, b)),
            _ => None,
        },
        None => None,
    };
    let short_revs = if description.unicode_len() == 0 {
        None
    } else {
        short_rev_pair_exec(description.as_str())
    };
    Ok(EvalInputChanges { input, description, url, revs, short_revs })
}

fn change_headers_exec(headers: &Vec<String>) -> (r: bool)
    ensures
        r == change_headers(headers@.map_values(|h: String| h@)),
{
    let mut i: usize = 0;
    while i < headers.len()
        invariant
            i <= headers@.len(),
            forall|j: int|
                0 <= j < i ==> contains(trimmed(#[trigger] headers@[j]@), "Input"@) || contains(
                    trimmed(headers@[j]@),
                    "Changes"@,
                ),
        decreases headers@.len() - i,
    {
        let t = trim(headers[i].as_str());
        if !(contains_str(t.as_str(), "Input") || contains_str(t.as_str(), "Changes")) {
            assert(headers@.map_values(|h: String| h@)[i as int] == headers@[i as int]@);
            return false;
        }
        i += 1;
    }
    true
}

impl EvalInputChanges {
    /// The changed inputs listed in a table whose first row is its header.
    pub fn from_rows(rows: &Vec<Row>) -> (r: Result<Vec<EvalInputChanges>, ParseError>)
        ensures
            result_view(r) == changes_of(rows_view(rows@)),
    {
        if rows.len() == 0 {
            return Err(ParseError::MissingElement);
        }
        if !change_headers_exec(&rows[0].headers) {
            return Err(ParseError::UnexpectedTable);
        }
        let ghost body = rows_view(rows@).skip(1);
        let mut out: Vec<EvalInputChanges> = Vec::new();
        let mut i: usize = 1;
        assert(out@.map_values(|x: EvalInputChanges| x@) =~= Seq::<EvalInputChangesView>::empty());
        assert(body.subrange(0, 0) =~= Seq::<RowView>::empty());
        while i < rows.len()
            invariant
                1 <= i <= rows@.len(),
                body == rows_view(rows@).skip(1),
                change_headers(rows@[0]@.headers),
                collect_rows(body.subrange(0, i - 1), |row: RowView| change_row(row)) == Ok::<
                    Seq<EvalInputChangesView>,
                    ParseErrorView,
                >(out@.map_values(|x: EvalInputChanges| x@)),
            decreases rows@.len() - i,
        {
            let ghost before = out@.map_values(|x: EvalInputChanges| x@);
            assert(body.subrange(0, i as int).drop_last() =~= body.subrange(0, i - 1));
            assert(body.subrange(0, i as int).last() == rows@[i as int]@);
            match change_from_row(&rows[i]) {
                Ok(b) => {
                    out.push(b);
                    assert(out@.map_values(|x: EvalInputChanges| x@) =~= before.push(b@));
                },
                Err(e) => {
                    proof {
                        assert(collect_rows(body.subrange(0, i as int), |row: RowView| change_row(row))
                            == Err::<Seq<EvalInputChangesView>, ParseErrorView>(e@));
                        lemma_collect_fails(body, |row: RowView| change_row(row), i as int);
                    }
                    return Err(e);
                },
            }
            i += 1;
        }
        assert(body.subrange(0, i - 1) =~= body);
        Ok(out)
    }
}

} // verus!
