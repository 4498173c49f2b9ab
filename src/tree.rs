//! A matched part of a page as a flat list of elements in document order,
//! each with its depth, and the reduction of its table rows to the plain row
//! model: the descendants of an element are the elements that follow it up
//! to the next one that is not deeper.

use vstd::prelude::*;
use vstd::string::*;

use crate::table::{Cell, CellView, Link, LinkView, Row, RowView, TimeTag, TimeTagView};
use crate::text::{opt_view, str_eq};

verus! {

/// One element: its tag name, attributes, text, markup, and its number of
/// ancestors in the page.
#[derive(Debug, Clone)]
pub struct Element {
    pub tag: String,
    pub attrs: Vec<(String, String)>,
    pub text: String,
    pub html: String,
    pub depth: usize,
}

pub struct ElementView {
    pub tag: Seq<char>,
    pub attrs: Seq<(Seq<char>, Seq<char>)>,
    pub text: Seq<char>,
    pub html: Seq<char>,
    pub depth: nat,
}

impl View for Element {
    type V = ElementView;

    open spec fn view(&self) -> ElementView {
        ElementView {
            tag: self.tag@,
            attrs: self.attrs@.map_values(|a: (String, String)| (a.0@, a.1@)),
            text: self.text@,
            html: self.html@,
            depth: self.depth as nat,
        }
    }
}

pub open spec fn elements_view(els: Seq<Element>) -> Seq<ElementView> {
    els.map_values(|e: Element| e@)
}

/// The first position from `q` on whose element is not deeper than `d`, or
/// the length of the list.
pub open spec fn subtree_scan(els: Seq<ElementView>, d: nat, q: int) -> int
    decreases els.len() - q,
{
    if q < 0 || q >= els.len() {
        els.len() as int
    } else if els[q].depth <= d {
        q
    } else {
        subtree_scan(els, d, q + 1)
    }
}

/// The end of the descendants of the element at `p`.
pub open spec fn subtree_end(els: Seq<ElementView>, p: int) -> int {
    subtree_scan(els, els[p].depth, p + 1)
}

/// The first position in `from..to` whose element has tag `tag`, or `to`.
pub open spec fn first_tag(els: Seq<ElementView>, from: int, to: int, tag: Seq<char>) -> int
    decreases to - from,
{
    if from < 0 || from >= to || from >= els.len() {
        to
    } else if els[from].tag == tag {
        from
    } else {
        first_tag(els, from + 1, to, tag)
    }
}

/// The positions in `from..to` whose elements have tag `tag`, in order.
pub open spec fn tag_positions(els: Seq<ElementView>, from: int, to: int, tag: Seq<char>) -> Seq<int>
    decreases to - from,
{
    if from < 0 || from >= to || from >= els.len() {
        Seq::empty()
    } else if els[from].tag == tag {
        seq![from] + tag_positions(els, from + 1, to, tag)
    } else {
        tag_positions(els, from + 1, to, tag)
    }
}

/// The value of the first attribute named `name`.
pub open spec fn attr_value(attrs: Seq<(Seq<char>, Seq<char>)>, name: Seq<char>) -> Option<
    Seq<char>,
>
    decreases attrs.len(),
{
    if attrs.len() == 0 {
        None
    } else if attrs[0].0 == name {
        Some(attrs[0].1)
    } else {
        attr_value(attrs.drop_first(), name)
    }
}

/// The first descendant of the element at `p` with tag `tag`.
pub open spec fn first_in(els: Seq<ElementView>, p: int, tag: Seq<char>) -> Option<ElementView> {
    let k = first_tag(els, p + 1, subtree_end(els, p), tag);
    if 0 <= k < subtree_end(els, p) && k < els.len() {
        Some(els[k])
    } else {
        None
    }
}

/// The cell that the element at `p` makes: its text, and its first link,
/// `span`, `img` title, `tt` and `time`.
pub open spec fn cell_of(els: Seq<ElementView>, p: int) -> CellView {
    CellView {
        text: els[p].text,
        link: match first_in(els, p, "a"@) {
            Some(a) => Some(LinkView { text: a.text, href: attr_value(a.attrs, "href"@) }),
            None => None,
        },
        span: match first_in(els, p, "span"@) {
            Some(e) => Some(e.text),
            None => None,
        },
        image_title: match first_in(els, p, "img"@) {
            Some(e) => Some(attr_value(e.attrs, "title"@)),
            None => None,
        },
        tt: match first_in(els, p, "tt"@) {
            Some(e) => Some(e.text),
            None => None,
        },
        time: match first_in(els, p, "time"@) {
            Some(e) => Some(
                TimeTagView {
                    text: e.text,
                    datetime: attr_value(e.attrs, "datetime"@),
                    timestamp: attr_value(e.attrs, "data-timestamp"@),
                },
            ),
            None => None,
        },
    }
}

/// The row that the element at `p` makes: its `td` cells, the texts of its
/// `th` cells, and its markup.
pub open spec fn row_of(els: Seq<ElementView>, p: int) -> RowView {
    RowView {
        cells: tag_positions(els, p + 1, subtree_end(els, p), "td"@).map_values(
            |k: int| cell_of(els, k),
        ),
        headers: tag_positions(els, p + 1, subtree_end(els, p), "th"@).map_values(
            |k: int| els[k].text,
        ),
        html: els[p].html,
    }
}

/// The rows (`tr`) below the first element of the list, in document order.
pub open spec fn rows_of(els: Seq<ElementView>) -> Seq<RowView> {
    tag_positions(els, 1, els.len() as int, "tr"@).map_values(|k: int| row_of(els, k))
}

proof fn lemma_push_mapped<A, B>(
    xs: Seq<A>,
    ys: Seq<int>,
    f: spec_fn(A) -> B,
    g: spec_fn(int) -> B,
    x: A,
    y: int,
)
    requires
        xs.map_values(f) == ys.map_values(g),
        f(x) == g(y),
    ensures
        xs.push(x).map_values(f) == ys.push(y).map_values(g),
{
    assert(xs.len() == xs.map_values(f).len());
    assert(ys.len() == ys.map_values(g).len());
    assert forall|j: int| 0 <= j < xs.len() + 1 implies xs.push(x).map_values(f)[j] == ys.push(
        y,
    ).map_values(g)[j] by {
        assert(xs.push(x).map_values(f)[j] == f(xs.push(x)[j]));
        assert(ys.push(y).map_values(g)[j] == g(ys.push(y)[j]));
        if j < xs.len() {
            assert(xs.map_values(f)[j] == ys.map_values(g)[j]);
            assert(xs.map_values(f)[j] == f(xs[j]));
            assert(ys.map_values(g)[j] == g(ys[j]));
        }
    }
    assert(xs.push(x).map_values(f) =~= ys.push(y).map_values(g));
}

fn subtree_end_exec(els: &Vec<Element>, p: usize) -> (r: usize)
    requires
        p < els@.len(),
    ensures
        r as int == subtree_end(elements_view(els@), p as int),
        p < r <= els@.len(),
{
    let ghost ev = elements_view(els@);
    let n = els.len();
    let d = els[p].depth;
    let mut q: usize = p + 1;
    while q < els.len() && els[q].depth > d
        invariant
            ev == elements_view(els@),
            d as nat == ev[p as int].depth,
            p < q <= els@.len(),
            subtree_end(ev, p as int) == subtree_scan(ev, d as nat, q as int),
        decreases els@.len() - q,
    {
        assert(ev[q as int].depth == els@[q as int].depth);
        q += 1;
    }
    if q < els.len() {
        assert(ev[q as int].depth == els@[q as int].depth);
    }
    q
}

fn first_tag_exec(els: &Vec<Element>, from: usize, to: usize, tag: &str) -> (r: usize)
    requires
        from <= to <= els@.len(),
    ensures
        r as int == first_tag(elements_view(els@), from as int, to as int, tag@),
        from <= r <= to,
{
    let ghost ev = elements_view(els@);
    let mut k: usize = from;
    while k < to && !str_eq(els[k].tag.as_str(), tag)
        invariant
            ev == elements_view(els@),
            from <= k <= to,
            to <= els@.len(),
            first_tag(ev, from as int, to as int, tag@) == first_tag(ev, k as int, to as int, tag@),
        decreases to - k,
    {
        assert(ev[k as int].tag == els@[k as int].tag@);
        k += 1;
    }
    if k < to {
        assert(ev[k as int].tag == els@[k as int].tag@);
    }
    k
}

fn attr_exec(attrs: &Vec<(String, String)>, name: &str) -> (r: Option<String>)
    ensures
        opt_view(r) == attr_value(attrs@.map_values(|a: (String, String)| (a.0@, a.1@)), name@),
{
    let ghost av = attrs@.map_values(|a: (String, String)| (a.0@, a.1@));
    let mut i: usize = 0;
    assert(av.skip(0) =~= av);
    while i < attrs.len()
        invariant
            av == attrs@.map_values(|a: (String, String)| (a.0@, a.1@)),
            i <= attrs@.len(),
            attr_value(av, name@) == attr_value(av.skip(i as int), name@),
        decreases attrs@.len() - i,
    {
        assert(av.skip(i as int)[0] == (attrs@[i as int].0@, attrs@[i as int].1@));
        if str_eq(attrs[i].0.as_str(), name) {
            return Some(attrs[i].1.clone());
        }
        assert(av.skip(i as int).drop_first() =~= av.skip(i + 1));
        i += 1;
    }
    None
}

/// The first descendant of the element at `p` with tag `tag`.
fn first_in_exec(els: &Vec<Element>, p: usize, tag: &str) -> (r: Option<usize>)
    requires
        p < els@.len(),
    ensures
        match first_in(elements_view(els@), p as int, tag@) {
            Some(e) => r matches Some(k) && k < els@.len() && els@[k as int]@ == e,
            None => r is None,
        },
{
    let end = subtree_end_exec(els, p);
    let k = first_tag_exec(els, p + 1, end, tag);
    if k < end {
        Some(k)
    } else {
        None
    }
}

fn cell_at(els: &Vec<Element>, p: usize) -> (r: Cell)
    requires
        p < els@.len(),
    ensures
        r@ == cell_of(elements_view(els@), p as int),
{
    let link = match first_in_exec(els, p, "a") {
        Some(k) => Some(Link { text: els[k].text.clone(), href: attr_exec(&els[k].attrs, "href") }),
        None => None,
    };
    let span = match first_in_exec(els, p, "span") {
        Some(k) => Some(els[k].text.clone()),
        None => None,
    };
    let image_title = match first_in_exec(els, p, "img") {
        Some(k) => Some(attr_exec(&els[k].attrs, "title")),
        None => None,
    };
    let tt = match first_in_exec(els, p, "tt") {
        Some(k) => Some(els[k].text.clone()),
        None => None,
    };
    let time = match first_in_exec(els, p, "time") {
        Some(k) => Some(
            TimeTag {
                text: els[k].text.clone(),
                datetime: attr_exec(&els[k].attrs, "datetime"),
                timestamp: attr_exec(&els[k].attrs, "data-timestamp"),
            },
        ),
        None => None,
    };
    let r = Cell { text: els[p].text.clone(), link, span, image_title, tt, time };
    assert(elements_view(els@)[p as int] == els@[p as int]@);
    r
}

fn row_at(els: &Vec<Element>, p: usize) -> (r: Row)
    requires
        p < els@.len(),
    ensures
        r@ == row_of(elements_view(els@), p as int),
{
    let ghost ev = elements_view(els@);
    let end = subtree_end_exec(els, p);
    let mut cells: Vec<Cell> = Vec::new();
    let mut headers: Vec<String> = Vec::new();
    let ghost mut tds: Seq<int> = Seq::empty();
    let ghost mut ths: Seq<int> = Seq::empty();
    let mut k: usize = p + 1;
    while k < end
        invariant
            ev == elements_view(els@),
            p < k <= end <= els@.len(),
            end as int == subtree_end(ev, p as int),
            tag_positions(ev, p + 1, end as int, "td"@) == tds + tag_positions(
                ev,
                k as int,
                end as int,
                "td"@,
            ),
            tag_positions(ev, p + 1, end as int, "th"@) == ths + tag_positions(
                ev,
                k as int,
                end as int,
                "th"@,
            ),
            cells@.map_values(|c: Cell| c@) == tds.map_values(|j: int| cell_of(ev, j)),
            headers@.map_values(|h: String| h@) == ths.map_values(|j: int| ev[j].text),
        decreases end - k,
    {
        assert(ev[k as int] == els@[k as int]@);
        let ghost old_cells = cells@;
        let ghost old_headers = headers@;
        if str_eq(els[k].tag.as_str(), "td") {
            let c = cell_at(els, k);
            cells.push(c);
            proof {
                lemma_push_mapped(old_cells, tds, |c: Cell| c@, |j: int| cell_of(ev, j), c, k as int);
                tds = tds.push(k as int);
            }
        } else if str_eq(els[k].tag.as_str(), "th") {
            let h = els[k].text.clone();
            headers.push(h);
            proof {
                lemma_push_mapped(old_headers, ths, |h: String| h@, |j: int| ev[j].text, h, k as int);
                ths = ths.push(k as int);
            }
        }
        proof {
            reveal_strlit("td");
            reveal_strlit("th");
            assert("td"@ != "th"@) by {
                assert("td"@[1] != "th"@[1]);
            }
        }
        assert(cells@.map_values(|c: Cell| c@) =~= tds.map_values(|j: int| cell_of(ev, j)));
        assert(headers@.map_values(|h: String| h@) =~= ths.map_values(|j: int| ev[j].text));
        assert(tag_positions(ev, p + 1, end as int, "td"@) =~= tds + tag_positions(
            ev,
            k + 1,
            end as int,
            "td"@,
        ));
        assert(tag_positions(ev, p + 1, end as int, "th"@) =~= ths + tag_positions(
            ev,
            k + 1,
            end as int,
            "th"@,
        ));
        k += 1;
    }
    assert(tds + tag_positions(ev, k as int, end as int, "td"@) =~= tds);
    assert(ths + tag_positions(ev, k as int, end as int, "th"@) =~= ths);
    let r = Row { cells, headers, html: els[p].html.clone() };
    assert(r@.cells =~= row_of(ev, p as int).cells);
    assert(r@.headers =~= row_of(ev, p as int).headers);
    r
}

/// The rows below the first element of the list (see `rows_of`).
pub fn rows_exec(els: &Vec<Element>) -> (r: Vec<Row>)
    ensures
        r@.map_values(|row: Row| row@) == rows_of(elements_view(els@)),
{
    let ghost ev = elements_view(els@);
    let n = els.len();
    let mut rows: Vec<Row> = Vec::new();
    let ghost mut trs: Seq<int> = Seq::empty();
    let mut k: usize = 1;
    if n == 0 {
        assert(rows@.map_values(|row: Row| row@) =~= rows_of(ev));
        return rows;
    }
    while k < n
        invariant
            ev == elements_view(els@),
            n == els@.len(),
            1 <= k <= n,
            tag_positions(ev, 1, n as int, "tr"@) == trs + tag_positions(
                ev,
                k as int,
                n as int,
                "tr"@,
            ),
            rows@.map_values(|row: Row| row@) == trs.map_values(|j: int| row_of(ev, j)),
        decreases n - k,
    {
        assert(ev[k as int] == els@[k as int]@);
        let ghost old_rows = rows@;
        if str_eq(els[k].tag.as_str(), "tr") {
            let r = row_at(els, k);
            rows.push(r);
            proof {
                lemma_push_mapped(old_rows, trs, |row: Row| row@, |j: int| row_of(ev, j), r, k as int);
                trs = trs.push(k as int);
            }
        }
        assert(rows@.map_values(|row: Row| row@) =~= trs.map_values(|j: int| row_of(ev, j)));
        assert(tag_positions(ev, 1, n as int, "tr"@) =~= trs + tag_positions(
            ev,
            k + 1,
            n as int,
            "tr"@,
        ));
        k += 1;
    }
    assert(trs + tag_positions(ev, k as int, n as int, "tr"@) =~= trs);
    rows
}

} // verus!
