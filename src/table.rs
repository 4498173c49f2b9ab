//! A table row of a Hydra page, reduced to the plain values that the row
//! parsers read.

use vstd::prelude::*;

use crate::text::opt_view;

verus! {

/// The first link (`a`) in a cell.
#[derive(Debug, Clone)]
pub struct Link {
    pub text: String,
    pub href: Option<String>,
}

/// The first `time` element in a cell.
#[derive(Debug, Clone)]
pub struct TimeTag {
    pub text: String,
    pub datetime: Option<String>,
    pub timestamp: Option<String>,
}

/// One data cell (`td`) of a row.
#[derive(Debug, Clone)]
pub struct Cell {
    /// All text inside the cell.
    pub text: String,
    pub link: Option<Link>,
    /// Text of the first `span`.
    pub span: Option<String>,
    /// The first `img`, with its `title` if it has one.
    pub image_title: Option<Option<String>>,
    /// Text of the first `tt`.
    pub tt: Option<String>,
    pub time: Option<TimeTag>,
}

/// One row (`tr`) of a table.
#[derive(Debug, Clone)]
pub struct Row {
    /// Its data cells, in document order.
    pub cells: Vec<Cell>,
    /// Texts of its header cells (`th`).
    pub headers: Vec<String>,
    /// Its markup, for error messages.
    pub html: String,
}

pub struct LinkView {
    pub text: Seq<char>,
    pub href: Option<Seq<char>>,
}

pub struct TimeTagView {
    pub text: Seq<char>,
    pub datetime: Option<Seq<char>>,
    pub timestamp: Option<Seq<char>>,
}

pub struct CellView {
    pub text: Seq<char>,
    pub link: Option<LinkView>,
    pub span: Option<Seq<char>>,
    pub image_title: Option<Option<Seq<char>>>,
    pub tt: Option<Seq<char>>,
    pub time: Option<TimeTagView>,
}

pub struct RowView {
    pub cells: Seq<CellView>,
    pub headers: Seq<Seq<char>>,
    pub html: Seq<char>,
}

impl View for Link {
    type V = LinkView;

    open spec fn view(&self) -> LinkView {
        LinkView { text: self.text@, href: opt_view(self.href) }
    }
}

impl View for TimeTag {
    type V = TimeTagView;

    open spec fn view(&self) -> TimeTagView {
        TimeTagView {
            text: self.text@,
            datetime: opt_view(self.datetime),
            timestamp: opt_view(self.timestamp),
        }
    }
}

impl View for Cell {
    type V = CellView;

    open spec fn view(&self) -> CellView {
        CellView {
            text: self.text@,
            link: match self.link {
                Some(l) => Some(l@),
                None => None,
            },
            span: opt_view(self.span),
            image_title: match self.image_title {
                Some(t) => Some(opt_view(t)),
                None => None,
            },
            tt: opt_view(self.tt),
            time: match self.time {
                Some(t) => Some(t@),
                None => None,
            },
        }
    }
}

impl View for Row {
    type V = RowView;

    open spec fn view(&self) -> RowView {
        RowView {
            cells: self.cells@.map_values(|c: Cell| c@),
            headers: self.headers@.map_values(|h: String| h@),
            html: self.html@,
        }
    }
}

/// The views of a sequence of rows.
pub open spec fn rows_view(rows: Seq<Row>) -> Seq<RowView> {
    rows.map_values(|r: Row| r@)
}

impl Cell {
    /// A cell with text and nothing inside.
    pub fn plain(text: String) -> (r: Cell)
        ensures
            r.text@ == text@,
            r.link is None && r.span is None && r.image_title is None && r.tt is None
                && r.time is None,
    {
        Cell { text, link: None, span: None, image_title: None, tt: None, time: None }
    }
}

} // verus!
