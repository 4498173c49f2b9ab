//! Evaluation specifications: `<id>`, `<id>/<filter>`, `/<filter>` or a bare filter.

use vstd::prelude::*;
use vstd::string::*;

use crate::constants::DEFAULT_EVALUATION_FILTER;
use crate::text::{chars_of, decimal, is_digit, is_ws, lemma_decimal_digits, lemma_first_index_of, lemma_first_index_of_bounds, lemma_parse_decimal, lemma_trimmed_ends, lemma_trimmed_unchanged, decimal_string, find_char, first_index_of, opt_view, parse_u64, parsed_u64, slice_string, trim, trimmed};

verus! {

/// One evaluation to look up: its id (0 for the latest one), the package
/// filter applied to its job list, and the specification it was read from in
/// canonical form.
#[derive(Debug, Clone)]
pub struct Evaluation {
    pub spec: String,
    pub id: u64,
    pub filter: Option<String>,
}

/// The specification without surrounding white space.
pub open spec fn spec_text(spec: Seq<char>) -> Seq<char> {
    trimmed(spec)
}

/// What stands before the first `/`, trimmed.
pub open spec fn id_part(spec: Seq<char>) -> Seq<char> {
    let t = spec_text(spec);
    trimmed(t.subrange(0, first_index_of(t, '/')))
}

/// What follows the first `/`, if there is one.
pub open spec fn filter_part(spec: Seq<char>) -> Option<Seq<char>> {
    let t = spec_text(spec);
    let k = first_index_of(t, '/');
    if k < t.len() {
        Some(t.subrange(k + 1, t.len() as int))
    } else {
        None
    }
}

/// The id that a specification names: the number before the slash, else 0.
pub open spec fn eval_id(spec: Seq<char>) -> u64 {
    match parsed_u64(id_part(spec)) {
        Some(x) => x,
        None => 0,
    }
}

/// The filter as written: after the slash; or the whole text where what
/// precedes the slash is not a number.
pub open spec fn written_filter(spec: Seq<char>) -> Option<Seq<char>> {
    match parsed_u64(id_part(spec)) {
        Some(_) => filter_part(spec),
        None => if id_part(spec).len() == 0 {
            filter_part(spec)
        } else {
            Some(spec_text(spec))
        },
    }
}

/// The filter that a specification selects: the default one where none is
/// written, none where a blank one is written.
pub open spec fn eval_filter(spec: Seq<char>) -> Option<Seq<char>> {
    match written_filter(spec) {
        None => Some(DEFAULT_EVALUATION_FILTER@),
        Some(x) => if trimmed(x).len() == 0 {
            None
        } else {
            Some(x)
        },
    }
}

/// Canonical text of an id and a filter: `<id>/<filter>`, or `<id>/` where
/// there is no filter.
pub open spec fn canonical_spec(id: u64, filter: Option<Seq<char>>) -> Seq<char> {
    match filter {
        Some(x) => decimal(id as nat) + seq!['/'] + x,
        None => decimal(id as nat) + seq!['/'],
    }
}

impl Evaluation {
    /// Reads an evaluation from its plain text specification.
    pub fn guess_from_spec(spec: &str) -> (r: Evaluation)
        ensures
            r.id == eval_id(spec@),
            opt_view(r.filter) == eval_filter(spec@),
            r.spec@ == canonical_spec(r.id, opt_view(r.filter)),
    {
        let s = trim(spec);
        let cs = chars_of(s.as_str());
        let n = cs.len();
        let k = find_char(&cs, '/');
        let head = slice_string(s.as_str(), 0, k);
        let id_text = trim(head.as_str());
        let after: Option<String> = if k < n {
            Some(slice_string(s.as_str(), k + 1, n))
        } else {
            None
        };
        assert(opt_view(after) == filter_part(spec@));
        let parsed = parse_u64(id_text.as_str());
        let id: u64;
        let written: Option<String>;
        match parsed {
            Some(x) => {
                id = x;
                written = after;
            },
            None => {
                id = 0;
                if id_text.unicode_len() == 0 {
                    written = after;
                } else {
                    written = Some(s.clone());
                }
            },
        }
        assert(opt_view(written) == written_filter(spec@));
        let filter: Option<String> = match written {
            None => Some(String::from_str(DEFAULT_EVALUATION_FILTER)),
            Some(x) => {
                let t = trim(x.as_str());
                if t.unicode_len() == 0 {
                    None
                } else {
                    Some(x)
                }
            },
        };
        let digits = decimal_string(id);
        let canonical = match &filter {
            Some(x) => digits.concat("/").concat(x.as_str()),
            None => digits.concat("/"),
        };
        proof {
            reveal_strlit("/");
            if filter is Some {
                let x = filter.unwrap();
                assert(canonical@ =~= decimal(id as nat) + seq!['/'] + x@);
            } else {
                assert(canonical@ =~= decimal(id as nat) + seq!['/']);
            }
        }
        Evaluation { spec: canonical, id, filter }
    }

    /// The same evaluation under another id; its specification is kept.
    pub fn with_id(&self, id: u64) -> (r: Evaluation)
        ensures
            r.id == id,
            opt_view(r.filter) == opt_view(self.filter),
            r.spec@ == self.spec@,
    {
        Evaluation { spec: self.spec.clone(), id, filter: self.filter.clone() }
    }
}

/// Reading the canonical text of an evaluation again gives back its id and
/// its filter.
pub proof fn lemma_canonical_spec_round_trip(spec: Seq<char>)
    ensures
        eval_id(canonical_spec(eval_id(spec), eval_filter(spec))) == eval_id(spec),
        eval_filter(canonical_spec(eval_id(spec), eval_filter(spec))) == eval_filter(spec),
{
    let id = eval_id(spec);
    let d = decimal(id as nat);
    lemma_decimal_digits(id as nat);
    lemma_parse_decimal(id);
    let t = spec_text(spec);
    lemma_trimmed_ends(spec);
    lemma_first_index_of_bounds(t, '/');
    // the filter is empty or does not end in white space
    let x = match eval_filter(spec) {
        Some(x) => x,
        None => Seq::<char>::empty(),
    };
    let c = d + seq!['/'] + x;
    assert(canonical_spec(id, eval_filter(spec)) =~= c);
    if eval_filter(spec) is Some {
        match written_filter(spec) {
            None => {
                reveal_strlit("nixVersions.stable");
                lemma_trimmed_unchanged(x);
            },
            Some(w) => {
                assert(w == x);
                if x.len() == 0 {
                    assert(trimmed(x) == x);
                }
                if parsed_u64(id_part(spec)) is None && id_part(spec).len() != 0 {
                    assert(x == t);
                } else {
                    let k = first_index_of(t, '/');
                    assert(x == t.subrange(k + 1, t.len() as int));
                    assert(x.len() > 0);
                    assert(x[x.len() - 1] == t[t.len() - 1]);
                }
                assert(!is_ws(x.last()));
            },
        }
        assert(c.last() == x.last());
    } else {
        assert(c.last() == '/');
    }
    // the canonical text is its own trim
    assert(is_digit(d[0]));
    assert(c[0] == d[0]);
    lemma_trimmed_unchanged(c);
    assert(spec_text(c) == c);
    // its first slash follows the digits
    assert forall|j: int| 0 <= j < d.len() implies c[j] != '/' by {
        assert(is_digit(d[j]));
    }
    lemma_first_index_of(c, '/', d.len() as int);
    assert(c.subrange(0, d.len() as int) =~= d);
    assert(is_digit(d.last()));
    lemma_trimmed_unchanged(d);
    assert(id_part(c) == d);
    assert(c.subrange(d.len() as int + 1, c.len() as int) =~= x);
    assert(filter_part(c) == Some(x));
    assert(written_filter(c) == Some(x));
    if eval_filter(spec) is None {
        assert(trimmed(x) == x);
    }
}

} // verus!
