//! Release view: recent evaluations of a jobset paired with the builds of its
//! release test, and the link to the published release where there is one.

use vstd::prelude::*;
use vstd::string::*;

use crate::constants::{is_default_host_url, DEFAULT_HOST_URL};
use crate::records::{builds_view, evals_view, BuildStatus, BuildStatusView, EvalStatus, EvalStatusView};
use crate::text::{
    chars_of, contains, contains_str, find_char, first_index_of, has_prefix, opt_view, slice_string,
    starts_with, str_eq,
};

verus! {

/// An evaluation, the release test build matched to it, and the release link.
#[derive(Debug)]
pub struct ReleaseStatus {
    pub eval: EvalStatus,
    pub test: Option<BuildStatus>,
    pub release_url: Option<String>,
}

pub open spec fn build_opt_view(b: Option<BuildStatus>) -> Option<BuildStatusView> {
    match b {
        Some(x) => Some(x@),
        None => None,
    }
}

/// The name of a build, empty where it has none.
pub open spec fn build_name(b: BuildStatusView) -> Seq<char> {
    match b.name {
        Some(n) => n,
        None => Seq::empty(),
    }
}

/// The short revision of an evaluation, empty where it has none.
pub open spec fn short_rev_of(e: EvalStatusView) -> Seq<char> {
    match e.short_rev {
        Some(r) => r,
        None => Seq::empty(),
    }
}

/// The path of a channel under the release host: `nixpkgs` for the unstable
/// package set, else the channel with its first `-` made a `/`.
pub open spec fn release_path(channel: Seq<char>) -> Seq<char> {
    let k = first_index_of(channel, '-');
    if channel == "nixpkgs-unstable"@ {
        "nixpkgs"@
    } else if 0 <= k < channel.len() {
        channel.update(k, '/')
    } else {
        channel
    }
}

/// The link to the published release of an evaluation whose release test is
/// `test`: only on the public instance, for a successful test, a finished
/// evaluation (or one of a batch where none looks finished), and a release
/// channel.
pub open spec fn release_link(
    eval: EvalStatusView,
    test: BuildStatusView,
    channel: Seq<char>,
    on_default_host: bool,
    always_link: bool,
) -> Option<Seq<char>> {
    if on_default_host && test.success && (always_link || eval.finished == Some(true)) && (
    has_prefix(channel, "nixpkgs-"@) || has_prefix(channel, "nixos-"@)) {
        Some("https://releases.nixos.org/"@ + release_path(channel) + "/"@ + build_name(test))
    } else {
        None
    }
}

/// No evaluation of the batch looks finished.
pub open spec fn none_finished(evals: Seq<EvalStatusView>) -> bool {
    forall|i: int| 0 <= i < evals.len() ==> (#[trigger] evals[i]).finished != Some(true)
}

/// Position of the first build whose name holds `rev`, or the pool's length.
pub open spec fn first_match(pool: Seq<BuildStatusView>, rev: Seq<char>) -> int
    decreases pool.len(),
{
    if pool.len() == 0 || contains(build_name(pool[0]), rev) {
        0
    } else {
        1 + first_match(pool.drop_first(), rev)
    }
}

/// Pairing evaluations in order with builds: each takes the first remaining
/// build whose name holds its short revision, which then leaves the pool.
/// The build taken by each evaluation, and what remains of the pool.
pub open spec fn match_state(evals: Seq<EvalStatusView>, pool: Seq<BuildStatusView>) -> (
    Seq<Option<BuildStatusView>>,
    Seq<BuildStatusView>,
)
    decreases evals.len(),
{
    if evals.len() == 0 {
        (Seq::empty(), pool)
    } else {
        let (taken, rest) = match_state(evals.drop_last(), pool);
        let k = first_match(rest, short_rev_of(evals.last()));
        if 0 <= k < rest.len() {
            (taken.push(Some(rest[k])), rest.remove(k))
        } else {
            (taken.push(None), rest)
        }
    }
}

proof fn lemma_first_match(pool: Seq<BuildStatusView>, rev: Seq<char>, j: int)
    requires
        0 <= j <= pool.len(),
        forall|k: int| 0 <= k < j ==> !contains(build_name(#[trigger] pool[k]), rev),
        j == pool.len() || contains(build_name(pool[j]), rev),
    ensures
        first_match(pool, rev) == j,
    decreases j,
{
    if j > 0 {
        assert forall|k: int| 0 <= k < j - 1 implies !contains(
            build_name(#[trigger] pool.drop_first()[k]),
            rev,
        ) by {
            assert(pool.drop_first()[k] == pool[k + 1]);
        }
        lemma_first_match(pool.drop_first(), rev, j - 1);
    }
}

fn release_path_exec(channel: &str) -> (r: String)
    ensures
        r@ == release_path(channel@),
{
    if str_eq(channel, "nixpkgs-unstable") {
        return String::from_str("nixpkgs");
    }
    let cs = chars_of(channel);
    let k = find_char(&cs, '-');
    if k < cs.len() {
        let r = slice_string(channel, 0, k).concat("/").concat(
            slice_string(channel, k + 1, cs.len()).as_str(),
        );
        proof {
            reveal_strlit("/");
            assert(r@ =~= channel@.update(k as int, '/'));
        }
        r
    } else {
        String::from_str(channel)
    }
}

impl ReleaseStatus {
    /// Pairs an evaluation with its release test build and computes the
    /// release link; `host` is the Hydra instance queried.
    pub fn new(eval: EvalStatus, test: BuildStatus, channel: &str, host: &str, always_link: bool) -> (r:
        ReleaseStatus)
        ensures
            r.eval@ == eval@,
            build_opt_view(r.test) == Some(test@),
            opt_view(r.release_url) == release_link(
                eval@,
                test@,
                channel@,
                host@ == DEFAULT_HOST_URL@,
                always_link,
            ),
    {
        let finished = match eval.finished {
            Some(f) => f,
            None => false,
        };
        let release_url = if is_default_host_url(host) && test.success && (always_link || finished)
            && (starts_with(channel, "nixpkgs-") || starts_with(channel, "nixos-")) {
            let name = match &test.name {
                Some(n) => n.clone(),
                None => String::new(),
            };
            Some(
                String::from_str("https://releases.nixos.org/").concat(
                    release_path_exec(channel).as_str(),
                ).concat("/").concat(name.as_str()),
            )
        } else {
            None
        };
        ReleaseStatus { eval, test: Some(test), release_url }
    }

    /// An evaluation that no build matched.
    pub fn unmatched(eval: EvalStatus) -> (r: ReleaseStatus)
        ensures
            r.eval@ == eval@,
            r.test is None,
            r.release_url is None,
    {
        ReleaseStatus { eval, test: None, release_url: None }
    }
}

/// The name of `b` holds `rev`.
fn name_holds(b: &BuildStatus, rev: &str) -> (r: bool)
    ensures
        r == contains(build_name(b@), rev@),
{
    match &b.name {
        Some(n) => contains_str(n.as_str(), rev),
        None => {
            proof {
                reveal_strlit("");
                assert(""@ =~= Seq::<char>::empty());
            }
            contains_str("", rev)
        },
    }
}

/// The date part of a timestamp: what precedes its first `T`; empty where
/// there is no timestamp or no `T`.
pub open spec fn date_part(timestamp: Option<Seq<char>>) -> Seq<char> {
    match timestamp {
        Some(t) => if first_index_of(t, 'T') < t.len() {
            t.subrange(0, first_index_of(t, 'T'))
        } else {
            Seq::empty()
        },
        None => Seq::empty(),
    }
}

/// The date part of a timestamp (see `date_part`).
pub fn date_of(timestamp: &Option<String>) -> (r: String)
    ensures
        r@ == date_part(opt_view(*timestamp)),
{
    match timestamp {
        Some(t) => {
            let cs = chars_of(t.as_str());
            let k = find_char(&cs, 'T');
            if k < cs.len() {
                slice_string(t.as_str(), 0, k)
            } else {
                String::new()
            }
        },
        None => String::new(),
    }
}

/// What names a release row: the test build's name where the test comes from
/// an evaluation listing; else the evaluation's input changes, or its status.
pub open spec fn release_title(r: ReleaseStatus) -> Seq<char> {
    match r.test {
        Some(t) if t.evals => match t.name {
            Some(n) => n@,
            None => Seq::empty(),
        },
        _ => match r.eval.input_changes {
            Some(c) => c@,
            None => r.eval.status@,
        },
    }
}

/// Where the test build of a release row is shown: its date where it comes
/// from an evaluation listing, else `build/<id>`, else nothing.
pub open spec fn release_test_info(r: ReleaseStatus) -> Seq<char> {
    match r.test {
        Some(t) => if t.evals {
            date_part(opt_view(t.timestamp))
        } else {
            match t.build_id {
                Some(id) => "build/"@ + id@,
                None => Seq::empty(),
            }
        },
        None => Seq::empty(),
    }
}

impl ReleaseStatus {
    /// What names this row (see `release_title`).
    pub fn title(&self) -> (r: String)
        ensures
            r@ == release_title(*self),
    {
        match &self.test {
            Some(t) if t.evals => match &t.name {
                Some(n) => n.clone(),
                None => String::new(),
            },
            _ => match &self.eval.input_changes {
                Some(c) => c.clone(),
                None => self.eval.status.clone(),
            },
        }
    }

    /// Where the test build is shown (see `release_test_info`).
    pub fn test_info(&self) -> (r: String)
        ensures
            r@ == release_test_info(*self),
    {
        match &self.test {
            Some(t) => if t.evals {
                date_of(&t.timestamp)
            } else {
                match &t.build_id {
                    Some(id) => String::from_str("build/").concat(id.as_str()),
                    None => String::new(),
                }
            },
            None => String::new(),
        }
    }
}

/// No evaluation of the batch looks finished.
pub fn all_unfinished(evals: &Vec<EvalStatus>) -> (r: bool)
    ensures
        r == none_finished(evals_view(evals@)),
{
    let mut i: usize = 0;
    while i < evals.len()
        invariant
            i <= evals@.len(),
            forall|j: int| 0 <= j < i ==> (#[trigger] evals@[j]).finished != Some(true),
        decreases evals@.len() - i,
    {
        if evals[i].finished == Some(true) {
            assert(evals_view(evals@)[i as int].finished == Some(true));
            return false;
        }
        i += 1;
    }
    assert forall|j: int| 0 <= j < evals@.len() implies (
    #[trigger] evals_view(evals@)[j]).finished != Some(true) by {
        assert(evals_view(evals@)[j] == evals@[j]@);
    }
    true
}

/// Pairs each evaluation, in order, with the first remaining build whose name
/// holds its short revision (see `match_state`), and computes release links.
pub fn match_releases(evals: Vec<EvalStatus>, builds: Vec<BuildStatus>, channel: &str, host: &str) -> (r: Vec<ReleaseStatus>)
    ensures
        r@.len() == evals@.len(),
        forall|i: int|
            0 <= i < r@.len() ==> {
                let taken = match_state(evals_view(evals@), builds_view(builds@)).0[i];
                &&& (#[trigger] r@[i]).eval@ == evals@[i]@
                &&& build_opt_view(r@[i].test) == taken
                &&& opt_view(r@[i].release_url) == match taken {
                    Some(t) => release_link(
                        evals@[i]@,
                        t,
                        channel@,
                        host@ == DEFAULT_HOST_URL@,
                        none_finished(evals_view(evals@)),
                    ),
                    None => None,
                }
            },
{
    let always_link = all_unfinished(&evals);
    let ghost ev = evals_view(evals@);
    let ghost bv = builds_view(builds@);
    let ghost orig = evals@;
    let n = evals.len();
    let mut rest_evals = evals;
    let mut pool = builds;
    let mut out: Vec<ReleaseStatus> = Vec::new();
    let mut i: usize = 0;
    assert(ev.subrange(0, 0) =~= Seq::<EvalStatusView>::empty());
    assert(orig.skip(0) =~= orig);
    while i < n
        invariant
            n == orig.len(),
            ev == evals_view(orig),
            i <= n,
            rest_evals@ == orig.skip(i as int),
            builds_view(pool@) == match_state(ev.subrange(0, i as int), bv).1,
            out@.len() == i,
            match_state(ev.subrange(0, i as int), bv).0.len() == i,
            always_link == none_finished(ev),
            forall|j: int|
                0 <= j < i ==> {
                    let taken = match_state(ev.subrange(0, i as int), bv).0[j];
                    &&& (#[trigger] out@[j]).eval@ == orig[j]@
                    &&& build_opt_view(out@[j].test) == taken
                    &&& opt_view(out@[j].release_url) == match taken {
                        Some(t) => release_link(
                            orig[j]@,
                            t,
                            channel@,
                            host@ == DEFAULT_HOST_URL@,
                            always_link,
                        ),
                        None => None,
                    }
                },
        decreases n - i,
    {
        let eval = rest_evals.remove(0);
        assert(eval == orig[i as int]);
        assert(rest_evals@ =~= orig.skip(i + 1));
        let ghost pre = ev.subrange(0, i as int);
        let ghost state = match_state(pre, bv);
        assert(ev.subrange(0, i + 1).drop_last() =~= pre);
        assert(ev.subrange(0, i + 1).last() == eval@);
        let rev = match &eval.short_rev {
            Some(r) => r.clone(),
            None => String::new(),
        };
        let mut k: usize = 0;
        while k < pool.len() && !name_holds(&pool[k], rev.as_str())
            invariant
                k <= pool@.len(),
                forall|m: int|
                    0 <= m < k ==> !contains(
                        build_name(#[trigger] builds_view(pool@)[m]),
                        rev@,
                    ),
            decreases pool@.len() - k,
        {
            k += 1;
        }
        proof {
            lemma_first_match(builds_view(pool@), rev@, k as int);
        }
        assert(rev@ == short_rev_of(eval@));
        if k < pool.len() {
            let test = pool.remove(k);
            assert(builds_view(pool@) =~= state.1.remove(k as int));
            let rs = ReleaseStatus::new(eval, test, channel, host, always_link);
            out.push(rs);
        } else {
            out.push(ReleaseStatus::unmatched(eval));
        }
        i += 1;
        assert forall|j: int| 0 <= j < i implies {
            let taken = match_state(ev.subrange(0, i as int), bv).0[j];
            &&& (#[trigger] out@[j]).eval@ == orig[j]@
            &&& build_opt_view(out@[j].test) == taken
            &&& opt_view(out@[j].release_url) == match taken {
                Some(t) => release_link(
                    orig[j]@,
                    t,
                    channel@,
                    host@ == DEFAULT_HOST_URL@,
                    always_link,
                ),
                None => None,
            }
        } by {
            if j < i - 1 {
                assert(match_state(ev.subrange(0, i as int), bv).0[j] == state.0[j]);
            }
        }
    }
    assert(ev.subrange(0, n as int) =~= ev);
    out
}

/// An evaluation whose short revision occurs in the name of exactly one build
/// is paired with that build, which then leaves the pool; a second evaluation
/// that no remaining build matches is left unpaired.
pub proof fn lemma_release_pairing(
    first: EvalStatusView,
    second: EvalStatusView,
    pool: Seq<BuildStatusView>,
    j: int,
)
    requires
        0 <= j < pool.len(),
        contains(build_name(pool[j]), short_rev_of(first)),
        forall|k: int|
            0 <= k < pool.len() && k != j ==> !contains(
                build_name(#[trigger] pool[k]),
                short_rev_of(first),
            ),
        forall|k: int|
            0 <= k < pool.len() && k != j ==> !contains(
                build_name(#[trigger] pool[k]),
                short_rev_of(second),
            ),
    ensures
        match_state(seq![first, second], pool).0 == seq![Some(pool[j]), None::<BuildStatusView>],
        match_state(seq![first, second], pool).1 == pool.remove(j),
{
    let evals = seq![first, second];
    assert(evals.drop_last() =~= seq![first]);
    assert(seq![first].drop_last() =~= Seq::<EvalStatusView>::empty());
    lemma_first_match(pool, short_rev_of(first), j);
    let rest = pool.remove(j);
    assert forall|k: int| 0 <= k < rest.len() implies !contains(
        build_name(#[trigger] rest[k]),
        short_rev_of(second),
    ) by {
        if k < j {
            assert(rest[k] == pool[k]);
        } else {
            assert(rest[k] == pool[k + 1]);
        }
    }
    lemma_first_match(rest, short_rev_of(second), rest.len() as int);
    let empty = Seq::<EvalStatusView>::empty();
    assert(match_state(empty, pool) == (Seq::<Option<BuildStatusView>>::empty(), pool));
    assert(seq![first].last() == first);
    let s1 = match_state(seq![first], pool);
    assert(s1.0 =~= seq![Some(pool[j])]);
    assert(s1.1 == rest);
    assert(evals.last() == second);
    assert(0 <= first_match(rest, short_rev_of(second)));
    let s2 = match_state(evals, pool);
    assert(s2 == (s1.0.push(None::<BuildStatusView>), rest));
    assert(s2.0 =~= seq![Some(pool[j]), None::<BuildStatusView>]);
}

/// In a list of evaluations of any length: where the short revision of the
/// evaluation at `i` occurs in the name of exactly one build of what remains
/// of the pool, that evaluation is paired with that build, which then leaves
/// the pool.
pub proof fn lemma_release_step(
    evals: Seq<EvalStatusView>,
    pool: Seq<BuildStatusView>,
    i: int,
    j: int,
)
    requires
        0 <= i < evals.len(),
        0 <= j < match_state(evals.subrange(0, i), pool).1.len(),
        contains(
            build_name(match_state(evals.subrange(0, i), pool).1[j]),
            short_rev_of(evals[i]),
        ),
        forall|k: int|
            0 <= k < match_state(evals.subrange(0, i), pool).1.len() && k != j ==> !contains(
                build_name(#[trigger] match_state(evals.subrange(0, i), pool).1[k]),
                short_rev_of(evals[i]),
            ),
    ensures
        ({
            let (taken, rest) = match_state(evals.subrange(0, i), pool);
            match_state(evals.subrange(0, i + 1), pool) == (
                taken.push(Some(rest[j])),
                rest.remove(j),
            )
        }),
{
    let rest = match_state(evals.subrange(0, i), pool).1;
    assert(evals.subrange(0, i + 1).drop_last() =~= evals.subrange(0, i));
    assert(evals.subrange(0, i + 1).last() == evals[i]);
    assert forall|k: int| 0 <= k < j implies !contains(
        build_name(#[trigger] rest[k]),
        short_rev_of(evals[i]),
    ) by {}
    lemma_first_match(rest, short_rev_of(evals[i]), j);
}

/// Pairing a list decides its first evaluations as pairing them alone does.
pub proof fn lemma_match_prefix(evals: Seq<EvalStatusView>, pool: Seq<BuildStatusView>, k: int)
    requires
        0 <= k <= evals.len(),
    ensures
        match_state(evals, pool).0.len() == evals.len(),
        match_state(evals, pool).0.subrange(0, k) == match_state(evals.subrange(0, k), pool).0,
    decreases evals.len(),
{
    if evals.len() == 0 {
        assert(evals.subrange(0, k) =~= evals);
        assert(match_state(evals, pool).0.subrange(0, k) =~= match_state(evals, pool).0);
    } else if k == evals.len() {
        lemma_match_prefix(evals.drop_last(), pool, 0);
        assert(evals.subrange(0, k) =~= evals);
        assert(match_state(evals, pool).0.subrange(0, k) =~= match_state(evals, pool).0);
    } else {
        lemma_match_prefix(evals.drop_last(), pool, k);
        assert(evals.drop_last().subrange(0, k) =~= evals.subrange(0, k));
        let t = match_state(evals.drop_last(), pool).0;
        assert(match_state(evals, pool).0.subrange(0, k) =~= t.subrange(0, k));
    }
}

/// In a list of any length, where the short revision of the first
/// evaluation occurs in the name of exactly one build, that evaluation is
/// paired with that build; and no build is taken more often than the pool
/// holds it, so a build that occurs once is paired with no later evaluation.
pub proof fn lemma_first_release(evals: Seq<EvalStatusView>, pool: Seq<BuildStatusView>, j: int)
    requires
        evals.len() > 0,
        0 <= j < pool.len(),
        contains(build_name(pool[j]), short_rev_of(evals[0])),
        forall|k: int|
            0 <= k < pool.len() && k != j ==> !contains(
                build_name(#[trigger] pool[k]),
                short_rev_of(evals[0]),
            ),
    ensures
        match_state(evals, pool).0[0] == Some(pool[j]),
        taken_builds(match_state(evals, pool).0).to_multiset().count(pool[j])
            <= pool.to_multiset().count(pool[j]),
{
    assert(evals.subrange(0, 0) =~= Seq::<EvalStatusView>::empty());
    assert(match_state(evals.subrange(0, 0), pool) == (
        Seq::<Option<BuildStatusView>>::empty(),
        pool,
    ));
    lemma_release_step(evals, pool, 0, j);
    lemma_match_prefix(evals, pool, 1);
    assert(match_state(evals, pool).0[0] == match_state(evals, pool).0.subrange(0, 1)[0]);
    lemma_pool_conserved(evals, pool);
    broadcast use vstd::multiset::group_multiset_axioms;

}

/// The builds that the evaluations took, in order.
pub open spec fn taken_builds(taken: Seq<Option<BuildStatusView>>) -> Seq<BuildStatusView>
    decreases taken.len(),
{
    if taken.len() == 0 {
        Seq::empty()
    } else {
        let before = taken_builds(taken.drop_last());
        match taken.last() {
            Some(b) => before.push(b),
            None => before,
        }
    }
}

/// Pairing only moves builds out of the pool: the builds taken and those
/// that remain are, together, exactly the pool, so no build of the pool is
/// paired with two evaluations.
pub proof fn lemma_pool_conserved(evals: Seq<EvalStatusView>, pool: Seq<BuildStatusView>)
    ensures
        taken_builds(match_state(evals, pool).0).to_multiset().add(
            match_state(evals, pool).1.to_multiset(),
        ) =~= pool.to_multiset(),
    decreases evals.len(),
{
    broadcast use vstd::seq_lib::group_to_multiset_ensures, vstd::multiset::group_multiset_axioms;

    if evals.len() == 0 {
        assert(taken_builds(Seq::<Option<BuildStatusView>>::empty()) =~= Seq::<
            BuildStatusView,
        >::empty());
    } else {
        lemma_pool_conserved(evals.drop_last(), pool);
        let (taken, rest) = match_state(evals.drop_last(), pool);
        let k = first_match(rest, short_rev_of(evals.last()));
        if 0 <= k < rest.len() {
            let nt = taken.push(Some(rest[k]));
            assert(nt.drop_last() =~= taken);
            assert(taken_builds(nt) == taken_builds(taken).push(rest[k]));
            assert(rest.to_multiset().count(rest[k]) > 0);
        } else {
            let nt = taken.push(None::<BuildStatusView>);
            assert(nt.drop_last() =~= taken);
            assert(taken_builds(nt) == taken_builds(taken));
        }
    }
}

} // verus!
