//! Resolution of what a user asks for into one concrete lookup: the
//! architecture, the jobset, and the packages or evaluations to query.

use vstd::prelude::*;
use vstd::string::*;

use crate::constants::{DEFAULT_EVALUATION_FILTER, known_architectures, nixos_architectures, is_nixos_architecture, KNOWN_ARCHITECTURES};
use crate::evaluation::{canonical_spec, eval_filter, eval_id, Evaluation};
use crate::text::{
    all_digits, chars_of, ends_with, has_prefix, has_suffix, is_digit, is_digit_char, opt_view,
    slice_string, starts_with, str_eq,
};

verus! {

/// Length of the run of decimal digits that begins `s`.
pub open spec fn digit_run(s: Seq<char>) -> nat
    decreases s.len(),
{
    if s.len() > 0 && is_digit(s[0]) {
        1 + digit_run(s.drop_first())
    } else {
        0
    }
}

/// `s` begins with a release number: digits, a dot, a digit.
pub open spec fn starts_with_version(s: Seq<char>) -> bool {
    let k = digit_run(s) as int;
    k >= 1 && k + 1 < s.len() && s[k] == '.' && is_digit(s[k + 1])
}

/// `s` is a release number: digits, a dot, digits.
pub open spec fn is_version(s: Seq<char>) -> bool {
    let k = digit_run(s) as int;
    k >= 1 && k + 1 < s.len() && s[k] == '.' && all_digits(s.subrange(k + 1, s.len() as int))
}

/// The channel of a release: the darwin package set on darwin systems,
/// the operating system's channel elsewhere.
pub open spec fn release_channel(version: Seq<char>, arch: Option<Seq<char>>) -> Seq<char> {
    match arch {
        Some(a) if has_suffix(a, "darwin"@) => "nixpkgs-"@ + version + "-darwin"@,
        _ => "nixos-"@ + version,
    }
}

/// The channel that an alias stands for.
pub open spec fn canonical_channel(
    channel: Seq<char>,
    arch: Option<Seq<char>>,
    host_is_nixos: bool,
    stable_version: Option<Seq<char>>,
) -> Seq<char> {
    if channel == "master"@ {
        "nixpkgs-unstable"@
    } else if channel == "unstable"@ {
        if host_is_nixos && arch is Some && nixos_architectures().contains(arch.unwrap()) {
            "nixos-unstable"@
        } else {
            "nixpkgs-unstable"@
        }
    } else if channel == "stable"@ {
        release_channel(stable_version.unwrap(), arch)
    } else if is_version(channel) {
        release_channel(channel, arch)
    } else {
        channel
    }
}

/// The jobset that builds a channel.
pub open spec fn channel_jobset(c: Seq<char>) -> Seq<char> {
    if c == "nixpkgs-unstable"@ {
        "nixpkgs/trunk"@
    } else if c == "nixos-unstable"@ {
        "nixos/trunk-combined"@
    } else if c == "nixos-unstable-small"@ {
        "nixos/unstable-small"@
    } else if has_prefix(c, "staging"@) && has_suffix(c, "-small"@) {
        "nixos/"@ + c
    } else if has_prefix(c, "staging"@) {
        "nixpkgs/"@ + c
    } else if has_prefix(c, "nixos-"@) && starts_with_version(c.skip(6)) {
        "nixos/release"@ + c.skip(5)
    } else if has_prefix(c, "nixpkgs-"@) && starts_with_version(c.skip(8)) {
        "nixpkgs/nixpkgs"@ + c.skip(7)
    } else {
        c
    }
}

/// The channel asked for, or the default one.
pub open spec fn channel_or_default(channel: Option<String>) -> Seq<char> {
    match channel {
        Some(c) => c@,
        None => "unstable"@,
    }
}

/// The operating system's name as the architecture names spell it.
pub open spec fn os_alias(os: Seq<char>) -> Seq<char> {
    if os == "macos"@ {
        "darwin"@
    } else {
        os
    }
}

/// `p` ends in `.` and a known architecture.
pub open spec fn has_known_arch_suffix(p: Seq<char>) -> bool {
    exists|i: int| 0 <= i < 4 && has_suffix(p, seq!['.'] + #[trigger] known_architectures()[i])
}

/// What is appended to a package name: `.` and the architecture, unless the
/// name already ends in a known one or the architecture is absent or empty.
pub open spec fn arch_suffix(p: Seq<char>, arch: Option<Seq<char>>) -> Seq<char> {
    if has_known_arch_suffix(p) {
        Seq::empty()
    } else {
        match arch {
            Some(a) if a.len() > 0 => seq!['.'] + a,
            _ => Seq::empty(),
        }
    }
}

/// The full job name of a package: a name that begins with a package set is
/// kept; on an operating-system jobset a bare name is taken from the package
/// set; the architecture suffix is appended.
pub open spec fn package_name(p: Seq<char>, arch: Option<Seq<char>>, jobset: Option<Seq<char>>) -> Seq<char> {
    if has_prefix(p, "nixpkgs."@) || has_prefix(p, "nixos."@) {
        p + arch_suffix(p, arch)
    } else if jobset is Some && has_prefix(jobset.unwrap(), "nixos/"@) {
        "nixpkgs."@ + p + arch_suffix(p, arch)
    } else {
        p + arch_suffix(p, arch)
    }
}

/// A query for a python package set without its version, which has no jobs.
pub open spec fn is_unversioned_python(q: Seq<char>) -> bool {
    has_prefix(q, "python3Packages"@) || has_prefix(q, "python3.pkgs"@)
}

/// The job names of the package queries, skipping unversioned python ones.
pub open spec fn guessed_packages(
    qs: Seq<Seq<char>>,
    arch: Option<Seq<char>>,
    jobset: Option<Seq<char>>,
) -> Seq<Seq<char>>
    decreases qs.len(),
{
    if qs.len() == 0 {
        Seq::empty()
    } else {
        let rest = guessed_packages(qs.drop_last(), arch, jobset);
        if is_unversioned_python(qs.last()) {
            rest
        } else {
            rest.push(package_name(qs.last(), arch, jobset))
        }
    }
}

pub open spec fn strings_view(v: Seq<String>) -> Seq<Seq<char>> {
    v.map_values(|s: String| s@)
}

/// Options as given on the command line.
#[derive(Debug)]
pub struct HydraCheckCli {
    pub queries: Vec<String>,
    pub url: bool,
    pub json: bool,
    pub short: bool,
    pub arch: Option<String>,
    pub channel: Option<String>,
    pub jobset: Option<String>,
    pub eval: bool,
    pub releases: bool,
    pub verbose: bool,
}

/// Why the options could not be resolved.
#[derive(Debug, Clone, PartialEq, Eq, Structural)]
pub enum ResolveError {
    /// The stable channel was asked for and its version is not known.
    StableVersionUnknown,
}

/// What to look up.
#[derive(Debug, Clone)]
pub enum Queries {
    /// The recent evaluations of the jobset.
    Jobset,
    /// The builds of these jobs.
    Packages(Vec<String>),
    /// The details of these evaluations.
    Evals(Vec<Evaluation>),
}

/// Options with every guess made.
#[derive(Debug, Clone)]
pub struct ResolvedArgs {
    pub queries: Queries,
    pub url: bool,
    pub json: bool,
    pub short: bool,
    pub releases: bool,
    pub jobset: String,
    pub channel: Option<String>,
}

impl Default for HydraCheckCli {
    fn default() -> (r: Self)
        ensures
            r.queries@.len() == 0,
            !r.url && !r.json && !r.short && !r.eval && !r.releases && !r.verbose,
            r.arch is None && r.channel is None && r.jobset is None,
    {
        HydraCheckCli {
            queries: Vec::new(),
            url: false,
            json: false,
            short: false,
            arch: None,
            channel: None,
            jobset: None,
            eval: false,
            releases: false,
            verbose: false,
        }
    }
}

/// The jobset cannot be resolved: the stable channel is asked for and its
/// version is not known.
pub open spec fn resolution_fails(cli: HydraCheckCli, stable_version: Option<Seq<char>>) -> bool {
    cli.jobset is None && channel_or_default(cli.channel) == "stable"@ && stable_version is None
}

/// The channel after resolution: none where a jobset is given.
pub open spec fn resolved_channel(
    cli: HydraCheckCli,
    host_is_nixos: bool,
    stable_version: Option<Seq<char>>,
) -> Option<Seq<char>> {
    match cli.jobset {
        Some(_) => None,
        None => Some(
            canonical_channel(
                channel_or_default(cli.channel),
                opt_view(cli.arch),
                host_is_nixos,
                stable_version,
            ),
        ),
    }
}

/// The jobset after resolution: the one given, or that of the channel.
pub open spec fn resolved_jobset(
    cli: HydraCheckCli,
    host_is_nixos: bool,
    stable_version: Option<Seq<char>>,
) -> Seq<char> {
    match cli.jobset {
        Some(j) => j@,
        None => channel_jobset(
            canonical_channel(
                channel_or_default(cli.channel),
                opt_view(cli.arch),
                host_is_nixos,
                stable_version,
            ),
        ),
    }
}

/// `a` and `b` agree on everything but the architecture, channel and jobset.
pub open spec fn same_requests(a: HydraCheckCli, b: HydraCheckCli) -> bool {
    &&& a.queries@ == b.queries@
    &&& a.url == b.url
    &&& a.json == b.json
    &&& a.short == b.short
    &&& a.eval == b.eval
    &&& a.releases == b.releases
    &&& a.verbose == b.verbose
}

proof fn lemma_unstable_is_not_stable()
    ensures
        "unstable"@ != "stable"@,
        "master"@ != "stable"@,
{
    reveal_strlit("unstable");
    reveal_strlit("stable");
    reveal_strlit("master");
    assert("unstable"@.len() != "stable"@.len());
    assert("master"@[0] != "stable"@[0]);
}

/// Length of the run of digits that begins `s` from `from` on.
fn digit_run_from(s: &Vec<char>, from: usize) -> (r: usize)
    requires
        from <= s@.len(),
    ensures
        r as nat == digit_run(s@.skip(from as int)),
        from + r <= s@.len(),
{
    let mut i: usize = from;
    while i < s.len() && is_digit_char(s[i])
        invariant
            from <= i <= s@.len(),
            digit_run(s@.skip(from as int)) == (i - from) + digit_run(s@.skip(i as int)),
        decreases s@.len() - i,
    {
        assert(s@.skip(i as int).drop_first() =~= s@.skip(i + 1));
        i += 1;
    }
    i - from
}

/// `s` from `from` on begins with a release number.
fn starts_with_version_from(s: &Vec<char>, from: usize) -> (r: bool)
    requires
        from <= s@.len(),
    ensures
        r == starts_with_version(s@.skip(from as int)),
{
    let k = digit_run_from(s, from);
    let rest = s.len() - from - k;
    k >= 1 && rest > 1 && s[from + k] == '.' && is_digit_char(s[from + k + 1])
}

/// `s` is a release number.
pub fn is_version_exec(s: &str) -> (r: bool)
    ensures
        r == is_version(s@),
{
    let c = chars_of(s);
    assert(c@.skip(0) =~= c@);
    let k = digit_run_from(&c, 0);
    if !(k >= 1 && c.len() - k > 1 && c[k] == '.') {
        return false;
    }
    let mut i: usize = k + 1;
    while i < c.len()
        invariant
            k + 1 <= i <= c@.len(),
            c@ == s@,
            k >= 1,
            c@[k as int] == '.',
            k as nat == digit_run(c@),
            all_digits(c@.subrange(k + 1, i as int)),
        decreases c@.len() - i,
    {
        if !is_digit_char(c[i]) {
            assert(c@.subrange(k + 1, c@.len() as int)[i - k - 1] == c@[i as int]);
            assert(!all_digits(c@.subrange(k + 1, c@.len() as int)));
            return false;
        }
        i += 1;
        assert forall|j: int| 0 <= j < i - k - 1 implies #[trigger] is_digit(
            c@.subrange(k + 1, i as int)[j],
        ) by {
            if j < i - k - 2 {
                assert(c@.subrange(k + 1, i as int)[j] == c@.subrange(k + 1, i - 1)[j]);
            }
        }
    }
    assert(c@.subrange(k + 1, i as int) == c@.subrange(k + 1, c@.len() as int));
    true
}

/// The channel of the release `version` for the architecture `arch`.
fn release_channel_exec(version: &str, arch: &Option<String>) -> (r: String)
    ensures
        r@ == release_channel(version@, opt_view(*arch)),
{
    let darwin = match arch {
        Some(a) => ends_with(a.as_str(), "darwin"),
        None => false,
    };
    if darwin {
        String::from_str("nixpkgs-").concat(version).concat("-darwin")
    } else {
        String::from_str("nixos-").concat(version)
    }
}

/// The jobset that builds the channel `c`.
pub fn channel_jobset_exec(c: &str) -> (r: String)
    ensures
        r@ == channel_jobset(c@),
{
    proof {
        reveal_strlit("nixos-");
        reveal_strlit("nixpkgs-");
    }
    if str_eq(c, "nixpkgs-unstable") {
        return String::from_str("nixpkgs/trunk");
    }
    if str_eq(c, "nixos-unstable") {
        return String::from_str("nixos/trunk-combined");
    }
    if str_eq(c, "nixos-unstable-small") {
        return String::from_str("nixos/unstable-small");
    }
    let staging = starts_with(c, "staging");
    if staging && ends_with(c, "-small") {
        return String::from_str("nixos/").concat(c);
    }
    if staging {
        return String::from_str("nixpkgs/").concat(c);
    }
    let cs = chars_of(c);
    let n = cs.len();
    if starts_with(c, "nixos-") && starts_with_version_from(&cs, 6) {
        return String::from_str("nixos/release").concat(slice_string(c, 5, n).as_str());
    }
    if starts_with(c, "nixpkgs-") && starts_with_version_from(&cs, 8) {
        return String::from_str("nixpkgs/nixpkgs").concat(slice_string(c, 7, n).as_str());
    }
    String::from_str(c)
}

/// The package name `p` ends in `.` and a known architecture.
fn has_known_arch_suffix_exec(p: &str) -> (r: bool)
    ensures
        r == has_known_arch_suffix(p@),
{
    let mut i: usize = 0;
    while i < 4
        invariant
            forall|j: int| 0 <= j < i ==> !has_suffix(p@, seq!['.'] + #[trigger] known_architectures()[j]),
        decreases 4 - i,
    {
        let dotted = String::from_str(".").concat(KNOWN_ARCHITECTURES[i]);
        proof {
            reveal_strlit(".");
            assert(known_architectures()[i as int] == KNOWN_ARCHITECTURES[i as int]@);
            assert(dotted@ =~= seq!['.'] + known_architectures()[i as int]);
        }
        if ends_with(p, dotted.as_str()) {
            return true;
        }
        i += 1;
    }
    false
}

/// A query for a python package set without its version, which has no jobs.
pub fn is_unversioned_python_query(q: &str) -> (r: bool)
    ensures
        r == is_unversioned_python(q@),
{
    starts_with(q, "python3Packages") || starts_with(q, "python3.pkgs")
}

impl HydraCheckCli {
    /// Fills in the architecture where none was given, from the machine's
    /// hardware and operating system names (`macos` reads `darwin`).
    pub fn guess_arch(self, hardware: &str, os: &str) -> (r: Self)
        ensures
            same_requests(r, self),
            opt_view(r.channel) == opt_view(self.channel),
            opt_view(r.jobset) == opt_view(self.jobset),
            self.arch is Some ==> opt_view(r.arch) == opt_view(self.arch),
            self.arch is None ==> opt_view(r.arch) == Some(hardware@ + "-"@ + os_alias(os@)),
    {
        if self.arch.is_some() {
            return self;
        }
        let alias = if str_eq(os, "macos") {
            String::from_str("darwin")
        } else {
            String::from_str(os)
        };
        let arch = String::from_str(hardware).concat("-").concat(alias.as_str());
        HydraCheckCli { arch: Some(arch), ..self }
    }

    /// The jobset cannot be resolved without the stable version.
    pub fn needs_stable_version(&self) -> (r: bool)
        ensures
            r == (self.jobset is None && channel_or_default(self.channel) == "stable"@),
    {
        if self.jobset.is_some() {
            return false;
        }
        match &self.channel {
            Some(c) => str_eq(c.as_str(), "stable"),
            None => {
                proof {
                    lemma_unstable_is_not_stable();
                }
                false
            },
        }
    }

    /// Resolves the jobset: a given jobset is kept and the channel dropped;
    /// otherwise the channel (or the default one) is read as an alias and
    /// mapped to its jobset. `host_is_nixos` tells whether this machine runs
    /// the operating system; `stable_version` is the current stable release,
    /// needed only for the `stable` channel.
    pub fn guess_jobset(self, host_is_nixos: bool, stable_version: Option<String>) -> (r: Result<
        Self,
        ResolveError,
    >)
        ensures
            r is Err <==> resolution_fails(self, opt_view(stable_version)),
            r is Err ==> r == Err::<Self, ResolveError>(ResolveError::StableVersionUnknown),
            r is Ok ==> {
                &&& same_requests(r->Ok_0, self)
                &&& opt_view(r->Ok_0.arch) == opt_view(self.arch)
                &&& opt_view(r->Ok_0.channel) == resolved_channel(
                    self,
                    host_is_nixos,
                    opt_view(stable_version),
                )
                &&& opt_view(r->Ok_0.jobset) == Some(
                    resolved_jobset(self, host_is_nixos, opt_view(stable_version)),
                )
            },
    {
        proof {
            lemma_unstable_is_not_stable();
        }
        if self.jobset.is_some() {
            return Ok(HydraCheckCli { channel: None, ..self });
        }
        let channel = match &self.channel {
            Some(c) => c.clone(),
            None => String::from_str("unstable"),
        };
        let canonical: String = if str_eq(channel.as_str(), "master") {
            String::from_str("nixpkgs-unstable")
        } else if str_eq(channel.as_str(), "unstable") {
            let on_nixos_arch = match &self.arch {
                Some(a) => is_nixos_architecture(a.as_str()),
                None => false,
            };
            if host_is_nixos && on_nixos_arch {
                String::from_str("nixos-unstable")
            } else {
                String::from_str("nixpkgs-unstable")
            }
        } else if str_eq(channel.as_str(), "stable") {
            match &stable_version {
                Some(v) => release_channel_exec(v.as_str(), &self.arch),
                None => {
                    return Err(ResolveError::StableVersionUnknown);
                },
            }
        } else if is_version_exec(channel.as_str()) {
            release_channel_exec(channel.as_str(), &self.arch)
        } else {
            channel
        };
        let jobset = channel_jobset_exec(canonical.as_str());
        Ok(HydraCheckCli { jobset: Some(jobset), channel: Some(canonical), ..self })
    }

    /// The full job name for the package query `package`.
    pub fn guess_package_name(&self, package: &str) -> (r: String)
        ensures
            r@ == package_name(package@, opt_view(self.arch), opt_view(self.jobset)),
    {
        let suffix: String = if has_known_arch_suffix_exec(package) {
            String::new()
        } else {
            match &self.arch {
                Some(a) => if a.unicode_len() > 0 {
                    String::from_str(".").concat(a.as_str())
                } else {
                    String::new()
                },
                None => String::new(),
            }
        };
        proof {
            reveal_strlit(".");
            assert(suffix@ =~= arch_suffix(package@, opt_view(self.arch)));
        }
        if starts_with(package, "nixpkgs.") || starts_with(package, "nixos.") {
            return String::from_str(package).concat(suffix.as_str());
        }
        let on_nixos = match &self.jobset {
            Some(j) => starts_with(j.as_str(), "nixos/"),
            None => false,
        };
        if on_nixos {
            let r = String::from_str("nixpkgs.").concat(package).concat(suffix.as_str());
            assert(r@ =~= "nixpkgs."@ + package@ + arch_suffix(package@, opt_view(self.arch)));
            return r;
        }
        String::from_str(package).concat(suffix.as_str())
    }

    /// The job names of all package queries; unversioned python package set
    /// queries are left out.
    pub fn guess_packages(&self) -> (r: Vec<String>)
        ensures
            strings_view(r@) == guessed_packages(
                strings_view(self.queries@),
                opt_view(self.arch),
                opt_view(self.jobset),
            ),
    {
        let ghost arch = opt_view(self.arch);
        let ghost jobset = opt_view(self.jobset);
        let mut r: Vec<String> = Vec::new();
        let mut i: usize = 0;
        while i < self.queries.len()
            invariant
                i <= self.queries@.len(),
                strings_view(r@) == guessed_packages(
                    strings_view(self.queries@.subrange(0, i as int)),
                    arch,
                    jobset,
                ),
                arch == opt_view(self.arch),
                jobset == opt_view(self.jobset),
            decreases self.queries@.len() - i,
        {
            let q = &self.queries[i];
            let ghost before = strings_view(self.queries@.subrange(0, i as int));
            let ghost after = strings_view(self.queries@.subrange(0, i + 1));
            assert(after.drop_last() =~= before);
            assert(after.last() == q@);
            let skip = is_unversioned_python_query(q.as_str());
            if !skip {
                let name = self.guess_package_name(q.as_str());
                r.push(name);
                assert(strings_view(r@) =~= guessed_packages(before, arch, jobset).push(name@));
            }
            i += 1;
        }
        assert(self.queries@.subrange(0, i as int) =~= self.queries@);
        r
    }

    /// The evaluations that the queries specify, one for each.
    pub fn guess_evals(&self) -> (r: Vec<Evaluation>)
        ensures
            r@.len() == self.queries@.len(),
            forall|i: int|
                0 <= i < r@.len() ==> (#[trigger] r@[i]).id == eval_id(self.queries@[i]@)
                    && opt_view(r@[i].filter) == eval_filter(self.queries@[i]@) && r@[i].spec@
                    == canonical_spec(r@[i].id, opt_view(r@[i].filter)),
    {
        let mut r: Vec<Evaluation> = Vec::new();
        let mut i: usize = 0;
        while i < self.queries.len()
            invariant
                i <= self.queries@.len(),
                r@.len() == i,
                forall|j: int|
                    0 <= j < i ==> (#[trigger] r@[j]).id == eval_id(self.queries@[j]@)
                        && opt_view(r@[j].filter) == eval_filter(self.queries@[j]@) && r@[j].spec@
                        == canonical_spec(r@[j].id, opt_view(r@[j].filter)),
            decreases self.queries@.len() - i,
        {
            r.push(Evaluation::guess_from_spec(self.queries[i].as_str()));
            i += 1;
        }
        r
    }

    /// Resolves the jobset and then the queries: none is the jobset itself
    /// (or, with `eval`, its latest evaluation); with `eval` each query is an
    /// evaluation, else a package.
    pub fn guess_all_args(self, host_is_nixos: bool, stable_version: Option<String>) -> (r: Result<
        ResolvedArgs,
        ResolveError,
    >)
        ensures
            r is Err <==> resolution_fails(self, opt_view(stable_version)),
            r is Ok ==> {
                let a = r->Ok_0;
                let jobset = resolved_jobset(self, host_is_nixos, opt_view(stable_version));
                &&& a.jobset@ == jobset
                &&& opt_view(a.channel) == resolved_channel(
                    self,
                    host_is_nixos,
                    opt_view(stable_version),
                )
                &&& a.url == self.url && a.json == self.json && a.short == self.short
                    && a.releases == self.releases
                &&& match a.queries {
                    Queries::Jobset => self.queries@.len() == 0 && !self.eval,
                    Queries::Evals(v) => self.eval && if self.queries@.len() == 0 {
                        v@.len() == 1 && v@[0].id == 0 && opt_view(v@[0].filter) == Some(
                            DEFAULT_EVALUATION_FILTER@,
                        ) && v@[0].spec@ == canonical_spec(0, Some(DEFAULT_EVALUATION_FILTER@))
                    } else {
                        v@.len() == self.queries@.len() && forall|i: int|
                            0 <= i < v@.len() ==> (#[trigger] v@[i]).id == eval_id(
                                self.queries@[i]@,
                            ) && opt_view(v@[i].filter) == eval_filter(self.queries@[i]@)
                                && v@[i].spec@ == canonical_spec(v@[i].id, opt_view(v@[i].filter))
                    },
                    Queries::Packages(p) => !self.eval && self.queries@.len() > 0 && strings_view(
                        p@,
                    ) == guessed_packages(
                        strings_view(self.queries@),
                        opt_view(self.arch),
                        Some(jobset),
                    ),
                }
            },
    {
        let args = match self.guess_jobset(host_is_nixos, stable_version) {
            Ok(a) => a,
            Err(e) => {
                return Err(e);
            },
        };
        let queries = if args.queries.len() == 0 {
            if args.eval {
                let latest = Evaluation::guess_from_spec("");
                proof {
                    reveal_strlit("");
                    reveal_strlit("nixVersions.stable");
                    let t = crate::text::trimmed(""@);
                    assert(t == ""@);
                    crate::text::lemma_first_index_of(t, '/', 0);
                    assert(t.subrange(0, 0) =~= ""@);
                    assert(crate::evaluation::id_part(""@) == ""@);
                    assert(crate::text::unsigned_digits(""@) == ""@);
                    assert(crate::text::trimmed(DEFAULT_EVALUATION_FILTER@).len() > 0) by {
                        crate::text::lemma_trimmed_unchanged(DEFAULT_EVALUATION_FILTER@);
                    }
                }
                Queries::Evals(vec![latest])
            } else {
                Queries::Jobset
            }
        } else if args.eval {
            Queries::Evals(args.guess_evals())
        } else {
            Queries::Packages(args.guess_packages())
        };
        let jobset = match args.jobset {
            Some(j) => j,
            None => String::new(),
        };
        Ok(
            ResolvedArgs {
                queries,
                url: args.url,
                json: args.json,
                short: args.short,
                releases: args.releases,
                jobset,
                channel: args.channel,
            },
        )
    }
}

proof fn lemma_digit_run_extend(a: Seq<char>, b: Seq<char>)
    requires
        digit_run(a) < a.len(),
    ensures
        digit_run(a + b) == digit_run(a),
    decreases a.len(),
{
    if a.len() > 0 && is_digit(a[0]) {
        assert((a + b).drop_first() =~= a.drop_first() + b);
        lemma_digit_run_extend(a.drop_first(), b);
    }
}

/// The stable channel, resolved with a version that is a release number,
/// gives the operating system's release jobset, or on darwin systems the
/// darwin package set's release jobset.
pub proof fn lemma_stable_jobset(version: Seq<char>, arch: Option<Seq<char>>)
    requires
        is_version(version),
    ensures
        !(arch is Some && has_suffix(arch.unwrap(), "darwin"@)) ==> channel_jobset(
            release_channel(version, arch),
        ) == "nixos/release-"@ + version,
        arch is Some && has_suffix(arch.unwrap(), "darwin"@) ==> channel_jobset(
            release_channel(version, arch),
        ) == "nixpkgs/nixpkgs-"@ + version + "-darwin"@,
{
    reveal_strlit("nixos-");
    reveal_strlit("nixpkgs-");
    reveal_strlit("-darwin");
    reveal_strlit("nixpkgs-unstable");
    reveal_strlit("nixos-unstable");
    reveal_strlit("nixos-unstable-small");
    reveal_strlit("staging");
    reveal_strlit("nixos/release");
    reveal_strlit("nixos/release-");
    reveal_strlit("nixpkgs/nixpkgs");
    reveal_strlit("nixpkgs/nixpkgs-");
    let k = digit_run(version) as int;
    assert(version.subrange(k + 1, version.len() as int)[0] == version[k + 1]);
    assert(is_digit(version[k + 1]));
    if arch is Some && has_suffix(arch.unwrap(), "darwin"@) {
        let c = "nixpkgs-"@ + version + "-darwin"@;
        assert(c[0] == 'n' && c[3] == 'p');
        assert(c != "nixpkgs-unstable"@) by {
            assert(c[8] == version[0]);
            assert(is_digit(version[0])) by {
                if !is_digit(version[0]) {
                    assert(digit_run(version) == 0);
                }
            }
        }
        assert(c != "nixos-unstable"@);
        assert(c != "nixos-unstable-small"@);
        assert(!has_prefix(c, "staging"@)) by {
            assert(c.subrange(0, 7)[0] == 'n');
        }
        assert(!has_prefix(c, "nixos-"@)) by {
            assert(c.subrange(0, 6)[3] == 'p');
        }
        assert(c.subrange(0, 8) =~= "nixpkgs-"@);
        lemma_digit_run_extend(version, "-darwin"@);
        assert(c.skip(8) =~= version + "-darwin"@);
        assert(starts_with_version(c.skip(8)));
        assert("nixpkgs/nixpkgs"@ + c.skip(7) =~= "nixpkgs/nixpkgs-"@ + version + "-darwin"@);
    } else {
        let c = "nixos-"@ + version;
        assert(is_digit(version[0])) by {
            if !is_digit(version[0]) {
                assert(digit_run(version) == 0);
            }
        }
        assert(c != "nixpkgs-unstable"@) by {
            assert(c[3] == 'o');
        }
        assert(c != "nixos-unstable"@) by {
            assert(c[6] == version[0]);
        }
        assert(c != "nixos-unstable-small"@) by {
            assert(c[6] == version[0]);
        }
        assert(!has_prefix(c, "staging"@)) by {
            assert(c.subrange(0, 7)[0] == 'n');
        }
        assert(c.subrange(0, 6) =~= "nixos-"@);
        assert(c.skip(6) =~= version);
        assert("nixos/release"@ + c.skip(5) =~= "nixos/release-"@ + version);
    }
}

} // verus!
