//! The current stable release of the package set, as listed by the channel
//! table of the package manual, and a set-once cache for it.

use once_cell::sync::OnceCell;
use vstd::prelude::*;

use crate::soup::{first_attr, page_attr, SoupError};
use crate::text::{opt_view, str_eq};

verus! {

#[verifier::external_type_specification]
#[verifier::external_body]
#[verifier::reject_recursive_types(T)]
pub struct ExOnceCell<T>(OnceCell<T>);

/// What a cell of strings holds.
pub uninterp spec fn cell_contents(c: OnceCell<String>) -> Option<Seq<char>>;

/// Relies on `once_cell::sync::OnceCell::new`: the new cell is empty.
#[verifier::external_body]
fn cell_new() -> (r: OnceCell<String>)
    ensures
        cell_contents(r) is None,
{
    OnceCell::new()
}

/// Relies on `once_cell::sync::OnceCell::get`: a copy of what the cell holds.
#[verifier::external_body]
fn cell_get(c: &OnceCell<String>) -> (r: Option<String>)
    ensures
        opt_view(r) == cell_contents(*c),
{
    c.get().cloned()
}

/// Relies on `once_cell::sync::OnceCell::set`: an empty cell takes the value
/// and `Ok` comes back; a full one is left as it is and `Err` comes back.
#[verifier::external_body]
fn cell_set(c: &mut OnceCell<String>, v: String) -> (r: bool)
    ensures
        cell_contents(*old(c)) is None ==> r && cell_contents(*final(c)) == Some(v@),
        cell_contents(*old(c)) is Some ==> !r && cell_contents(*final(c)) == cell_contents(
            *old(c),
        ),
{
    c.set(v).is_ok()
}

/// One entry of the channel table: a channel's status and its version.
#[derive(Debug, Clone)]
pub struct NixpkgsChannelVersion {
    pub status: String,
    pub version: String,
}

/// Why a channel version could not be found.
#[derive(Debug, Clone)]
pub enum ChannelError {
    /// No entry has this status: the status, and the entries there are.
    NotFound(String, Vec<NixpkgsChannelVersion>),
}

/// `a` and `b` hold the same entries.
pub open spec fn same_channels(a: Seq<NixpkgsChannelVersion>, b: Seq<NixpkgsChannelVersion>) -> bool {
    a.len() == b.len() && forall|i: int|
        0 <= i < a.len() ==> (#[trigger] a[i]).status@ == b[i].status@ && a[i].version@
            == b[i].version@
}

/// A copy of the channel entries.
fn copy_channels(channels: &Vec<NixpkgsChannelVersion>) -> (r: Vec<NixpkgsChannelVersion>)
    ensures
        same_channels(r@, channels@),
{
    let mut r: Vec<NixpkgsChannelVersion> = Vec::new();
    let mut i: usize = 0;
    while i < channels.len()
        invariant
            i <= channels@.len(),
            r@.len() == i,
            forall|j: int|
                0 <= j < i ==> (#[trigger] r@[j]).status@ == channels@[j].status@ && r@[j].version@
                    == channels@[j].version@,
        decreases channels@.len() - i,
    {
        r.push(
            NixpkgsChannelVersion {
                status: channels[i].status.clone(),
                version: channels[i].version.clone(),
            },
        );
        i += 1;
    }
    r
}

/// The version of the first entry whose status is `status`.
pub open spec fn channel_version(channels: Seq<NixpkgsChannelVersion>, status: Seq<char>) -> Option<
    Seq<char>,
>
    decreases channels.len(),
{
    if channels.len() == 0 {
        None
    } else if channels[0].status@ == status {
        Some(channels[0].version@)
    } else {
        channel_version(channels.drop_first(), status)
    }
}

/// A cache for the stable version that is set at most once.
pub struct StableVersionCache {
    cell: OnceCell<String>,
}

impl StableVersionCache {
    pub closed spec fn cached(&self) -> Option<Seq<char>> {
        cell_contents(self.cell)
    }

    /// An empty cache.
    pub fn new() -> (r: StableVersionCache)
        ensures
            r.cached() is None,
    {
        StableVersionCache { cell: cell_new() }
    }

    /// The cached version, if any.
    pub fn get(&self) -> (r: Option<String>)
        ensures
            opt_view(r) == self.cached(),
    {
        cell_get(&self.cell)
    }

    /// The cache is empty: the version has yet to be fetched.
    pub fn needs_fetch(&self) -> (r: bool)
        ensures
            r == (self.cached() is None),
    {
        cell_get(&self.cell).is_none()
    }
}

/// One lookup of the stable version: the cached value where there is one,
/// else the version in the channel table, which is then cached. The result
/// and what the cache holds afterwards.
pub open spec fn stable_step(
    cached: Option<Seq<char>>,
    channels: Seq<NixpkgsChannelVersion>,
) -> (Option<Seq<char>>, Option<Seq<char>>) {
    match cached {
        Some(v) => (Some(v), Some(v)),
        None => match channel_version(channels, "stable"@) {
            Some(v) => (Some(v), Some(v)),
            None => (None, None),
        },
    }
}

impl NixpkgsChannelVersion {
    /// The channel table (JSON) that the package manual's page carries in
    /// the `data-nixpkgs-channels` attribute of its body.
    pub fn channel_table(page: &str) -> (r: Result<String, SoupError>)
        ensures
            match page_attr(page@, "body"@, "data-nixpkgs-channels"@) {
                Some(v) => r matches Ok(s) && s@ == v,
                None => r matches Err(SoupError::MissingAttribute(a)) && a@
                    == "data-nixpkgs-channels"@,
            },
    {
        match first_attr(page, "body", "data-nixpkgs-channels") {
            Some(v) => Ok(v),
            None => Err(SoupError::MissingAttribute(String::from_str("data-nixpkgs-channels"))),
        }
    }

    /// The version of the first entry whose status is `spec`.
    pub fn fetch_channel(channels: &Vec<NixpkgsChannelVersion>, spec: &str) -> (r: Result<
        String,
        ChannelError,
    >)
        ensures
            match channel_version(channels@, spec@) {
                Some(v) => r matches Ok(x) && x@ == v,
                None => r matches Err(ChannelError::NotFound(s, l)) && s@ == spec@ && same_channels(
                    l@,
                    channels@,
                ),
            },
    {
        let mut i: usize = 0;
        assert(channels@.skip(0) =~= channels@);
        while i < channels.len()
            invariant
                i <= channels@.len(),
                channel_version(channels@, spec@) == channel_version(channels@.skip(i as int), spec@),
            decreases channels@.len() - i,
        {
            assert(channels@.skip(i as int)[0] == channels@[i as int]);
            if str_eq(channels[i].status.as_str(), spec) {
                return Ok(channels[i].version.clone());
            }
            assert(channels@.skip(i as int).drop_first() =~= channels@.skip(i + 1));
            i += 1;
        }
        Err(ChannelError::NotFound(String::from_str(spec), copy_channels(channels)))
    }

    /// The current stable version: from the cache where it is set; else from
    /// the channel table, and then cached.
    pub fn stable(cache: &mut StableVersionCache, channels: &Vec<NixpkgsChannelVersion>) -> (r:
        Result<String, ChannelError>)
        ensures
            match r {
                Ok(v) => stable_step(old(cache).cached(), channels@).0 == Some(v@),
                Err(_) => stable_step(old(cache).cached(), channels@).0 is None,
            },
            final(cache).cached() == stable_step(old(cache).cached(), channels@).1,
    {
        if let Some(v) = cache.get() {
            return Ok(v);
        }
        proof {
            reveal_strlit("stable");
        }
        let v = NixpkgsChannelVersion::fetch_channel(channels, "stable")?;
        let copy = v.clone();
        let _ = cell_set(&mut cache.cell, copy);
        Ok(v)
    }
}

/// Once a lookup has found the stable version, every later lookup gives the
/// same version from the cache, whatever the channel table would say, and
/// leaves the cache as it is.
pub proof fn lemma_stable_cached(
    first: Seq<NixpkgsChannelVersion>,
    later: Seq<NixpkgsChannelVersion>,
    cached: Option<Seq<char>>,
)
    requires
        stable_step(cached, first).0 is Some,
    ensures
        stable_step(stable_step(cached, first).1, later) == (
            stable_step(cached, first).0,
            stable_step(cached, first).1,
        ),
{
}

} // verus!
