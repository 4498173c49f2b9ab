//! Fixed names and hosts that the resolution rules refer to.

use vstd::prelude::*;
use vstd::string::*;

use crate::text::{str_eq, trim, trimmed};

verus! {

/// Systems built on the public instance for the package sets.
pub const KNOWN_ARCHITECTURES: [&'static str; 4] = [
    "x86_64-linux",
    "aarch64-linux",
    "x86_64-darwin",
    "aarch64-darwin",
];

/// Systems built on the public instance for the operating system.
pub const NIXOS_ARCHITECTURES: [&'static str; 2] = ["x86_64-linux", "aarch64-linux"];

/// Package filter applied to an evaluation when none is given.
pub const DEFAULT_EVALUATION_FILTER: &'static str = "nixVersions.stable";

/// The public Hydra instance.
pub const DEFAULT_HOST_URL: &'static str = "https://hydra.nixos.org";

/// Name of the environment variable that overrides the host.
pub const HOST_URL_VARIABLE: &'static str = "HYDRA_CHECK_HOST_URL";

pub open spec fn known_architectures() -> Seq<Seq<char>> {
    seq!["x86_64-linux"@, "aarch64-linux"@, "x86_64-darwin"@, "aarch64-darwin"@]
}

pub open spec fn nixos_architectures() -> Seq<Seq<char>> {
    seq!["x86_64-linux"@, "aarch64-linux"@]
}

/// The host that a value of the override variable selects.
pub open spec fn host_url_spec(var: Option<Seq<char>>) -> Seq<char> {
    match var {
        Some(v) if trimmed(v).len() > 0 => trimmed(v),
        _ => DEFAULT_HOST_URL@,
    }
}

/// The host URL for a value of the override variable: its trimmed value,
/// or the public instance where it is unset or blank.
pub fn host_url(var: Option<&str>) -> (r: String)
    ensures
        r@ == host_url_spec(match var {
            Some(v) => Some(v@),
            None => None,
        }),
{
    match var {
        Some(v) => {
            let t = trim(v);
            if t.unicode_len() > 0 {
                t
            } else {
                String::from_str(DEFAULT_HOST_URL)
            }
        },
        None => String::from_str(DEFAULT_HOST_URL),
    }
}

/// `url` is the public instance.
pub fn is_default_host_url(url: &str) -> (r: bool)
    ensures
        r == (url@ == DEFAULT_HOST_URL@),
{
    str_eq(url, DEFAULT_HOST_URL)
}

/// `arch` is one of the known systems.
pub fn is_known_architecture(arch: &str) -> (r: bool)
    ensures
        r == known_architectures().contains(arch@),
{
    let mut i: usize = 0;
    while i < 4
        invariant
            forall|j: int| 0 <= j < i ==> KNOWN_ARCHITECTURES[j]@ != arch@,
        decreases 4 - i,
    {
        if str_eq(arch, KNOWN_ARCHITECTURES[i]) {
            assert(known_architectures()[i as int] == arch@);
            return true;
        }
        i += 1;
    }
    assert(!known_architectures().contains(arch@)) by {
        if known_architectures().contains(arch@) {
            let j = choose|j: int| 0 <= j < 4 && known_architectures()[j] == arch@;
            assert(KNOWN_ARCHITECTURES[j]@ == arch@);
        }
    }
    false
}

/// `arch` is a system that the operating system is built for.
pub fn is_nixos_architecture(arch: &str) -> (r: bool)
    ensures
        r == nixos_architectures().contains(arch@),
{
    let mut i: usize = 0;
    while i < 2
        invariant
            forall|j: int| 0 <= j < i ==> NIXOS_ARCHITECTURES[j]@ != arch@,
        decreases 2 - i,
    {
        if str_eq(arch, NIXOS_ARCHITECTURES[i]) {
            assert(nixos_architectures()[i as int] == arch@);
            return true;
        }
        i += 1;
    }
    assert(!nixos_architectures().contains(arch@)) by {
        if nixos_architectures().contains(arch@) {
            let j = choose|j: int| 0 <= j < 2 && nixos_architectures()[j] == arch@;
            assert(NIXOS_ARCHITECTURES[j]@ == arch@);
        }
    }
    false
}

} // verus!
