use hydra_check::fetch_stable::{ChannelError, StableVersionCache};
use hydra_check::records::{BuildStatus, EvalStatus, StatusIcon};
use hydra_check::release::{all_unfinished, match_releases, ReleaseStatus};
use hydra_check::NixpkgsChannelVersion;

fn eval(id: u64, rev: &str, finished: bool) -> EvalStatus {
    let mut e = EvalStatus::bare(StatusIcon::Succeeded, String::new());
    e.id = Some(id);
    e.short_rev = Some(rev.into());
    e.finished = Some(finished);
    e
}

fn test_build(name: &str, success: bool) -> BuildStatus {
    let mut b = BuildStatus::bare(StatusIcon::Succeeded, "Succeeded".into());
    b.name = Some(name.into());
    b.success = success;
    b
}

#[test]
fn release_pairing() {
    let evals = vec![eval(2, "5d8f4beac036", true), eval(1, "0000000000aa", true)];
    let builds = vec![
        test_build("nixpkgs-25.11pre1.111111111111", true),
        test_build("nixpkgs-25.11pre2.5d8f4beac036", true),
    ];
    let releases = match_releases(evals, builds, "nixpkgs-unstable", "https://hydra.nixos.org");
    assert_eq!(releases.len(), 2);
    assert_eq!(
        releases[0].test.as_ref().unwrap().name.as_deref(),
        Some("nixpkgs-25.11pre2.5d8f4beac036")
    );
    assert_eq!(
        releases[0].release_url.as_deref(),
        Some("https://releases.nixos.org/nixpkgs/nixpkgs-25.11pre2.5d8f4beac036")
    );
    assert!(releases[1].test.is_none());
    assert_eq!(releases[1].release_url, None);
}

#[test]
fn matched_build_leaves_the_pool() {
    let evals = vec![eval(2, "abc", true), eval(1, "abc", true)];
    let builds = vec![test_build("x.abc", true)];
    let releases = match_releases(evals, builds, "nixos-24.05", "https://hydra.nixos.org");
    assert!(releases[0].test.is_some());
    assert!(releases[1].test.is_none());
    assert_eq!(
        releases[0].release_url.as_deref(),
        Some("https://releases.nixos.org/nixos/24.05/x.abc")
    );
}

#[test]
fn release_link_conditions() {
    let linked = |e: EvalStatus, b: BuildStatus, channel: &str, host: &str, always: bool| {
        ReleaseStatus::new(e, b, channel, host, always).release_url
    };
    let host = "https://hydra.nixos.org";
    assert!(linked(eval(1, "a", true), test_build("n.a", true), "nixos-24.05", host, false).is_some());
    assert!(linked(eval(1, "a", false), test_build("n.a", true), "nixos-24.05", host, false).is_none());
    assert!(linked(eval(1, "a", false), test_build("n.a", true), "nixos-24.05", host, true).is_some());
    assert!(linked(eval(1, "a", true), test_build("n.a", false), "nixos-24.05", host, false).is_none());
    assert!(linked(eval(1, "a", true), test_build("n.a", true), "staging", host, false).is_none());
    assert!(linked(eval(1, "a", true), test_build("n.a", true), "nixos-24.05", "https://h", false).is_none());
    assert!(all_unfinished(&vec![eval(1, "a", false), eval(2, "b", false)]));
    assert!(!all_unfinished(&vec![eval(1, "a", false), eval(2, "b", true)]));
}

fn channels(entries: &[(&str, &str)]) -> Vec<NixpkgsChannelVersion> {
    entries
        .iter()
        .map(|(s, v)| NixpkgsChannelVersion {
            status: s.to_string(),
            version: v.to_string(),
        })
        .collect()
}

#[test]
fn stable_version_is_cached() {
    let mut cache = StableVersionCache::new();
    assert!(cache.needs_fetch());
    let first = channels(&[("unstable", "25.11"), ("stable", "25.05"), ("stable", "24.11")]);
    assert_eq!(NixpkgsChannelVersion::stable(&mut cache, &first).unwrap(), "25.05");
    assert!(!cache.needs_fetch());
    assert_eq!(cache.get().as_deref(), Some("25.05"));
    let later = channels(&[("stable", "26.05")]);
    assert_eq!(NixpkgsChannelVersion::stable(&mut cache, &later).unwrap(), "25.05");
    assert_eq!(NixpkgsChannelVersion::stable(&mut cache, &vec![]).unwrap(), "25.05");
}

#[test]
fn stable_version_missing() {
    let mut cache = StableVersionCache::new();
    let none = channels(&[("unstable", "25.11")]);
    match NixpkgsChannelVersion::stable(&mut cache, &none) {
        Err(ChannelError::NotFound(s, l)) => {
            assert_eq!(s, "stable");
            assert_eq!(l.len(), 1);
            assert_eq!(l[0].version, "25.11");
        }
        other => panic!("unexpected {other:?}"),
    }
    assert!(cache.needs_fetch());
    assert_eq!(
        NixpkgsChannelVersion::fetch_channel(&none, "unstable").unwrap(),
        "25.11"
    );
}

#[test]
fn release_row_texts() {
    let mut b = test_build("nixpkgs-25.11pre854150.5d8f4beac036", true);
    b.evals = true;
    b.timestamp = Some("2025-06-01T12:00:00Z".into());
    let mut e = eval(1, "5d8f4beac036", true);
    e.input_changes = Some("5d8f4beac036".into());
    let r = ReleaseStatus::new(e, b, "nixos-25.05", "https://h", false);
    assert_eq!(r.title(), "nixpkgs-25.11pre854150.5d8f4beac036");
    assert_eq!(r.test_info(), "2025-06-01");
    let mut b = test_build("x", false);
    b.build_id = Some("42".into());
    let r = ReleaseStatus::new(eval(2, "a", true), b, "nixos-25.05", "https://h", false);
    assert_eq!(r.title(), "");
    assert_eq!(r.test_info(), "build/42");
    let r = ReleaseStatus::unmatched(eval(3, "a", true));
    assert_eq!(r.title(), "");
    assert_eq!(r.test_info(), "");
    assert_eq!(hydra_check::release::date_of(&Some("2025".into())), "");
}

#[test]
fn channel_table_attribute() {
    let page = r#"<html><body data-nixpkgs-channels='[{"channel":"stable","version":"25.05"}]'><p>x</p></body></html>"#;
    assert_eq!(
        NixpkgsChannelVersion::channel_table(page).unwrap(),
        r#"[{"channel":"stable","version":"25.05"}]"#
    );
    assert!(NixpkgsChannelVersion::channel_table("<html><body></body></html>").is_err());
}
