use hydra_check::constants::{host_url, is_known_architecture, DEFAULT_EVALUATION_FILTER};
use hydra_check::evaluation::Evaluation;
use hydra_check::naming::{Queries, ResolveError};
use hydra_check::HydraCheckCli;

fn with_channel(channel: &str) -> HydraCheckCli {
    HydraCheckCli {
        channel: Some(channel.into()),
        ..Default::default()
    }
}

#[test]
fn guess_jobset() {
    let aliases = [
        ("24.05", "nixos/release-24.05"),
        ("nixos-23.05", "nixos/release-23.05"),
        ("nixos-23.11-small", "nixos/release-23.11-small"),
        ("nixpkgs-25.05-darwin", "nixpkgs/nixpkgs-25.05-darwin"),
        ("staging", "nixpkgs/staging"),
        ("staging-next", "nixpkgs/staging-next"),
        ("staging-next-small", "nixos/staging-next-small"),
        ("staging-next-24.11", "nixpkgs/staging-next-24.11"),
        ("staging-next-24.11-small", "nixos/staging-next-24.11-small"),
    ];
    for (channel, jobset) in aliases {
        let args = with_channel(channel).guess_jobset(false, None).unwrap();
        assert_eq!(args.jobset, Some(jobset.into()));
    }
}

#[test]
fn guess_darwin() {
    for host_is_nixos in [false, true] {
        let args = HydraCheckCli {
            arch: Some("aarch64-darwin".into()),
            ..Default::default()
        }
        .guess_jobset(host_is_nixos, None)
        .unwrap();
        assert_eq!(args.jobset, Some("nixpkgs/trunk".into()));
    }
}

#[test]
fn guess_eval_from_spec() {
    let default_filter = DEFAULT_EVALUATION_FILTER;
    for (spec, id, filter) in [
        ("123456", 123456, Some(default_filter.to_string())),
        ("123456/", 123456, None),
        ("123456/rustc", 123456, Some("rustc".to_string())),
        ("", 0, Some(default_filter.into())),
        ("/", 0, None),
        ("/rustc", 0, Some("rustc".into())),
        ("rustc", 0, Some("rustc".into())),
        ("weird/filter", 0, Some("weird/filter".into())),
    ] {
        let eval = Evaluation::guess_from_spec(spec);
        assert!(eval.id == id && eval.filter == filter);
    }
}

#[test]
fn canonical_spec_reads_back() {
    for spec in ["123456", "123456/rustc", "", "/rustc", "rustc", "weird/filter", "  42 / a b  "] {
        let eval = Evaluation::guess_from_spec(spec);
        let again = Evaluation::guess_from_spec(&eval.spec);
        assert_eq!((again.id, again.filter.clone()), (eval.id, eval.filter.clone()));
        assert_eq!(again.spec, eval.spec);
    }
    // an explicitly empty filter keeps its trailing slash
    for spec in ["123456/", "/", " 7 /  "] {
        let eval = Evaluation::guess_from_spec(spec);
        assert_eq!(eval.filter, None);
        assert!(eval.spec.ends_with('/'));
        let again = Evaluation::guess_from_spec(&eval.spec);
        assert_eq!((again.id, again.filter), (eval.id, None));
    }
    assert_eq!(Evaluation::guess_from_spec("/").spec, "0/");
}

#[test]
fn eval_spec_canonical_text() {
    assert_eq!(Evaluation::guess_from_spec("123456").spec, "123456/nixVersions.stable");
    assert_eq!(Evaluation::guess_from_spec(" rustc ").spec, "0/rustc");
    assert_eq!(Evaluation::guess_from_spec("+7/x").id, 7);
    assert_eq!(Evaluation::guess_from_spec("18446744073709551616/x").id, 0);
    assert_eq!(
        Evaluation::guess_from_spec("18446744073709551615").id,
        18446744073709551615
    );
}

#[test]
fn channel_aliases_with_arch() {
    let resolve = |channel: &str, arch: Option<&str>, nixos: bool| {
        HydraCheckCli {
            channel: Some(channel.into()),
            arch: arch.map(String::from),
            ..Default::default()
        }
        .guess_jobset(nixos, None)
        .unwrap()
    };
    assert_eq!(resolve("master", None, true).jobset.unwrap(), "nixpkgs/trunk");
    assert_eq!(
        resolve("unstable", Some("x86_64-linux"), true).jobset.unwrap(),
        "nixos/trunk-combined"
    );
    assert_eq!(
        resolve("unstable", Some("x86_64-linux"), false).jobset.unwrap(),
        "nixpkgs/trunk"
    );
    assert_eq!(
        resolve("nixos-unstable-small", None, false).jobset.unwrap(),
        "nixos/unstable-small"
    );
    let darwin = resolve("24.05", Some("aarch64-darwin"), false);
    assert_eq!(darwin.channel.unwrap(), "nixpkgs-24.05-darwin");
    assert_eq!(darwin.jobset.unwrap(), "nixpkgs/nixpkgs-24.05-darwin");
    assert_eq!(resolve("24.05x", None, false).jobset.unwrap(), "24.05x");
    assert_eq!(resolve("nixos/foo", None, false).jobset.unwrap(), "nixos/foo");
}

#[test]
fn stable_channel_needs_version() {
    let cli = with_channel("stable");
    assert!(cli.needs_stable_version());
    assert_eq!(
        cli.guess_jobset(false, None).err(),
        Some(ResolveError::StableVersionUnknown)
    );
    let args = with_channel("stable")
        .guess_jobset(false, Some("25.05".into()))
        .unwrap();
    assert_eq!(args.jobset.unwrap(), "nixos/release-25.05");
    let args = HydraCheckCli {
        channel: Some("stable".into()),
        arch: Some("x86_64-darwin".into()),
        ..Default::default()
    }
    .guess_jobset(false, Some("25.05".into()))
    .unwrap();
    assert_eq!(args.jobset.unwrap(), "nixpkgs/nixpkgs-25.05-darwin");
}

#[test]
fn explicit_jobset_drops_channel() {
    let cli = HydraCheckCli {
        jobset: Some("nixos/custom".into()),
        channel: Some("stable".into()),
        ..Default::default()
    };
    assert!(!cli.needs_stable_version());
    let args = cli.guess_jobset(false, None).unwrap();
    assert_eq!(args.jobset.unwrap(), "nixos/custom");
    assert_eq!(args.channel, None);
}

#[test]
fn guess_arch_from_platform() {
    let args = HydraCheckCli::default().guess_arch("aarch64", "macos");
    assert_eq!(args.arch.unwrap(), "aarch64-darwin");
    let args = HydraCheckCli::default().guess_arch("x86_64", "linux");
    assert_eq!(args.arch.unwrap(), "x86_64-linux");
    let args = HydraCheckCli {
        arch: Some(String::new()),
        ..Default::default()
    }
    .guess_arch("x86_64", "linux");
    assert_eq!(args.arch.unwrap(), "");
    assert!(is_known_architecture("aarch64-darwin"));
    assert!(!is_known_architecture("riscv64-linux"));
}

#[test]
fn guess_package_names() {
    let cli = HydraCheckCli {
        arch: Some("x86_64-linux".into()),
        jobset: Some("nixos/trunk-combined".into()),
        ..Default::default()
    };
    assert_eq!(cli.guess_package_name("hello"), "nixpkgs.hello.x86_64-linux");
    assert_eq!(cli.guess_package_name("hello.aarch64-linux"), "nixpkgs.hello.aarch64-linux");
    assert_eq!(
        cli.guess_package_name("nixos.tests.simple"),
        "nixos.tests.simple.x86_64-linux"
    );
    let cli = HydraCheckCli {
        arch: Some(String::new()),
        jobset: Some("nixpkgs/trunk".into()),
        ..Default::default()
    };
    assert_eq!(cli.guess_package_name("unstable"), "unstable");
    let cli = HydraCheckCli {
        jobset: Some("nixpkgs/trunk".into()),
        ..Default::default()
    };
    assert_eq!(cli.guess_package_name("hello"), "hello");
}

#[test]
fn resolve_all_queries() {
    let cli = HydraCheckCli {
        queries: vec!["hello".into(), "python3Packages.numpy".into(), "gimp".into()],
        arch: Some("x86_64-linux".into()),
        channel: Some("master".into()),
        ..Default::default()
    };
    let args = cli.guess_all_args(false, None).unwrap();
    assert_eq!(args.jobset, "nixpkgs/trunk");
    match args.queries {
        Queries::Packages(p) => assert_eq!(p, vec!["hello.x86_64-linux", "gimp.x86_64-linux"]),
        other => panic!("unexpected queries {other:?}"),
    }
    let cli = HydraCheckCli {
        eval: true,
        jobset: Some("nixpkgs/trunk".into()),
        ..Default::default()
    };
    match cli.guess_all_args(false, None).unwrap().queries {
        Queries::Evals(e) => {
            assert_eq!(e.len(), 1);
            assert_eq!(e[0].id, 0);
            assert_eq!(e[0].filter.as_deref(), Some(DEFAULT_EVALUATION_FILTER));
        }
        other => panic!("unexpected queries {other:?}"),
    }
    let cli = HydraCheckCli {
        jobset: Some("nixpkgs/trunk".into()),
        ..Default::default()
    };
    assert!(matches!(cli.guess_all_args(false, None).unwrap().queries, Queries::Jobset));
    assert_eq!(
        with_channel("stable").guess_all_args(false, None).err(),
        Some(ResolveError::StableVersionUnknown)
    );
}

#[test]
fn host_url_override() {
    assert_eq!(host_url(Some(" https://hydra.example.com ")), "https://hydra.example.com");
    assert_eq!(host_url(Some("   ")), "https://hydra.nixos.org");
    assert_eq!(host_url(None), "https://hydra.nixos.org");
}
