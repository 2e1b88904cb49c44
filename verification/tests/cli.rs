use moonrabbit::cli::{chain_is_dev, chain_is_kusama, chain_is_westend, ends_with};
use moonrabbit::cli::{
    benchmark_runtime, copyright_start_year, ensure_dev, executable_name, grandpa_pause,
    impl_name, needs_dev_chain, resolve_chain_id, select_chain_spec, sets_ss58_format,
    ss58_format, starts_with, str_eq, support_url, BenchmarkRuntime, ChainSpecSource,
    Ss58Format, SubcommandKind, DEV_ONLY_ERROR_PATTERN,
};

#[test]
fn ensure_dev_accepts_dev_chains_only() {
    assert_eq!(ensure_dev(true, "dev"), Ok(()));
    assert_eq!(
        ensure_dev(false, "moonrabbit"),
        Err(
            "can only use subcommand with --chain [moonrabbit-dev, kusama-dev, westend-dev, rococo-dev, wococo-dev], got moonrabbit"
                .to_string()
        )
    );
    assert_eq!(ensure_dev(false, "").unwrap_err(), DEV_ONLY_ERROR_PATTERN.to_string());
}

#[test]
fn known_chain_ids_select_bundled_specs() {
    assert_eq!(select_chain_spec("moonrabbit", "x", false, None), ChainSpecSource::Moonrabbit);
    assert_eq!(select_chain_spec("dev", "x", false, None), ChainSpecSource::Development);
    assert_eq!(select_chain_spec("moonrabbit-dev", "x", false, None), ChainSpecSource::Development);
    assert_eq!(select_chain_spec("moonrabbit-local", "x", false, None), ChainSpecSource::LocalTestnet);
    assert_eq!(select_chain_spec("moonrabbit-staging", "x", false, None), ChainSpecSource::StagingTestnet);
}

#[test]
fn an_empty_id_selects_the_default_chain() {
    assert_eq!(select_chain_spec("", "moonrabbit-node", false, None), ChainSpecSource::Moonrabbit);
    assert_eq!(select_chain_spec("", "other", false, None), ChainSpecSource::Moonrabbit);
    assert_eq!(resolve_chain_id("", "other"), "moonrabbit".to_string());
    assert_eq!(resolve_chain_id("dev", "other"), "dev".to_string());
}

#[test]
fn other_ids_are_json_files() {
    assert_eq!(
        select_chain_spec("/tmp/spec.json", "x", false, Some("spec.json")),
        ChainSpecSource::JsonFile { moonrabbit_runtime: false }
    );
    assert_eq!(
        select_chain_spec("/tmp/spec.json", "x", true, Some("spec.json")),
        ChainSpecSource::JsonFile { moonrabbit_runtime: true }
    );
    assert_eq!(
        select_chain_spec("/tmp/moonrabbit-spec.json", "x", false, Some("moonrabbit-spec.json")),
        ChainSpecSource::JsonFile { moonrabbit_runtime: true }
    );
    assert_eq!(
        select_chain_spec("/", "x", false, None),
        ChainSpecSource::JsonFile { moonrabbit_runtime: false }
    );
}

#[test]
fn string_helpers() {
    assert!(starts_with("moonrabbit-dev", "moonrabbit"));
    assert!(starts_with("abc", ""));
    assert!(!starts_with("moon", "moonrabbit"));
    assert!(!starts_with("xmoonrabbit", "moonrabbit"));
    assert!(str_eq("dev", "dev"));
    assert!(!str_eq("dev", "deV"));
}

#[test]
fn ss58_and_benchmark_runtime_follow_the_chain() {
    assert_eq!(ss58_format(true, false), Ss58Format::KusamaAccount);
    assert_eq!(ss58_format(true, true), Ss58Format::KusamaAccount);
    assert_eq!(ss58_format(false, true), Ss58Format::SubstrateAccount);
    assert_eq!(ss58_format(false, false), Ss58Format::MoonrabbitAccount);
    assert_eq!(benchmark_runtime(true, false), BenchmarkRuntime::Kusama);
    assert_eq!(benchmark_runtime(false, true), BenchmarkRuntime::Westend);
    assert_eq!(benchmark_runtime(false, false), BenchmarkRuntime::Moonrabbit);
}

#[test]
fn grandpa_pause_takes_two_values() {
    assert_eq!(grandpa_pause(&vec![]), None);
    assert_eq!(grandpa_pause(&vec![10, 20]), Some((10, 20)));
    assert_eq!(grandpa_pause(&vec![1, 2, 3]), Some((1, 2)));
}

#[test]
fn subcommands_that_set_ss58_or_need_dev() {
    assert!(sets_ss58_format(None));
    assert!(!sets_ss58_format(Some(SubcommandKind::BuildSpec)));
    assert!(!sets_ss58_format(Some(SubcommandKind::PurgeChain)));
    assert!(!sets_ss58_format(Some(SubcommandKind::Key)));
    assert!(!sets_ss58_format(Some(SubcommandKind::PvfPrepareWorker)));
    assert!(sets_ss58_format(Some(SubcommandKind::CheckBlock)));
    assert!(sets_ss58_format(Some(SubcommandKind::Benchmark)));
    assert!(needs_dev_chain(Some(SubcommandKind::Benchmark)));
    assert!(needs_dev_chain(Some(SubcommandKind::TryRuntime)));
    assert!(!needs_dev_chain(Some(SubcommandKind::Revert)));
    assert!(!needs_dev_chain(None));
}

#[test]
fn cli_metadata() {
    assert_eq!(impl_name(), "moonrabbit moonrabbit");
    assert_eq!(support_url(), "https://github.com/moonRabbitAZ/moonrabbit/issues/new");
    assert_eq!(copyright_start_year(), 2017);
    assert_eq!(executable_name(), "moonrabbit");
}

#[test]
fn chain_variants_follow_the_id() {
    assert!(chain_is_dev("dev"));
    assert!(chain_is_dev("moonrabbit-dev"));
    assert!(!chain_is_dev("local_testnet"));
    assert!(!chain_is_dev("dev-net"));
    assert!(chain_is_kusama("kusama"));
    assert!(chain_is_kusama("ksmcc3"));
    assert!(!chain_is_kusama("moonrabbit"));
    assert!(chain_is_westend("westend2"));
    assert!(chain_is_westend("wnd"));
    assert!(!chain_is_westend("kusama"));
    assert!(ends_with("abc", ""));
    assert!(!ends_with("c", "bc"));
}
