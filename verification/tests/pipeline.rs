use versionwatch::aggregate::Aggregator;
use versionwatch::config::{default_github_source, Settings, Target, VersionCleaning};
use versionwatch::error::Error;
use versionwatch::normalize::{normalize_all, CandidateRecord};
use versionwatch::metrics::Volume;
use versionwatch::orchestrate::{total_versions, CycleState, Orchestrator, UnitStat, UnitState};
use versionwatch::record::{canonical_record, canonicalize, summarize};
use versionwatch::semver::SemVer;
use versionwatch::store::VersionTable;
use versionwatch::{ProductCycle, SoftwareVersion};

fn record(name: &str, latest: &str) -> SoftwareVersion {
    SoftwareVersion {
        name: name.to_string(),
        current_version: String::new(),
        latest_version: latest.to_string(),
        latest_lts_version: None,
        is_lts: false,
        eol_date: None,
        release_notes_url: None,
        cve_count: 0,
    }
}

fn target(name: &str, enabled: bool) -> Target {
    Target::new(name.to_string(), enabled, None)
}

fn running(names: &[&str]) -> Orchestrator {
    let targets: Vec<Target> = names.iter().map(|n| target(n, true)).collect();
    let mut orchestrator = Orchestrator::new(Aggregator::new(None));
    assert!(orchestrator.begin(&targets, 100));
    for unit in 0..names.len() {
        assert!(orchestrator.dispatch(unit));
    }
    orchestrator
}

#[test]
fn persisting_a_record_twice_is_persisting_it_once() {
    let mut once = VersionTable::new();
    once.upsert(record("go", "1.21.0"));
    once.upsert(record("node", "20.11.0"));
    once.upsert(record("go", "1.22.0"));
    let mut twice = VersionTable::new();
    twice.upsert(record("go", "1.21.0"));
    twice.upsert(record("node", "20.11.0"));
    twice.upsert(record("go", "1.22.0"));
    assert!(twice.upsert(record("go", "1.22.0")));
    assert_eq!(twice.len(), 2);
    assert_eq!(once.into_rows(), twice.into_rows());
}

#[test]
fn upsert_replaces_in_place_and_leaves_other_rows() {
    let mut table = VersionTable::new();
    assert!(!table.upsert(record("go", "1.21.0")));
    assert!(!table.upsert(record("node", "20.11.0")));
    assert!(table.upsert(record("go", "1.22.0")));
    assert_eq!(table.len(), 2);
    assert_eq!(table.find("go"), Some(0));
    assert_eq!(table.find("node"), Some(1));
    assert_eq!(table.find("rust"), None);
    assert_eq!(table.get("go"), Some(&record("go", "1.22.0")));
    assert_eq!(table.get("node"), Some(&record("node", "20.11.0")));
    assert_eq!(table.get("rust"), None);
    assert_eq!(table.into_rows(), vec![record("go", "1.22.0"), record("node", "20.11.0")]);
}

#[test]
fn upsert_all_counts_its_writes() {
    let mut table = VersionTable::new();
    let writes = table.upsert_all(vec![record("a", "1.0.0"), record("b", "1.0.0"), record("a", "2.0.0")]);
    assert_eq!(writes, 3);
    assert_eq!(table.into_rows(), vec![record("a", "2.0.0"), record("b", "1.0.0")]);
}

#[test]
fn two_sources_with_one_record_each_give_two_rows_and_two_upserts() {
    let tables = vec![vec![record("go", "1.22.0")], vec![record("node", "20.11.0")]];
    let merged = Aggregator::new(None).merge(&tables).into_rows();
    assert_eq!(merged.len(), 2);
    assert_eq!(merged, vec![record("go", "1.22.0"), record("node", "20.11.0")]);
    let mut sink = VersionTable::new();
    assert_eq!(sink.upsert_all(merged), 2);
    assert_eq!(sink.len(), 2);
}

#[test]
fn merge_of_no_tables_is_empty() {
    assert_eq!(Aggregator::new(None).merge(&Vec::new()).len(), 0);
    assert_eq!(Aggregator::new(None).merge(&vec![Vec::new(), Vec::new()]).len(), 0);
}

#[test]
fn merge_keeps_the_last_record_of_a_product_named_twice() {
    let tables = vec![
        vec![record("go", "1.21.0"), record("node", "20.11.0")],
        vec![record("go", "1.22.0")],
    ];
    let merged = Aggregator::new(None).merge(&tables).into_rows();
    assert_eq!(merged, vec![record("go", "1.22.0"), record("node", "20.11.0")]);
}

#[test]
fn cleaning_pass_strips_the_suffix_where_a_version_is_left() {
    let aggregator = Aggregator::new(Some("-latest".to_string()));
    assert_eq!(aggregator.clean("1.17.3-latest".to_string()), "1.17.3");
    assert_eq!(aggregator.clean("1.17.3".to_string()), "1.17.3");
    assert_eq!(aggregator.clean("-latest".to_string()), "-latest");
    assert_eq!(Aggregator::new(Some(".3".to_string())).clean("1.17.3".to_string()), "1.17.3");
    assert_eq!(Aggregator::new(None).clean("1.17.3-latest".to_string()), "1.17.3-latest");
    assert_eq!(Aggregator::choose_cleaned("a-x".to_string(), "a", &None), "a-x");
    let read = SemVer { major: 1, minor: 0, patch: 0, pre: String::new(), build: String::new() };
    assert_eq!(Aggregator::choose_cleaned("1.0.0-x".to_string(), "1.0.0", &Some(read)), "1.0.0");
    let mut row = record("elixir", "1.17.3-latest");
    row.latest_lts_version = Some("1.16.0-latest".to_string());
    let cleaned = aggregator.clean_record(row);
    assert_eq!(cleaned.latest_version, "1.17.3");
    assert_eq!(cleaned.latest_lts_version, Some("1.16.0".to_string()));
    assert_eq!(cleaned.name, "elixir");
    let merged = aggregator.merge(&vec![vec![record("elixir", "1.17.3-latest")]]).into_rows();
    assert_eq!(merged, vec![record("elixir", "1.17.3")]);
}

#[test]
fn one_failed_target_does_not_keep_the_others_out() {
    let mut orchestrator = running(&["go", "node", "perl", "ruby"]);
    assert!(orchestrator.complete(0, Ok(vec![record("go", "1.22.0")]), 0));
    assert!(orchestrator.complete(1, Err(Error::Transient("timeout".to_string())), 0));
    assert!(orchestrator.complete(2, Ok(vec![record("perl", "5.38.2")]), 1));
    assert!(orchestrator.complete(3, Ok(vec![record("ruby", "3.3.0")]), 0));
    let outcome = orchestrator.finish(160).expect("an outcome");
    assert_eq!(outcome.state, CycleState::PartiallyCompleted);
    assert_eq!(orchestrator.cycle_state(), CycleState::PartiallyCompleted);
    assert_eq!(
        outcome.failures,
        vec![("node".to_string(), "transient failure: timeout".to_string())]
    );
    assert_eq!(
        outcome.records,
        vec![record("go", "1.22.0"), record("perl", "5.38.2"), record("ruby", "3.3.0")]
    );
    assert_eq!(
        outcome.answers,
        vec![("go".to_string(), 0), ("perl".to_string(), 1), ("ruby".to_string(), 0)]
    );
    assert_eq!(outcome.targets_total, 4);
    assert_eq!(outcome.targets_failed(), 1);
    assert_eq!(outcome.targets_succeeded(), 3);
    assert_eq!(outcome.total_records(), 3);
    assert_eq!(outcome.duration(), 60);
    assert!(!outcome.is_noop());
}

#[test]
fn cycle_without_failure_is_completed() {
    let mut orchestrator = running(&["go", "node"]);
    assert!(orchestrator.complete(1, Ok(vec![record("node", "20.11.0")]), 0));
    assert!(orchestrator.finish(101).is_none());
    assert_eq!(orchestrator.cycle_state(), CycleState::Running);
    assert!(orchestrator.complete(0, Ok(vec![record("go", "1.22.0")]), 0));
    let outcome = orchestrator.finish(105).expect("an outcome");
    assert_eq!(outcome.state, CycleState::Completed);
    assert!(outcome.failures.is_empty());
    assert_eq!(outcome.records, vec![record("go", "1.22.0"), record("node", "20.11.0")]);
    assert!(orchestrator.finish(106).is_none());
}

#[test]
fn cycle_without_success_writes_nothing() {
    let mut orchestrator = running(&["go", "node"]);
    assert!(orchestrator.complete(0, Err(Error::NotFound), 0));
    assert!(orchestrator.complete(1, Err(Error::RateLimited("wait".to_string())), 1));
    let outcome = orchestrator.finish(100).expect("an outcome");
    assert_eq!(outcome.state, CycleState::PartiallyCompleted);
    assert!(outcome.records.is_empty());
    assert!(outcome.is_noop());
    assert_eq!(outcome.targets_failed(), 2);
    assert_eq!(outcome.targets_succeeded(), 0);
    assert_eq!(
        outcome.failures,
        vec![
            ("go".to_string(), "collector not found".to_string()),
            ("node".to_string(), "rate limited: wait".to_string()),
        ]
    );
}

#[test]
fn empty_table_fails_its_unit_as_not_found() {
    let mut orchestrator = running(&["go"]);
    assert!(orchestrator.complete(0, Ok(Vec::new()), 0));
    assert_eq!(orchestrator.unit_state(0), Some(UnitState::Failed));
    let outcome = orchestrator.finish(100).expect("an outcome");
    assert_eq!(outcome.failures, vec![("go".to_string(), "collector not found".to_string())]);
}

#[test]
fn only_enabled_targets_become_units() {
    let targets = vec![target("go", true), target("node", false), target("perl", true)];
    let mut orchestrator = Orchestrator::new(Aggregator::new(None));
    assert_eq!(orchestrator.cycle_state(), CycleState::Idle);
    assert!(orchestrator.begin(&targets, 7));
    assert_eq!(orchestrator.cycle_state(), CycleState::Running);
    assert_eq!(orchestrator.unit_count(), 2);
    assert_eq!(orchestrator.unit_target(0), Some("go".to_string()));
    assert_eq!(orchestrator.unit_target(1), Some("perl".to_string()));
    assert_eq!(orchestrator.unit_target(2), None);
    assert_eq!(orchestrator.unit_state(0), Some(UnitState::Pending));
    assert_eq!(orchestrator.unit_state(2), None);
    assert!(!orchestrator.begin(&targets, 8));
    assert_eq!(orchestrator.unit_count(), 2);
}

#[test]
fn units_move_only_forward() {
    let mut orchestrator = Orchestrator::new(Aggregator::new(None));
    assert!(!orchestrator.dispatch(0));
    assert!(orchestrator.begin(&vec![target("go", true)], 0));
    assert!(!orchestrator.complete(0, Ok(vec![record("go", "1.0.0")]), 0));
    assert_eq!(orchestrator.unit_state(0), Some(UnitState::Pending));
    assert!(orchestrator.dispatch(0));
    assert!(!orchestrator.dispatch(0));
    assert!(!orchestrator.dispatch(1));
    assert_eq!(orchestrator.unit_state(0), Some(UnitState::Fetching));
    assert!(orchestrator.complete(0, Err(Error::NotFound), 0));
    assert_eq!(orchestrator.unit_state(0), Some(UnitState::Failed));
    assert!(!orchestrator.complete(0, Ok(vec![record("go", "1.0.0")]), 0));
    assert_eq!(orchestrator.unit_state(0), Some(UnitState::Failed));
}

#[test]
fn timeout_fails_the_units_that_have_not_ended() {
    let targets = vec![target("go", true), target("node", true), target("perl", true)];
    let mut orchestrator = Orchestrator::new(Aggregator::new(None));
    assert!(orchestrator.begin(&targets, 0));
    assert!(orchestrator.dispatch(0));
    assert!(orchestrator.dispatch(1));
    assert!(orchestrator.complete(0, Ok(vec![record("go", "1.22.0")]), 0));
    assert!(!orchestrator.all_units_ended());
    orchestrator.expire();
    assert!(orchestrator.all_units_ended());
    assert_eq!(orchestrator.unit_state(0), Some(UnitState::Succeeded));
    assert_eq!(orchestrator.unit_state(1), Some(UnitState::Failed));
    assert_eq!(orchestrator.unit_state(2), Some(UnitState::Failed));
    let outcome = orchestrator.finish(30).expect("an outcome");
    assert_eq!(outcome.records, vec![record("go", "1.22.0")]);
    assert_eq!(
        outcome.failures,
        vec![
            ("node".to_string(), "transient failure: cycle timed out".to_string()),
            ("perl".to_string(), "transient failure: cycle timed out".to_string()),
        ]
    );
}

#[test]
fn cycle_without_targets_completes_at_once() {
    let mut orchestrator = Orchestrator::new(Aggregator::new(None));
    assert!(orchestrator.finish(1).is_none());
    assert!(orchestrator.begin(&vec![target("go", false)], 1));
    let outcome = orchestrator.finish(2).expect("an outcome");
    assert_eq!(outcome.state, CycleState::Completed);
    assert_eq!(outcome.targets_total, 0);
    assert!(outcome.is_noop());
}

#[test]
fn canonical_record_summarizes_the_cycles_of_a_product() {
    let cycles = vec![
        ProductCycle { name: "v20.11.0".to_string(), release_date: Some(19737), eol_date: Some(20573), lts: true },
        ProductCycle { name: "v21.6.0".to_string(), release_date: Some(19740), eol_date: None, lts: false },
        ProductCycle { name: "v22.0.0-rc.1".to_string(), release_date: None, eol_date: None, lts: false },
        ProductCycle { name: "v18.19.0".to_string(), release_date: None, eol_date: None, lts: true },
        ProductCycle { name: "nightly".to_string(), release_date: None, eol_date: None, lts: false },
        ProductCycle { name: "20.11.0".to_string(), release_date: None, eol_date: None, lts: false },
    ];
    let record = canonical_record("node", &cycles, &VersionCleaning::default()).expect("a record");
    assert_eq!(record.name, "node");
    assert_eq!(record.current_version, "");
    assert_eq!(record.latest_version, "21.6.0");
    assert_eq!(record.latest_lts_version, Some("20.11.0".to_string()));
    assert!(!record.is_lts);
    assert_eq!(record.eol_date, None);
    assert_eq!(record.cve_count, 0);
    assert!(canonical_record("node", &Vec::new(), &VersionCleaning::default()).is_none());
}

#[test]
fn summary_of_an_lts_release_carries_its_end_of_life() {
    let candidates = vec![CandidateRecord {
        name: "node".to_string(),
        raw_version: "v20.11.0".to_string(),
        release_date: Some(19737),
        end_of_life_date: Some(20573),
        is_long_term_support: true,
        source_url: Some("https://nodejs.org".to_string()),
    }];
    let fragments = normalize_all(&candidates, &VersionCleaning::default());
    let record = summarize("node", &fragments).expect("a record");
    assert!(record.is_lts);
    assert_eq!(record.eol_date, Some(20573));
    assert_eq!(record.latest_lts_version, Some("20.11.0".to_string()));
    assert_eq!(record.release_notes_url, Some("https://nodejs.org".to_string()));
}

#[test]
fn settings_take_the_fallback_token_only_when_they_have_none() {
    let bare = Settings { targets: vec![target("go", true), target("node", false)], github_token: None };
    assert_eq!(bare.enabled_targets(), 1);
    let filled = bare.with_fallback_token(Some("env".to_string()));
    assert_eq!(filled.github_token, Some("env".to_string()));
    assert_eq!(filled.targets.len(), 2);
    let kept = filled.with_fallback_token(Some("other".to_string()));
    assert_eq!(kept.github_token, Some("env".to_string()));
    let none = Settings { targets: Vec::new(), github_token: None }.with_fallback_token(None);
    assert_eq!(none.github_token, None);
}

#[test]
fn new_targets_use_the_default_listing_and_no_cleaning() {
    assert_eq!(default_github_source(), "releases");
    let t = target("go", true);
    assert_eq!(t.github_source, "releases");
    assert_eq!(t.cleaning, VersionCleaning::default());
    assert!(!t.cleaning.enabled);
    assert_eq!(t.cleaning.regex, None);
}

#[test]
fn merging_two_sources_of_different_products_in_either_order_gives_the_same_rows() {
    let a = vec![record("go", "1.22.0"), record("rust", "1.75.0")];
    let b = vec![record("node", "20.11.0")];
    let mut forth = Aggregator::new(None).merge(&vec![a.clone(), b.clone()]).into_rows();
    let mut back = Aggregator::new(None).merge(&vec![b, a]).into_rows();
    forth.sort_by(|x, y| x.name.cmp(&y.name));
    back.sort_by(|x, y| x.name.cmp(&y.name));
    assert_eq!(forth, back);
    assert_eq!(forth.len(), 3);
}

#[test]
fn records_are_made_canonical_before_they_are_merged() {
    let mut scala = record("scala", "v2.13.12");
    scala.latest_lts_version = Some("v2.12.18".to_string());
    scala.cve_count = -3;
    let out = canonicalize(scala, &VersionCleaning::default()).expect("a record");
    assert_eq!(out.name, "scala");
    assert_eq!(out.latest_version, "2.13.12");
    assert_eq!(out.latest_lts_version, Some("2.12.18".to_string()));
    assert_eq!(out.cve_count, 0);
    let mut odd = record("docker", "24.0.7");
    odd.latest_lts_version = Some("stable".to_string());
    odd.cve_count = 2;
    let out = canonicalize(odd, &VersionCleaning::default()).expect("a record");
    assert_eq!(out.latest_version, "24.0.7");
    assert_eq!(out.latest_lts_version, None);
    assert_eq!(out.cve_count, 2);
    assert_eq!(canonicalize(record("x", "nightly"), &VersionCleaning::default()), None);
    assert_eq!(canonicalize(record("x", ""), &VersionCleaning::default()), None);
}

#[test]
fn stats_show_one_row_for_each_unit() {
    let mut orchestrator = running(&["go", "node", "go", "perl"]);
    assert!(orchestrator.complete(0, Ok(vec![record("go", "1.22.0")]), 0));
    assert!(orchestrator.complete(1, Err(Error::Transient("timeout".to_string())), 0));
    assert!(orchestrator.complete(2, Ok(Vec::new()), 0));
    let stats = orchestrator.stats(&vec![57, 12, 9]);
    assert_eq!(
        stats,
        vec![
            UnitStat {
                name: "go".to_string(),
                active: true,
                version_count: 57,
                volume: Volume::High,
                error_message: None,
            },
            UnitStat {
                name: "node".to_string(),
                active: false,
                version_count: 0,
                volume: Volume::NoData,
                error_message: Some("transient failure: timeout".to_string()),
            },
            UnitStat {
                name: "go".to_string(),
                active: false,
                version_count: 0,
                volume: Volume::NoData,
                error_message: Some("collector not found".to_string()),
            },
            UnitStat {
                name: "perl".to_string(),
                active: false,
                version_count: 0,
                volume: Volume::NoData,
                error_message: None,
            },
        ]
    );
    assert_eq!(total_versions(&stats), 57);
    assert_eq!(total_versions(&Vec::new()), 0);
    assert!(orchestrator.complete(3, Ok(vec![record("perl", "5.38.2")]), 0));
    let stats = orchestrator.stats(&vec![usize::MAX, 0, 0, 3]);
    assert_eq!(stats[0].volume, Volume::VeryHigh);
    assert_eq!(stats[3].version_count, 3);
    assert_eq!(total_versions(&stats), usize::MAX);
    assert!(Orchestrator::new(Aggregator::new(None)).stats(&vec![1]).is_empty());
}
