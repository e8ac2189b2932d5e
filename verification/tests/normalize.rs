use versionwatch::config::VersionCleaning;
use versionwatch::normalize::{
    clean_tag, collapse_branches, deduplicate, drop_prereleases, find_branch, normalize,
    normalize_all, normalize_version, pick_latest, trim_tag, CandidateRecord, CanonicalFragment,
};

fn candidate(name: &str, raw: &str) -> CandidateRecord {
    CandidateRecord {
        name: name.to_string(),
        raw_version: raw.to_string(),
        release_date: None,
        end_of_life_date: None,
        is_long_term_support: false,
        source_url: None,
    }
}

fn rules(prefix: Option<&str>, suffix: Option<&str>) -> VersionCleaning {
    VersionCleaning {
        enabled: true,
        regex: None,
        trim_prefix: prefix.map(|p| p.to_string()),
        trim_suffix: suffix.map(|s| s.to_string()),
    }
}

fn versions(fragments: &[CanonicalFragment]) -> Vec<String> {
    fragments.iter().map(|f| f.version.clone()).collect()
}

#[test]
fn suffix_rule_gives_the_canonical_version() {
    let out = normalize(&candidate("elixir", "1.17.3-latest"), &rules(None, Some("-latest")));
    let fragment = out.expect("a version");
    assert_eq!(fragment.product_name, "elixir");
    assert_eq!(fragment.version, "1.17.3");
    assert_eq!((fragment.major, fragment.minor, fragment.patch), (1, 17, 3));
    assert!(!fragment.prerelease);
}

#[test]
fn prerelease_filtering_keeps_the_releases_and_finds_the_latest() {
    let candidates = vec![
        candidate("apache", "v2.4.59"),
        candidate("apache", "v2.4.59-rc1"),
        candidate("apache", "v2.3.0"),
    ];
    let all = normalize_all(&candidates, &VersionCleaning::default());
    assert_eq!(versions(&all), vec!["2.4.59", "2.4.59-rc1", "2.3.0"]);
    let releases = deduplicate(&drop_prereleases(&all));
    assert_eq!(versions(&releases), vec!["2.4.59", "2.3.0"]);
    assert_eq!(pick_latest(&releases).expect("a latest").version, "2.4.59");
    assert_eq!(pick_latest(&all).expect("a latest").version, "2.4.59");
}

#[test]
fn normalized_versions_are_semantic_versions_without_a_leading_v() {
    let raws = vec![
        "v1.2.3", "vv1.2.3", "1.2.3", "release-1.2.3", "1.2.3-latest", "release-v1.2.3-latest",
        "main", "", "v", "1.2", "1.2.3.4", "01.2.3", "1.2.3-rc.1+build.5", "v1.2.3-", "1.2.3+",
        "latest", "release-", "-latest", "v1.0.0-alpha_1", "23456789999999999999.0.0",
    ];
    let settings = vec![
        VersionCleaning::default(),
        rules(Some("release-"), None),
        rules(None, Some("-latest")),
        rules(Some("release-"), Some("-latest")),
        rules(Some(""), Some("")),
        rules(Some("v"), Some("3")),
    ];
    let mut some = 0;
    for raw in &raws {
        for setting in &settings {
            if let Some(fragment) = normalize(&candidate("p", raw), setting) {
                some += 1;
                assert!(semver::Version::parse(&fragment.version).is_ok(), "{raw:?}");
                assert!(!fragment.version.starts_with('v'), "{raw:?}");
                let parsed = semver::Version::parse(&fragment.version).unwrap();
                assert_eq!(parsed.major, fragment.major);
                assert_eq!(parsed.minor, fragment.minor);
                assert_eq!(parsed.patch, fragment.patch);
                assert_eq!(!parsed.pre.is_empty(), fragment.prerelease);
            }
        }
    }
    assert!(some > 10);
}

#[test]
fn tags_that_are_no_versions_are_dropped() {
    let none = VersionCleaning::default();
    assert!(normalize(&candidate("p", "main"), &none).is_none());
    assert!(normalize(&candidate("p", "1.2"), &none).is_none());
    assert!(normalize(&candidate("p", ""), &none).is_none());
    assert!(normalize(&candidate("p", "01.2.3"), &none).is_none());
    assert!(normalize(&candidate("p", "1.2.3-latest"), &rules(None, Some("-latest"))).is_some());
}

#[test]
fn rules_apply_in_order_prefix_suffix_then_v() {
    let both = rules(Some("release-"), Some("-latest"));
    assert_eq!(trim_tag("release-v1.2.3-latest", &both), "1.2.3");
    assert_eq!(trim_tag("vrelease-1.2.3", &both), "release-1.2.3");
    assert_eq!(trim_tag("vvv1.2.3", &both), "1.2.3");
    let overlapping = rules(Some("ab"), Some("ba"));
    assert_eq!(trim_tag("aba", &overlapping), "a");
}

#[test]
fn disabled_rules_trim_only_the_v() {
    let mut off = rules(Some("release-"), Some("-latest"));
    off.enabled = false;
    assert_eq!(trim_tag("release-1.2.3-latest", &off), "release-1.2.3-latest");
    assert_eq!(trim_tag("v1.2.3-latest", &off), "1.2.3-latest");
    off.regex = Some(r"(\d+)".to_string());
    assert_eq!(clean_tag("v1.2.3", &off), Some("1.2.3".to_string()));
}

#[test]
fn extraction_pattern_picks_its_first_group() {
    let mut with_pattern = rules(None, None);
    with_pattern.regex = Some(r"jdk-(\d+\.\d+\.\d+)".to_string());
    assert_eq!(clean_tag("jdk-21.0.2+13", &with_pattern), Some("21.0.2".to_string()));
    assert_eq!(clean_tag("openjdk", &with_pattern), None);
    let out = normalize(&candidate("java", "jdk-21.0.2+13"), &with_pattern).expect("a version");
    assert_eq!(out.version, "21.0.2");
    with_pattern.regex = Some(r"\d+\.\d+\.\d+".to_string());
    assert_eq!(clean_tag("jdk-21.0.2", &with_pattern), None);
    with_pattern.regex = Some("(".to_string());
    assert_eq!(clean_tag("jdk-21.0.2", &with_pattern), None);
}

#[test]
fn normalize_keeps_what_the_candidate_knows() {
    let mut c = candidate("node", "v20.11.0");
    c.release_date = Some(19737);
    c.end_of_life_date = Some(20573);
    c.is_long_term_support = true;
    c.source_url = Some("https://nodejs.org".to_string());
    let f = normalize(&c, &VersionCleaning::default()).expect("a version");
    assert_eq!(f.version, "20.11.0");
    assert_eq!(f.release_date, Some(19737));
    assert_eq!(f.end_of_life_date, Some(20573));
    assert!(f.is_long_term_support);
    assert_eq!(f.source_url, Some("https://nodejs.org".to_string()));
}

#[test]
fn duplicates_collapse_to_their_first_occurrence() {
    let mut first = candidate("p", "v1.0.0");
    first.release_date = Some(1);
    let mut second = candidate("p", "1.0.0");
    second.release_date = Some(2);
    let all = normalize_all(
        &vec![first, candidate("p", "2.0.0"), second, candidate("p", "v2.0.0")],
        &VersionCleaning::default(),
    );
    assert_eq!(all.len(), 4);
    let unique = deduplicate(&all);
    assert_eq!(versions(&unique), vec!["1.0.0", "2.0.0"]);
    assert_eq!(unique[0].release_date, Some(1));
}

#[test]
fn latest_orders_by_number_not_by_text() {
    let all = normalize_all(
        &vec![
            candidate("p", "1.9.0"),
            candidate("p", "1.10.0"),
            candidate("p", "1.2.30"),
            candidate("p", "2.0.0-beta"),
        ],
        &VersionCleaning::default(),
    );
    assert_eq!(pick_latest(&all).expect("a latest").version, "1.10.0");
}

#[test]
fn latest_of_prereleases_only_is_none() {
    let all = normalize_all(
        &vec![candidate("p", "1.0.0-rc1"), candidate("p", "2.0.0-beta")],
        &VersionCleaning::default(),
    );
    assert_eq!(all.len(), 2);
    assert!(pick_latest(&all).is_none());
    assert!(pick_latest(&Vec::new()).is_none());
}

#[test]
fn latest_of_equal_releases_is_the_first() {
    let all = normalize_all(
        &vec![candidate("p", "1.0.0+a"), candidate("p", "1.0.0+b")],
        &VersionCleaning::default(),
    );
    assert_eq!(pick_latest(&all).expect("a latest").version, "1.0.0+a");
}

#[test]
fn branches_collapse_to_their_highest_patch() {
    let all = normalize_all(
        &vec![
            candidate("p", "8.0.35"),
            candidate("p", "8.4.0"),
            candidate("p", "8.0.36"),
            candidate("p", "5.7.44"),
            candidate("p", "8.0.4"),
            candidate("p", "8.4.0+build"),
            candidate("p", "5.7.9"),
        ],
        &VersionCleaning::default(),
    );
    let branches = collapse_branches(&all);
    assert_eq!(versions(&branches), vec!["8.0.36", "8.4.0", "5.7.44"]);
    assert_eq!(find_branch(&branches, &all[4]), Some(0));
    assert_eq!(find_branch(&branches, &all[6]), Some(2));
    assert_eq!(find_branch(&Vec::new(), &all[0]), None);
    assert!(collapse_branches(&Vec::new()).is_empty());
}

#[test]
fn normalize_version_gives_the_version_alone() {
    let none = VersionCleaning::default();
    assert_eq!(normalize_version("v1.2.3", &none), Some("1.2.3".to_string()));
    assert_eq!(normalize_version("1.2", &none), None);
    assert_eq!(normalize_version("go1.22.0", &rules(Some("go"), None)), Some("1.22.0".to_string()));
}
