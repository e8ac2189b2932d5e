use versionwatch::config::{Target, VersionCleaning};
use versionwatch::metrics::{performance_category, Volume};
use versionwatch::source::{remaining_rules, source_by_name, source_of, SourceKind};

#[test]
fn each_product_has_its_collector() {
    let expected = vec![
        ("apache", SourceKind::Apache),
        ("docker", SourceKind::Docker),
        ("eclipse-temurin", SourceKind::EclipseTemurin),
        ("go", SourceKind::Go),
        ("kong", SourceKind::Kong),
        ("mongodb", SourceKind::MongoDb),
        ("mysql", SourceKind::MySql),
        ("nginx", SourceKind::Nginx),
        ("node", SourceKind::Node),
        ("perl", SourceKind::Perl),
        ("php", SourceKind::Php),
        ("postgresql", SourceKind::Postgresql),
        ("python", SourceKind::Python),
        ("ruby", SourceKind::Ruby),
        ("rust", SourceKind::Rust),
        ("scala", SourceKind::Scala),
        ("swift", SourceKind::Swift),
    ];
    for (name, kind) in expected {
        assert_eq!(source_by_name(name), Some(kind), "{name}");
    }
    assert_eq!(source_by_name("caddy"), None);
    assert_eq!(source_by_name("Go"), None);
    assert_eq!(source_by_name(""), None);
}

#[test]
fn other_products_are_read_from_their_repository() {
    let mut target = Target::new("caddy".to_string(), true, Some("caddyserver/caddy".to_string()));
    assert_eq!(source_of(&target), Some(SourceKind::GitHubReleases));
    target.github_source = "tags".to_string();
    assert_eq!(source_of(&target), Some(SourceKind::GitHubTags));
    target.github_source = "anything".to_string();
    assert_eq!(source_of(&target), Some(SourceKind::GitHubReleases));
    target.repository = None;
    assert_eq!(source_of(&target), None);
    let go = Target::new("go".to_string(), true, Some("golang/go".to_string()));
    assert_eq!(source_of(&go), Some(SourceKind::Go));
}

#[test]
fn volume_grades_the_number_of_versions() {
    let expected = vec![
        (0usize, "No Data"),
        (1, "Low Volume"),
        (10, "Low Volume"),
        (11, "Medium Volume"),
        (50, "Medium Volume"),
        (51, "High Volume"),
        (200, "High Volume"),
        (201, "Very High Volume"),
        (usize::MAX, "Very High Volume"),
    ];
    for (count, words) in expected {
        assert_eq!(performance_category(count), words, "{count}");
        assert_eq!(Volume::of(count).label(), words);
    }
    assert_eq!(Volume::of(0), Volume::NoData);
    assert_eq!(Volume::of(201), Volume::VeryHigh);
}

#[test]
fn rules_are_applied_once() {
    let mut target = Target::new("caddy".to_string(), true, Some("caddyserver/caddy".to_string()));
    target.cleaning = VersionCleaning {
        enabled: true,
        regex: None,
        trim_prefix: Some("release-".to_string()),
        trim_suffix: None,
    };
    assert_eq!(remaining_rules(SourceKind::GitHubReleases, &target), VersionCleaning::default());
    assert_eq!(remaining_rules(SourceKind::GitHubTags, &target), VersionCleaning::default());
    assert_eq!(remaining_rules(SourceKind::Go, &target), target.cleaning);
    assert_eq!(remaining_rules(SourceKind::Ruby, &target), target.cleaning);
}
