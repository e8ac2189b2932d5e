use versionwatch::collect::eclipse_temurin::VersionInfo;
use versionwatch::collect::github::TagRequest;
use versionwatch::collect::node::NodeRelease;
use versionwatch::collect::perl::{numbers_of, parts_less, PerlRelease};
use versionwatch::collect::swift::SwiftStep;
use versionwatch::collect::tags::{
    admits, keep_release, pad_version, stable_version_of, stable_versions_of, versions_of,
};
use versionwatch::config::VersionCleaning;
use versionwatch::error::{Error, RateLimit};
use versionwatch::semver::SemVer;
use versionwatch::{
    ApacheCollector, DockerCollector, EclipseTemurinCollector, GitHubCollector, GitHubRelease,
    GitHubSource, GitHubTag, GoCollector, KongCollector, MongoDbCollector, MySqlCollector,
    NginxCollector, NodeCollector, PerlCollector, PhpCollector, PostgresqlCollector,
    ProductCycle, PythonCollector, RubyCollector, RustCollector, ScalaCollector, SwiftCollector,
};

fn bare(version: &str) -> ProductCycle {
    ProductCycle::bare(version.to_string())
}

fn dated(version: &str, release: Option<i32>, eol: Option<i32>) -> ProductCycle {
    ProductCycle { name: version.to_string(), release_date: release, eol_date: eol, lts: false }
}

fn names(tags: &[&str]) -> Vec<String> {
    tags.iter().map(|t| t.to_string()).collect()
}

fn release(tag: &str, prerelease: bool, draft: bool) -> GitHubRelease {
    GitHubRelease {
        name: format!("Release {tag}"),
        tag_name: tag.to_string(),
        prerelease,
        draft,
        html_url: format!("https://github.com/x/y/releases/tag/{tag}"),
        published_at: Some("2024-01-15T10:30:00Z".to_string()),
    }
}

fn tag(name: &str) -> GitHubTag {
    GitHubTag { name: name.to_string(), commit_url: Some(format!("https://api.github.com/c/{name}")) }
}

#[test]
fn collectors_report_under_their_names() {
    assert_eq!(ApacheCollector::new().name(), "apache");
    assert_eq!(ApacheCollector::default().name(), "apache");
    assert_eq!(DockerCollector::new(None).name(), "docker");
    assert_eq!(EclipseTemurinCollector::new("eclipse-temurin").name(), "eclipse-temurin");
    assert_eq!(GitHubCollector::new("caddy", "caddyserver/caddy", GitHubSource::Releases).name(), "caddy");
    assert_eq!(GoCollector::new("go").name(), "go");
    assert_eq!(KongCollector::new("kong", None).name(), "kong");
    assert_eq!(MongoDbCollector::new("mongodb").name(), "mongodb");
    assert_eq!(MySqlCollector::new("mysql").name(), "mysql");
    assert_eq!(MySqlCollector::with_token("mysql", "t".to_string()).name(), "mysql");
    assert_eq!(NginxCollector::new("nginx", None).name(), "nginx");
    assert_eq!(NodeCollector::new("node").name(), "node");
    assert_eq!(PerlCollector.name(), "perl");
    assert_eq!(PhpCollector::new("php").name(), "php");
    assert_eq!(PostgresqlCollector::new("postgresql").name(), "postgresql");
    assert_eq!(PythonCollector::new(None).name(), "python");
    assert_eq!(RubyCollector::new("ruby", None).name(), "ruby");
    assert_eq!(RustCollector::new("rust", None).name(), "rust");
    assert_eq!(ScalaCollector::new(None).name(), "scala");
    assert_eq!(SwiftCollector::new("swift", None).name(), "swift");
}

#[test]
fn collectors_carry_the_token_they_were_given() {
    assert_eq!(MySqlCollector::new("mysql").github_token(), None);
    assert_eq!(MySqlCollector::with_token("mysql", "abc".to_string()).github_token(), Some(&"abc".to_string()));
    assert_eq!(KongCollector::new("kong", Some("k".to_string())).github_token(), Some(&"k".to_string()));
    assert_eq!(DockerCollector::new(Some("d".to_string())).github_token(), Some(&"d".to_string()));
    assert_eq!(SwiftCollector::new("swift", None).github_token(), None);
}

#[test]
fn collectors_name_their_sources() {
    assert_eq!(ApacheCollector::new().current_url(), "https://downloads.apache.org/httpd/");
    assert_eq!(ApacheCollector::new().archive_url(), "http://archive.apache.org/dist/httpd/");
    assert_eq!(GoCollector::new("go").url(), "https://go.dev/doc/devel/release");
    assert_eq!(
        MySqlCollector::new("mysql").github_url(),
        "https://api.github.com/repos/mysql/mysql-server/tags?per_page=100"
    );
    assert_eq!(
        MySqlCollector::new("mysql").docker_url(),
        "https://hub.docker.com/v2/repositories/library/mysql/tags/?page_size=500"
    );
    assert_eq!(
        EclipseTemurinCollector::page_url(3),
        "https://api.adoptium.net/v3/info/release_versions?architecture=x64&release_type=ga&vendor=eclipse&page=3&page_size=100"
    );
    let info = VersionInfo { major: 21, optional: Some("LTS".to_string()), semver: "21.0.2+13.0.LTS".to_string() };
    assert_eq!(
        EclipseTemurinCollector::commit_url(&info),
        "https://api.github.com/repos/adoptium/temurin21-binaries/git/tags/21.0.2+13.0.LTS"
    );
    let releases = GitHubCollector::new("caddy", "caddyserver/caddy", GitHubSource::Releases);
    assert_eq!(releases.url(), "https://api.github.com/repos/caddyserver/caddy/releases");
    assert_eq!(releases.listing(), GitHubSource::Releases);
    let tags = GitHubCollector::new("kotlin", "JetBrains/kotlin", GitHubSource::Tags);
    assert_eq!(tags.url(), "https://api.github.com/repos/JetBrains/kotlin/tags");
    assert_eq!(
        GitHubCollector::page(&tags.url(), 7),
        "https://api.github.com/repos/JetBrains/kotlin/tags?page=7&per_page=100"
    );
}

#[test]
fn mysql_reads_versions_from_5_6_on_each_once() {
    let tags = names(&[
        "mysql-8.0.36", "mysql-cluster-8.0.36", "8.4.0-oracle", "mysql-5.5.62", "5.6.0", "5.7.44",
        "latest", "mysql-8.0", "9.3.0-oraclelinux9", "8.4.0",
    ]);
    assert_eq!(
        MySqlCollector::cycles(&tags),
        Ok(vec![bare("8.0.36"), bare("8.4.0"), bare("5.6.0"), bare("5.7.44"), bare("9.3.0")])
    );
    assert_eq!(MySqlCollector::cycles(&names(&["latest", "mysql-5.5.62"])), Err(Error::NotFound));
    assert_eq!(MySqlCollector::cycles(&Vec::new()), Err(Error::NotFound));
}

#[test]
fn kong_reads_versions_from_2_on() {
    let tags = names(&["3.5.0", "3.4.3-ubuntu", "1.5.1", "2.0.0", "kong-3.6.0", "3.5.0", "3.6", "v3.7.0"]);
    assert_eq!(KongCollector::cycles(&tags), Ok(vec![bare("3.5.0"), bare("3.4.3"), bare("2.0.0")]));
    assert_eq!(KongCollector::cycles(&names(&["1.5.1"])), Err(Error::NotFound));
}

#[test]
fn swift_pads_versions_of_two_numbers() {
    let tags = names(&["swift-5.9-RELEASE", "5.9.2", "5.10", "swift-4.2-RELEASE", "6.0.3-jammy", "5.9.0", "latest"]);
    assert_eq!(
        SwiftCollector::process_tags(&tags),
        vec![bare("5.9.0"), bare("5.9.2"), bare("5.10.0"), bare("6.0.3")]
    );
}

#[test]
fn swift_goes_on_to_github_only_where_docker_hub_refuses() {
    let limited = Error::RateLimited("API rate limit exceeded".to_string());
    let denied = Error::Forbidden("no token".to_string());
    assert_eq!(
        SwiftCollector::after_docker(Ok(names(&["5.9.2"]))),
        SwiftStep::Done(Ok(vec![bare("5.9.2")]))
    );
    assert_eq!(SwiftCollector::after_docker(Err(limited.clone())), SwiftStep::FetchGitHub);
    assert_eq!(SwiftCollector::after_docker(Err(denied)), SwiftStep::FetchGitHub);
    assert_eq!(
        SwiftCollector::after_docker(Ok(names(&["latest"]))),
        SwiftStep::Done(Err(Error::NotFound))
    );
    assert_eq!(SwiftCollector::after_docker(Ok(Vec::new())), SwiftStep::Done(Err(Error::NotFound)));
    for failure in [
        Error::NotFound,
        Error::Transient("timeout".to_string()),
        Error::Malformed("not json".to_string()),
        Error::Other("500".to_string()),
    ] {
        assert_eq!(
            SwiftCollector::after_docker(Err(failure.clone())),
            SwiftStep::Done(Err(failure))
        );
    }
}

#[test]
fn swift_returns_what_github_alone_gives_after_a_refusal() {
    let limited = Error::RateLimited("API rate limit exceeded".to_string());
    let answers: Vec<Result<Vec<String>, Error>> = vec![
        Ok(names(&["swift-6.0-RELEASE", "swift-5.9.2-RELEASE", "nightly"])),
        Ok(names(&["nightly"])),
        Ok(Vec::new()),
        Err(Error::NotFound),
        Err(limited.clone()),
        Err(Error::Forbidden("no".to_string())),
        Err(Error::Transient("timeout".to_string())),
        Err(Error::Malformed("bad".to_string())),
    ];
    for github in answers {
        let alone = SwiftCollector::after_github(github.clone());
        let chained = SwiftCollector::collect_from(Err(limited.clone()), github.clone());
        assert_eq!(chained, (1, alone.clone()));
        match github {
            Ok(tags) => {
                let cycles = SwiftCollector::process_tags(&tags);
                if cycles.is_empty() {
                    assert_eq!(alone, Err(Error::NotFound));
                } else {
                    assert_eq!(alone, Ok(cycles));
                }
            }
            Err(e) => assert_eq!(alone, Err(e)),
        }
    }
    assert_eq!(
        SwiftCollector::after_github(Ok(names(&["swift-6.0-RELEASE"]))),
        Ok(vec![bare("6.0.0")])
    );
    assert_eq!(
        SwiftCollector::collect_from(Ok(names(&["5.10"])), Ok(names(&["6.0.3"]))),
        (0, Ok(vec![bare("5.10.0")]))
    );
    assert_eq!(
        SwiftCollector::collect_from(Err(Error::Transient("x".to_string())), Ok(names(&["6.0.3"]))),
        (0, Err(Error::Transient("x".to_string())))
    );
    assert_eq!(
        SwiftCollector::collect_from(Ok(names(&["latest"])), Ok(names(&["6.0.3"]))),
        (0, Err(Error::NotFound))
    );
}

#[test]
fn names_read_off_tags_are_semantic_versions_without_a_leading_v() {
    let tags = names(&[
        "swift-5.9-RELEASE", "v5.10.1", "vv6.0.0", "swift-6.0.3-jammy", "5.8", "v", "latest",
        "mysql-8.0.36", "3.5.0", "v3.4.3", "kong-3.6.0",
    ]);
    let mut seen = 0;
    for cycles in [
        SwiftCollector::process_tags(&tags),
        MySqlCollector::cycles(&tags).unwrap_or_default(),
        KongCollector::cycles(&tags).unwrap_or_default(),
    ] {
        for cycle in cycles {
            seen += 1;
            assert!(semver::Version::parse(&cycle.name).is_ok(), "{}", cycle.name);
            assert!(!cycle.name.starts_with('v'), "{}", cycle.name);
        }
    }
    assert!(seen >= 8);
    let releases = vec![
        release("v2.7.6", false, false),
        release("vv2.7.5", false, false),
        release("caddy_2_7", false, false),
        release("release-v1.0.0-beta", true, false),
        release("nightly", false, false),
    ];
    let collector = GitHubCollector::new("caddy", "caddyserver/caddy", GitHubSource::Releases);
    let cycles = collector.cycles_from_releases(&releases).expect("cycles");
    assert_eq!(cycles.len(), 2);
    for cycle in cycles {
        assert!(semver::Version::parse(&cycle.name).is_ok(), "{}", cycle.name);
        assert!(!cycle.name.starts_with('v'), "{}", cycle.name);
    }
}

#[test]
fn tag_versions_pad_and_floor() {
    assert_eq!(pad_version("5.9".to_string(), true), "5.9.0");
    assert_eq!(pad_version("5.9".to_string(), false), "5.9");
    assert_eq!(pad_version("5.9.1".to_string(), true), "5.9.1");
    assert_eq!(pad_version("5".to_string(), true), "5");
    let v = SemVer { major: 5, minor: 6, patch: 0, pre: String::new(), build: String::new() };
    assert!(admits(&Some(v), (5, 6, 0)));
    let v = SemVer { major: 5, minor: 5, patch: 99, pre: String::new(), build: String::new() };
    assert!(!admits(&Some(v), (5, 6, 0)));
    let v = SemVer { major: 6, minor: 0, patch: 0, pre: String::new(), build: String::new() };
    assert!(admits(&Some(v), (5, 6, 0)));
    assert!(!admits(&None, (0, 0, 0)));
    assert_eq!(versions_of("(", &names(&["1.2.3"]), false, (0, 0, 0)), Vec::<String>::new());
    assert_eq!(versions_of(r"(\d+)", &names(&["1.2.3"]), false, (0, 0, 0)), Vec::<String>::new());
}

#[test]
fn ruby_keeps_the_stable_versions_of_its_releases() {
    let releases = vec![
        release("v3.3.0", false, false),
        release("v3.3.0-preview1", true, false),
        release("3.2.2", false, false),
        release("v3.4.0-rc1", false, false),
        release("v3_3_6", false, false),
        release("vv3.1.4", false, false),
        release("ruby_3_1", false, false),
        release("v", false, false),
        release("v3.3.0", false, false),
        release("v3.0.7", true, false),
    ];
    assert_eq!(
        RubyCollector::cycles(&releases),
        Ok(vec![bare("3.3.0"), bare("3.2.2"), bare("3.1.4")])
    );
    assert_eq!(RubyCollector::cycles(&vec![release("v3_3_6", false, false)]), Err(Error::NotFound));
    assert_eq!(RubyCollector::cycles(&vec![release("v", false, false)]), Err(Error::NotFound));
    assert_eq!(RubyCollector::cycles(&Vec::new()), Err(Error::NotFound));
}

#[test]
fn rust_keeps_the_stable_versions_of_its_releases() {
    let releases = vec![
        release("1.75.0", false, false),
        release("v1.74.1", false, false),
        release("1.76.0-beta", true, false),
        release("1.76.0-beta.2", false, false),
        release("nightly", false, false),
        release("release.candidate", false, false),
        release("1.75.0", false, false),
        release("1.73", false, false),
    ];
    assert_eq!(RustCollector::cycles(&releases), Ok(vec![bare("1.75.0"), bare("1.74.1")]));
    assert_eq!(RustCollector::cycles(&vec![release("nightly", false, false)]), Err(Error::NotFound));
}

#[test]
fn nginx_keeps_the_stable_versions_of_its_tags() {
    let tags = vec![
        tag("release-1.25.3"),
        tag("release-1.25"),
        tag("1.24.0"),
        tag("release-1.27.0-rc1"),
        tag("release-x.1"),
        tag("release-1"),
        tag("release-release-1.2.3"),
        tag("release-v1.23.4"),
        tag("release-1.25.3"),
        tag("default"),
    ];
    assert_eq!(
        NginxCollector::cycles(&tags),
        Ok(vec![bare("1.25.3"), bare("1.24.0"), bare("1.23.4")])
    );
    assert_eq!(NginxCollector::cycles(&vec![tag("default")]), Err(Error::NotFound));
    assert_eq!(NginxCollector::cleaning().trim_prefix, Some("release-".to_string()));
}

#[test]
fn docker_takes_the_highest_stable_release() {
    let releases = vec![
        release("v26.1.5", false, false),
        release("v27.3.1", false, false),
        release("v28.0.0-rc.1", true, false),
        release("v28.0.0", false, true),
        release("v27.3.0", false, false),
        release("v27.4.0-beta.1", false, false),
        release("docker-v29.0.0", false, false),
    ];
    let record = DockerCollector::record(&releases).expect("a record");
    assert_eq!(record.name, "docker");
    assert_eq!(record.current_version, "");
    assert_eq!(record.latest_version, "27.3.1");
    assert_eq!(record.latest_lts_version, None);
    assert!(!record.is_lts);
    assert_eq!(record.eol_date, None);
    assert_eq!(
        record.release_notes_url,
        Some("https://github.com/x/y/releases/tag/v27.3.1".to_string())
    );
    assert_eq!(record.cve_count, 0);
    let descending = vec![release("v24.0.7", false, false), release("v24.0.6", false, false)];
    assert_eq!(DockerCollector::record(&descending).expect("a record").latest_version, "24.0.7");
    assert_eq!(DockerCollector::record(&vec![release("v1.0.0", true, false)]), Err(Error::NotFound));
    assert_eq!(DockerCollector::record(&vec![release("stable", false, false)]), Err(Error::NotFound));
    assert_eq!(DockerCollector::record(&Vec::new()), Err(Error::NotFound));
}

#[test]
fn scala_takes_the_highest_stable_release() {
    let releases = vec![
        release("v2.13.13-M1", true, false),
        release("v2.12.19", false, false),
        release("v2.13.12", false, false),
        release("v2.13.9", false, false),
    ];
    let record = ScalaCollector::record(&releases).expect("a record");
    assert_eq!(record.name, "scala");
    assert_eq!(record.latest_version, "2.13.12");
    assert_eq!(
        record.release_notes_url,
        Some("https://github.com/x/y/releases/tag/v2.13.12".to_string())
    );
    assert_eq!(ScalaCollector::record(&Vec::new()), Err(Error::NotFound));
}

#[test]
fn python_takes_the_highest_release_among_its_tags() {
    let tags = vec![tag("v3.12.1"), tag("v3.13.0a3"), tag("v3.13.0-alpha.3"), tag("v3.9.18"), tag("v3.12.10"), tag("3.8"), tag("legacy-trunk")];
    let record = PythonCollector::record(&tags).expect("a record");
    assert_eq!(record.name, "python");
    assert_eq!(record.latest_version, "3.12.10");
    assert_eq!(record.release_notes_url, None);
    assert_eq!(PythonCollector::record(&vec![tag("v3.13.0-rc.1")]), Err(Error::NotFound));
}

#[test]
fn github_reads_the_stable_releases_with_their_days() {
    let collector = GitHubCollector::new("caddy", "caddyserver/caddy", GitHubSource::Releases);
    let mut second = release("caddy_2_7", false, false);
    second.published_at = None;
    let mut third = release("v2.6.4", false, false);
    third.published_at = Some("yesterday".to_string());
    let mut fourth = release("2.8.0-beta.1", true, false);
    fourth.published_at = Some("2024-04-30T23:30:00-02:00".to_string());
    let mut fifth = release("v2.7.6", false, false);
    fifth.published_at = None;
    let mut sixth = release("v2.8.0", false, false);
    sixth.published_at = Some("2024-04-30T23:30:00-02:00".to_string());
    let releases = vec![
        release("v2.7.6", false, false),
        second,
        third,
        release("nightly", false, false),
        fourth,
        release("v2.9.0-rc.1", false, false),
        release("v3.0.0", true, false),
        fifth,
        sixth,
    ];
    assert_eq!(
        collector.cycles_from_releases(&releases),
        Ok(vec![
            dated("2.7.6", Some(19737), None),
            dated("2.6.4", None, None),
            dated("2.8.0", Some(19844), None),
        ])
    );
    assert_eq!(
        collector.cycles_from_releases(&vec![release("nightly", false, false)]),
        Err(Error::NotFound)
    );
    assert_eq!(
        collector.cycles_from_releases(&vec![release("2.8.0-beta.1", true, false)]),
        Err(Error::NotFound)
    );
    assert_eq!(
        collector.cycles_from_releases(&vec![release("2.8.0-beta.1", false, false)]),
        Err(Error::NotFound)
    );
}

#[test]
fn github_makes_cycles_of_versions_and_days() {
    assert_eq!(GitHubCollector::dated_cycle("1.2.3".to_string(), Some(5)), dated("1.2.3", Some(5), None));
    assert_eq!(GitHubCollector::dated_cycle("1.2.3".to_string(), None), bare("1.2.3"));
}

#[test]
fn github_reads_tags_under_the_rules_of_its_target() {
    let plain = GitHubCollector::new("elixir", "elixir-lang/elixir", GitHubSource::Releases);
    assert_eq!(plain.cleaning(), &VersionCleaning::default());
    assert_eq!(
        plain.cycles_from_releases(&vec![release("1.17.3-latest", false, false)]),
        Err(Error::NotFound)
    );
    let rules = VersionCleaning {
        enabled: true,
        regex: None,
        trim_prefix: Some("release-".to_string()),
        trim_suffix: Some("-latest".to_string()),
    };
    let cleaning = GitHubCollector::new("elixir", "elixir-lang/elixir", GitHubSource::Releases)
        .with_cleaning(rules.clone());
    assert_eq!(cleaning.name(), "elixir");
    assert_eq!(cleaning.cleaning(), &rules);
    let mut one = release("1.17.3-latest", false, false);
    one.published_at = None;
    let mut two = release("release-v1.16.0", false, false);
    two.published_at = None;
    assert_eq!(
        cleaning.cycles_from_releases(&vec![one, two]),
        Ok(vec![bare("1.17.3"), bare("1.16.0")])
    );
    let by_pattern = GitHubCollector::new("kotlin", "JetBrains/kotlin", GitHubSource::Tags)
        .with_cleaning(VersionCleaning {
            enabled: true,
            regex: Some(r"^build-(.*)$".to_string()),
            trim_prefix: None,
            trim_suffix: None,
        });
    let requests = by_pattern.requests_from_tags(&vec![tag("build-1.9.22"), tag("v1.9.21")]);
    assert_eq!(requests.len(), 1);
    assert_eq!(requests[0].version, "1.9.22");
}

#[test]
fn github_asks_for_each_stable_version_once() {
    let collector = GitHubCollector::new("apache", "apache/httpd", GitHubSource::Tags);
    let tags = vec![tag("v2.4.59"), tag("v2.4.59-rc1"), tag("v2.3.0")];
    let requests = collector.requests_from_tags(&tags);
    assert_eq!(
        requests,
        vec![
            TagRequest { version: "2.4.59".to_string(), commit_url: Some("https://api.github.com/c/v2.4.59".to_string()) },
            TagRequest { version: "2.3.0".to_string(), commit_url: Some("https://api.github.com/c/v2.3.0".to_string()) },
        ]
    );
    for days in [Vec::new(), vec![None, None], vec![Some(19737)], vec![Some(1), Some(2), Some(3)]] {
        let cycles = GitHubCollector::cycles_from_tags(&requests, &days).expect("cycles");
        let names: Vec<&str> = cycles.iter().map(|c| c.name.as_str()).collect();
        assert_eq!(names, vec!["2.4.59", "2.3.0"]);
    }
    assert_eq!(
        collector.requests_from_tags(&vec![tag("v2.5.0-rc1"), tag("2.5.0-beta")]),
        Vec::new()
    );
}

#[test]
fn github_dates_its_tags_place_by_place() {
    let collector = GitHubCollector::new("kotlin", "JetBrains/kotlin", GitHubSource::Tags);
    let tags = vec![
        tag("v1.9.22"),
        tag("stable"),
        tag("v1.9.21"),
        tag("1.9.22"),
        GitHubTag { name: "v1.9.20".to_string(), commit_url: None },
        tag("vv1.9.21"),
    ];
    let requests = collector.requests_from_tags(&tags);
    assert_eq!(
        requests,
        vec![
            TagRequest { version: "1.9.22".to_string(), commit_url: Some("https://api.github.com/c/v1.9.22".to_string()) },
            TagRequest { version: "1.9.21".to_string(), commit_url: Some("https://api.github.com/c/v1.9.21".to_string()) },
            TagRequest { version: "1.9.20".to_string(), commit_url: None },
        ]
    );
    assert!(GitHubCollector::has_request(&requests, "1.9.21"));
    assert!(!GitHubCollector::has_request(&requests, "1.9.19"));
    assert_eq!(
        GitHubCollector::cycles_from_tags(&requests, &vec![Some(19737), None]),
        Ok(vec![dated("1.9.22", Some(19737), None), dated("1.9.21", None, None), dated("1.9.20", None, None)])
    );
    let cycles = GitHubCollector::cycles_from_tags(&requests, &Vec::new()).expect("cycles");
    assert!(GitHubCollector::has_name(&cycles, "1.9.20"));
    assert!(!GitHubCollector::has_name(&cycles, "v1.9.20"));
    assert_eq!(GitHubCollector::cycles_from_tags(&Vec::new(), &vec![Some(1)]), Err(Error::NotFound));
}

#[test]
fn apache_gathers_versions_sorted_and_once() {
    let current = r#"<a href="httpd-2.4.63.tar.gz">httpd-2.4.63.tar.gz</a> <a href="httpd-2.4.63.tar.gz.asc">sig</a>"#;
    let archive = r#"
        <a href="apache_1.3.42.tar.gz">apache_1.3.42.tar.gz</a>
        <a href="httpd-2.0.65.tar.gz">httpd-2.0.65.tar.gz</a>
        <a href="httpd-2.2.34.tar.gz">httpd-2.2.34.tar.gz</a>
        <a href="httpd-2.4.9.tar.gz">httpd-2.4.9.tar.gz</a>
        <a href="httpd-2.4.10.tar.gz">httpd-2.4.10.tar.gz</a>
        <a href="httpd-2.4.63.tar.gz">httpd-2.4.63.tar.gz</a>
        <a href="httpd-2.4.63.tar.bz2">httpd-2.4.63.tar.bz2</a>
    "#;
    assert_eq!(
        ApacheCollector::versions(current, archive),
        names(&["1.3.42", "2.0.65", "2.2.34", "2.4.10", "2.4.63", "2.4.9"])
    );
    assert_eq!(ApacheCollector::cycles(current, ""), Ok(vec![bare("2.4.63")]));
    assert_eq!(ApacheCollector::cycles("", ""), Err(Error::NotFound));
    assert_eq!(
        ApacheCollector::gather(&names(&["b", "a"]), &names(&["c", "a"]), &names(&["", "b", "ab"])),
        names(&["", "a", "ab", "b", "c"])
    );
}

#[test]
fn apache_fails_on_any_status_but_200() {
    let plain = RateLimit { remaining: None, reset_at: None, now: 0 };
    assert_eq!(ApacheCollector::check_status("Apache download page", 200, &plain), None);
    assert_eq!(
        ApacheCollector::check_status("Apache download page", 503, &plain),
        Some(Error::Other("Apache download page returned status 503".to_string()))
    );
    assert_eq!(
        ApacheCollector::check_status("Apache archive page", 204, &plain),
        Some(Error::Other("Apache archive page returned status 204".to_string()))
    );
    assert_eq!(
        ApacheCollector::check_status("Apache archive page", 429, &plain),
        Some(Error::RateLimited("API rate limit exceeded".to_string()))
    );
    assert_eq!(
        ApacheCollector::check_status("Apache archive page", 403, &plain),
        Some(Error::Forbidden("access denied; a token may be required".to_string()))
    );
    let spent = RateLimit { remaining: Some(0), reset_at: Some(90), now: 30 };
    assert_eq!(
        ApacheCollector::check_status("Apache archive page", 403, &spent),
        Some(Error::RateLimited("API rate limit exceeded; retry in 1m 0s".to_string()))
    );
}

#[test]
fn go_dates_its_releases_and_ends_them_two_lines_later() {
    let text = "go1.21.0 (released 2023-08-08) go1.21rc2 (released 2023-06-21) \
        go1.21.1 (released 2023-09-06)\n go1.22.0 (released 2024-02-06)  go1.23.0  (released   2024-08-13) \
        go1.20 (released 2023-02-01) go1.9.9 (released 2023-13-45) go1.21.0 (released 2023-08-08)";
    assert_eq!(
        GoCollector::cycles_from_text(text),
        Ok(vec![
            dated("1.21.0", Some(19577), Some(19948)),
            dated("1.21.1", Some(19606), Some(19948)),
            dated("1.22.0", Some(19759), None),
            dated("1.23.0", Some(19948), None),
            dated("1.20", Some(19389), Some(19759)),
        ])
    );
    assert_eq!(GoCollector::cycles_from_text("no releases here"), Err(Error::NotFound));
    assert_eq!(GoCollector::cycles_from_text("go1.21rc2 (released 2023-06-21)"), Err(Error::NotFound));
}

#[test]
fn go_reads_the_text_of_the_page() {
    let html = "<html><body><h2 id=\"go1.22.0\">go1.22.0 (released 2024-02-06)</h2>\
        <p>go1.22.1 <b>(released 2024-03-19)</b> includes fixes</p></body></html>";
    assert_eq!(
        GoCollector::parse(html),
        Ok(vec![dated("1.22.0", Some(19759), None), dated("1.22.1", Some(19801), None)])
    );
}

#[test]
fn go_names_the_line_after_the_next() {
    assert_eq!(GoCollector::next_but_one_line("1.21.0"), Some("1.23".to_string()));
    assert_eq!(GoCollector::next_but_one_line("1.9"), Some("1.11".to_string()));
    assert_eq!(GoCollector::next_but_one_line("1"), None);
    assert_eq!(GoCollector::next_but_one_line("1.x.0"), None);
    assert_eq!(GoCollector::next_but_one_line("1.4294967294"), None);
    assert_eq!(GoCollector::next_but_one_line("1.4294967293"), Some("1.4294967295".to_string()));
}

#[test]
fn go_keeps_the_later_day_of_a_version_announced_twice() {
    let releases = vec![
        ("1.21.0".to_string(), 10),
        ("1.23.0".to_string(), 30),
        ("1.21.0".to_string(), 11),
        ("1.23.0".to_string(), 31),
    ];
    assert_eq!(
        GoCollector::cycles_from_releases(&releases),
        Ok(vec![dated("1.21.0", Some(11), Some(31)), dated("1.23.0", Some(31), None)])
    );
}

#[test]
fn mongodb_reads_the_server_table() {
    let html = "<html><body><h3>MongoDB Atlas</h3><table><tr><td>MongoDB 1.0</td><td>x</td><td>January 31, 2020</td></tr></table>\
        <h3> MongoDB Server </h3><table>\
        <tr><td>MongoDB 9.9</td><td>header</td><td>January 31, 2030</td></tr>\
        <tr><td> MongoDB 7.0 </td><td>August 2023</td><td> August 31, 2027 </td></tr>\
        <tr><td>MongoDB 6.0</td><td>July 2022</td><td>July 31, 2025</td></tr>\
        <tr><td>MongoDB 8.0</td><td>October 2024</td><td>TBD</td></tr>\
        <tr><td>MongoDB 5.0</td><td>July 2021</td></tr>\
        </table></body></html>";
    assert_eq!(
        MongoDbCollector::parse(html),
        Ok(vec![dated("7.0", None, Some(21061)), dated("6.0", None, Some(20300))])
    );
    assert_eq!(MongoDbCollector::parse("<html><body><h3>MongoDB Server</h3></body></html>"), Err(Error::NotFound));
    assert_eq!(MongoDbCollector::parse("<h3>Other</h3><table><tr><td>a</td></tr></table>"), Err(Error::NotFound));
    assert_eq!(MongoDbCollector::parse(""), Err(Error::NotFound));
}

#[test]
fn mongodb_takes_the_first_server_section_that_has_a_table() {
    let sections = vec![
        ("MongoDB Server".to_string(), None),
        ("Other".to_string(), Some(vec![vec!["h".to_string()]])),
        ("\tMongoDB Server\n".to_string(), Some(vec![
            vec!["h".to_string()],
            names(&["MongoDB 7.0", "", "August 31, 2027"]),
        ])),
        ("MongoDB Server".to_string(), Some(Vec::new())),
    ];
    assert_eq!(MongoDbCollector::server_section(&sections), Some(2));
    assert_eq!(MongoDbCollector::cycles(&sections), Ok(vec![dated("7.0", None, Some(21061))]));
    assert_eq!(MongoDbCollector::server_section(&Vec::new()), None);
    assert_eq!(
        MongoDbCollector::cycle_of_row(&names(&[" MongoDB 4.4 ", "x", "y"]), Some(5)),
        Some(dated("4.4", None, Some(5)))
    );
    assert_eq!(MongoDbCollector::cycle_of_row(&names(&["MongoDB 4.4", "x", "y"]), None), None);
    assert_eq!(MongoDbCollector::cycle_of_row(&names(&["MongoDB 4.4", "x"]), Some(5)), None);
}

#[test]
fn postgresql_reads_the_rows_of_the_first_table_and_skips_unreadable_dates() {
    let html = "<html><body><table><thead><tr><th>Version</th></tr></thead><tbody>\
        <tr><td> 17 </td><td>17.2</td><td>September 26, 2024</td><td>November 8, 2029</td></tr>\
        <tr><td><a href=\"/docs/16/\">16</a></td><td>16.6</td><td>September 14, 2023</td><td>November 9, 2028</td></tr>\
        <tr><td>15</td><td>15.10</td><td>September 14, 2023</td><td>soon</td></tr>\
        <tr><td>14</td><td>14.15</td><td>2021-09-30</td><td>November 12, 2026</td></tr>\
        <tr><td>13</td><td>13.18</td><td>Yes</td><td>No</td></tr>\
        <tr><td>12</td><td>12.22</td></tr>\
        </tbody></table><table><tbody><tr><td>9</td><td>a</td><td>September 14, 2023</td><td>November 9, 2028</td></tr></tbody></table></body></html>";
    assert_eq!(
        PostgresqlCollector::parse(html),
        Ok(vec![
            dated("17", Some(19992), Some(21861)),
            dated("<a href=\"/docs/16/\">16</a>", Some(19614), Some(21497)),
        ])
    );
    assert_eq!(PostgresqlCollector::parse("<p>no table</p>"), Err(Error::NotFound));
    let unreadable = "<table><tbody><tr><td>13</td><td>13.18</td><td>Yes</td><td>No</td></tr></tbody></table>";
    assert_eq!(PostgresqlCollector::parse(unreadable), Err(Error::NotFound));
    assert_eq!(
        PostgresqlCollector::cycle_of_row(&names(&["12", "", "", ""]), Some(1), Some(3)),
        Some(dated("12", Some(1), Some(3)))
    );
    assert_eq!(PostgresqlCollector::cycle_of_row(&names(&["12", "", "", ""]), None, Some(3)), None);
    assert_eq!(PostgresqlCollector::cycle_of_row(&names(&["12", "", "", ""]), Some(1), None), None);
    assert_eq!(PostgresqlCollector::cycle_of_row(&names(&["12", "", ""]), Some(1), Some(3)), None);
    let first = vec![names(&["11", "", "September 14, 2023", "November 9, 2028"])];
    let second = vec![names(&["10", "", "September 14, 2023", "November 9, 2028"])];
    assert_eq!(
        PostgresqlCollector::cycles_of_page(&vec![first, second]),
        Ok(vec![dated("11", Some(19614), Some(21497))])
    );
    assert_eq!(PostgresqlCollector::cycles_of_page(&Vec::new()), Err(Error::NotFound));
}

#[test]
fn php_reads_releases_and_the_ends_of_their_series() {
    let supported = "<html><body><table class=\"standard\"><thead><tr><th>Branch</th></tr></thead><tbody>\
        <tr><td><a href=\"x\">8.3</a></td><td>23 Nov 2023</td><td>31 Dec 2025</td><td>31 Dec 2027</td></tr>\
        <tr><td> 8.2 </td><td>8 Dec 2022</td><td>31 Dec 2024</td><td> 31 Dec 2026 </td></tr>\
        <tr><td>8.1</td><td>25 Nov 2021</td><td>x</td><td>never</td></tr>\
        <tr><td>8.0</td><td>a</td><td>b</td></tr>\
        </tbody></table><table><tbody><tr><td>7.4</td><td>a</td><td>b</td><td>31 Dec 2024</td></tr></tbody></table></body></html>";
    let releases = "<html><body><h2>8.3.0</h2><ul><li>Announcement</li><li>Released: 23 Nov 2023</li><li>Released: 01 Jan 2000</li></ul>\
        <h2>8.x</h2><ul><li>Released: 26 Nov 2020</li></ul>\
        <h2>8.2.0</h2><ul><li>Released: someday</li><li>Released:  08 Dec 2022 </li></ul>\
        <h2>8.1.0</h2><p>no list</p>\
        <h2>7.4.33</h2><ul><li>Was released: 10 Nov 2022</li></ul>\
        <h2>8</h2><ul><li>Released: 26 Nov 2020</li></ul>\
        <h2>5.6.40</h2></body></html>";
    assert_eq!(
        PhpCollector::parse(supported, releases),
        Ok(vec![
            dated("8.3.0", Some(19684), Some(21183)),
            dated("8.2.0", Some(19334), Some(20818)),
            dated("8", Some(18592), None),
        ])
    );
    assert_eq!(PhpCollector::parse(supported, "<h2>8.x</h2>"), Err(Error::NotFound));
}

#[test]
fn php_names_the_series_of_a_version() {
    assert_eq!(PhpCollector::series("8.3.0"), "8.3");
    assert_eq!(PhpCollector::series("8.3"), "8.3");
    assert_eq!(PhpCollector::series("8"), "8");
    assert_eq!(PhpCollector::series(""), "");
    assert_eq!(PhpCollector::series("8.3.0.1"), "8.3");
    assert_eq!(PhpCollector::day_text("Released: 23 Nov 2023"), Some("23 Nov 2023".to_string()));
    assert_eq!(PhpCollector::day_text("Released:Released: x "), Some("x".to_string()));
    assert_eq!(PhpCollector::day_text(" Released: 23 Nov 2023"), None);
    assert_eq!(PhpCollector::release_of_heading("8.3.0", Some(1)), Some(("8.3.0".to_string(), 1)));
    assert_eq!(PhpCollector::release_of_heading("8.x", Some(1)), None);
    assert_eq!(PhpCollector::release_of_heading("8.3.0", None), None);
    assert_eq!(PhpCollector::entry_of_row(&names(&[" 8.3 ", "", "", ""]), Some(9)), Some(("8.3".to_string(), 9)));
    assert_eq!(PhpCollector::entry_of_row(&names(&["8.3", "", ""]), Some(9)), None);
}

#[test]
fn php_keeps_the_later_end_of_a_series_listed_twice() {
    let table = vec![
        names(&["8.3", "", "", "31 Dec 2027"]),
        names(&["8.2", "", "", "31 Dec 2026"]),
        names(&["8.3", "", "", "31 Dec 2025"]),
    ];
    assert_eq!(PhpCollector::eol_dates(&table), vec![("8.3".to_string(), 20453), ("8.2".to_string(), 20818)]);
}

#[test]
fn node_joins_releases_and_schedule() {
    let releases = vec![
        NodeRelease { version: "v21.6.0".to_string(), date: 19737, lts: false },
        NodeRelease { version: "v20.11.0".to_string(), date: 19730, lts: true },
        NodeRelease { version: "v0.10.48".to_string(), date: 17000, lts: false },
        NodeRelease { version: "18".to_string(), date: 1, lts: true },
    ];
    let schedule = vec![
        ("v20".to_string(), 20573),
        ("v0.10".to_string(), 17100),
        ("v0".to_string(), 17200),
        ("v18".to_string(), 20208),
    ];
    assert_eq!(
        NodeCollector::cycles(&releases, &schedule),
        Ok(vec![
            ProductCycle { name: "21.6.0".to_string(), release_date: Some(19737), eol_date: None, lts: false },
            ProductCycle { name: "20.11.0".to_string(), release_date: Some(19730), eol_date: Some(20573), lts: true },
            ProductCycle { name: "0.10.48".to_string(), release_date: Some(17000), eol_date: Some(17200), lts: false },
            ProductCycle { name: "18".to_string(), release_date: Some(1), eol_date: Some(20208), lts: true },
        ])
    );
    assert_eq!(NodeCollector::cycles(&Vec::new(), &schedule), Err(Error::NotFound));
}

#[test]
fn temurin_marks_lts_and_dates_place_by_place() {
    let infos = vec![
        VersionInfo { major: 21, optional: Some("LTS".to_string()), semver: "21.0.2+13.0.LTS".to_string() },
        VersionInfo { major: 22, optional: None, semver: "22.0.0+36".to_string() },
        VersionInfo { major: 20, optional: Some("lts".to_string()), semver: "20.0.2+9".to_string() },
    ];
    assert_eq!(
        EclipseTemurinCollector::cycles(&infos, &vec![Some(19737)]),
        Ok(vec![
            ProductCycle { name: "21.0.2+13.0.LTS".to_string(), release_date: Some(19737), eol_date: None, lts: true },
            ProductCycle { name: "22.0.0+36".to_string(), release_date: None, eol_date: None, lts: false },
            ProductCycle { name: "20.0.2+9".to_string(), release_date: None, eol_date: None, lts: false },
        ])
    );
    assert_eq!(EclipseTemurinCollector::cycles(&Vec::new(), &Vec::new()), Err(Error::NotFound));
}

#[test]
fn temurin_listing_ends_on_a_blank_or_empty_body() {
    assert!(EclipseTemurinCollector::is_last_page(""));
    assert!(EclipseTemurinCollector::is_last_page("  \n"));
    assert!(EclipseTemurinCollector::is_last_page("{}"));
    assert!(EclipseTemurinCollector::is_last_page(" {}\n"));
    assert!(!EclipseTemurinCollector::is_last_page("{ }"));
    assert!(!EclipseTemurinCollector::is_last_page("{\"versions\":[]}"));
}

fn perl(version: &str, date: &str, status: &str, maturity: &str) -> PerlRelease {
    PerlRelease {
        version: version.to_string(),
        date: date.to_string(),
        status: status.to_string(),
        maturity: maturity.to_string(),
    }
}

#[test]
fn perl_keeps_stable_releases_sorted_by_number() {
    let releases = vec![
        perl("5.38.2", "2023-11-29T16:10:36", "cpan", "released"),
        perl("5.8.9", "2008-12-14T23:02:02Z", "cpan", "released"),
        perl("5.39.5", "2023-11-20T12:00:00Z", "cpan", "developer"),
        perl("5.36.3", "2023-11-25T15:22:20+00:00", "backpan", "released"),
        perl("5.10.1", "2009-08-23T00:21:33Z", "cpan", "released"),
        perl("5.37_01", "2022-06-20T00:00:00Z", "cpan", "released"),
        perl("4.036", "1993-02-05T00:00:00Z", "cpan", "released"),
        perl("5", "2000-01-01T00:00:00Z", "cpan", "released"),
        perl("v5.40.0", "2024-06-09T22:00:00Z", "cpan", "released"),
        perl("5.10.1", "2024-06-09T22:00:00Z", "cpan", "released"),
        perl("5.010.1", "2023-09-19T00:00:00Z", "cpan", "released"),
    ];
    assert_eq!(
        PerlCollector::cycles(&releases),
        Ok(vec![
            dated("5.8.9", Some(14227), None),
            dated("5.10.1", Some(19883), None),
            dated("5.010.1", Some(19619), None),
            dated("5.38.2", None, None),
        ])
    );
    assert_eq!(PerlCollector::cycles(&Vec::new()), Err(Error::NotFound));
}

#[test]
fn perl_orders_versions_by_their_numbers() {
    assert_eq!(numbers_of("5.38.2"), vec![5, 38, 2]);
    assert_eq!(numbers_of("5.x.2"), vec![5, 2]);
    assert_eq!(numbers_of(""), Vec::<u32>::new());
    let cases = vec![vec![], vec![5], vec![5, 8], vec![5, 8, 9], vec![5, 10], vec![5, 10, 1], vec![6]];
    for a in &cases {
        for b in &cases {
            assert_eq!(parts_less(a, b), a < b, "{a:?} {b:?}");
        }
    }
    let items = vec![
        ("5.10.1".to_string(), Some(1)),
        ("5.8.9".to_string(), None),
        ("5.010.1".to_string(), Some(2)),
        ("5.8".to_string(), Some(3)),
        ("5.8.9".to_string(), Some(4)),
    ];
    assert_eq!(
        PerlCollector::sort(&items),
        vec![
            ("5.8".to_string(), Some(3)),
            ("5.8.9".to_string(), None),
            ("5.8.9".to_string(), Some(4)),
            ("5.10.1".to_string(), Some(1)),
            ("5.010.1".to_string(), Some(2)),
        ]
    );
}

#[test]
fn stable_versions_are_releases_read_once() {
    let none = VersionCleaning::default();
    assert_eq!(stable_version_of("v1.2.3", &none), Some("1.2.3".to_string()));
    assert_eq!(stable_version_of("1.2.3+build.5", &none), Some("1.2.3+build.5".to_string()));
    assert_eq!(stable_version_of("v1.2.3-rc1", &none), None);
    assert_eq!(stable_version_of("1.2", &none), None);
    assert_eq!(stable_version_of("", &none), None);
    assert_eq!(
        stable_versions_of(&names(&["v2.4.59", "v2.4.59-rc1", "v2.3.0", "2.4.59", "main"]), &none),
        names(&["2.4.59", "2.3.0"])
    );
    let read = SemVer { major: 1, minor: 0, patch: 0, pre: String::new(), build: String::new() };
    assert_eq!(keep_release("1.0.0".to_string(), &Some(read)), Some("1.0.0".to_string()));
    let pre = SemVer { major: 1, minor: 0, patch: 0, pre: "rc1".to_string(), build: String::new() };
    assert_eq!(keep_release("1.0.0-rc1".to_string(), &Some(pre)), None);
    assert_eq!(keep_release("x".to_string(), &None), None);
}
