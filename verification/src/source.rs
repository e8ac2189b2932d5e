//! Which collector reads the source of a target.

use vstd::prelude::*;
use crate::config::{no_cleaning, Target, VersionCleaning};
use crate::text::text_eq;

verus! {

/// The collectors, one variant each.
#[derive(Debug, Clone, Copy, PartialEq, Eq, Structural)]
pub enum SourceKind {
    Apache,
    Docker,
    EclipseTemurin,
    Go,
    Kong,
    MongoDb,
    MySql,
    Nginx,
    Node,
    Perl,
    Php,
    Postgresql,
    Python,
    Ruby,
    Rust,
    Scala,
    Swift,
    GitHubReleases,
    GitHubTags,
}

/// The collector that a product has of its own, by the name of the product.
pub open spec fn kind_by_name(name: Seq<char>) -> Option<SourceKind> {
    if name == "apache"@ {
        Some(SourceKind::Apache)
    } else if name == "docker"@ {
        Some(SourceKind::Docker)
    } else if name == "eclipse-temurin"@ {
        Some(SourceKind::EclipseTemurin)
    } else if name == "go"@ {
        Some(SourceKind::Go)
    } else if name == "kong"@ {
        Some(SourceKind::Kong)
    } else if name == "mongodb"@ {
        Some(SourceKind::MongoDb)
    } else if name == "mysql"@ {
        Some(SourceKind::MySql)
    } else if name == "nginx"@ {
        Some(SourceKind::Nginx)
    } else if name == "node"@ {
        Some(SourceKind::Node)
    } else if name == "perl"@ {
        Some(SourceKind::Perl)
    } else if name == "php"@ {
        Some(SourceKind::Php)
    } else if name == "postgresql"@ {
        Some(SourceKind::Postgresql)
    } else if name == "python"@ {
        Some(SourceKind::Python)
    } else if name == "ruby"@ {
        Some(SourceKind::Ruby)
    } else if name == "rust"@ {
        Some(SourceKind::Rust)
    } else if name == "scala"@ {
        Some(SourceKind::Scala)
    } else if name == "swift"@ {
        Some(SourceKind::Swift)
    } else {
        None
    }
}

/// The collector of a target: the one that its product has of its own, else, where the
/// target names a repository, the one for the listing of GitHub that it asks for.
pub open spec fn kind_of(target: Target) -> Option<SourceKind> {
    match kind_by_name(target.name@) {
        Some(kind) => Some(kind),
        None => if target.repository is Some {
            if target.github_source@ == "tags"@ {
                Some(SourceKind::GitHubTags)
            } else {
                Some(SourceKind::GitHubReleases)
            }
        } else {
            None
        },
    }
}

/// Finds the collector that a product has of its own.
pub fn source_by_name(name: &str) -> (kind: Option<SourceKind>)
    ensures
        kind == kind_by_name(name@),
{
    if text_eq(name, "apache") {
        Some(SourceKind::Apache)
    } else if text_eq(name, "docker") {
        Some(SourceKind::Docker)
    } else if text_eq(name, "eclipse-temurin") {
        Some(SourceKind::EclipseTemurin)
    } else if text_eq(name, "go") {
        Some(SourceKind::Go)
    } else if text_eq(name, "kong") {
        Some(SourceKind::Kong)
    } else if text_eq(name, "mongodb") {
        Some(SourceKind::MongoDb)
    } else if text_eq(name, "mysql") {
        Some(SourceKind::MySql)
    } else if text_eq(name, "nginx") {
        Some(SourceKind::Nginx)
    } else if text_eq(name, "node") {
        Some(SourceKind::Node)
    } else if text_eq(name, "perl") {
        Some(SourceKind::Perl)
    } else if text_eq(name, "php") {
        Some(SourceKind::Php)
    } else if text_eq(name, "postgresql") {
        Some(SourceKind::Postgresql)
    } else if text_eq(name, "python") {
        Some(SourceKind::Python)
    } else if text_eq(name, "ruby") {
        Some(SourceKind::Ruby)
    } else if text_eq(name, "rust") {
        Some(SourceKind::Rust)
    } else if text_eq(name, "scala") {
        Some(SourceKind::Scala)
    } else if text_eq(name, "swift") {
        Some(SourceKind::Swift)
    } else {
        None
    }
}

/// Finds the collector of a target.
pub fn source_of(target: &Target) -> (kind: Option<SourceKind>)
    ensures
        kind == kind_of(*target),
{
    match source_by_name(target.name.as_str()) {
        Some(kind) => Some(kind),
        None => match &target.repository {
            Some(_) => if text_eq(target.github_source.as_str(), "tags") {
                Some(SourceKind::GitHubTags)
            } else {
                Some(SourceKind::GitHubReleases)
            },
            None => None,
        },
    }
}

/// Whether the collector of a kind reads tags under the cleaning rules of its target
/// itself: the collectors for the listings of GitHub do.
pub open spec fn cleans_itself(kind: SourceKind) -> bool {
    kind == SourceKind::GitHubReleases || kind == SourceKind::GitHubTags
}

/// The rules that are still to be applied to what the collector of a target hands over:
/// none where the collector has applied the rules of the target itself, else those rules.
pub fn remaining_rules(kind: SourceKind, target: &Target) -> (rules: VersionCleaning)
    ensures
        rules@ == if cleans_itself(kind) {
            no_cleaning()
        } else {
            target.cleaning@
        },
{
    match kind {
        SourceKind::GitHubReleases => VersionCleaning::default(),
        SourceKind::GitHubTags => VersionCleaning::default(),
        _ => target.cleaning.clone(),
    }
}

} // verus!
