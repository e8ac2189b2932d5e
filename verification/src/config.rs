//! What a deployment configures: the targets to watch and how their tags are cleaned.

use vstd::prelude::*;

verus! {

/// Per-target rules for turning a raw tag into a version.
#[derive(Debug, PartialEq, Eq)]
pub struct VersionCleaning {
    pub enabled: bool,
    pub regex: Option<String>,
    pub trim_prefix: Option<String>,
    pub trim_suffix: Option<String>,
}

/// The rules of a [`VersionCleaning`] as plain values.
pub struct CleaningRules {
    pub enabled: bool,
    pub regex: Option<Seq<char>>,
    pub trim_prefix: Option<Seq<char>>,
    pub trim_suffix: Option<Seq<char>>,
}

impl View for VersionCleaning {
    type V = CleaningRules;

    open spec fn view(&self) -> CleaningRules {
        CleaningRules {
            enabled: self.enabled,
            regex: crate::domain::opt_view(self.regex),
            trim_prefix: crate::domain::opt_view(self.trim_prefix),
            trim_suffix: crate::domain::opt_view(self.trim_suffix),
        }
    }
}

/// Rules that change nothing.
pub open spec fn no_cleaning() -> CleaningRules {
    CleaningRules { enabled: false, regex: None, trim_prefix: None, trim_suffix: None }
}

impl Default for VersionCleaning {
    fn default() -> (rules: Self)
        ensures
            rules@ == no_cleaning(),
    {
        VersionCleaning { enabled: false, regex: None, trim_prefix: None, trim_suffix: None }
    }
}

impl Clone for VersionCleaning {
    fn clone(&self) -> (copy: Self)
        ensures
            copy@ == self@,
    {
        VersionCleaning {
            enabled: self.enabled,
            regex: crate::domain::clone_opt(&self.regex),
            trim_prefix: crate::domain::clone_opt(&self.trim_prefix),
            trim_suffix: crate::domain::clone_opt(&self.trim_suffix),
        }
    }
}

/// One product to watch.
#[derive(Debug, PartialEq, Eq)]
pub struct Target {
    pub name: String,
    pub enabled: bool,
    pub repository: Option<String>,
    pub github_source: String,
    pub cleaning: VersionCleaning,
}

/// The GitHub listing that a target uses where its configuration names none.
pub fn default_github_source() -> (source: String)
    ensures
        source@ == "releases"@,
{
    String::from_str("releases")
}

impl Target {
    /// A target with the default GitHub listing and no cleaning rules.
    pub fn new(name: String, enabled: bool, repository: Option<String>) -> (target: Target)
        ensures
            target.name@ == name@,
            target.enabled == enabled,
            crate::domain::opt_view(target.repository) == crate::domain::opt_view(repository),
            target.github_source@ == "releases"@,
            target.cleaning@ == no_cleaning(),
    {
        Target {
            name,
            enabled,
            repository,
            github_source: default_github_source(),
            cleaning: VersionCleaning::default(),
        }
    }
}

/// The whole configuration.
#[derive(Debug, PartialEq, Eq)]
pub struct Settings {
    pub targets: Vec<Target>,
    pub github_token: Option<String>,
}

/// How many of the first `n` targets are enabled.
pub open spec fn enabled_count(targets: Seq<Target>) -> nat
    decreases targets.len(),
{
    if targets.len() == 0 {
        0
    } else {
        enabled_count(targets.drop_last()) + if targets.last().enabled {
            1nat
        } else {
            0nat
        }
    }
}

impl Settings {
    /// The configuration with `fallback` as its token where it names none itself.
    pub fn with_fallback_token(self, fallback: Option<String>) -> (settings: Settings)
        ensures
            settings.targets == self.targets,
            crate::domain::opt_view(settings.github_token) == if self.github_token is Some {
                crate::domain::opt_view(self.github_token)
            } else {
                crate::domain::opt_view(fallback)
            },
    {
        let Settings { targets, github_token } = self;
        match github_token {
            Some(token) => Settings { targets, github_token: Some(token) },
            None => Settings { targets, github_token: fallback },
        }
    }

    /// Counts the enabled targets.
    pub fn enabled_targets(&self) -> (count: usize)
        ensures
            count == enabled_count(self.targets@),
    {
        let mut count: usize = 0;
        let mut i: usize = 0;
        while i < self.targets.len()
            invariant
                i <= self.targets.len(),
                count <= i,
                count == enabled_count(self.targets@.take(i as int)),
            decreases self.targets.len() - i,
        {
            assert(self.targets@.take(i + 1).drop_last() =~= self.targets@.take(i as int));
            if self.targets[i].enabled {
                count += 1;
            }
            i += 1;
        }
        assert(self.targets@.take(self.targets.len() as int) =~= self.targets@);
        count
    }
}

} // verus!
