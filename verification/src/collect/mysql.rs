//! MySQL: the tags of the server on GitHub, with the images on Docker Hub as a second source.

use vstd::prelude::*;
use crate::collect::tags::{
    cycles_of_versions, cycles_or_not_found, names_canonical, tag_versions, versions_of,
};
use crate::domain::{cycles_outcome, opt_view, rows, CycleRow, ProductCycle};
use crate::error::{Error, Failure};
use crate::text::views;

verus! {

pub const MYSQL_GITHUB_TAGS_URL: &'static str =
    "https://api.github.com/repos/mysql/mysql-server/tags?per_page=100";

pub const MYSQL_DOCKER_TAGS_URL: &'static str =
    "https://hub.docker.com/v2/repositories/library/mysql/tags/?page_size=500";

/// The shape of a tag that carries a version; the first group is the version.
pub const MYSQL_TAG_PATTERN: &'static str = r"(?:mysql(?:-cluster)?-)?(\d+\.\d+\.\d+)(?:-.*)?$";

/// The cycles that the tags give: one for each version from 5.6.0 on, or `NotFound`
/// where there is none.
pub open spec fn mysql_cycles(tags: Seq<Seq<char>>) -> Result<Seq<CycleRow>, Failure> {
    cycles_or_not_found(tag_versions(MYSQL_TAG_PATTERN@, tags, false, (5, 6, 0)))
}

/// Collects the versions of MySQL.
#[derive(Debug)]
pub struct MySqlCollector {
    name: String,
    github_token: Option<String>,
}

impl MySqlCollector {
    /// The name of the product that this collector reports under.
    pub closed spec fn label(&self) -> Seq<char> {
        self.name@
    }

    /// The token that requests to GitHub are to carry, if any.
    pub closed spec fn token(&self) -> Option<Seq<char>> {
        opt_view(self.github_token)
    }

    pub fn new(name: &str) -> (collector: Self)
        ensures
            collector.label() == name@,
            collector.token() == None::<Seq<char>>,
    {
        Self { name: String::from_str(name), github_token: None }
    }

    pub fn with_token(name: &str, token: String) -> (collector: Self)
        ensures
            collector.label() == name@,
            collector.token() == Some(token@),
    {
        Self { name: String::from_str(name), github_token: Some(token) }
    }

    pub fn name(&self) -> (name: &str)
        ensures
            name@ == self.label(),
    {
        self.name.as_str()
    }

    /// The token that requests to GitHub are to carry, if any.
    pub fn github_token(&self) -> (token: Option<&String>)
        ensures
            token is Some == self.token() is Some,
            token matches Some(t) ==> Some(t@) == self.token(),
    {
        self.github_token.as_ref()
    }

    /// The listing to fetch first.
    pub fn github_url(&self) -> (url: &'static str)
        ensures
            url@ == MYSQL_GITHUB_TAGS_URL@,
    {
        MYSQL_GITHUB_TAGS_URL
    }

    /// The listing to fetch where GitHub refuses for quota or access.
    pub fn docker_url(&self) -> (url: &'static str)
        ensures
            url@ == MYSQL_DOCKER_TAGS_URL@,
    {
        MYSQL_DOCKER_TAGS_URL
    }

    /// Reads the cycles off the names of the tags.
    pub fn cycles(tags: &Vec<String>) -> (out: Result<Vec<ProductCycle>, Error>)
        ensures
            cycles_outcome(out) == mysql_cycles(views(tags@)),
            out matches Ok(cycles) ==> names_canonical(rows(cycles@)),
    {
        cycles_of_versions(versions_of(MYSQL_TAG_PATTERN, tags, false, (5, 6, 0)))
    }
}

} // verus!
