//! Swift: the images on Docker Hub, and the tags of the compiler on GitHub where Docker Hub
//! refuses for quota or access.

use vstd::prelude::*;
use crate::collect::tags::{named_cycles, names_canonical, tag_versions, versions_of};
use crate::domain::{bare_rows, cycles_outcome, opt_view, rows, CycleRow, ProductCycle};
use crate::error::{Error, Failure};
use crate::fallback::{
    chain_answerer, chain_result, escalates, settled, Attempt, FallbackChain, FallbackStep,
};
use crate::text::views;

verus! {

pub const SWIFT_GITHUB_TAGS_URL: &'static str =
    "https://api.github.com/repos/swiftlang/swift/tags?per_page=100";

pub const SWIFT_DOCKER_TAGS_URL: &'static str =
    "https://hub.docker.com/v2/repositories/library/swift/tags/?page_size=500";

/// The shape of a tag that carries a version; the first group is the version.
pub const SWIFT_TAG_PATTERN: &'static str = r"(?:swift-)?(\d+\.\d+(?:\.\d+)?)(?:-.*)?$";

/// The cycles of the tags of one source: one for each version from 5.0.0 on, a version of
/// two numbers counting as its `.0` release.
pub open spec fn swift_cycles(tags: Seq<Seq<char>>) -> Seq<CycleRow> {
    bare_rows(tag_versions(SWIFT_TAG_PATTERN@, tags, true, (5, 0, 0)))
}

/// What a listing of tag names gave, as plain values.
pub open spec fn listing_view(outcome: Result<Vec<String>, Error>) -> Result<
    Seq<Seq<char>>,
    Failure,
> {
    match outcome {
        Ok(tags) => Ok(views(tags@)),
        Err(e) => Err(e@),
    }
}

/// The attempt that a listing stands for: its cycles where it was fetched, its failure
/// where it was not.
pub open spec fn listing_attempt(outcome: Result<Seq<Seq<char>>, Failure>) -> Attempt<CycleRow> {
    match outcome {
        Ok(tags) => Ok(swift_cycles(tags)),
        Err(e) => Err(e),
    }
}

/// What the collector returns when Docker Hub gives `docker` and GitHub, if asked, gives
/// `github`: what the chain of the two returns, Docker Hub first.
pub open spec fn swift_result(
    docker: Result<Seq<Seq<char>>, Failure>,
    github: Result<Seq<Seq<char>>, Failure>,
) -> Attempt<CycleRow> {
    chain_result(seq![listing_attempt(docker), listing_attempt(github)])
}

/// The collector returns what GitHub alone gives where Docker Hub refuses for quota or
/// access, and what Docker Hub gives in every other case: no other failure of Docker Hub
/// sends the collector on, and no row comes from anywhere but the provider that answered.
pub proof fn lemma_swift_follows_the_chain(
    docker: Result<Seq<Seq<char>>, Failure>,
    github: Result<Seq<Seq<char>>, Failure>,
)
    ensures
        swift_result(docker, github) == if escalates(listing_attempt(docker)) {
            settled(listing_attempt(github))
        } else {
            settled(listing_attempt(docker))
        },
        chain_answerer(seq![listing_attempt(docker), listing_attempt(github)]) == if escalates(
            listing_attempt(docker),
        ) {
            1nat
        } else {
            0nat
        },
{
    let attempts = seq![listing_attempt(docker), listing_attempt(github)];
    let rest = attempts.skip(1);
    assert(attempts.len() == 2 && attempts[0] == listing_attempt(docker));
    assert(rest.len() == 1 && rest[0] == listing_attempt(github));
    assert(chain_result(rest) == settled(rest[0]));
    assert(chain_answerer(rest) == 0);
}

/// What the collector does once Docker Hub has answered or failed.
#[derive(Debug, PartialEq, Eq)]
pub enum SwiftStep {
    /// Docker Hub refused for quota or access: fetch the tags from GitHub.
    FetchGitHub,
    /// The collector is done with this result.
    Done(Result<Vec<ProductCycle>, Error>),
}

/// Collects the versions of Swift.
#[derive(Debug)]
pub struct SwiftCollector {
    name: String,
    github_token: Option<String>,
}

impl SwiftCollector {
    /// The name of the product that this collector reports under.
    pub closed spec fn label(&self) -> Seq<char> {
        self.name@
    }

    /// The token that requests to GitHub are to carry, if any.
    pub closed spec fn token(&self) -> Option<Seq<char>> {
        opt_view(self.github_token)
    }

    pub fn new(name: &str, github_token: Option<String>) -> (collector: Self)
        ensures
            collector.label() == name@,
            collector.token() == opt_view(github_token),
    {
        Self { name: String::from_str(name), github_token }
    }

    pub fn name(&self) -> (name: &str)
        ensures
            name@ == self.label(),
    {
        self.name.as_str()
    }

    /// The token that requests to GitHub are to carry, if any.
    pub fn github_token(&self) -> (token: Option<&String>)
        ensures
            token is Some == self.token() is Some,
            token matches Some(t) ==> Some(t@) == self.token(),
    {
        self.github_token.as_ref()
    }

    /// The listing to fetch first.
    pub fn docker_url(&self) -> (url: &'static str)
        ensures
            url@ == SWIFT_DOCKER_TAGS_URL@,
    {
        SWIFT_DOCKER_TAGS_URL
    }

    /// The listing to fetch where Docker Hub refuses for quota or access.
    pub fn github_url(&self) -> (url: &'static str)
        ensures
            url@ == SWIFT_GITHUB_TAGS_URL@,
    {
        SWIFT_GITHUB_TAGS_URL
    }

    /// Reads the cycles off the names of the tags of one source. A tag that holds no
    /// version adds no cycle, and every name is a semantic version without a leading `v`.
    pub fn process_tags(tags: &Vec<String>) -> (cycles: Vec<ProductCycle>)
        ensures
            rows(cycles@) == swift_cycles(views(tags@)),
            names_canonical(rows(cycles@)),
    {
        named_cycles(versions_of(SWIFT_TAG_PATTERN, tags, true, (5, 0, 0)))
    }

    /// Reads the attempt off a listing: its cycles, or its failure.
    pub fn attempt(outcome: Result<Vec<String>, Error>) -> (out: Result<Vec<ProductCycle>, Error>)
        ensures
            cycles_outcome(out) == listing_attempt(listing_view(outcome)),
            out matches Ok(cycles) ==> names_canonical(rows(cycles@)),
    {
        match outcome {
            Ok(tags) => Ok(Self::process_tags(&tags)),
            Err(e) => Err(e),
        }
    }

    /// Takes what Docker Hub gave. Where it refused for quota or access, GitHub is to be
    /// fetched; in every other case the collector is done: with the cycles of Docker Hub,
    /// with `NotFound` where it gave none, or with its failure.
    pub fn after_docker(outcome: Result<Vec<String>, Error>) -> (step: SwiftStep)
        ensures
            escalates(listing_attempt(listing_view(outcome))) ==> step is FetchGitHub,
            !escalates(listing_attempt(listing_view(outcome))) ==> (step matches SwiftStep::Done(
                result,
            ) && cycles_outcome(result) == settled(listing_attempt(listing_view(outcome)))
                && (result matches Ok(cycles) ==> names_canonical(rows(cycles@)))),
    {
        let attempt = Self::attempt(outcome);
        let mut chain = FallbackChain::new(1);
        match chain.step(attempt) {
            FallbackStep::Run(_) => SwiftStep::FetchGitHub,
            FallbackStep::Done { by: _, result } => SwiftStep::Done(result),
        }
    }

    /// Takes what GitHub gave after Docker Hub refused: its cycles, `NotFound` where it
    /// gave none, or its failure.
    pub fn after_github(outcome: Result<Vec<String>, Error>) -> (out: Result<
        Vec<ProductCycle>,
        Error,
    >)
        ensures
            cycles_outcome(out) == settled(listing_attempt(listing_view(outcome))),
            out matches Ok(cycles) ==> names_canonical(rows(cycles@)),
    {
        crate::fallback::settle(Self::attempt(outcome))
    }

    /// Replays a collection over recorded answers: what Docker Hub gave, and what GitHub
    /// gives if it is asked. Returns the position of the provider that answered, and the
    /// result.
    pub fn collect_from(
        docker: Result<Vec<String>, Error>,
        github: Result<Vec<String>, Error>,
    ) -> (answer: (usize, Result<Vec<ProductCycle>, Error>))
        ensures
            cycles_outcome(answer.1) == swift_result(listing_view(docker), listing_view(github)),
            answer.0 == chain_answerer(
                seq![
                    listing_attempt(listing_view(docker)),
                    listing_attempt(listing_view(github)),
                ],
            ),
            answer.1 matches Ok(cycles) ==> names_canonical(rows(cycles@)),
    {
        proof {
            lemma_swift_follows_the_chain(listing_view(docker), listing_view(github));
        }
        match Self::after_docker(docker) {
            SwiftStep::Done(result) => (0, result),
            SwiftStep::FetchGitHub => (1, Self::after_github(github)),
        }
    }
}

} // verus!
