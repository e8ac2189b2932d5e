use versionwatch::error::Error;
use versionwatch::fallback::{resolve, settle, FallbackChain, FallbackStep};
use versionwatch::ProductCycle;

fn table(versions: &[&str]) -> Vec<ProductCycle> {
    versions.iter().map(|v| ProductCycle::bare(v.to_string())).collect()
}

fn limited() -> Error {
    Error::RateLimited("API rate limit exceeded".to_string())
}

#[test]
fn rate_limited_primary_gives_what_the_secondary_gives() {
    let outcomes: Vec<Result<Vec<ProductCycle>, Error>> = vec![
        Ok(table(&["8.0.36", "8.0.35"])),
        Ok(Vec::new()),
        Err(Error::NotFound),
        Err(limited()),
        Err(Error::Forbidden("no token".to_string())),
        Err(Error::Transient("timeout".to_string())),
        Err(Error::Malformed("not json".to_string())),
        Err(Error::Other("500".to_string())),
    ];
    for secondary in outcomes {
        let direct = resolve(vec![secondary.clone()]);
        let chained = resolve(vec![Err(limited()), secondary.clone()]);
        assert_eq!(chained.1, direct.1);
        assert_eq!(chained.1, settle(secondary));
        assert_eq!(chained.0, 1);
        assert_eq!(direct.0, 0);
    }
}

#[test]
fn forbidden_primary_escalates_too() {
    let answer = resolve(vec![Err(Error::Forbidden("x".to_string())), Ok(table(&["1.0.0"]))]);
    assert_eq!(answer, (1, Ok(table(&["1.0.0"]))));
}

#[test]
fn other_failures_do_not_escape_to_the_secondary() {
    for failure in [
        Error::Transient("timeout".to_string()),
        Error::Malformed("bad".to_string()),
        Error::NotFound,
        Error::Other("boom".to_string()),
    ] {
        let answer = resolve(vec![Err(failure.clone()), Ok(table(&["1.0.0"]))]);
        assert_eq!(answer, (0, Err(failure)));
    }
}

#[test]
fn empty_table_counts_as_not_found_and_does_not_escalate() {
    let answer = resolve(vec![Ok(Vec::new()), Ok(table(&["1.0.0"]))]);
    assert_eq!(answer, (0, Err(Error::NotFound)));
}

#[test]
fn success_of_the_primary_ends_the_chain() {
    let answer = resolve(vec![Ok(table(&["2.0.0"])), Ok(table(&["1.0.0"]))]);
    assert_eq!(answer, (0, Ok(table(&["2.0.0"]))));
}

#[test]
fn when_all_refuse_the_last_error_is_returned() {
    let answer = resolve::<ProductCycle>(vec![
        Err(limited()),
        Err(Error::Forbidden("a".to_string())),
        Err(Error::RateLimited("last".to_string())),
    ]);
    assert_eq!(answer, (2, Err(Error::RateLimited("last".to_string()))));
}

#[test]
fn chain_walks_its_strategies_in_order() {
    let mut chain = FallbackChain::new(2);
    assert_eq!(chain.position(), 0);
    assert_eq!(chain.step::<ProductCycle>(Err(limited())), FallbackStep::Run(1));
    assert_eq!(chain.position(), 1);
    assert_eq!(chain.step::<ProductCycle>(Err(Error::Forbidden("f".to_string()))), FallbackStep::Run(2));
    assert_eq!(chain.position(), 2);
    assert_eq!(
        chain.step(Ok(table(&["3.0.0"]))),
        FallbackStep::Done { by: 2, result: Ok(table(&["3.0.0"])) }
    );
}

#[test]
fn chain_without_secondary_returns_the_refusal() {
    let mut chain = FallbackChain::new(0);
    assert_eq!(
        chain.step::<ProductCycle>(Err(limited())),
        FallbackStep::Done { by: 0, result: Err(limited()) }
    );
}

#[test]
fn only_quota_and_access_failures_are_retryable() {
    assert!(limited().is_retryable());
    assert!(Error::Forbidden(String::new()).is_retryable());
    assert!(!Error::NotFound.is_retryable());
    assert!(!Error::Transient(String::new()).is_retryable());
    assert!(!Error::Malformed(String::new()).is_retryable());
    assert!(!Error::Other(String::new()).is_retryable());
}

#[test]
fn chain_serves_listings_of_any_kind() {
    let answer = resolve(vec![Err(limited()), Ok(vec!["8.0.36".to_string(), "latest".to_string()])]);
    assert_eq!(answer, (1, Ok(vec!["8.0.36".to_string(), "latest".to_string()])));
    let answer = resolve::<String>(vec![Err(limited()), Ok(Vec::new())]);
    assert_eq!(answer, (1, Err(Error::NotFound)));
}
