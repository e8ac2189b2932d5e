use versionwatch::error::Error;
use versionwatch::paginate::{gather, list, Page, PageStep, Paginator, DEFAULT_PAGE_CEILING};

fn page(items: &[u32], next: Option<&str>) -> Page<u32> {
    Page { items: items.to_vec(), next: next.map(|n| n.to_string()) }
}

fn numbered(count: u32) -> Vec<Page<u32>> {
    (0..count).map(|i| page(&[i * 2, i * 2 + 1], Some("next"))).collect()
}

#[test]
fn more_pages_than_the_ceiling_give_a_truncated_result() {
    let paged = gather(numbered(15), DEFAULT_PAGE_CEILING);
    assert!(paged.truncated);
    assert_eq!(paged.pages, 10);
    assert_eq!(paged.items, (0..20).collect::<Vec<u32>>());
}

#[test]
fn default_ceiling_is_ten_pages() {
    assert_eq!(DEFAULT_PAGE_CEILING, 10);
}

#[test]
fn empty_page_stops_without_truncation() {
    let pages = vec![page(&[1, 2], Some("a")), page(&[], Some("b")), page(&[3], None)];
    let paged = gather(pages, 10);
    assert_eq!(paged.items, vec![1, 2]);
    assert_eq!(paged.pages, 2);
    assert!(!paged.truncated);
}

#[test]
fn missing_cursor_stops_without_truncation() {
    let pages = vec![page(&[1], Some("a")), page(&[2], None), page(&[3], Some("c"))];
    let paged = gather(pages, 10);
    assert_eq!(paged.items, vec![1, 2]);
    assert_eq!(paged.pages, 2);
    assert!(!paged.truncated);
}

#[test]
fn last_page_at_the_ceiling_is_not_truncated() {
    let pages = vec![page(&[1], Some("a")), page(&[2], None)];
    let paged = gather(pages, 2);
    assert_eq!(paged.items, vec![1, 2]);
    assert!(!paged.truncated);
    let paged = gather(vec![page(&[1], Some("a")), page(&[2], Some("b"))], 2);
    assert!(paged.truncated);
    assert_eq!(paged.items, vec![1, 2]);
}

#[test]
fn ceiling_of_zero_fetches_nothing() {
    let paged = gather(numbered(3), 0);
    assert!(paged.truncated);
    assert_eq!(paged.pages, 0);
    assert!(paged.items.is_empty());
    let paginator: Paginator<u32> = Paginator::new(0);
    assert!(!paginator.wants_page());
}

#[test]
fn source_without_pages_gives_an_empty_result() {
    let paged = gather(Vec::<Page<u32>>::new(), 10);
    assert!(!paged.truncated);
    assert_eq!(paged.pages, 0);
    assert!(paged.items.is_empty());
}

#[test]
fn paginator_asks_for_the_next_page_under_the_cursor() {
    let mut paginator: Paginator<u32> = Paginator::new(3);
    assert!(paginator.wants_page());
    assert_eq!(paginator.page_number(), Some(1));
    assert_eq!(
        paginator.accept(page(&[1], Some("c1"))),
        PageStep::Fetch { page: 2, cursor: Some("c1".to_string()) }
    );
    assert_eq!(paginator.page_number(), Some(2));
    assert_eq!(
        paginator.accept(page(&[2], Some("c2"))),
        PageStep::Fetch { page: 3, cursor: Some("c2".to_string()) }
    );
    assert_eq!(paginator.accept(page(&[3], Some("c3"))), PageStep::Done);
    assert!(!paginator.wants_page());
    assert_eq!(paginator.page_number(), None);
    assert_eq!(paginator.accept(page(&[4], Some("c4"))), PageStep::Done);
    let paged = paginator.finish();
    assert_eq!(paged.items, vec![1, 2, 3]);
    assert_eq!(paged.pages, 3);
    assert!(paged.truncated);
}

#[test]
fn listing_whose_first_page_is_empty_is_not_found() {
    let mut paginator: Paginator<u32> = Paginator::new(DEFAULT_PAGE_CEILING);
    assert_eq!(paginator.accept(page(&[], Some("next"))), PageStep::Done);
    let paged = paginator.finish();
    assert_eq!(paged.pages, 1);
    assert_eq!(paged.into_table(), Err(Error::NotFound));
    assert_eq!(gather(Vec::<Page<u32>>::new(), 10).into_table(), Err(Error::NotFound));
    assert_eq!(gather(numbered(3), 0).into_table(), Err(Error::NotFound));
}

#[test]
fn listing_with_items_is_its_items_truncated_or_not() {
    assert_eq!(gather(numbered(15), 2).into_table(), Ok(vec![0, 1, 2, 3]));
    let pages = vec![page(&[7], Some("a")), page(&[], None)];
    assert_eq!(gather(pages, 10).into_table(), Ok(vec![7]));
}

#[test]
fn failed_page_ends_the_listing_with_its_failure_and_without_items() {
    let limited = Error::RateLimited("API rate limit exceeded".to_string());
    for failed in 0..10usize {
        let mut fetches: Vec<Result<Page<u32>, Error>> =
            numbered(failed as u32).into_iter().map(Ok).collect();
        fetches.push(Err(limited.clone()));
        fetches.push(Ok(page(&[99], None)));
        assert_eq!(list(fetches, DEFAULT_PAGE_CEILING), Err(limited.clone()));
    }
    let mut paginator: Paginator<u32> = Paginator::new(DEFAULT_PAGE_CEILING);
    paginator.accept(page(&[1, 2], Some("next")));
    assert_eq!(paginator.fail(limited.clone()), Err(limited));
}

#[test]
fn failure_beyond_the_end_of_the_listing_is_never_met() {
    let late = Error::Transient("timeout".to_string());
    let fetches = vec![Ok(page(&[1], Some("a"))), Ok(page(&[2], None)), Err(late.clone())];
    assert_eq!(list(fetches, 10), Ok(vec![1, 2]));
    let fetches = vec![Ok(page(&[1], Some("a"))), Ok(page(&[2], Some("b"))), Err(late.clone())];
    assert_eq!(list(fetches, 2), Ok(vec![1, 2]));
    let fetches = vec![Ok(page(&[], Some("a"))), Err(late.clone())];
    assert_eq!(list(fetches, 10), Err(Error::NotFound));
    assert_eq!(list(vec![Err::<Page<u32>, Error>(late.clone())], 0), Err(Error::NotFound));
    assert_eq!(list(Vec::<Result<Page<u32>, Error>>::new(), 10), Err(Error::NotFound));
}
