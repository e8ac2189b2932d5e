use std::collections::{BTreeSet, HashMap, HashSet};
use versionwatch::assoc::{find_key, get, insert};
use versionwatch::collect::perl::{numbers_of, PerlCollector};
use versionwatch::collect::tags::{text_in, versions_of};
use versionwatch::ordered::{insert_all_sorted, insert_sorted};
use versionwatch::paginate::{gather, Page};
use versionwatch::store::VersionTable;
use versionwatch::SoftwareVersion;

/// A small generator of numbers, the same on every run.
struct Numbers(u64);

impl Numbers {
    fn next(&mut self, below: u64) -> u64 {
        self.0 = self.0.wrapping_mul(6364136223846793005).wrapping_add(1442695040888963407);
        (self.0 >> 33) % below
    }

    fn word(&mut self) -> String {
        let letters = ["a", "b", "ab", "1", "2", "10", ".", "é", "", "v"];
        let n = self.next(4);
        (0..n).map(|_| letters[self.next(letters.len() as u64) as usize]).collect()
    }

    fn version(&mut self) -> String {
        format!("{}.{}.{}", self.next(4) + 4, self.next(12), self.next(3))
    }
}

#[test]
fn sorted_insertion_agrees_with_an_ordered_set() {
    let mut numbers = Numbers(1);
    for _ in 0..200 {
        let mut sorted: Vec<String> = Vec::new();
        let mut expected: BTreeSet<String> = BTreeSet::new();
        for _ in 0..numbers.next(12) {
            let word = numbers.word();
            insert_sorted(&mut sorted, word.clone());
            expected.insert(word);
            assert_eq!(sorted, expected.iter().cloned().collect::<Vec<_>>());
        }
        let more: Vec<String> = (0..numbers.next(6)).map(|_| numbers.word()).collect();
        insert_all_sorted(&mut sorted, &more);
        expected.extend(more);
        assert_eq!(sorted, expected.into_iter().collect::<Vec<_>>());
    }
}

#[test]
fn tables_of_keys_agree_with_a_map() {
    let mut numbers = Numbers(2);
    for _ in 0..200 {
        let mut table: Vec<(String, i32)> = Vec::new();
        let mut expected: HashMap<String, i32> = HashMap::new();
        let mut order: Vec<String> = Vec::new();
        for step in 0..numbers.next(15) {
            let key = numbers.word();
            insert(&mut table, key.clone(), step as i32);
            if expected.insert(key.clone(), step as i32).is_none() {
                order.push(key);
            }
            let keys: Vec<String> = table.iter().map(|e| e.0.clone()).collect();
            assert_eq!(keys, order);
        }
        for _ in 0..10 {
            let key = numbers.word();
            assert_eq!(get(&table, &key), expected.get(&key).copied());
            assert_eq!(find_key(&table, &key), order.iter().position(|k| *k == key));
        }
    }
}

#[test]
fn deduplication_agrees_with_a_set_of_seen_versions() {
    let mut numbers = Numbers(3);
    for _ in 0..100 {
        let tags: Vec<String> = (0..numbers.next(30))
            .map(|_| if numbers.next(5) == 0 { numbers.word() } else { numbers.version() })
            .collect();
        let mut seen = HashSet::new();
        let mut expected = Vec::new();
        for tag in &tags {
            if let Ok(version) = semver::Version::parse(tag) {
                if version.major < 5 || (version.major == 5 && version.minor < 6) {
                    continue;
                }
                if seen.insert(version.to_string()) {
                    expected.push(version.to_string());
                }
            }
        }
        let found = versions_of(r"^(\d+\.\d+\.\d+)$", &tags, false, (5, 6, 0));
        assert_eq!(found, expected);
        for tag in &tags {
            assert_eq!(text_in(&found, tag), found.contains(tag));
        }
    }
}

#[test]
fn sorting_agrees_with_a_stable_sort_by_numbers() {
    let mut numbers = Numbers(4);
    for _ in 0..100 {
        let items: Vec<(String, Option<i32>)> = (0..numbers.next(25))
            .map(|i| {
                let version = match numbers.next(4) {
                    0 => format!("5.{}", numbers.next(12)),
                    1 => format!("5.0{}.{}", numbers.next(12), numbers.next(3)),
                    2 => numbers.word(),
                    _ => numbers.version(),
                };
                (version, Some(i as i32))
            })
            .collect();
        let mut expected = items.clone();
        expected.sort_by(|a, b| {
            let a_parts: Vec<u32> = a.0.split('.').filter_map(|s| s.parse().ok()).collect();
            let b_parts: Vec<u32> = b.0.split('.').filter_map(|s| s.parse().ok()).collect();
            a_parts.cmp(&b_parts)
        });
        assert_eq!(PerlCollector::sort(&items), expected);
        for item in &items {
            let parts: Vec<u32> = item.0.split('.').filter_map(|s| s.parse().ok()).collect();
            assert_eq!(numbers_of(&item.0), parts);
        }
    }
}

#[test]
fn gathering_agrees_with_a_plain_loop() {
    let mut numbers = Numbers(5);
    for _ in 0..300 {
        let pages: Vec<(Vec<u64>, bool)> = (0..numbers.next(8))
            .map(|_| ((0..numbers.next(4)).map(|_| numbers.next(100)).collect(), numbers.next(5) != 0))
            .collect();
        let ceiling = numbers.next(7) as usize;
        let mut items = Vec::new();
        let mut fetched = 0;
        let mut truncated = false;
        let mut at = 0;
        loop {
            if fetched == ceiling {
                truncated = true;
                break;
            }
            if at == pages.len() {
                break;
            }
            fetched += 1;
            let (page, next) = &pages[at];
            at += 1;
            if page.is_empty() {
                break;
            }
            items.extend(page.iter().copied());
            if !next {
                break;
            }
        }
        let recorded: Vec<Page<u64>> = pages
            .iter()
            .map(|(items, next)| Page {
                items: items.clone(),
                next: if *next { Some("next".to_string()) } else { None },
            })
            .collect();
        let paged = gather(recorded, ceiling);
        assert_eq!(paged.items, items);
        assert_eq!(paged.pages, fetched);
        assert_eq!(paged.truncated, truncated);
    }
}

#[test]
fn upserts_agree_with_a_map_keyed_by_name() {
    let mut numbers = Numbers(6);
    for _ in 0..100 {
        let mut table = VersionTable::new();
        let mut expected: HashMap<String, String> = HashMap::new();
        for _ in 0..numbers.next(20) {
            let name = numbers.word();
            let latest = numbers.version();
            let record = SoftwareVersion {
                name: name.clone(),
                current_version: String::new(),
                latest_version: latest.clone(),
                latest_lts_version: None,
                is_lts: false,
                eol_date: None,
                release_notes_url: None,
                cve_count: 0,
            };
            let replaced = table.upsert(record.clone());
            assert_eq!(replaced, expected.insert(name, latest).is_some());
            let again = table.upsert(record);
            assert!(again);
            assert_eq!(table.len(), expected.len());
        }
        for (name, latest) in &expected {
            assert_eq!(&table.get(name).expect("a row").latest_version, latest);
        }
    }
}
