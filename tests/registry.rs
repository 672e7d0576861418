use twitch_gift_farm::harvest::{collect_pages, HarvestError};
use twitch_gift_farm::order::{compare_names, NameOrder};
use twitch_gift_farm::registry::merge;
use twitch_gift_farm::Config;

fn names(v: &[&str]) -> Vec<String> {
    v.iter().map(|s| s.to_string()).collect()
}

fn is_strictly_sorted(v: &[String]) -> bool {
    v.windows(2).all(|w| w[0].as_bytes() < w[1].as_bytes())
}

#[test]
fn merge_sorts_and_dedups() {
    let (m, added) = merge(&names(&["b", "d"]), &names(&["c", "a", "c", "b"]));
    assert_eq!(m, names(&["a", "b", "c", "d"]));
    assert_eq!(added, 2);
}

#[test]
fn merge_into_empty() {
    let (m, added) = merge(&Vec::new(), &names(&["z", "y", "z"]));
    assert_eq!(m, names(&["y", "z"]));
    assert_eq!(added, 2);
}

#[test]
fn merge_of_empty_lists() {
    let (m, added) = merge(&Vec::new(), &Vec::new());
    assert!(m.is_empty());
    assert_eq!(added, 0);
}

#[test]
fn merge_counts_distinct_existing_names() {
    let (m, added) = merge(&names(&["a", "a", "b"]), &names(&["c"]));
    assert_eq!(m, names(&["a", "b", "c"]));
    assert_eq!(added, 1);
}

#[test]
fn merge_is_case_sensitive_and_bytewise() {
    let (m, _) = merge(&names(&["b", "B"]), &names(&["a", "A", "ab", "a b"]));
    assert_eq!(m, names(&["A", "B", "a", "a b", "ab", "b"]));
    assert!(is_strictly_sorted(&m));
}

#[test]
fn merge_twice_changes_nothing() {
    let existing = names(&["m", "c", "x"]);
    let incoming = names(&["x", "a", "q", "a"]);
    let (once, _) = merge(&existing, &incoming);
    let (twice, added) = merge(&once, &incoming);
    assert_eq!(once, twice);
    assert_eq!(added, 0);
}

#[test]
fn merge_output_sorted_without_repeats() {
    let (m, _) = merge(&names(&["q", "q", "b"]), &names(&["zz", "a", "b", "z", "a"]));
    assert!(is_strictly_sorted(&m));
    assert_eq!(m, names(&["a", "b", "q", "z", "zz"]));
}

#[test]
fn compare_orders_by_bytes() {
    assert_eq!(compare_names("a", "b"), NameOrder::Less);
    assert_eq!(compare_names("ab", "a"), NameOrder::Greater);
    assert_eq!(compare_names("", ""), NameOrder::Equal);
    assert_eq!(compare_names("Z", "a"), NameOrder::Less);
    assert_eq!(compare_names("é", "z"), NameOrder::Greater);
}

#[test]
fn config_merge_keeps_other_fields() {
    let mut c = Config {
        username: "me".to_string(),
        token: "tok".to_string(),
        channels: names(&["b"]),
    };
    let added = c.merge_channels(&names(&["a", "b", "c"]));
    assert_eq!(added, 2);
    assert_eq!(c.channels, names(&["a", "b", "c"]));
    assert_eq!(c.username, "me");
    assert_eq!(c.token, "tok");
}

#[test]
fn harvest_two_categories_into_empty_registry() {
    // 963 distinct names, then 37 of them again: 1000 names in all.
    let mut all: Vec<String> = (0..963).map(|i| format!("chan{:04}", i)).collect();
    for i in 0..37 {
        all.push(format!("chan{:04}", i * 7));
    }
    assert_eq!(all.len(), 1000);
    let mut categories = Vec::new();
    for c in 0..2 {
        let mut pages = Vec::new();
        for p in 0..10 {
            let start = c * 500 + p * 50;
            pages.push(Ok(all[start..start + 50].to_vec()));
        }
        let category = collect_pages(pages);
        assert_eq!(category.as_ref().map(|v| v.len()), Ok(500));
        categories.push(category);
    }
    let harvested = collect_pages(categories).unwrap();
    assert_eq!(harvested, all);
    let mut config = Config {
        username: "me".to_string(),
        token: "tok".to_string(),
        channels: Vec::new(),
    };
    let added = config.merge_channels(&harvested);
    assert_eq!(added, 963);
    assert_eq!(config.channels.len(), 963);
    assert!(is_strictly_sorted(&config.channels));
}

#[test]
fn failed_harvest_merges_nothing() {
    let pages = vec![
        Ok(names(&["a", "b"])),
        Err(HarvestError::UnexpectedStatus(503)),
        Ok(names(&["c"])),
    ];
    let result = collect_pages(pages);
    assert_eq!(result, Err(HarvestError::UnexpectedStatus(503)));
}

#[test]
fn merge_large_unordered_lists() {
    let existing: Vec<String> = (0..3000).rev().map(|i| format!("n{:05}", i * 2)).collect();
    let incoming: Vec<String> = (0..3000).map(|i| format!("n{:05}", (i * 7919) % 9000)).collect();
    let (m, added) = merge(&existing, &incoming);
    let mut expected: Vec<String> = existing.iter().chain(incoming.iter()).cloned().collect();
    expected.sort();
    expected.dedup();
    assert_eq!(m, expected);
    assert_eq!(added, expected.len() - 3000);
}
