use twitch_gift_farm::harvest::{
    category_page_queries, classify_status, collect_pages, top_categories_query, HarvestError,
    PageQuery, StatusClass, PAGES_PER_CATEGORY, PAGE_SIZE,
};

fn names(v: &[&str]) -> Vec<String> {
    v.iter().map(|s| s.to_string()).collect()
}

#[test]
fn top_categories_is_one_page_from_zero() {
    assert_eq!(top_categories_query(), PageQuery { offset: 0, limit: 100 });
}

#[test]
fn ten_pages_per_category() {
    let q = category_page_queries();
    assert_eq!(q.len(), PAGES_PER_CATEGORY);
    assert_eq!(q.len(), 10);
    let offsets: Vec<u16> = q.iter().map(|p| p.offset).collect();
    assert_eq!(offsets, vec![0, 100, 200, 300, 400, 500, 600, 700, 800, 900]);
    assert!(q.iter().all(|p| p.limit == PAGE_SIZE));
}

#[test]
fn status_classes() {
    assert_eq!(classify_status(200), StatusClass::Success);
    assert_eq!(classify_status(204), StatusClass::Success);
    assert_eq!(classify_status(400), StatusClass::Rejected);
    assert_eq!(classify_status(401), StatusClass::Unexpected);
    assert_eq!(classify_status(404), StatusClass::Unexpected);
    assert_eq!(classify_status(500), StatusClass::Unexpected);
    assert_eq!(classify_status(599), StatusClass::Unexpected);
    assert_eq!(classify_status(299), StatusClass::Success);
    assert_eq!(classify_status(199), StatusClass::Unexpected);
    assert_eq!(classify_status(101), StatusClass::Unexpected);
    assert_eq!(classify_status(302), StatusClass::Unexpected);
    assert_eq!(classify_status(399), StatusClass::Unexpected);
    assert_eq!(classify_status(600), StatusClass::Unexpected);
    assert_eq!(classify_status(0), StatusClass::Unexpected);
}

#[test]
fn pages_flatten_in_order() {
    let r = collect_pages(vec![
        Ok(names(&["x", "y"])),
        Ok(Vec::new()),
        Ok(names(&["a", "x"])),
    ]);
    assert_eq!(r, Ok(names(&["x", "y", "a", "x"])));
}

#[test]
fn no_pages_no_names() {
    assert_eq!(collect_pages(Vec::new()), Ok(Vec::new()));
}

#[test]
fn one_failed_page_fails_all() {
    let mut pages: Vec<Result<Vec<String>, HarvestError>> =
        (0..10).map(|i| Ok(vec![format!("c{}", i)])).collect();
    pages[6] = Err(HarvestError::Transport("reset".to_string()));
    assert_eq!(
        collect_pages(pages),
        Err(HarvestError::Transport("reset".to_string()))
    );
}

#[test]
fn first_failure_is_reported() {
    let pages = vec![
        Ok(names(&["a"])),
        Err(HarvestError::Rejected("bad offset".to_string())),
        Err(HarvestError::UnexpectedStatus(500)),
    ];
    assert_eq!(
        collect_pages(pages),
        Err(HarvestError::Rejected("bad offset".to_string()))
    );
}
