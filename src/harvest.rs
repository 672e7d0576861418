//! Building the candidate channel list from the paginated catalog.
//!
//! The catalog is read in pages of `PAGE_SIZE` entries. For each category the first
//! `PAGES_PER_CATEGORY` pages of live streams are fetched, all of them at once; the
//! harvest succeeds only if every page does.
use vstd::prelude::*;
use crate::registry::names_of;

verus! {

/// Entries asked for in each catalog request.
pub const PAGE_SIZE: u16 = 100;

/// Pages of live streams fetched for each category.
pub const PAGES_PER_CATEGORY: usize = 10;

/// Why a harvest failed.
#[derive(Debug, PartialEq, Eq)]
pub enum HarvestError {
    /// The catalog rejected the request (status 400), with its message.
    Rejected(String),
    /// Any other status that is not a success.
    UnexpectedStatus(u16),
    /// The request could not be made or its answer not read.
    Transport(String),
}

/// One paginated request: where the window starts and how many entries it holds.
#[derive(Clone, Copy, Debug, PartialEq, Eq, Structural)]
pub struct PageQuery {
    pub offset: u16,
    pub limit: u16,
}

/// The single request for the category ranking.
pub fn top_categories_query() -> (q: PageQuery)
    ensures
        q == (PageQuery { offset: 0, limit: PAGE_SIZE }),
{
    PageQuery { offset: 0, limit: PAGE_SIZE }
}

/// The stream-listing requests for one category, in page order.
pub fn category_page_queries() -> (r: Vec<PageQuery>)
    ensures
        r@.len() == PAGES_PER_CATEGORY,
        forall|i: int|
            0 <= i < r@.len() ==> #[trigger] r@[i] == (PageQuery {
                offset: (i * PAGE_SIZE) as u16,
                limit: PAGE_SIZE,
            }),
{
    let mut r: Vec<PageQuery> = Vec::new();
    let mut i: u16 = 0;
    while (i as usize) < PAGES_PER_CATEGORY
        invariant
            i <= PAGES_PER_CATEGORY,
            r@.len() == i,
            forall|k: int|
                0 <= k < r@.len() ==> #[trigger] r@[k] == (PageQuery {
                    offset: (k * PAGE_SIZE) as u16,
                    limit: PAGE_SIZE,
                }),
        decreases PAGES_PER_CATEGORY - i,
    {
        r.push(PageQuery { offset: i * PAGE_SIZE, limit: PAGE_SIZE });
        i = i + 1;
    }
    r
}

/// How an HTTP status is handled.
#[derive(Clone, Copy, Debug, PartialEq, Eq, Structural)]
pub enum StatusClass {
    /// 2xx: the body holds the listing.
    Success,
    /// 400: the body holds an error payload whose message is reported.
    Rejected,
    /// Any other status that is not 2xx: the request failed.
    Unexpected,
}

/// How a status is handled.
pub open spec fn status_class(status: u16) -> StatusClass {
    if status == 400 {
        StatusClass::Rejected
    } else if 200 <= status < 300 {
        StatusClass::Success
    } else {
        StatusClass::Unexpected
    }
}

/// Sorts a response status: only a 2xx is read as a listing, 400 is a rejection,
/// and every other status is an unexpected failure.
pub fn classify_status(status: u16) -> (r: StatusClass)
    ensures
        r == status_class(status),
{
    if status == 400 {
        StatusClass::Rejected
    } else if 200 <= status && status < 300 {
        StatusClass::Success
    } else {
        StatusClass::Unexpected
    }
}

/// Every fetch succeeded.
pub open spec fn all_ok(results: Seq<Result<Vec<String>, HarvestError>>) -> bool {
    forall|i: int| 0 <= i < results.len() ==> (#[trigger] results[i]).is_ok()
}

/// The names of the successful fetches, in fetch order and then in listing order.
pub open spec fn flat_names(results: Seq<Result<Vec<String>, HarvestError>>) -> Seq<Seq<char>>
    decreases results.len(),
{
    if results.len() == 0 {
        Seq::empty()
    } else {
        flat_names(results.drop_last()) + match results.last() {
            Ok(v) => names_of(v@),
            Err(_) => Seq::empty(),
        }
    }
}

/// The index of the first failed fetch.
pub open spec fn first_error(results: Seq<Result<Vec<String>, HarvestError>>, k: int) -> bool {
    &&& 0 <= k < results.len()
    &&& results[k].is_err()
    &&& forall|i: int| 0 <= i < k ==> (#[trigger] results[i]).is_ok()
}

/// A harvest joins per-category results, each of which joins that category's pages.
/// It succeeds exactly when every page of every category did: one failed page anywhere
/// fails the whole harvest.
pub proof fn lemma_harvest_all_or_nothing(
    pages: Seq<Seq<Result<Vec<String>, HarvestError>>>,
    categories: Seq<Result<Vec<String>, HarvestError>>,
)
    requires
        pages.len() == categories.len(),
        forall|i: int| 0 <= i < pages.len() ==> (#[trigger] categories[i]).is_ok() == all_ok(pages[i]),
    ensures
        all_ok(categories) <==> forall|i: int, j: int|
            0 <= i < pages.len() && 0 <= j < pages[i].len() ==> (#[trigger] pages[i][j]).is_ok(),
{
    if all_ok(categories) {
        assert forall|i: int, j: int| 0 <= i < pages.len() && 0 <= j < pages[i].len() implies (
        #[trigger] pages[i][j]).is_ok() by {
            assert(categories[i].is_ok());
            assert(all_ok(pages[i]));
        }
    }
    if forall|i: int, j: int|
        0 <= i < pages.len() && 0 <= j < pages[i].len() ==> (#[trigger] pages[i][j]).is_ok() {
        assert forall|i: int| 0 <= i < categories.len() implies (#[trigger] categories[i]).is_ok() by {
            assert forall|j: int| 0 <= j < pages[i].len() implies (#[trigger] pages[i][j]).is_ok() by {
            }
        }
    }
}

/// Joins fetches all-or-nothing: if every one succeeded, all their names in order;
/// otherwise the first failure, and no names at all.
pub fn collect_pages(results: Vec<Result<Vec<String>, HarvestError>>) -> (r: Result<
    Vec<String>,
    HarvestError,
>)
    ensures
        r.is_ok() == all_ok(results@),
        r matches Ok(v) ==> names_of(v@) == flat_names(results@),
        r matches Err(e) ==> exists|k: int| first_error(results@, k) && results@[k] == Err::<Vec<String>, HarvestError>(e),
{
    let mut i: usize = 0;
    while i < results.len()
        invariant
            i <= results.len(),
            forall|j: int| 0 <= j < i ==> (#[trigger] results@[j]).is_ok(),
        decreases results.len() - i,
    {
        if results[i].is_err() {
            let ghost before = results@;
            let mut rest = results;
            let e = rest.remove(i);
            assert(first_error(before, i as int));
            match e {
                Err(err) => {
                    return Err(err);
                },
                Ok(_) => {
                    assert(false);
                    return Err(HarvestError::UnexpectedStatus(0));
                },
            }
        }
        i = i + 1;
    }
    let mut out: Vec<String> = Vec::new();
    let mut i: usize = 0;
    assert(results@.subrange(0, 0) =~= Seq::<Result<Vec<String>, HarvestError>>::empty());
    assert(names_of(out@) =~= Seq::<Seq<char>>::empty());
    while i < results.len()
        invariant
            i <= results.len(),
            all_ok(results@),
            names_of(out@) == flat_names(results@.subrange(0, i as int)),
        decreases results.len() - i,
    {
        let ghost pre = results@.subrange(0, i as int);
        assert(results@.subrange(0, i + 1).drop_last() =~= pre);
        assert(results@[i as int].is_ok());
        match &results[i] {
            Ok(page) => {
                let ghost start = names_of(out@);
                let mut j: usize = 0;
                while j < page.len()
                    invariant
                        j <= page.len(),
                        names_of(out@) == start + names_of(page@.subrange(0, j as int)),
                    decreases page.len() - j,
                {
                    let ghost prev = out@;
                    out.push(page[j].clone());
                    assert(names_of(out@) =~= names_of(prev).push(page@[j as int]@));
                    assert(names_of(page@.subrange(0, j + 1)) =~= names_of(
                        page@.subrange(0, j as int),
                    ).push(page@[j as int]@));
                    assert(names_of(out@) =~= start + names_of(page@.subrange(0, j + 1)));
                    j = j + 1;
                }
                assert(page@.subrange(0, page@.len() as int) =~= page@);
            },
            Err(_) => {},
        }
        i = i + 1;
    }
    assert(results@.subrange(0, results@.len() as int) =~= results@);
    Ok(out)
}

} // verus!
