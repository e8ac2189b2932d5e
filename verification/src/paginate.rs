//! Gathering the pages of a paged listing, up to a hard ceiling.
//!
//! Fetching a page is network work, so the paginator does not fetch. It decides: the
//! caller fetches the page that the paginator asks for and hands it back.

use vstd::prelude::*;
use crate::domain::opt_view;
use crate::error::{Error, Failure};
use crate::fallback::{attempt_view, settled, Attempt};

verus! {

/// The ceiling that a paginator has where its caller names none.
pub const DEFAULT_PAGE_CEILING: usize = 10;

/// One page of a listing: its items and the cursor of the page after it, if the server
/// names one. A listing paged by number gives the next number as its cursor.
#[derive(Debug, PartialEq, Eq)]
pub struct Page<T> {
    pub items: Vec<T>,
    pub next: Option<String>,
}

/// A [`Page`] as plain values.
pub struct PageRow<T> {
    pub items: Seq<T>,
    pub next: Option<Seq<char>>,
}

impl<T> View for Page<T> {
    type V = PageRow<T>;

    open spec fn view(&self) -> PageRow<T> {
        PageRow { items: self.items@, next: opt_view(self.next) }
    }
}

/// The views of recorded pages.
pub open spec fn page_rows<T>(pages: Seq<Page<T>>) -> Seq<PageRow<T>> {
    pages.map_values(|p: Page<T>| p@)
}

/// What a paginator hands over at the end: the items of the pages it took, how many pages
/// it fetched, and whether it stopped at the ceiling with more pages due.
#[derive(Debug, PartialEq, Eq)]
pub struct Paged<T> {
    pub items: Vec<T>,
    pub pages: usize,
    pub truncated: bool,
}

/// A [`Paged`] as plain values.
pub struct Gathered<T> {
    pub items: Seq<T>,
    pub pages: nat,
    pub truncated: bool,
}

impl<T> View for Paged<T> {
    type V = Gathered<T>;

    open spec fn view(&self) -> Gathered<T> {
        Gathered { items: self.items@, pages: self.pages as nat, truncated: self.truncated }
    }
}

impl<T> Paged<T> {
    /// Hands the items over as the table of a source: a gathering without items is
    /// `NotFound`, whether or not it was truncated.
    pub fn into_table(self) -> (out: Result<Vec<T>, Error>)
        ensures
            attempt_view(out) == settled(Ok(self@.items)),
    {
        if self.items.len() == 0 {
            Err(Error::NotFound)
        } else {
            Ok(self.items)
        }
    }
}

/// What gathering gives when the source would serve `pages` in order: pages are taken until
/// one is empty, one names no next page, or `ceiling` pages have been fetched; in the last
/// case the result is marked truncated.
pub open spec fn gathered<T>(pages: Seq<PageRow<T>>, ceiling: nat) -> Gathered<T>
    decreases pages.len(),
{
    if ceiling == 0 {
        Gathered { items: Seq::empty(), pages: 0, truncated: true }
    } else if pages.len() == 0 {
        Gathered { items: Seq::empty(), pages: 0, truncated: false }
    } else if pages[0].items.len() == 0 {
        Gathered { items: Seq::empty(), pages: 1, truncated: false }
    } else if pages[0].next is None {
        Gathered { items: pages[0].items, pages: 1, truncated: false }
    } else {
        let rest = gathered(pages.skip(1), (ceiling - 1) as nat);
        Gathered {
            items: pages[0].items + rest.items,
            pages: rest.pages + 1,
            truncated: rest.truncated,
        }
    }
}

/// The items of all the pages, in order.
pub open spec fn all_items<T>(pages: Seq<PageRow<T>>) -> Seq<T>
    decreases pages.len(),
{
    if pages.len() == 0 {
        Seq::empty()
    } else {
        pages[0].items + all_items(pages.skip(1))
    }
}

/// Gathering never fetches more pages than the ceiling allows, nor more than there are.
pub proof fn lemma_gathered_bound<T>(pages: Seq<PageRow<T>>, ceiling: nat)
    ensures
        gathered(pages, ceiling).pages <= ceiling,
        gathered(pages, ceiling).pages <= pages.len(),
    decreases pages.len(),
{
    if ceiling > 0 && pages.len() > 0 && pages[0].items.len() > 0 && pages[0].next is Some {
        lemma_gathered_bound(pages.skip(1), (ceiling - 1) as nat);
    }
}

/// A source with more pages than the ceiling, each with items and a next page, gives a
/// truncated result that holds exactly the items of the first `ceiling` pages.
pub proof fn lemma_ceiling_truncates<T>(pages: Seq<PageRow<T>>, ceiling: nat)
    requires
        pages.len() > ceiling,
        forall|i: int|
            0 <= i < ceiling ==> (#[trigger] pages[i]).items.len() > 0 && pages[i].next is Some,
    ensures
        gathered(pages, ceiling).truncated,
        gathered(pages, ceiling).pages == ceiling,
        gathered(pages, ceiling).items == all_items(pages.take(ceiling as int)),
    decreases ceiling,
{
    if ceiling == 0 {
        assert(pages.take(0) =~= Seq::<PageRow<T>>::empty());
    } else {
        let rest = pages.skip(1);
        assert(forall|i: int| 0 <= i < rest.len() ==> rest[i] == pages[i + 1]);
        lemma_ceiling_truncates(rest, (ceiling - 1) as nat);
        let first = pages.take(ceiling as int);
        assert(first[0] == pages[0]);
        assert(first.skip(1) =~= rest.take(ceiling - 1));
    }
}

/// A result is marked truncated only where the ceiling was reached.
pub proof fn lemma_truncated_at_ceiling<T>(pages: Seq<PageRow<T>>, ceiling: nat)
    ensures
        gathered(pages, ceiling).truncated ==> gathered(pages, ceiling).pages == ceiling,
    decreases pages.len(),
{
    if ceiling > 0 && pages.len() > 0 && pages[0].items.len() > 0 && pages[0].next is Some {
        lemma_truncated_at_ceiling(pages.skip(1), (ceiling - 1) as nat);
    }
}

/// What the paginator asks of its caller next.
#[derive(Debug, PartialEq, Eq)]
pub enum PageStep {
    /// Fetch the page with this number, counted from 1, under this cursor.
    Fetch { page: usize, cursor: Option<String> },
    /// Nothing more is to be fetched.
    Done,
}

/// The state of one gathering.
#[derive(Debug)]
pub struct Paginator<T> {
    ceiling: usize,
    fetched: usize,
    items: Vec<T>,
    truncated: bool,
    done: bool,
}

impl<T> Paginator<T> {
    /// The most pages that the paginator takes.
    pub closed spec fn ceiling(&self) -> nat {
        self.ceiling as nat
    }

    /// How many pages have been handed in.
    pub closed spec fn fetched(&self) -> nat {
        self.fetched as nat
    }

    /// The items gathered so far.
    pub closed spec fn items(&self) -> Seq<T> {
        self.items@
    }

    /// Whether the gathering stopped at the ceiling with more pages due.
    pub closed spec fn truncated(&self) -> bool {
        self.truncated
    }

    /// Whether the gathering has stopped.
    pub closed spec fn done(&self) -> bool {
        self.done
    }

    #[verifier::type_invariant]
    spec fn within_ceiling(self) -> bool {
        &&& self.fetched <= self.ceiling
        &&& !self.done ==> self.fetched < self.ceiling
        &&& self.truncated ==> self.done && self.fetched == self.ceiling
    }

    /// What holds of every paginator: it never fetched more pages than its ceiling allows,
    /// waits for a page only below the ceiling, and is truncated only when done at the
    /// ceiling.
    pub open spec fn within_bounds(&self) -> bool {
        &&& self.fetched() <= self.ceiling()
        &&& !self.done() ==> self.fetched() < self.ceiling()
        &&& self.truncated() ==> self.done() && self.fetched() == self.ceiling()
    }

    /// A paginator that has fetched nothing. With a ceiling of zero it is done at once, and
    /// truncated.
    pub fn new(ceiling: usize) -> (paginator: Paginator<T>)
        ensures
            paginator.within_bounds(),
            paginator.ceiling() == ceiling,
            paginator.fetched() == 0,
            paginator.items() == Seq::<T>::empty(),
            paginator.done() == (ceiling == 0),
            paginator.truncated() == (ceiling == 0),
    {
        Paginator {
            ceiling,
            fetched: 0,
            items: Vec::new(),
            truncated: ceiling == 0,
            done: ceiling == 0,
        }
    }

    /// Whether the paginator waits for a page.
    pub fn wants_page(&self) -> (wants: bool)
        ensures
            wants == !self.done(),
            self.within_bounds(),
    {
        proof {
            use_type_invariant(self);
        }
        !self.done
    }

    /// The number, counted from 1, of the page that the paginator waits for, if it waits for
    /// one.
    pub fn page_number(&self) -> (number: Option<usize>)
        ensures
            number == if self.done() {
                None
            } else {
                Some((self.fetched() + 1) as usize)
            },
            self.within_bounds(),
    {
        proof {
            use_type_invariant(self);
        }
        if self.done {
            None
        } else {
            Some(self.fetched + 1)
        }
    }

    /// Takes the page that was fetched. The gathering stops where the page is empty, where
    /// it names no next page, or where the ceiling is reached; only in the last case is
    /// the result truncated. A paginator that has stopped takes no further page.
    pub fn accept(&mut self, page: Page<T>) -> (next: PageStep)
        ensures
            final(self).ceiling() == old(self).ceiling(),
            final(self).within_bounds(),
            old(self).done() ==> next is Done && final(self).fetched() == old(self).fetched()
                && final(self).items() == old(self).items() && final(self).done()
                && final(self).truncated() == old(self).truncated(),
            !old(self).done() ==> {
                &&& final(self).fetched() == old(self).fetched() + 1
                &&& final(self).items() == old(self).items() + page@.items
                &&& final(self).done() == (page@.items.len() == 0 || page@.next is None
                    || old(self).fetched() + 1 == old(self).ceiling())
                &&& final(self).truncated() == (page@.items.len() > 0 && page@.next is Some
                    && old(self).fetched() + 1 == old(self).ceiling())
                &&& final(self).done() ==> next is Done
                &&& !final(self).done() ==> (next matches PageStep::Fetch { page: number, cursor }
                    && number == final(self).fetched() + 1 && opt_view(cursor) == page@.next)
            },
    {
        proof {
            use_type_invariant(&*self);
        }
        if self.done {
            return PageStep::Done;
        }
        let Page { items, next } = page;
        let mut added = items;
        let taken = added.len() > 0;
        let fetched = self.fetched + 1;
        let at_ceiling = fetched == self.ceiling;
        let mut state = Paginator {
            ceiling: 0,
            fetched: 0,
            items: Vec::new(),
            truncated: true,
            done: true,
        };
        core::mem::swap(self, &mut state);
        let Paginator { ceiling, fetched: _, items, truncated: _, done: _ } = state;
        let mut items = items;
        items.append(&mut added);
        let more = taken && next.is_some() && !at_ceiling;
        *self = Paginator {
            ceiling,
            fetched,
            items,
            truncated: taken && next.is_some() && at_ceiling,
            done: !more,
        };
        if more {
            PageStep::Fetch { page: fetched + 1, cursor: next }
        } else {
            PageStep::Done
        }
    }

    /// Ends the gathering on a page that could not be fetched: the failure is the result,
    /// and the items of the pages before it are not handed over.
    pub fn fail(self, failure: Error) -> (out: Result<Vec<T>, Error>)
        ensures
            out matches Err(e) && e@ == failure@,
    {
        Err(failure)
    }

    /// Hands over what was gathered.
    pub fn finish(self) -> (paged: Paged<T>)
        ensures
            paged@.items == self.items(),
            paged@.pages == self.fetched(),
            paged@.truncated == self.truncated(),
    {
        Paged { items: self.items, pages: self.fetched, truncated: self.truncated }
    }
}

/// Replays a gathering over recorded pages, in the order in which the source served
/// them.
pub fn gather<T>(pages: Vec<Page<T>>, ceiling: usize) -> (paged: Paged<T>)
    ensures
        paged@ == gathered(page_rows(pages@), ceiling as nat),
{
    let ghost all = page_rows(pages@);
    let mut pages = pages;
    let mut paginator: Paginator<T> = Paginator::new(ceiling);
    assert(all.skip(0) =~= all);
    assert(Seq::<T>::empty() + gathered(all, ceiling as nat).items =~= gathered(
        all,
        ceiling as nat,
    ).items);
    while paginator.wants_page() && pages.len() > 0
        invariant
            paginator.within_bounds(),
            paginator.ceiling() == ceiling,
            paginator.fetched() + pages@.len() == all.len(),
            page_rows(pages@) == all.skip(paginator.fetched() as int),
            !paginator.done() ==> ({
                let rest = gathered(
                    all.skip(paginator.fetched() as int),
                    (ceiling - paginator.fetched()) as nat,
                );
                &&& gathered(all, ceiling as nat).items == paginator.items() + rest.items
                &&& gathered(all, ceiling as nat).pages == paginator.fetched() + rest.pages
                &&& gathered(all, ceiling as nat).truncated == rest.truncated
            }),
            paginator.done() ==> ({
                &&& gathered(all, ceiling as nat).items == paginator.items()
                &&& gathered(all, ceiling as nat).pages == paginator.fetched()
                &&& gathered(all, ceiling as nat).truncated == paginator.truncated()
            }),
        decreases pages@.len(),
    {
        let ghost k = paginator.fetched() as int;
        let ghost here = all.skip(k);
        let ghost so_far = paginator.items();
        let page = pages.remove(0);
        assert(page@ == here[0]);
        assert(page_rows(pages@) =~= here.skip(1));
        assert(here.skip(1) =~= all.skip(k + 1));
        let ghost rest = gathered(here.skip(1), (ceiling - k - 1) as nat);
        let _ = paginator.accept(page);
        assert(so_far + (here[0].items + rest.items) =~= (so_far + here[0].items) + rest.items);
        assert(so_far + Seq::<T>::empty() =~= so_far);
        assert((so_far + here[0].items) + Seq::<T>::empty() =~= so_far + here[0].items);
    }
    assert(paginator.items() + Seq::<T>::empty() =~= paginator.items());
    paginator.finish()
}

/// What fetching one page gave, as plain values.
pub open spec fn fetch_view<T>(fetch: Result<Page<T>, Error>) -> Result<PageRow<T>, Failure> {
    match fetch {
        Ok(page) => Ok(page@),
        Err(e) => Err(e@),
    }
}

/// The views of recorded fetches.
pub open spec fn fetch_views<T>(fetches: Seq<Result<Page<T>, Error>>) -> Seq<
    Result<PageRow<T>, Failure>,
> {
    fetches.map_values(|f: Result<Page<T>, Error>| fetch_view(f))
}

/// What a listing gives from a point on, with `items` gathered so far, when fetching its
/// further pages would give `fetches` in order and `ceiling` more pages may be fetched.
pub open spec fn listed_from<T>(
    fetches: Seq<Result<PageRow<T>, Failure>>,
    ceiling: nat,
    items: Seq<T>,
) -> Attempt<T>
    decreases fetches.len(),
{
    if ceiling == 0 || fetches.len() == 0 {
        settled(Ok(items))
    } else {
        match fetches[0] {
            Err(failure) => Err(failure),
            Ok(page) => if page.items.len() == 0 || page.next is None {
                settled(Ok(items + page.items))
            } else {
                listed_from(fetches.skip(1), (ceiling - 1) as nat, items + page.items)
            },
        }
    }
}

/// What a paged listing gives when fetching its pages would give `fetches` in order: the
/// failure of the first page that cannot be fetched, if the gathering gets that far;
/// else the items gathered, or `NotFound` where there are none.
pub open spec fn listed<T>(fetches: Seq<Result<PageRow<T>, Failure>>, ceiling: nat) -> Attempt<T> {
    listed_from(fetches, ceiling, Seq::empty())
}

/// Where the pages before a failed page all have items and name a next page, and the
/// failed page lies within the ceiling, the listing ends with that failure: nothing
/// gathered before it is handed over.
pub proof fn lemma_failed_page_ends_listing<T>(
    fetches: Seq<Result<PageRow<T>, Failure>>,
    ceiling: nat,
    items: Seq<T>,
    failed: int,
)
    requires
        0 <= failed < fetches.len(),
        failed < ceiling,
        fetches[failed] is Err,
        forall|i: int|
            0 <= i < failed ==> (#[trigger] fetches[i] matches Ok(page) && page.items.len() > 0
                && page.next is Some),
    ensures
        listed_from(fetches, ceiling, items) == Err::<Seq<T>, Failure>(fetches[failed]->Err_0),
    decreases failed,
{
    if failed > 0 {
        let rest = fetches.skip(1);
        assert(forall|i: int| 0 <= i < rest.len() ==> rest[i] == fetches[i + 1]);
        lemma_failed_page_ends_listing(
            rest,
            (ceiling - 1) as nat,
            items + fetches[0]->Ok_0.items,
            failed - 1,
        );
    }
}

/// Replays a listing over recorded fetches, in the order in which the pages would be
/// asked for. A page that could not be fetched ends the listing with its failure; no
/// fetch after it is looked at.
pub fn list<T>(fetches: Vec<Result<Page<T>, Error>>, ceiling: usize) -> (out: Result<
    Vec<T>,
    Error,
>)
    ensures
        attempt_view(out) == listed(fetch_views(fetches@), ceiling as nat),
{
    let ghost all = fetch_views(fetches@);
    let mut left = fetches;
    let mut paginator: Paginator<T> = Paginator::new(ceiling);
    assert(all.skip(0) =~= all);
    while paginator.wants_page() && left.len() > 0
        invariant
            paginator.within_bounds(),
            paginator.ceiling() == ceiling,
            all == fetch_views(fetches@),
            paginator.fetched() + left@.len() == all.len(),
            fetch_views(left@) == all.skip(paginator.fetched() as int),
            !paginator.done() ==> listed(all, ceiling as nat) == listed_from(
                all.skip(paginator.fetched() as int),
                (ceiling - paginator.fetched()) as nat,
                paginator.items(),
            ),
            paginator.done() ==> listed(all, ceiling as nat) == settled(Ok(paginator.items())),
        decreases left@.len(),
    {
        let ghost k = paginator.fetched() as int;
        let ghost here = all.skip(k);
        let fetch = left.remove(0);
        assert(fetch_view(fetch) == here[0]);
        assert(fetch_views(left@) =~= here.skip(1));
        assert(here.skip(1) =~= all.skip(k + 1));
        match fetch {
            Ok(page) => {
                let _ = paginator.accept(page);
            },
            Err(failure) => {
                assert(here.len() > 0 && here[0] == Err::<PageRow<T>, Failure>(failure@));
                assert(listed_from(here, (ceiling - k) as nat, paginator.items()) == Err::<
                    Seq<T>,
                    Failure,
                >(failure@));
                return paginator.fail(failure);
            },
        }
    }
    paginator.finish().into_table()
}

} // verus!
