//! Pagination of a remote listing: pages are requested in order starting at
//! page 1 until the source answers with an empty page, which terminates the
//! fetch. The page size is the source's; the logic only looks at emptiness.

use vstd::prelude::*;

verus! {

/// The views of a sequence of pages.
pub open spec fn views_of<T>(pages: Seq<Vec<T>>) -> Seq<Seq<T>> {
    pages.map_values(|p: Vec<T>| p@)
}

/// All items a paginated fetch gathers from a source that answers the k-th
/// request with `pages[k - 1]`, and every request past the end with an
/// empty page: the concatenation of the pages before the first empty one.
pub open spec fn paginate_items<T>(pages: Seq<Seq<T>>) -> Seq<T>
    decreases pages.len(),
{
    if pages.len() == 0 || pages[0].len() == 0 {
        Seq::empty()
    } else {
        pages[0] + paginate_items(pages.skip(1))
    }
}

/// How many page requests the same fetch issues: one per non-empty page up
/// to the first empty one, plus the final request that sees it.
pub open spec fn pages_requested<T>(pages: Seq<Seq<T>>) -> nat
    decreases pages.len(),
{
    if pages.len() == 0 || pages[0].len() == 0 {
        1
    } else {
        (1 + pages_requested(pages.skip(1))) as nat
    }
}

/// Pagination terminates and gathers everything: against a source that
/// returns `n` full pages of `page_size` items and then an empty page, the
/// fetch returns exactly `n * page_size` items and issues `n + 1` requests.
pub proof fn lemma_pagination_terminates<T>(pages: Seq<Seq<T>>, n: int, page_size: nat)
    requires
        0 <= n < pages.len(),
        page_size > 0,
        forall|i: int| 0 <= i < n ==> #[trigger] pages[i].len() == page_size,
        pages[n].len() == 0,
    ensures
        paginate_items(pages).len() == n * page_size,
        pages_requested(pages) == n + 1,
    decreases n,
{
    if n == 0 {
    } else {
        lemma_pagination_terminates(pages.skip(1), n - 1, page_size);
        assert(pages[0].len() == page_size);
        assert(paginate_items(pages).len() == page_size + (n - 1) * page_size);
        assert(page_size + (n - 1) * page_size == n * page_size) by (nonlinear_arith);
    }
}

/// One in-progress paginated fetch. The caller requests `next_page` from
/// the source and records what came back; an empty page ends the fetch.
pub struct Paginator<T> {
    /// Items gathered so far, in page order.
    pub items: Vec<T>,
    /// The page number to request next; the first page is 1.
    pub next_page: usize,
    /// How many pages have been requested and recorded so far.
    pub pages_fetched: usize,
    /// Whether an empty page has arrived.
    pub done: bool,
}

impl<T> Paginator<T> {
    /// A fresh fetch: nothing gathered, the first request is page 1.
    pub fn new() -> (r: Paginator<T>)
        ensures
            r.items@ == Seq::<T>::empty(),
            r.next_page == 1,
            r.pages_fetched == 0,
            !r.done,
    {
        Paginator { items: Vec::new(), next_page: 1, pages_fetched: 0, done: false }
    }

    /// Records one fetched page. An empty page terminates the fetch and
    /// adds nothing; a non-empty page is appended whole and the next page
    /// number advances by one.
    pub fn record_page(&mut self, page: Vec<T>)
        requires
            !old(self).done,
            old(self).next_page < usize::MAX,
            old(self).pages_fetched < usize::MAX,
        ensures
            final(self).pages_fetched == old(self).pages_fetched + 1,
            page@.len() == 0 ==> final(self).done && final(self).items@ == old(self).items@
                && final(self).next_page == old(self).next_page,
            page@.len() > 0 ==> !final(self).done && final(self).items@ == old(self).items@
                + page@ && final(self).next_page == old(self).next_page + 1,
    {
        let mut page = page;
        self.pages_fetched = self.pages_fetched + 1;
        if page.is_empty() {
            self.done = true;
        } else {
            self.items.append(&mut page);
            self.next_page = self.next_page + 1;
        }
    }

    /// Whether the fetch has ended.
    pub fn is_done(&self) -> (r: bool)
        ensures
            r == self.done,
    {
        self.done
    }

    /// The gathered items, ending the fetch.
    pub fn into_items(self) -> (r: Vec<T>)
        ensures
            r == self.items,
    {
        self.items
    }
}

/// Runs a whole paginated fetch against a source given in advance as a list
/// of pages (requests past the end are answered with an empty page), and
/// returns the gathered items together with the number of requests issued.
pub fn drain_pages<T>(pages: Vec<Vec<T>>) -> (r: (Vec<T>, usize))
    requires
        pages@.len() < usize::MAX,
    ensures
        r.0@ == paginate_items(views_of(pages@)),
        r.1 == pages_requested(views_of(pages@)),
{
    let ghost orig: Seq<Seq<T>> = views_of(pages@);
    let mut pages = pages;
    let mut items: Vec<T> = Vec::new();
    let mut requested: usize = 0;
    loop
        invariant_except_break
            requested == orig.len() - pages@.len(),
            pages@.len() <= orig.len() < usize::MAX,
            paginate_items(orig) == items@ + paginate_items(views_of(pages@)),
            pages_requested(orig) == requested + pages_requested(views_of(pages@)),
        ensures
            items@ == paginate_items(orig),
            requested == pages_requested(orig),
        decreases pages@.len(),
    {
        if pages.is_empty() {
            proof {
                assert(views_of(pages@).len() == 0);
                assert(items@ + paginate_items(views_of(pages@)) =~= items@);
            }
            requested = requested + 1;
            break ;
        }
        let ghost pre: Seq<Vec<T>> = pages@;
        let mut page = pages.remove(0);
        requested = requested + 1;
        proof {
            assert(views_of(pre)[0] == page@);
            assert(pre.remove(0) =~= pre.skip(1));
            assert(views_of(pre).skip(1) =~= views_of(pages@));
        }
        if page.is_empty() {
            proof {
                assert(items@ + paginate_items(views_of(pre)) =~= items@);
            }
            break ;
        }
        proof {
            assert(items@ + (page@ + paginate_items(views_of(pages@))) =~= (items@ + page@)
                + paginate_items(views_of(pages@)));
        }
        items.append(&mut page);
    }
    (items, requested)
}

} // verus!
