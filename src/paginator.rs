use vstd::prelude::*;

use crate::record::EmojiRecord;

verus! {

/// Page size that the export flow asks for.
pub const DEFAULT_PAGE_SIZE: u64 = 100;

/// A failed page fetch: the transport failed or the response could not be read.
#[derive(Debug, Clone)]
pub struct FetchError {
    pub message: String,
}

/// What to ask the listing endpoint for next.
#[derive(Debug, Clone)]
pub struct PageRequest {
    /// The cursor handed out with the previous page; `None` for the first page.
    pub cursor: Option<String>,
    pub limit: u64,
}

/// One page of the listing: its records in response order, and the cursor of
/// the next page (absent or empty at the end of the list).
#[derive(Debug)]
pub struct Page {
    pub records: Vec<EmojiRecord>,
    pub next_cursor: Option<String>,
}

/// What a page fetch gave: the page, or the reason there is none.
pub type PageResult = Result<Page, FetchError>;

/// One element of the listing sequence.
pub type ListingItem = Result<EmojiRecord, FetchError>;

/// Whether the listing goes on after this fetch result.
pub open spec fn page_continues(fetched: PageResult) -> bool {
    match fetched {
        Ok(p) => p.records@.len() > 0 && p.next_cursor is Some && p.next_cursor->0@.len() > 0,
        Err(_) => false,
    }
}

/// The listing items that one fetch result yields, in order.
pub open spec fn page_items(fetched: PageResult) -> Seq<ListingItem> {
    match fetched {
        Ok(p) => p.records@.map_values(|r: EmojiRecord| Ok::<EmojiRecord, FetchError>(r)),
        Err(e) => seq![Err::<EmojiRecord, FetchError>(e)],
    }
}

/// The whole sequence that a fresh paginator yields when the endpoint answers
/// its successive requests with `pages`.
pub open spec fn listing_of(pages: Seq<PageResult>) -> Seq<ListingItem>
    decreases pages.len(),
{
    if pages.len() == 0 {
        Seq::empty()
    } else if page_continues(pages[0]) {
        page_items(pages[0]) + listing_of(pages.drop_first())
    } else {
        page_items(pages[0])
    }
}

/// The records of successful pages, concatenated.
pub open spec fn concat_records(pages: Seq<PageResult>) -> Seq<EmojiRecord>
    decreases pages.len(),
{
    if pages.len() == 0 {
        Seq::empty()
    } else {
        match pages[0] {
            Ok(p) => p.records@ + concat_records(pages.drop_first()),
            Err(_) => concat_records(pages.drop_first()),
        }
    }
}

/// Turns the page-by-page listing endpoint into one ordered sequence of
/// records. The caller fetches what `next_request` asks for and hands the
/// result to `accept`, which returns the items of that page.
#[derive(Debug)]
pub struct EmojiPaginator {
    page_size: u64,
    cursor: Option<String>,
    finished: bool,
}

impl EmojiPaginator {
    pub closed spec fn page_size_spec(&self) -> u64 {
        self.page_size
    }

    pub closed spec fn cursor_spec(&self) -> Option<Seq<char>> {
        match self.cursor {
            Some(c) => Some(c@),
            None => None,
        }
    }

    /// The sequence has ended: at its last page, or at a failed fetch.
    pub closed spec fn is_finished(&self) -> bool {
        self.finished
    }

    pub open spec fn wf(&self) -> bool {
        self.page_size_spec() >= 1
    }

    /// A paginator that has fetched nothing yet.
    pub fn new(page_size: u64) -> (r: EmojiPaginator)
        requires
            page_size >= 1,
        ensures
            r.wf(),
            r.page_size_spec() == page_size,
            r.cursor_spec() is None,
            !r.is_finished(),
    {
        EmojiPaginator { page_size, cursor: None, finished: false }
    }

    pub fn finished(&self) -> (r: bool)
        ensures
            r == self.is_finished(),
    {
        self.finished
    }

    /// The request for the next page, or `None` once the sequence has ended.
    pub fn next_request(&self) -> (r: Option<PageRequest>)
        ensures
            self.is_finished() <==> r is None,
            r is Some ==> r->0.limit == self.page_size_spec() && match r->0.cursor {
                Some(c) => self.cursor_spec() == Some(c@),
                None => self.cursor_spec() is None,
            },
    {
        if self.finished {
            return None;
        }
        let cursor = match &self.cursor {
            Some(c) => Some(c.clone()),
            None => None,
        };
        Some(PageRequest { cursor, limit: self.page_size })
    }

    /// Takes the result of fetching the requested page and returns the items it
    /// yields: every record of the page in response order, or the one error.
    /// The sequence ends after a failure, an empty page, or a page without a
    /// next cursor.
    pub fn accept(&mut self, fetched: PageResult) -> (items: Vec<ListingItem>)
        requires
            old(self).wf(),
            !old(self).is_finished(),
        ensures
            final(self).wf(),
            final(self).page_size_spec() == old(self).page_size_spec(),
            items@ == page_items(fetched),
            final(self).is_finished() == !page_continues(fetched),
            page_continues(fetched) ==> final(self).cursor_spec() == Some(
                fetched->Ok_0.next_cursor->0@,
            ),
    {
        let ghost fetched_spec = fetched;
        match fetched {
            Err(e) => {
                self.finished = true;
                let mut items: Vec<ListingItem> = Vec::new();
                items.push(Err(e));
                assert(items@ =~= page_items(fetched_spec));
                items
            },
            Ok(page) => {
                let Page { records, next_cursor } = page;
                let ghost all = records@;
                let mut rest = records;
                let mut items: Vec<ListingItem> = Vec::new();
                let n = rest.len();
                let mut i: usize = 0;
                while i < n
                    invariant
                        n == all.len(),
                        i <= n,
                        rest@ == all.subrange(i as int, n as int),
                        items@ == all.subrange(0, i as int).map_values(
                            |r: EmojiRecord| Ok::<EmojiRecord, FetchError>(r),
                        ),
                    decreases n - i,
                {
                    let r = rest.remove(0);
                    items.push(Ok(r));
                    proof {
                        assert(all.subrange(0, i + 1) == all.subrange(0, i as int).push(all[i as int]));
                        assert(all.subrange(0, i + 1).map_values(
                            |r: EmojiRecord| Ok::<EmojiRecord, FetchError>(r),
                        ) =~= items@);
                        assert(rest@ =~= all.subrange(i + 1, n as int));
                    }
                    i = i + 1;
                }
                assert(all.subrange(0, n as int) == all);
                let has_next = match &next_cursor {
                    Some(c) => c.unicode_len() > 0,
                    None => false,
                };
                if n > 0 && has_next {
                    self.cursor = next_cursor;
                } else {
                    self.finished = true;
                }
                items
            },
        }
    }
}

/// Paged listing keeps order: when every page but the last carries records and
/// a next cursor, the listing is the concatenation of the pages' records, each
/// yielded once, in response order, whatever page size was asked for.
pub proof fn lemma_listing_in_page_order(pages: Seq<PageResult>)
    requires
        forall|i: int| 0 <= i < pages.len() ==> (#[trigger] pages[i]) is Ok,
        forall|i: int| 0 <= i < pages.len() - 1 ==> page_continues(#[trigger] pages[i]),
    ensures
        listing_of(pages) == concat_records(pages).map_values(
            |r: EmojiRecord| Ok::<EmojiRecord, FetchError>(r),
        ),
    decreases pages.len(),
{
    if pages.len() > 0 {
        let rest = pages.drop_first();
        assert forall|i: int| 0 <= i < rest.len() implies (#[trigger] rest[i]) is Ok by {
            assert(rest[i] == pages[i + 1]);
        }
        assert forall|i: int| 0 <= i < rest.len() - 1 implies page_continues(#[trigger] rest[i]) by {
            assert(rest[i] == pages[i + 1]);
        }
        lemma_listing_in_page_order(rest);
        let f = |r: EmojiRecord| Ok::<EmojiRecord, FetchError>(r);
        let head = pages[0]->Ok_0.records@;
        assert((head + concat_records(rest)).map_values(f) =~= head.map_values(f)
            + concat_records(rest).map_values(f));
        if !page_continues(pages[0]) {
            assert(rest.len() == 0);
            assert(concat_records(rest) =~= Seq::<EmojiRecord>::empty());
            assert(listing_of(pages) =~= head.map_values(f));
        }
    }
}

/// A failed page fetch ends the listing: the items are those of the pages
/// before it, then exactly one error, the failure itself; nothing of the pages
/// after it is yielded.
pub proof fn lemma_failure_ends_listing(pages: Seq<PageResult>, k: int)
    requires
        0 <= k < pages.len(),
        pages[k] is Err,
        forall|i: int| 0 <= i < k ==> page_continues(#[trigger] pages[i]),
    ensures
        listing_of(pages) == concat_records(pages.take(k)).map_values(
            |r: EmojiRecord| Ok::<EmojiRecord, FetchError>(r),
        ).push(Err(pages[k]->Err_0)),
        listing_of(pages).last() is Err,
        forall|j: int| 0 <= j < listing_of(pages).len() - 1 ==> (#[trigger] listing_of(pages)[j]) is Ok,
    decreases k,
{
    let f = |r: EmojiRecord| Ok::<EmojiRecord, FetchError>(r);
    if k == 0 {
        assert(pages.take(0) =~= Seq::<PageResult>::empty());
        assert(listing_of(pages) =~= seq![Err::<EmojiRecord, FetchError>(pages[0]->Err_0)]);
        assert(concat_records(pages.take(0)).map_values(f) =~= Seq::<ListingItem>::empty());
    } else {
        let rest = pages.drop_first();
        assert forall|i: int| 0 <= i < k - 1 implies page_continues(#[trigger] rest[i]) by {
            assert(rest[i] == pages[i + 1]);
            assert(page_continues(pages[i + 1]));
        }
        assert(rest[k - 1] == pages[k]);
        lemma_failure_ends_listing(rest, k - 1);
        assert(page_continues(pages[0]));
        let head = pages[0]->Ok_0.records@;
        assert(pages.take(k).drop_first() =~= rest.take(k - 1));
        assert(pages.take(k)[0] == pages[0]);
        assert(concat_records(pages.take(k)) == head + concat_records(rest.take(k - 1)));
        assert((head + concat_records(rest.take(k - 1))).map_values(f) =~= head.map_values(f)
            + concat_records(rest.take(k - 1)).map_values(f));
        assert(listing_of(pages) =~= concat_records(pages.take(k)).map_values(f).push(
            Err(pages[k]->Err_0),
        ));
    }
}

} // verus!
