//! The page cursor of a paginated fetch: how many pages there are, which
//! one is due, and when the fetch is over.

use vstd::prelude::*;

verus! {

/// The number of pages that hold `total` results at `rows` results a page,
/// at least one, and no more than the cap where there is one.
pub open spec fn total_pages_spec(total: nat, rows: nat, cap: Option<u64>) -> nat
    recommends
        rows > 0,
{
    let full = total / rows + if total % rows == 0 {
        0nat
    } else {
        1nat
    };
    let pages = if full == 0 {
        1
    } else {
        full
    };
    match cap {
        Some(c) => if pages <= c {
            pages
        } else {
            c as nat
        },
        None => pages,
    }
}

/// The declared total as a count: a negative one counts as zero.
pub open spec fn declared_total(num_found: i64) -> nat {
    if num_found < 0 {
        0
    } else {
        num_found as nat
    }
}

/// The number of pages, as defined, is the least number of pages of `rows`
/// results that hold `total` results, where no cap applies and there are
/// results at all.
pub proof fn lemma_total_pages_is_ceiling(total: nat, rows: nat)
    requires
        rows > 0,
        total > 0,
    ensures
        total_pages_spec(total, rows, None) * rows >= total,
        (total_pages_spec(total, rows, None) - 1) * rows < total,
{
    let q = total / rows;
    let r = total % rows;
    assert(total == q * rows + r && 0 <= r < rows) by (nonlinear_arith)
        requires
            rows > 0,
            q == total / rows,
            r == total % rows,
    ;
    assert((q + 1) * rows == q * rows + rows) by (nonlinear_arith);
    assert((q - 1) * rows == q * rows - rows) by (nonlinear_arith);
    if r == 0 {
        assert(q > 0) by (nonlinear_arith)
            requires
                total == q * rows,
                total > 0,
                q >= 0,
        ;
    }
}

/// Computes the number of pages to fetch from the total that the first
/// response declares.
pub fn total_pages(num_found: i64, rows: u64, max_pages: Option<u64>) -> (pages: u64)
    requires
        rows > 0,
    ensures
        pages == total_pages_spec(declared_total(num_found), rows as nat, max_pages),
        pages <= declared_total(num_found) + 1,
{
    let total: u64 = if num_found < 0 {
        0
    } else {
        num_found as u64
    };
    let whole: u64 = total / rows;
    let full: u64 = if total % rows == 0 {
        whole
    } else {
        assert(whole <= total);
        whole + 1
    };
    let pages: u64 = if full == 0 {
        1
    } else {
        full
    };
    match max_pages {
        Some(cap) => if pages <= cap {
            pages
        } else {
            cap
        },
        None => pages,
    }
}

/// What the fetch loop does next.
#[derive(Clone, Copy, Debug, PartialEq, Eq, Structural)]
pub enum PageAction {
    /// Fetch this page, after the politeness delay where `wait` is set,
    /// and hand its documents to the mapping.
    Fetch { page: u64, wait: bool },
    /// Every page has been dealt with.
    Done,
}

/// The cursor of one paginated fetch.
#[derive(Clone, Copy, Debug, PartialEq, Eq, Structural)]
pub struct PageCursor {
    page: u64,
    rows: u64,
    cap: Option<u64>,
    total_items: Option<u64>,
    total_pages: u64,
}

impl PageCursor {
    /// The number of the page that is due, counted from 1.
    pub closed spec fn page(&self) -> nat {
        self.page as nat
    }

    /// The results per page.
    pub closed spec fn rows(&self) -> nat {
        self.rows as nat
    }

    /// The cap on the number of pages, if any.
    pub closed spec fn cap(&self) -> Option<u64> {
        self.cap
    }

    /// The total of results, once the first response has declared it.
    pub closed spec fn total_items(&self) -> Option<u64> {
        self.total_items
    }

    /// The number of pages; it has a meaning once the total is known.
    pub closed spec fn total_pages(&self) -> nat {
        self.total_pages as nat
    }

    /// Pages are counted from 1 and never pass the last one by more than
    /// one; the number of pages is derived from the total and leaves room
    /// for that step; until the total is known the first page is due.
    pub open spec fn wf(&self) -> bool {
        &&& self.rows() > 0
        &&& self.page() >= 1
        &&& match self.total_items() {
            Some(total) => {
                &&& self.total_pages() == total_pages_spec(total as nat, self.rows(), self.cap())
                &&& self.page() <= self.total_pages() + 1
                &&& self.total_pages() < u64::MAX
            },
            None => self.page() == 1,
        }
    }

    /// The pages that are still to be dealt with, once the total is known.
    pub open spec fn remaining(&self) -> nat {
        (self.total_pages() + 1 - self.page()) as nat
    }

    /// What is due in a given state: the first page while the total is
    /// unknown, then each page up to the last, then nothing.
    pub open spec fn action_spec(&self) -> PageAction {
        if self.total_items() is None {
            PageAction::Fetch { page: 1, wait: false }
        } else if self.page() <= self.total_pages() {
            PageAction::Fetch { page: self.page() as u64, wait: self.page() > 1 }
        } else {
            PageAction::Done
        }
    }

    /// The cursor before the first request.
    pub fn new(rows: u64, max_pages: Option<u64>) -> (cursor: Self)
        requires
            rows > 0,
        ensures
            cursor.wf(),
            cursor.page() == 1,
            cursor.rows() == rows,
            cursor.cap() == max_pages,
            cursor.total_items() is None,
    {
        PageCursor { page: 1, rows, cap: max_pages, total_items: None, total_pages: 0 }
    }

    /// What the loop does next.
    pub fn next_action(&self) -> (action: PageAction)
        requires
            self.wf(),
        ensures
            action == self.action_spec(),
            action is Done <==> self.total_items() is Some && self.remaining() == 0,
    {
        match self.total_items {
            None => PageAction::Fetch { page: 1, wait: false },
            Some(_) => if self.page <= self.total_pages {
                PageAction::Fetch { page: self.page, wait: self.page > 1 }
            } else {
                PageAction::Done
            },
        }
    }

    /// Takes in the response to the fetch of the page that was due. The
    /// first response fixes the total and with it the number of pages; a
    /// later one leaves both as they are. The page number advances by
    /// exactly one while pages are left. The result says whether the
    /// documents of that response are to be handed to the mapping: they
    /// are, unless the cap leaves no page at all.
    pub fn page_fetched(&mut self, num_found: i64) -> (process: bool)
        requires
            old(self).wf(),
        ensures
            final(self).wf(),
            final(self).rows() == old(self).rows(),
            final(self).cap() == old(self).cap(),
            old(self).total_items() is None ==> final(self).total_items() == Some(
                declared_total(num_found) as u64,
            ),
            old(self).total_items() is Some ==> final(self).total_items() == old(self).total_items()
                && final(self).total_pages() == old(self).total_pages(),
            process <==> old(self).page() <= final(self).total_pages(),
            process ==> final(self).page() == old(self).page() + 1,
            !process ==> final(self).page() == old(self).page(),
            old(self).total_items() is Some && process ==> final(self).remaining() + 1 == old(
                self,
            ).remaining(),
    {
        match self.total_items {
            None => {
                let total: u64 = if num_found < 0 {
                    0
                } else {
                    num_found as u64
                };
                self.total_items = Some(total);
                self.total_pages = total_pages(num_found, self.rows, self.cap);
            },
            Some(_) => {},
        }
        if self.page <= self.total_pages {
            self.page = self.page + 1;
            true
        } else {
            false
        }
    }

    /// The number of pages, once the total is known.
    pub fn pages(&self) -> (pages: Option<u64>)
        requires
            self.wf(),
        ensures
            pages is Some <==> self.total_items() is Some,
            pages is Some ==> pages.unwrap() == self.total_pages(),
    {
        match self.total_items {
            None => None,
            Some(_) => Some(self.total_pages),
        }
    }
}

/// The number of requests that a whole run issues: one for each page, and
/// the first one in any case.
pub open spec fn requests_issued(total: nat, rows: nat, cap: Option<u64>) -> nat {
    let pages = total_pages_spec(total, rows, cap);
    if pages == 0 {
        1
    } else {
        pages
    }
}

/// Runs the cursor to its end on a constant declared total and returns the
/// numbers of the pages requested, in order: 1 up to the number of pages,
/// and page 1 in any case.
pub fn pages_requested(num_found: i64, rows: u64, max_pages: Option<u64>) -> (pages: Vec<u64>)
    requires
        rows > 0,
    ensures
        pages@.len() == requests_issued(declared_total(num_found), rows as nat, max_pages),
        forall|i: int| 0 <= i < pages@.len() ==> pages@[i] == i + 1,
{
    let mut cursor = PageCursor::new(rows, max_pages);
    let mut pages: Vec<u64> = Vec::new();
    pages.push(1);
    let first = cursor.page_fetched(num_found);
    if !first {
        return pages;
    }
    loop
        invariant
            cursor.wf(),
            cursor.total_items() is Some,
            cursor.rows() == rows,
            cursor.cap() == max_pages,
            cursor.total_pages() == total_pages_spec(
                declared_total(num_found),
                rows as nat,
                max_pages,
            ),
            cursor.total_pages() >= 1,
            pages@.len() + 1 == cursor.page(),
            forall|i: int| 0 <= i < pages@.len() ==> pages@[i] == i + 1,
        ensures
            pages@.len() == cursor.total_pages(),
            forall|i: int| 0 <= i < pages@.len() ==> pages@[i] == i + 1,
        decreases cursor.remaining(),
    {
        match cursor.next_action() {
            PageAction::Done => {
                break ;
            },
            PageAction::Fetch { page, wait } => {
                pages.push(page);
                let _ = cursor.page_fetched(num_found);
            },
        }
    }
    pages
}

} // verus!
