//! LIMIT/OFFSET paging: a page position, and the cursor that decides when
//! the next page is requested and when the stream of pages is done.

use vstd::prelude::*;

verus! {

/// A page position: the page number (starting at one) and the page size.
#[derive(Clone, Copy, Debug, PartialEq, Eq, Structural)]
pub struct Pagination {
    pub page: usize,
    pub page_size: usize,
}

impl Default for Pagination {
    /// Page one, five hundred rows a page.
    fn default() -> (r: Self)
        ensures
            r.page == 1,
            r.page_size == 500,
    {
        Pagination { page: 1, page_size: 500 }
    }
}

impl Pagination {
    /// The same position with another page size.
    pub fn with_page_size(self, page_size: usize) -> (r: Self)
        ensures
            r.page == self.page,
            r.page_size == page_size,
    {
        Pagination { page: self.page, page_size }
    }

    /// The same size at another page.
    pub fn with_page(self, page: usize) -> (r: Self)
        ensures
            r.page == page,
            r.page_size == self.page_size,
    {
        Pagination { page, page_size: self.page_size }
    }

    /// The row offset of this page: the rows of all earlier pages.
    pub fn offset(&self) -> (r: usize)
        requires
            self.page >= 1,
            (self.page - 1) * self.page_size <= usize::MAX,
        ensures
            r == (self.page - 1) * self.page_size,
    {
        (self.page - 1) * self.page_size
    }

    /// The next page, when the page number can still grow.
    pub fn next_page(self) -> (r: Option<Self>)
        ensures
            self.page == usize::MAX ==> r is None,
            self.page < usize::MAX ==> (r matches Some(p) && p.page == self.page + 1
                && p.page_size == self.page_size),
    {
        if self.page == usize::MAX {
            None
        } else {
            Some(Pagination { page: self.page + 1, page_size: self.page_size })
        }
    }

    /// The previous page, when there is one.
    pub fn previous_page(self) -> (r: Option<Self>)
        requires
            self.page >= 1,
        ensures
            self.page == 1 ==> r is None,
            self.page != 1 ==> (r matches Some(p) && p.page == self.page - 1 && p.page_size
                == self.page_size),
    {
        if self.page == 1 {
            None
        } else {
            Some(Pagination { page: self.page - 1, page_size: self.page_size })
        }
    }
}

/// One page of decoded rows, tagged with the position it was requested at.
pub struct Page<R> {
    pub rows: Vec<R>,
    pub pagination: Pagination,
}

/// The cursor that drives page-by-page queries: which position to request
/// now, and whether the stream of pages is over.
#[derive(Clone, Copy, Debug, PartialEq, Eq, Structural)]
pub struct PageState {
    pub pagination: Pagination,
    pub is_done: bool,
}

impl PageState {
    /// A cursor at the given start position.
    pub fn new(pagination: Pagination) -> (r: Self)
        ensures
            r.pagination == pagination,
            !r.is_done,
    {
        PageState { pagination, is_done: false }
    }

    /// The position to request now, or nothing when the stream is done.
    pub fn plan(&self) -> (r: Option<Pagination>)
        ensures
            self.is_done ==> r is None,
            !self.is_done ==> r == Some(self.pagination),
    {
        if self.is_done {
            None
        } else {
            Some(self.pagination)
        }
    }

    /// Absorbs the length of the page just received: the stream is done
    /// once a page comes back shorter than the page size, or once the page
    /// number cannot grow; otherwise the position moves to the next page.
    pub fn advance(&mut self, received: usize)
        ensures
            final(self).is_done == (old(self).is_done || received
                < old(self).pagination.page_size || old(self).pagination.page == usize::MAX),
            old(self).pagination.page < usize::MAX ==> {
                &&& final(self).pagination.page == old(self).pagination.page + 1
                &&& final(self).pagination.page_size == old(self).pagination.page_size
            },
            old(self).pagination.page == usize::MAX ==> final(self).pagination == old(
                self,
            ).pagination,
    {
        if received < self.pagination.page_size {
            self.is_done = true;
        }
        match self.pagination.next_page() {
            Some(next) => {
                self.pagination = next;
            },
            None => {
                self.is_done = true;
            },
        }
    }
}

} // verus!
