//! Shared catalog entities: pagination state, the navigation window
//! rendered under item listings, and the query-name guard.

use vstd::prelude::*;
use vstd::string::StringSliceAdditionalSpecFns;

use crate::error::CommonError;

verus! {

/// Marker for the one catalog the application serves.
pub struct Pokemon {}

/// Query-level pagination state: which page is shown and how many items
/// fit on one page.
#[derive(Clone)]
pub struct Pagination {
    pub page: usize,
    pub page_size: usize,
}

/// One slot of the page-navigation strip.
#[derive(Clone, Copy, Debug, PartialEq, Eq, Structural)]
pub struct PaginationNavigationItem {
    pub hide: bool,
    pub page: usize,
    pub is_current: bool,
}

/// The page-navigation strip.
#[derive(Clone, Debug)]
pub struct PaginationNavigation {
    pub items: Vec<PaginationNavigationItem>,
}

impl Default for Pagination {
    /// The first page, sixteen items to a page.
    fn default() -> (r: Pagination)
        ensures
            r.page == 0,
            r.page_size == 16,
    {
        Pagination { page: 0, page_size: 16 }
    }
}

/// Pages needed to show `count` items at `ps` to a page: the ceiling of
/// their quotient.
pub open spec fn spec_total_pages(count: int, ps: int) -> int {
    count / ps + if count % ps == 0 {
        0int
    } else {
        1int
    }
}

/// Widens the window `[start, end]` one page on each available side at a
/// time, until it shows `n` pages or covers everything up to `fin`.
/// A window whose end lies before its start counts one page, as the
/// saturating arithmetic of the widening has it.
pub open spec fn expand_window(start: int, end: int, fin: int, n: int) -> (int, int)
    decreases (if start > 0 { start } else { 0 }) + (if end < fin { fin - end } else { 0 }),
{
    let len = if end >= start {
        end - start + 1
    } else {
        1
    };
    if len >= n || (start <= 0 && end >= fin) {
        (start, end)
    } else {
        expand_window(
            if start > 0 {
                start - 1
            } else {
                start
            },
            if end < fin {
                end + 1
            } else {
                end
            },
            fin,
            n,
        )
    }
}

/// The window of page numbers the strip shows: centered on the current
/// page, clamped to `[0, total - 1]`, and widened to `n` pages where one
/// side falls short.
pub open spec fn spec_nav_window(page: int, total: int, n: int) -> (int, int) {
    let side = (n - 1) / 2;
    let fin = if total > 0 {
        total - 1
    } else {
        0
    };
    let s0 = if page > side {
        page - side
    } else {
        0
    };
    let e0 = if page + side < fin {
        page + side
    } else {
        fin
    };
    expand_window(s0, e0, fin, n)
}

/// The strip before its edge adjustments: one slot per window page,
/// nothing hidden, the current page marked.
pub open spec fn spec_nav_base(page: int, total: int, n: int) -> Seq<
    PaginationNavigationItem,
> {
    let (s, e) = spec_nav_window(page, total, n);
    if e >= s {
        Seq::new(
            (e - s + 1) as nat,
            |i: int|
                PaginationNavigationItem {
                    hide: false,
                    page: (s + i) as usize,
                    is_current: s + i == page,
                },
        )
    } else {
        Seq::empty()
    }
}

/// The finished strip: the first and last slots are hidden where they do
/// not connect to the first and last page, and the first and last page
/// are added where missing.
pub open spec fn spec_nav_items(page: int, total: int, n: int) -> Seq<
    PaginationNavigationItem,
> {
    let base = spec_nav_base(page, total, n);
    let fin = if total > 0 {
        total - 1
    } else {
        0
    };
    let b1 = if base.len() > 0 && base[0].page > 1 && !base[0].is_current {
        base.update(
            0,
            PaginationNavigationItem {
                hide: true,
                page: base[0].page,
                is_current: base[0].is_current,
            },
        )
    } else {
        base
    };
    let b2 = if b1.len() > 0 && b1.last().page + 1 < fin && !b1.last().is_current {
        b1.update(
            b1.len() - 1,
            PaginationNavigationItem {
                hide: true,
                page: b1.last().page,
                is_current: b1.last().is_current,
            },
        )
    } else {
        b1
    };
    let b3 = if !(b2.len() > 0 && b2[0].page == 0) {
        seq![PaginationNavigationItem { hide: false, page: 0, is_current: false }] + b2
    } else {
        b2
    };
    let b4 = if !(b3.len() > 0 && b3.last().page == fin) {
        b3.push(
            PaginationNavigationItem { hide: false, page: fin as usize, is_current: false },
        )
    } else {
        b3
    };
    b4
}

impl Pagination {
    /// Index of the first item of the current page.
    pub fn offset(&self) -> (r: usize)
        requires
            self.page * self.page_size <= usize::MAX,
        ensures
            r == self.page * self.page_size,
    {
        self.page * self.page_size
    }

    /// Number of items a page holds.
    pub fn limit(&self) -> (r: usize)
        ensures
            r == self.page_size,
    {
        self.page_size
    }

    /// Pages needed for `count` items: the ceiling of `count` over the
    /// page size.
    pub fn get_total_pages(&self, count: usize) -> (r: usize)
        requires
            self.page_size > 0,
        ensures
            r == spec_total_pages(count as int, self.page_size as int),
    {
        let q = count / self.page_size;
        if count % self.page_size == 0 {
            q
        } else {
            proof {
                assert(count / self.page_size < usize::MAX) by (nonlinear_arith)
                    requires
                        self.page_size >= 1,
                        count <= usize::MAX,
                        count % self.page_size != 0,
                ;
            }
            q + 1
        }
    }

    /// The window of page numbers the strip shows (see
    /// `spec_nav_window`), in ascending order.
    pub fn get_navigation_pages(&self, total_pages: usize, num_pages_to_show: usize) -> (r:
        Vec<usize>)
        requires
            num_pages_to_show >= 1,
            self.page + num_pages_to_show <= usize::MAX,
        ensures
            ({
                let (s, e) = spec_nav_window(
                    self.page as int,
                    total_pages as int,
                    num_pages_to_show as int,
                );
                &&& r@.len() == (if e >= s {
                    e - s + 1
                } else {
                    0
                })
                &&& forall|i: int| 0 <= i < r@.len() ==> r@[i] == s + i
            }),
    {
        let side = (num_pages_to_show - 1) / 2;
        let fin = if total_pages > 0 {
            total_pages - 1
        } else {
            0
        };
        let mut start: usize = if self.page > side {
            self.page - side
        } else {
            0
        };
        let mut end: usize = if self.page + side < fin {
            self.page + side
        } else {
            fin
        };
        let ghost s0 = start as int;
        let ghost e0 = end as int;
        proof {
            assert(fin <= usize::MAX - 1 || fin == 0);
        }
        let mut len: usize = if end >= start {
            end - start + 1
        } else {
            1
        };
        while len < num_pages_to_show && (start > 0 || end < fin)
            invariant
                end <= fin,
                fin <= usize::MAX - 1 || fin == 0,
                expand_window(start as int, end as int, fin as int, num_pages_to_show as int)
                    == expand_window(s0, e0, fin as int, num_pages_to_show as int),
                len == (if end >= start {
                    end - start + 1
                } else {
                    1
                }),
            decreases (if start > 0 {
                start as int
            } else {
                0
            }) + (if end < fin {
                fin - end
            } else {
                0
            }),
        {
            if start > 0 {
                start = start - 1;
            }
            if end < fin {
                end = end + 1;
            }
            len = if end >= start {
                end - start + 1
            } else {
                1
            };
        }
        proof {
            assert(expand_window(start as int, end as int, fin as int, num_pages_to_show as int)
                == (start as int, end as int));
        }
        let mut pages: Vec<usize> = Vec::new();
        if start <= end {
            let mut i = start;
            while i < end
                invariant
                    start <= i <= end,
                    pages@.len() == i - start,
                    forall|k: int| 0 <= k < pages@.len() ==> pages@[k] == start + k,
                decreases end - i,
            {
                pages.push(i);
                i = i + 1;
            }
            pages.push(end);
        }
        pages
    }

    /// The finished navigation strip (see `spec_nav_items`).
    #[verifier::rlimit(100)]
    pub fn get_navigation(&self, total_pages: usize, num_pages_to_show: usize) -> (r:
        PaginationNavigation)
        requires
            num_pages_to_show >= 1,
            self.page + num_pages_to_show <= usize::MAX,
        ensures
            r.items@ == spec_nav_items(
                self.page as int,
                total_pages as int,
                num_pages_to_show as int,
            ),
    {
        let ghost gpage = self.page as int;
        let ghost gtotal = total_pages as int;
        let ghost gn = num_pages_to_show as int;
        let pages = self.get_navigation_pages(total_pages, num_pages_to_show);
        let mut items: Vec<PaginationNavigationItem> = Vec::new();
        proof {
            let pair = spec_nav_window(gpage, gtotal, gn);
            let base = spec_nav_base(gpage, gtotal, gn);
            assert(base.len() == pages@.len());
            assert forall|i: int| 0 <= i < pages@.len() implies pages@[i]
                == (#[trigger] base[i]).page && !base[i].hide && (base[i].is_current == (
            pages@[i] == gpage)) by {
                assert(pages@[i] == pair.0 + i);
            }
            assert(items@ =~= base.take(0));
        }
        let n = pages.len();
        let mut k: usize = 0;
        while k < n
            invariant
                k <= n,
                n == pages@.len(),
                gpage == self.page as int,
                pages@.len() == spec_nav_base(gpage, gtotal, gn).len(),
                forall|i: int|
                    0 <= i < pages@.len() ==> pages@[i] == (#[trigger] spec_nav_base(
                        gpage,
                        gtotal,
                        gn,
                    )[i]).page,
                forall|i: int|
                    0 <= i < pages@.len() ==> !(#[trigger] spec_nav_base(gpage, gtotal, gn)[i]).hide
                        && (spec_nav_base(gpage, gtotal, gn)[i].is_current == (pages@[i]
                        == gpage)),
                items@ == spec_nav_base(gpage, gtotal, gn).take(k as int),
            decreases n - k,
        {
            let p = pages[k];
            let is_current = p == self.page;
            items.push(PaginationNavigationItem { hide: false, page: p, is_current });
            proof {
                let base = spec_nav_base(gpage, gtotal, gn);
                assert(p == pages@[k as int]);
                assert(p == base[k as int].page);
                assert(!base[k as int].hide);
                assert(base[k as int].is_current == (pages@[k as int] == gpage));
                assert(is_current == base[k as int].is_current);
                assert(items@.last() == base[k as int]);
                assert(base.take(k + 1) =~= base.take(k as int).push(base[k as int]));
                assert(items@ =~= base.take(k + 1));
            }
            k = k + 1;
        }
        proof {
            assert(items@ =~= spec_nav_base(gpage, gtotal, gn));
        }
        let fin = if total_pages > 0 {
            total_pages - 1
        } else {
            0
        };
        if items.len() > 0 {
            let first = items[0];
            if first.page > 1 && !first.is_current {
                items.set(
                    0,
                    PaginationNavigationItem {
                        hide: true,
                        page: first.page,
                        is_current: first.is_current,
                    },
                );
            }
        }
        let ghost b1 = items@;
        if items.len() > 0 {
            let last = items[items.len() - 1];
            if fin >= 2 && last.page < fin - 1 && !last.is_current {
                items.set(
                    items.len() - 1,
                    PaginationNavigationItem {
                        hide: true,
                        page: last.page,
                        is_current: last.is_current,
                    },
                );
            }
        }
        let ghost b2 = items@;
        let need_first = if items.len() > 0 {
            items[0].page != 0
        } else {
            true
        };
        if need_first {
            items.insert(
                0,
                PaginationNavigationItem { hide: false, page: 0, is_current: false },
            );
        }
        let ghost b3 = items@;
        let need_last = if items.len() > 0 {
            items[items.len() - 1].page != fin
        } else {
            true
        };
        if need_last {
            items.push(PaginationNavigationItem { hide: false, page: fin, is_current: false });
        }
        proof {
            assert(b3 =~= (if !(b2.len() > 0 && b2[0].page == 0) {
                seq![PaginationNavigationItem { hide: false, page: 0, is_current: false }] + b2
            } else {
                b2
            }));
            assert(items@ =~= spec_nav_items(gpage, gtotal, gn));
        }
        PaginationNavigation { items }
    }
}

/// Catalog services the application can route to.
#[derive(Clone, Copy, Debug, PartialEq, Eq, Structural)]
pub enum Service {
    Pokemon,
}

impl Service {
    /// The path segment under which the service is mounted.
    pub fn as_str(&self) -> (s: &'static str)
        ensures
            s@ == "pokemon"@,
    {
        match self {
            Service::Pokemon => "pokemon",
        }
    }
}

/// Byte-for-byte equality of two string slices.
fn str_eq(a: &str, b: &str) -> (r: bool)
    ensures
        r == (a.spec_bytes() == b.spec_bytes()),
{
    let ab = a.as_bytes();
    let bb = b.as_bytes();
    if ab.len() != bb.len() {
        proof {
            assert(a.spec_bytes().len() != b.spec_bytes().len());
        }
        return false;
    }
    let n = ab.len();
    let mut k: usize = 0;
    while k < n
        invariant
            n == ab@.len() == bb@.len(),
            ab@ == a.spec_bytes(),
            bb@ == b.spec_bytes(),
            k <= n,
            forall|m: int| 0 <= m < k ==> ab@[m] == bb@[m],
        decreases n - k,
    {
        if ab[k] != bb[k] {
            proof {
                assert(a.spec_bytes()[k as int] != b.spec_bytes()[k as int]);
            }
            return false;
        }
        k = k + 1;
    }
    proof {
        assert(ab@ =~= bb@);
    }
    true
}

impl core::str::FromStr for Service {
    type Err = ();

    fn from_str(s: &str) -> Result<Service, ()> {
        if str_eq(s, "pokemon") {
            Ok(Service::Pokemon)
        } else {
            Err(())
        }
    }
}

/// A validated name filter from the query string.
#[derive(Clone, Debug)]
pub struct QueryName {
    pub name: String,
}

impl QueryName {
    /// Accepts a name of at least two bytes; anything shorter is a
    /// validation failure.
    pub fn parse(name: String) -> (r: Result<QueryName, CommonError>)
        ensures
            vstd::utf8::encode_utf8(name@).len() >= 2 ==> (r matches Ok(q) && q.name@
                == name@),
            vstd::utf8::encode_utf8(name@).len() < 2 ==> (r matches Err(e)
                && e is ValidationError),
    {
        if name.as_str().as_bytes().len() < 2 {
            Err(
                CommonError::ValidationError(
                    String::from_str("Name must be at least 2 characters long"),
                ),
            )
        } else {
            Ok(QueryName { name })
        }
    }
}

} // verus!
