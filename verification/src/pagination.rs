use vstd::prelude::*;

verus! {

/// One page of a larger ordered collection: its 1-based page number, the
/// total number of pages, and the items of this page in their original
/// order.
#[derive(Debug, PartialEq, Eq)]
pub struct Paginator<T> {
    pub current_page: usize,
    pub total_pages: usize,
    pub items: Vec<T>,
}

/// Number of pages needed to hold `total` items at `per_page` items per
/// page: the ceiling of `total / per_page`.
pub open spec fn spec_page_count(total: nat, per_page: nat) -> nat
    recommends
        per_page > 0,
{
    (((total + per_page - 1) as int) / (per_page as int)) as nat
}

/// The items of every page of `pages`, concatenated in page order.
pub open spec fn flatten_pages<T>(pages: Seq<Paginator<T>>) -> Seq<T>
    decreases pages.len(),
{
    if pages.len() == 0 {
        Seq::empty()
    } else {
        pages[0].items@ + flatten_pages(pages.drop_first())
    }
}

proof fn lemma_flatten_pages_push<T>(pages: Seq<Paginator<T>>, page: Paginator<T>)
    ensures
        flatten_pages(pages.push(page)) == flatten_pages(pages) + page.items@,
    decreases pages.len(),
{
    if pages.len() == 0 {
        assert(pages.push(page)[0] == page);
        assert(pages.push(page).drop_first() =~= Seq::<Paginator<T>>::empty());
        assert(flatten_pages(pages.push(page)) == page.items@ + flatten_pages(
            Seq::<Paginator<T>>::empty(),
        ));
        assert(flatten_pages(pages.push(page)) =~= flatten_pages(pages) + page.items@);
    } else {
        assert(pages.push(page).drop_first() =~= pages.drop_first().push(page));
        lemma_flatten_pages_push(pages.drop_first(), page);
        assert(flatten_pages(pages.push(page)) =~= flatten_pages(pages) + page.items@);
    }
}

/// End of page `i` (0-based) in a sequence of `len` items at `per_page`
/// items per page: one past the index of the page's last item.
pub open spec fn page_end(i: int, per_page: int, len: int) -> int {
    if (i + 1) * per_page <= len {
        (i + 1) * per_page
    } else {
        len
    }
}

/// Splits `items` into consecutive pages of `per_page` items each; only
/// the last page may be shorter. An empty input yields no pages at all.
///
/// The contract pins down every field of every page: page `i` (0-based)
/// carries `current_page == i + 1`, the shared total page count, and
/// exactly the items `items[i * per_page .. page_end(i, per_page, len)]`
/// in their original order.
pub fn paginate<T>(items: Vec<T>, per_page: usize) -> (pages: Vec<Paginator<T>>)
    requires
        per_page > 0,
    ensures
        pages@.len() == if items@.len() == 0 {
            0int
        } else {
            spec_page_count(items@.len(), per_page as nat) as int
        },
        flatten_pages(pages@) == items@,
        forall|i: int|
            0 <= i < pages@.len() ==> {
                &&& (#[trigger] pages@[i]).current_page == i + 1
                &&& pages@[i].total_pages == pages@.len()
                &&& pages@[i].items@ == items@.subrange(
                    i * (per_page as int),
                    page_end(i, per_page as int, items@.len() as int),
                )
            },
        forall|i: int|
            0 <= i < pages@.len() - 1 ==> (#[trigger] pages@[i]).items@.len() == per_page,
        pages@.len() > 0 ==> pages@.last().items@.len() > 0,
{
    let ghost orig = items@;
    let ghost pp = per_page as int;
    if items.len() == 0 {
        let pages: Vec<Paginator<T>> = Vec::new();
        assert(flatten_pages(pages@) =~= items@);
        return pages;
    }
    let len = items.len();
    let ghost n = len as int;
    let total_pages = (len - 1) / per_page + 1;
    let ghost tp = total_pages as int;
    proof {
        assert(tp == spec_page_count(n as nat, pp as nat) && (tp - 1) * pp < n <= tp * pp)
            by (nonlinear_arith)
            requires
                pp > 0,
                n > 0,
                tp == (n - 1) / pp + 1,
            ;
    }
    let mut rest = items;
    let mut pages: Vec<Paginator<T>> = Vec::new();
    let mut page_no: usize = 0;
    while page_no < total_pages
        invariant
            pp == per_page as int,
            pp > 0,
            tp == total_pages as int,
            n == orig.len() as int,
            0 <= page_no <= tp,
            (tp - 1) * pp < n <= tp * pp,
            rest@ == if page_no * pp <= n {
                orig.skip(page_no * pp)
            } else {
                Seq::<T>::empty()
            },
            pages@.len() == page_no,
            flatten_pages(pages@) == if page_no * pp <= n {
                orig.take(page_no * pp)
            } else {
                orig
            },
            forall|i: int|
                0 <= i < pages@.len() ==> {
                    &&& (#[trigger] pages@[i]).current_page == i + 1
                    &&& pages@[i].total_pages == tp
                    &&& pages@[i].items@ == orig.subrange(i * pp, page_end(i, pp, n))
                },
        decreases tp - page_no,
    {
        let ghost start = page_no as int * pp;
        proof {
            assert(start <= (tp - 1) * pp && (page_no + 1) as int * pp == start + pp)
                by (nonlinear_arith)
                requires
                    page_no as int <= tp - 1,
                    pp > 0,
                    start == page_no as int * pp,
                ;
        }
        let take_n = if per_page < rest.len() {
            per_page
        } else {
            rest.len()
        };
        let ghost old_rest = rest@;
        let mut page_items: Vec<T> = Vec::new();
        let mut j: usize = 0;
        while j < take_n
            invariant
                j <= take_n,
                take_n <= old_rest.len(),
                page_items@.len() == j,
                rest@ == old_rest.skip(j as int),
                page_items@ == old_rest.take(j as int),
            decreases take_n - j,
        {
            let x = rest.remove(0);
            proof {
                assert(rest@ =~= old_rest.skip(j as int + 1));
                assert(page_items@.push(x) =~= old_rest.take(j as int + 1));
            }
            page_items.push(x);
            j += 1;
        }
        let page = Paginator { current_page: page_no + 1, total_pages, items: page_items };
        proof {
            lemma_flatten_pages_push(pages@, page);
            let fin = start + take_n as int;
            assert(page.items@ =~= orig.subrange(start, fin));
            assert(fin == page_end(page_no as int, pp, n));
            assert(rest@ =~= if fin <= n {
                orig.skip(fin)
            } else {
                Seq::<T>::empty()
            });
            assert(flatten_pages(pages@) + page.items@ =~= orig.take(fin));
        }
        pages.push(page);
        page_no += 1;
    }
    proof {
        assert(flatten_pages(pages@) =~= orig);
        assert(pages@.last().items@.len() == n - (tp - 1) * pp);
        assert(forall|i: int|
            0 <= i < pages@.len() - 1 ==> (#[trigger] pages@[i]).items@.len() == pp) by {
            assert forall|i: int| 0 <= i < pages@.len() - 1 implies (#[trigger] pages@[i]).items@.len()
                == pp by {
                assert((i + 1) * pp <= (tp - 1) * pp && i * pp + pp == (i + 1) * pp)
                    by (nonlinear_arith)
                    requires
                        0 <= i < tp - 1,
                        pp > 0,
                    ;
            }
        }
    }
    pages
}

/// Pagination law: for any item sequence of length `n` and page size
/// `p > 0`, the page sequence produced by [`paginate`] has `ceil(n / p)`
/// pages, every page but possibly the last holds exactly `p` items,
/// concatenating all pages' items reproduces the original sequence in
/// order, and an empty input yields zero pages. The hypotheses are
/// exactly the contract of [`paginate`].
pub proof fn lemma_pagination_shape<T>(items: Seq<T>, per_page: nat, pages: Seq<Paginator<T>>)
    requires
        per_page > 0,
        pages.len() == if items.len() == 0 {
            0int
        } else {
            spec_page_count(items.len(), per_page) as int
        },
        flatten_pages(pages) == items,
    ensures
        items.len() == 0 ==> pages.len() == 0,
        pages.len() * per_page >= items.len(),
        items.len() > 0 ==> (pages.len() - 1) * per_page < items.len(),
{
    if items.len() > 0 {
        let n = items.len() as int;
        let p = per_page as int;
        let k = spec_page_count(items.len(), per_page) as int;
        assert((k - 1) * p < n <= k * p) by (nonlinear_arith)
            requires
                p > 0,
                n > 0,
                k == (n + p - 1) / p,
            ;
    }
}

} // verus!
