//! Lists, a page at a time.

use vstd::prelude::*;

use crate::model;
use crate::model::Modeled;

verus! {

/// Where page number `page` starts in a list of `len` items.
pub open spec fn page_start(len: nat, page: u32, size: u32) -> int {
    if page * size < len {
        page * size
    } else {
        len as int
    }
}

/// Where page number `page` ends in a list of `len` items.
pub open spec fn page_end(len: nat, page: u32, size: u32) -> int {
    if page * size + size < len {
        page * size + size
    } else {
        len as int
    }
}

/// The items of page number `page`, pages counted from zero and `size` items
/// long.
pub open spec fn page_items<T>(items: Seq<T>, page: u32, size: u32) -> Seq<T> {
    items.subrange(page_start(items.len(), page, size), page_end(items.len(), page, size))
}

/// Whether there are items behind page number `page`.
pub open spec fn items_follow(len: nat, page: u32, size: u32) -> bool {
    page * size + size < len
}

/// The items at the indices from `from` up to `to`.
pub fn slice_of<T: Modeled>(items: &Vec<T>, from: usize, to: usize) -> (slice: Vec<T>)
    requires
        from <= to <= items@.len(),
    ensures
        model::models(slice@) == model::models(items@).subrange(from as int, to as int),
{
    let ghost all: Seq<T::M> = model::models(items@);
    let mut slice: Vec<T> = Vec::new();
    let mut i: usize = from;
    while i < to
        invariant
            from <= i <= to <= items@.len(),
            all == model::models(items@),
            model::models(slice@) == all.subrange(from as int, i as int),
        decreases to - i,
    {
        let ghost before: Seq<T> = slice@;
        let item = items[i].copied();
        slice.push(item);
        assert(model::models(slice@) =~= model::models(before).push(item.model()));
        i += 1;
        assert(model::models(slice@) =~= all.subrange(from as int, i as int));
    }
    slice
}

/// The items of page number `page`.
pub fn page_of<T: Modeled>(items: &Vec<T>, page: u32, size: u32) -> (data: Vec<T>)
    requires
        items@.len() <= u32::MAX,
        page * size + size <= u32::MAX,
    ensures
        model::models(data@) == page_items(model::models(items@), page, size),
{
    proof {
        assert(0 <= page * size) by (nonlinear_arith);
    }
    let total: u32 = items.len() as u32;
    let start: u32 = page * size;
    if start < total {
        let end: u32 = if start + size < total {
            start + size
        } else {
            total
        };
        slice_of(items, start as usize, end as usize)
    } else {
        slice_of(items, total as usize, total as usize)
    }
}

/// The first `n` pages, one after the other.
pub open spec fn first_pages<T>(items: Seq<T>, n: nat, size: u32) -> Seq<T>
    decreases n,
{
    if n == 0 {
        Seq::empty()
    } else {
        first_pages(items, (n - 1) as nat, size) + page_items(items, (n - 1) as u32, size)
    }
}

/// The first pages of a list are its first items: no item is left out, none
/// comes twice, and their order is kept.
pub proof fn law_pages_in_order<T>(items: Seq<T>, n: nat, size: u32)
    requires
        n <= u32::MAX,
    ensures
        first_pages(items, n, size) == items.take(
            if n * size < items.len() {
                n * size
            } else {
                items.len() as int
            },
        ),
    decreases n,
{
    if n == 0 {
        assert(first_pages(items, n, size) =~= items.take(0));
    } else {
        let m = (n - 1) as nat;
        law_pages_in_order(items, m, size);
        assert(n * size == m * size + size) by (nonlinear_arith)
            requires
                n == m + 1,
        ;
        assert(0 <= m * size) by (nonlinear_arith);
        assert(first_pages(items, n, size) =~= items.take(
            if n * size < items.len() {
                n * size
            } else {
                items.len() as int
            },
        ));
    }
}

/// The pages up to the first one behind which nothing follows hold the whole
/// list.
pub proof fn law_last_page_completes_list<T>(items: Seq<T>, page: u32, size: u32)
    requires
        page < u32::MAX,
        !items_follow(items.len(), page, size),
    ensures
        first_pages(items, (page + 1) as nat, size) == items,
{
    law_pages_in_order(items, (page + 1) as nat, size);
    assert((page + 1) * size == page * size + size) by (nonlinear_arith);
    assert(items.take(items.len() as int) =~= items);
}

/// A page holds the items from `page * size` on, at most `size` of them and no
/// more than there are, and items follow exactly where the list is longer than
/// the pages so far.
pub proof fn law_pages_hold_their_items<T>(items: Seq<T>, page: u32, size: u32)
    ensures
        ({
            let start = page * size;
            let held = page_items(items, page, size);
            &&& start >= items.len() ==> held.len() == 0
            &&& start < items.len() && size <= items.len() - start ==> held.len() == size
            &&& start < items.len() && size > items.len() - start ==> held.len() == items.len()
                - start
            &&& forall|i: int| 0 <= i < held.len() ==> #[trigger] held[i] == items[start + i]
            &&& items_follow(items.len(), page, size) <==> start + size < items.len()
        }),
{
    assert(0 <= page * size) by (nonlinear_arith);
}

} // verus!
