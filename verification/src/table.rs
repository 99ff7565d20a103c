//! Generic operations on a table held as a vector of rows: selection by a
//! criterion, counting, removal, lookup by key and pagination.

use crate::error::{Error, ErrorKind};
use vstd::prelude::*;

verus! {

/// A row of a table: it carries an integer primary key and can be copied.
pub trait Record: Sized {
    spec fn key(&self) -> i32;

    fn id(&self) -> (r: i32)
        ensures
            r == self.key(),
    ;

    fn duplicate(&self) -> (r: Self)
        ensures
            r == *self,
    ;
}

/// A condition on the rows of a table that can be decided on each row.
pub trait Criterion<R> {
    spec fn admits(&self, row: &R) -> bool;

    fn test(&self, row: &R) -> (b: bool)
        ensures
            b == self.admits(row),
    ;
}

/// The predicate on rows that a criterion stands for.
pub open spec fn admitted_by<R, C: Criterion<R>>(c: C) -> spec_fn(R) -> bool {
    |row: R| c.admits(&row)
}

/// The complement of `admitted_by`.
pub open spec fn rejected_by<R, C: Criterion<R>>(c: C) -> spec_fn(R) -> bool {
    |row: R| !c.admits(&row)
}

/// Some row of `rows` has the key `id`.
pub open spec fn has_key<R: Record>(rows: Seq<R>, id: i32) -> bool {
    exists|i: int| 0 <= i < rows.len() && (#[trigger] rows[i]).key() == id
}

/// The keys of `rows` strictly increase, so the rows are in primary key order
/// and no key occurs twice.
pub open spec fn ascending<R: Record>(rows: Seq<R>) -> bool {
    forall|i: int, j: int| 0 <= i < j < rows.len() ==> (#[trigger] rows[i]).key() < (#[trigger] rows[j]).key()
}

/// Every key of `rows` lies in `1..=last`.
pub open spec fn keys_within<R: Record>(rows: Seq<R>, last: int) -> bool {
    forall|i: int| 0 <= i < rows.len() ==> 1 <= (#[trigger] rows[i]).key() <= last
}

/// The first row index of a one-indexed page.
pub open spec fn page_offset(page: int, size: int) -> int {
    (page - 1) * size
}

/// The rows of one page: those at `[offset, offset + size)`, cut at the end of `rows`.
pub open spec fn page_slice<R>(rows: Seq<R>, page: int, size: int) -> Seq<R>
    recommends
        page >= 1,
        size >= 1,
{
    let len = rows.len() as int;
    let start = if page_offset(page, size) < len { page_offset(page, size) } else { len };
    let end = if page_offset(page, size) + size < len { page_offset(page, size) + size } else { len };
    rows.subrange(start, end)
}

/// A filter of no rows keeps no rows.
pub proof fn lemma_filter_empty<R>(p: spec_fn(R) -> bool)
    ensures
        Seq::<R>::empty().filter(p) == Seq::<R>::empty(),
{
    reveal_with_fuel(Seq::filter, 1);
}

/// A filter keeps the order of the rows it keeps.
pub proof fn lemma_filter_ascending<R: Record>(rows: Seq<R>, p: spec_fn(R) -> bool)
    requires
        ascending(rows),
    ensures
        ascending(rows.filter(p)),
        forall|last: int| keys_within(rows, last) ==> keys_within(rows.filter(p), last),
        forall|k: int| 0 <= k < rows.filter(p).len() ==> rows.contains(#[trigger] rows.filter(p)[k]),
        forall|k: int| 0 <= k < rows.filter(p).len() && rows.len() > 0 ==> (#[trigger] rows.filter(p)[k]).key() <= rows.last().key(),
    decreases rows.len(),
{
    reveal_with_fuel(Seq::filter, 1);
    if rows.len() > 0 {
        let front = rows.drop_last();
        lemma_filter_ascending(front, p);
        let kept = front.filter(p);
        assert forall|k: int| 0 <= k < kept.len() implies (#[trigger] kept[k]).key() < rows.last().key() && rows.contains(kept[k]) by {
            assert(front.contains(kept[k]));
            let m = choose|m: int| 0 <= m < front.len() && front[m] == kept[k];
            assert(rows[m] == kept[k]);
        }
        assert(rows[rows.len() - 1] == rows.last());
    }
}

/// The rows of `rows` that `c` admits, in their order.
pub fn select<R: Record, C: Criterion<R>>(rows: &Vec<R>, c: &C) -> (out: Vec<R>)
    ensures
        out@ == rows@.filter(admitted_by(*c)),
{
    let mut out: Vec<R> = Vec::new();
    let mut i: usize = 0;
    proof {
        lemma_filter_empty::<R>(admitted_by(*c));
    }
    while i < rows.len()
        invariant
            i <= rows.len(),
            out@ == rows@.take(i as int).filter(admitted_by(*c)),
        decreases rows.len() - i,
    {
        proof {
            rows@.lemma_take_succ_push(i as int);
            rows@.take(i as int).lemma_filter_push(rows@[i as int], admitted_by(*c));
        }
        if c.test(&rows[i]) {
            out.push(rows[i].duplicate());
        }
        i += 1;
    }
    proof {
        rows@.lemma_take_len();
    }
    out
}

/// How many rows of `rows` the criterion admits.
pub fn count<R: Record, C: Criterion<R>>(rows: &Vec<R>, c: &C) -> (n: usize)
    ensures
        n == rows@.filter(admitted_by(*c)).len(),
{
    let mut n: usize = 0;
    let mut i: usize = 0;
    proof {
        lemma_filter_empty::<R>(admitted_by(*c));
    }
    while i < rows.len()
        invariant
            i <= rows.len(),
            n <= i,
            n == rows@.take(i as int).filter(admitted_by(*c)).len(),
        decreases rows.len() - i,
    {
        proof {
            rows@.lemma_take_succ_push(i as int);
            rows@.take(i as int).lemma_filter_push(rows@[i as int], admitted_by(*c));
        }
        if c.test(&rows[i]) {
            n += 1;
        }
        i += 1;
    }
    proof {
        rows@.lemma_take_len();
    }
    n
}

/// Removes the rows that `c` admits and returns how many they were.
pub fn remove_where<R: Record, C: Criterion<R>>(rows: &mut Vec<R>, c: &C) -> (n: usize)
    ensures
        final(rows)@ == old(rows)@.filter(rejected_by(*c)),
        n == old(rows)@.len() - final(rows)@.len(),
        n == old(rows)@.filter(admitted_by(*c)).len(),
{
    let mut kept: Vec<R> = Vec::new();
    let mut n: usize = 0;
    let mut i: usize = 0;
    proof {
        lemma_filter_empty::<R>(admitted_by(*c));
        lemma_filter_empty::<R>(rejected_by(*c));
    }
    while i < rows.len()
        invariant
            i <= rows.len(),
            *rows == *old(rows),
            n + kept@.len() == i,
            kept@ == rows@.take(i as int).filter(rejected_by(*c)),
            n == rows@.take(i as int).filter(admitted_by(*c)).len(),
        decreases rows.len() - i,
    {
        proof {
            rows@.lemma_take_succ_push(i as int);
            rows@.take(i as int).lemma_filter_push(rows@[i as int], admitted_by(*c));
            rows@.take(i as int).lemma_filter_push(rows@[i as int], rejected_by(*c));
        }
        if c.test(&rows[i]) {
            n += 1;
        } else {
            kept.push(rows[i].duplicate());
        }
        i += 1;
    }
    proof {
        rows@.lemma_take_len();
    }
    *rows = kept;
    n
}

/// The index of the row with the key `id`, if there is one.
pub fn position<R: Record>(rows: &Vec<R>, id: i32) -> (at: Option<usize>)
    ensures
        at is Some <==> has_key(rows@, id),
        at is Some ==> at->0 < rows.len() && rows@[at->0 as int].key() == id,
        at is Some ==> forall|j: int| 0 <= j < at->0 ==> (#[trigger] rows@[j]).key() != id,
{
    let mut i: usize = 0;
    while i < rows.len()
        invariant
            i <= rows.len(),
            forall|j: int| 0 <= j < i ==> (#[trigger] rows@[j]).key() != id,
        decreases rows.len() - i,
    {
        if rows[i].id() == id {
            return Some(i);
        }
        i += 1;
    }
    None
}

/// One page of `rows`. Pages are counted from one; a page or a size below one
/// is refused.
pub fn paginate<R: Record>(rows: &Vec<R>, page: i64, size: i64) -> (r: Result<Vec<R>, Error>)
    ensures
        r is Err <==> page < 1 || size < 1,
        r is Err ==> r->Err_0.kind == ErrorKind::InvalidArgument,
        r is Ok ==> r->Ok_0@ == page_slice(rows@, page as int, size as int),
{
    if page < 1 || size < 1 {
        return Err(Error::new(ErrorKind::InvalidArgument));
    }
    let len: usize = rows.len();
    assert((page - 1) * size <= 0x7fff_ffff_ffff_ffff * 0x7fff_ffff_ffff_ffff) by (nonlinear_arith)
        requires
            1 <= page <= 0x7fff_ffff_ffff_ffff,
            1 <= size <= 0x7fff_ffff_ffff_ffff,
    ;
    assert((page - 1) * size >= 0) by (nonlinear_arith)
        requires
            1 <= page,
            1 <= size,
    ;
    let offset: u128 = ((page - 1) as u128) * (size as u128);
    let mut out: Vec<R> = Vec::new();
    if offset >= len as u128 {
        proof {
            assert(out@ =~= page_slice(rows@, page as int, size as int));
        }
        return Ok(out);
    }
    let start: usize = offset as usize;
    let room: usize = len - start;
    let end: usize = if (size as u128) < (room as u128) { start + (size as usize) } else { len };
    let mut i: usize = start;
    while i < end
        invariant
            start <= i <= end <= rows.len(),
            out@ == rows@.subrange(start as int, i as int),
        decreases end - i,
    {
        out.push(rows[i].duplicate());
        proof {
            assert(rows@.subrange(start as int, i as int).push(rows@[i as int]) =~= rows@.subrange(start as int, i + 1));
        }
        i += 1;
    }
    Ok(out)
}

/// Two pages that follow each other are adjacent slices of the unpaged rows:
/// together they are the rows from the first page's start to the second
/// page's end, so they share no position and leave none out between them.
pub proof fn lemma_pages_contiguous<R>(rows: Seq<R>, page: int, size: int)
    requires
        page >= 1,
        size >= 1,
    ensures
        page_slice(rows, page, size) + page_slice(rows, page + 1, size) == rows.subrange(
            if page_offset(page, size) < rows.len() { page_offset(page, size) } else { rows.len() as int },
            if page_offset(page, size) + 2 * size < rows.len() { page_offset(page, size) + 2 * size } else { rows.len() as int },
        ),
        page_offset(page + 1, size) == page_offset(page, size) + size,
        page_slice(rows, page, size).len() <= size,
        page_slice(rows, page, size).len() < size ==> page_slice(rows, page + 1, size).len() == 0,
{
    assert(page_offset(page + 1, size) == page_offset(page, size) + size) by (nonlinear_arith);
    assert(page_offset(page, size) >= 0) by (nonlinear_arith)
        requires
            page >= 1,
            size >= 1,
    ;
    assert(page_slice(rows, page, size) + page_slice(rows, page + 1, size) =~= rows.subrange(
        if page_offset(page, size) < rows.len() { page_offset(page, size) } else { rows.len() as int },
        if page_offset(page, size) + 2 * size < rows.len() { page_offset(page, size) + 2 * size } else { rows.len() as int },
    ));
}

/// A table is well formed: its keys strictly increase and lie in `1..=last`,
/// where `last` is the key given out most recently.
pub open spec fn table_wf<R: Record>(rows: Seq<R>, last: i32) -> bool {
    last >= 0 && ascending(rows) && keys_within(rows, last as int)
}

/// The position of the row with the key `id`.
pub open spec fn index_of<R: Record>(rows: Seq<R>, id: i32) -> int {
    choose|i: int| 0 <= i < rows.len() && (#[trigger] rows[i]).key() == id
}

/// The row with the key `id`.
pub open spec fn row_of<R: Record>(rows: Seq<R>, id: i32) -> R {
    rows[index_of(rows, id)]
}

/// The rows without the one with the key `id`, if there is one.
pub open spec fn removed<R: Record>(rows: Seq<R>, id: i32) -> Seq<R> {
    if has_key(rows, id) {
        rows.remove(index_of(rows, id))
    } else {
        rows
    }
}

/// The rows with `row` in the place of the one with the key `id`, if there is one.
pub open spec fn replaced<R: Record>(rows: Seq<R>, id: i32, row: R) -> Seq<R> {
    if has_key(rows, id) {
        rows.update(index_of(rows, id), row)
    } else {
        rows
    }
}

/// In a table whose keys increase, a key names one position.
pub proof fn lemma_index_unique<R: Record>(rows: Seq<R>, id: i32, at: int)
    requires
        ascending(rows),
        0 <= at < rows.len(),
        rows[at].key() == id,
    ensures
        has_key(rows, id),
        index_of(rows, id) == at,
{
    let i = index_of(rows, id);
    if i < at {
        assert(rows[i].key() < rows[at].key());
    }
    if at < i {
        assert(rows[at].key() < rows[i].key());
    }
}

/// A well-formed table holds at most `last` rows.
pub proof fn lemma_len_bound<R: Record>(rows: Seq<R>, last: i32)
    requires
        table_wf(rows, last),
    ensures
        rows.len() <= last,
{
    if rows.len() > 0 {
        lemma_key_above_index(rows, rows.len() - 1);
    }
}

proof fn lemma_key_above_index<R: Record>(rows: Seq<R>, i: int)
    requires
        ascending(rows),
        forall|k: int| 0 <= k < rows.len() ==> 1 <= (#[trigger] rows[k]).key(),
        0 <= i < rows.len(),
    ensures
        rows[i].key() >= i + 1,
    decreases i,
{
    if i > 0 {
        lemma_key_above_index(rows, i - 1);
        assert(rows[i - 1].key() < rows[i].key());
    }
}

/// Appending a row with the next key keeps a table well formed.
pub proof fn lemma_push_wf<R: Record>(rows: Seq<R>, last: i32, row: R)
    requires
        table_wf(rows, last),
        row.key() == last + 1,
    ensures
        table_wf(rows.push(row), row.key()),
        !has_key(rows, row.key()),
        forall|id: i32| has_key(rows, id) ==> has_key(rows.push(row), id),
        forall|id: i32| has_key(rows.push(row), id) <==> has_key(rows, id) || id == row.key(),
{
    let after = rows.push(row);
    assert forall|id: i32| has_key(rows, id) implies has_key(after, id) by {
        let i = index_of(rows, id);
        assert(after[i].key() == id);
    }
    assert(after[rows.len() as int].key() == row.key());
    assert forall|id: i32| has_key(after, id) implies has_key(rows, id) || id == row.key() by {
        let i = index_of(after, id);
        if i < rows.len() {
            assert(rows[i].key() == id);
        }
    }
}

/// Removing a row keeps a table well formed and keeps every other key.
pub proof fn lemma_removed_wf<R: Record>(rows: Seq<R>, last: i32, id: i32)
    requires
        table_wf(rows, last),
    ensures
        table_wf(removed(rows, id), last),
        !has_key(removed(rows, id), id),
        forall|other: i32| other != id ==> (has_key(removed(rows, id), other) <==> has_key(rows, other)),
        forall|k: int| 0 <= k < removed(rows, id).len() ==> rows.contains(#[trigger] removed(rows, id)[k]),
{
    let after = removed(rows, id);
    if has_key(rows, id) {
        let at = index_of(rows, id);
        assert forall|k: int| 0 <= k < after.len() implies rows.contains(#[trigger] after[k]) && after[k].key() != id by {
            if k < at {
                assert(after[k] == rows[k]);
                assert(rows[k].key() < rows[at].key());
            } else {
                assert(after[k] == rows[k + 1]);
                assert(rows[at].key() < rows[k + 1].key());
            }
        }
        assert forall|i: int, j: int| 0 <= i < j < after.len() implies (#[trigger] after[i]).key() < (#[trigger] after[j]).key() by {
            let a = if i < at { i } else { i + 1 };
            let b = if j < at { j } else { j + 1 };
            assert(after[i] == rows[a] && after[j] == rows[b]);
        }
        assert forall|k: int| 0 <= k < after.len() implies 1 <= (#[trigger] after[k]).key() <= last by {
            let a = if k < at { k } else { k + 1 };
            assert(after[k] == rows[a]);
        }
        assert forall|other: i32| other != id implies (has_key(after, other) <==> has_key(rows, other)) by {
            if has_key(after, other) {
                let k = index_of(after, other);
                let a = if k < at { k } else { k + 1 };
                assert(after[k] == rows[a]);
            }
            if has_key(rows, other) {
                let a = index_of(rows, other);
                let k = if a < at { a } else { a - 1 };
                assert(after[k] == rows[a]);
            }
        }
        if has_key(after, id) {
            let k = index_of(after, id);
            assert(after[k].key() != id);
        }
    } else {
        assert forall|k: int| 0 <= k < after.len() implies rows.contains(#[trigger] after[k]) by {}
    }
}

/// Replacing a row by one with the same key keeps a table well formed and
/// keeps its keys.
pub proof fn lemma_replaced_wf<R: Record>(rows: Seq<R>, last: i32, id: i32, row: R)
    requires
        table_wf(rows, last),
        row.key() == id,
    ensures
        table_wf(replaced(rows, id, row), last),
        forall|other: i32| has_key(replaced(rows, id, row), other) <==> has_key(rows, other),
        replaced(rows, id, row).len() == rows.len(),
{
    let after = replaced(rows, id, row);
    if has_key(rows, id) {
        let at = index_of(rows, id);
        assert forall|k: int| 0 <= k < rows.len() implies (#[trigger] after[k]).key() == rows[k].key() by {}
        assert forall|i: int, j: int| 0 <= i < j < after.len() implies (#[trigger] after[i]).key() < (#[trigger] after[j]).key() by {
            assert(rows[i].key() < rows[j].key());
        }
        assert forall|other: i32| has_key(after, other) <==> has_key(rows, other) by {
            if has_key(after, other) {
                let k = index_of(after, other);
                assert(rows[k].key() == other);
            }
            if has_key(rows, other) {
                let k = index_of(rows, other);
                assert(after[k].key() == other);
            }
        }
    }
}

/// Whether the rows are in key order, each key above the one before.
pub fn in_key_order<R: Record>(rows: &Vec<R>) -> (b: bool)
    ensures
        b == ascending(rows@),
{
    let mut i: usize = 1;
    while i < rows.len()
        invariant
            1 <= i,
            forall|a: int, b: int| 0 <= a < b < i && b < rows@.len() ==> (#[trigger] rows@[a]).key() < (#[trigger] rows@[b]).key(),
        decreases rows.len() - i,
    {
        if rows[i - 1].id() >= rows[i].id() {
            assert(!(rows@[i - 1].key() < rows@[i as int].key()));
            return false;
        }
        proof {
            assert forall|a: int, b: int| 0 <= a < b < i + 1 && b < rows@.len() implies (#[trigger] rows@[a]).key() < (
            #[trigger] rows@[b]).key() by {
                if b == i {
                    if a < i - 1 {
                        assert(rows@[a].key() < rows@[i - 1].key());
                    }
                }
            }
        }
        i += 1;
    }
    true
}

/// A copy of the row with the key `id`, if there is one.
pub fn fetch<R: Record>(rows: &Vec<R>, id: i32) -> (r: Option<R>)
    requires
        ascending(rows@),
    ensures
        r is Some <==> has_key(rows@, id),
        r is Some ==> r->0 == row_of(rows@, id),
{
    match position(rows, id) {
        Some(at) => {
            proof {
                lemma_index_unique(rows@, id, at as int);
            }
            Some(rows[at].duplicate())
        },
        None => None,
    }
}

/// Removes the row with the key `id`, if there is one, and says how many rows left.
pub fn remove_key<R: Record>(rows: &mut Vec<R>, id: i32) -> (n: usize)
    requires
        ascending(old(rows)@),
    ensures
        final(rows)@ == removed(old(rows)@, id),
        n == if has_key(old(rows)@, id) { 1usize } else { 0usize },
{
    match position(rows, id) {
        Some(at) => {
            proof {
                lemma_index_unique(rows@, id, at as int);
            }
            let _gone: R = rows.remove(at);
            1
        },
        None => 0,
    }
}

/// The rows that a criterion admits, in their order.
pub open spec fn hits<R, C: Criterion<R>>(rows: Seq<R>, c: C) -> Seq<R> {
    rows.filter(admitted_by(c))
}

/// The rows that a criterion does not admit, in their order.
pub open spec fn misses<R, C: Criterion<R>>(rows: Seq<R>, c: C) -> Seq<R> {
    rows.filter(rejected_by(c))
}

/// A request for a page can be served: where both a page and a size are
/// given, neither is below one.
pub open spec fn paging_valid(page: Option<i64>, size: Option<i64>) -> bool {
    page is Some && size is Some ==> page->0 >= 1 && size->0 >= 1
}

/// The requested part of `rows`: one page where a page and a size are given,
/// else all of them.
pub open spec fn paged<R>(rows: Seq<R>, page: Option<i64>, size: Option<i64>) -> Seq<R> {
    if page is Some && size is Some {
        page_slice(rows, page->0 as int, size->0 as int)
    } else {
        rows
    }
}

/// Filters that agree on every row keep the same rows.
pub proof fn lemma_filter_same<R>(rows: Seq<R>, p: spec_fn(R) -> bool, q: spec_fn(R) -> bool)
    requires
        forall|r: R| #[trigger] p(r) == q(r),
    ensures
        rows.filter(p) == rows.filter(q),
    decreases rows.len(),
{
    reveal_with_fuel(Seq::filter, 1);
    if rows.len() > 0 {
        lemma_filter_same(rows.drop_last(), p, q);
    }
}

/// Filtering first by `q` never lets more rows through `p`; it lets none
/// through where no row passes both, and changes nothing where `p` is the
/// narrower of the two.
pub proof fn lemma_filter_filter_len<R>(rows: Seq<R>, q: spec_fn(R) -> bool, p: spec_fn(R) -> bool)
    ensures
        rows.filter(q).filter(p).len() <= rows.filter(p).len(),
        (forall|i: int| 0 <= i < rows.len() && q(#[trigger] rows[i]) ==> !p(rows[i])) ==> rows.filter(q).filter(p).len() == 0,
        (forall|r: R| p(r) ==> #[trigger] q(r)) ==> rows.filter(q).filter(p) == rows.filter(p),
    decreases rows.len(),
{
    reveal_with_fuel(Seq::filter, 1);
    if rows.len() > 0 {
        let front = rows.drop_last();
        lemma_filter_filter_len(front, q, p);
        front.filter(q).lemma_filter_push(rows.last(), p);
        if forall|i: int| 0 <= i < rows.len() && q(#[trigger] rows[i]) ==> !p(rows[i]) {
            assert forall|i: int| 0 <= i < front.len() && q(#[trigger] front[i]) implies !p(front[i]) by {
                assert(front[i] == rows[i]);
            }
            assert(rows.last() == rows[rows.len() - 1]);
        }
    } else {
        lemma_filter_empty::<R>(p);
    }
}

/// A filter that no row passes keeps nothing.
pub proof fn lemma_filter_none<R>(rows: Seq<R>, p: spec_fn(R) -> bool)
    requires
        forall|i: int| 0 <= i < rows.len() ==> !p(#[trigger] rows[i]),
    ensures
        rows.filter(p) == Seq::<R>::empty(),
    decreases rows.len(),
{
    reveal_with_fuel(Seq::filter, 1);
    if rows.len() > 0 {
        let front = rows.drop_last();
        assert forall|i: int| 0 <= i < front.len() implies !p(#[trigger] front[i]) by {
            assert(front[i] == rows[i]);
        }
        lemma_filter_none(front, p);
        assert(rows.last() == rows[rows.len() - 1]);
    }
}

/// Every row that a search returns passes its criterion, whatever the page.
pub proof fn lemma_found_rows_pass<R, C: Criterion<R>>(rows: Seq<R>, c: C, page: Option<i64>, size: Option<i64>)
    requires
        paging_valid(page, size),
    ensures
        forall|i: int| 0 <= i < paged(hits(rows, c), page, size).len() ==> c.admits(&#[trigger] paged(hits(rows, c), page, size)[i]),
        forall|i: int| 0 <= i < paged(hits(rows, c), page, size).len() ==> rows.contains(#[trigger] paged(hits(rows, c), page, size)[i]),
        paged(hits(rows, c), page, size).len() <= hits(rows, c).len(),
{
    let all = hits(rows, c);
    let part = paged(all, page, size);
    if page is Some && size is Some {
        assert(page_offset(page->0 as int, size->0 as int) >= 0) by (nonlinear_arith)
            requires
                page->0 >= 1,
                size->0 >= 1,
        ;
    }
    assert forall|i: int| 0 <= i < part.len() implies c.admits(&#[trigger] part[i]) && rows.contains(part[i]) by {
        let j = if page is Some && size is Some {
            let off = page_offset(page->0 as int, size->0 as int);
            (if off < all.len() { off } else { all.len() as int }) + i
        } else {
            i
        };
        assert(part[i] == all[j]);
        rows.lemma_filter_pred(admitted_by(c), j);
        assert(all.contains(all[j]));
        rows.lemma_filter_contains_rev(admitted_by(c), all[j]);
    }
}

/// What a search in a table in key order returns is in key order.
pub proof fn lemma_found_in_key_order<R: Record, C: Criterion<R>>(rows: Seq<R>, c: C, page: Option<i64>, size: Option<i64>)
    requires
        ascending(rows),
        paging_valid(page, size),
    ensures
        ascending(hits(rows, c)),
        ascending(paged(hits(rows, c), page, size)),
{
    lemma_filter_ascending(rows, admitted_by(c));
    let all = hits(rows, c);
    let part = paged(all, page, size);
    if page is Some && size is Some {
        assert(page_offset(page->0 as int, size->0 as int) >= 0) by (nonlinear_arith)
            requires
                page->0 >= 1,
                size->0 >= 1,
        ;
        let off = page_offset(page->0 as int, size->0 as int);
        let start = if off < all.len() { off } else { all.len() as int };
        assert forall|i: int, j: int| 0 <= i < j < part.len() implies (#[trigger] part[i]).key() < (#[trigger] part[j]).key() by {
            assert(part[i] == all[start + i]);
            assert(part[j] == all[start + j]);
        }
    }
}

/// The requested part of `rows`.
pub fn page_of<R: Record>(rows: Vec<R>, page: Option<i64>, size: Option<i64>) -> (r: Result<Vec<R>, Error>)
    ensures
        r is Err <==> !paging_valid(page, size),
        r is Err ==> r->Err_0.kind == ErrorKind::InvalidArgument,
        r is Ok ==> r->Ok_0@ == paged(rows@, page, size),
{
    match (page, size) {
        (Some(p), Some(s)) => paginate(&rows, p, s),
        _ => Ok(rows),
    }
}

/// The rows that `c` admits, cut to the requested page, together with the
/// number of all rows that `c` admits.
pub fn search<R: Record, C: Criterion<R>>(rows: &Vec<R>, c: &C, page: Option<i64>, size: Option<i64>) -> (r: Result<
    (Vec<R>, i64),
    Error,
>)
    requires
        rows@.len() <= i32::MAX,
    ensures
        r is Err <==> !paging_valid(page, size),
        r is Err ==> r->Err_0.kind == ErrorKind::InvalidArgument,
        r is Ok ==> r->Ok_0.0@ == paged(hits(rows@, *c), page, size) && r->Ok_0.1 == hits(rows@, *c).len(),
{
    let found: Vec<R> = select(rows, c);
    proof {
        rows@.lemma_filter_len(admitted_by(*c));
    }
    let total: i64 = found.len() as i64;
    match page_of(found, page, size) {
        Ok(part) => Ok((part, total)),
        Err(e) => Err(e),
    }
}

/// The only row with the key `id`, as a sequence: empty if there is none.
pub open spec fn only<R: Record>(rows: Seq<R>, id: i32) -> Seq<R> {
    if has_key(rows, id) {
        seq![row_of(rows, id)]
    } else {
        Seq::empty()
    }
}

} // verus!
