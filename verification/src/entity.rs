//! What the six kinds of entity rows share: a maintenance interval that is
//! never negative, creation from a draft and change by a partial update.

use crate::datetime::MyDatetime;
use crate::table::{
    has_key, lemma_index_unique, lemma_push_wf, lemma_replaced_wf, position, replaced, row_of, table_wf, Record,
};
use vstd::prelude::*;

verus! {

/// A row that carries a maintenance interval.
pub trait Entity: Record {
    spec fn interval(&self) -> i32;
}

/// The values from which a new row is made.
pub trait Draft<R: Entity> {
    /// The maintenance interval that the new row will carry.
    spec fn interval(&self) -> i32;

    /// The row that the draft becomes under the key `id` at the time `now`.
    spec fn row(&self, id: i32, now: MyDatetime) -> R;

    fn upkeep(&self) -> (v: i32)
        ensures
            v == self.interval(),
    ;

    fn to_row(&self, id: i32, now: MyDatetime) -> (r: R)
        ensures
            r == self.row(id, now),
    ;

    proof fn lemma_row(&self, id: i32, now: MyDatetime)
        ensures
            self.row(id, now).key() == id,
            self.row(id, now).interval() == self.interval(),
    ;
}

/// A partial update: each field is either given or absent.
pub trait Amend<R: Entity> {
    /// No field is given.
    spec fn is_empty(&self) -> bool;

    /// The maintenance interval that the update sets, if it sets one.
    spec fn interval(&self) -> Option<i32>;

    /// The row after the update: given fields replaced, the others kept. The
    /// time of the last update moves to `now` only if a field is given.
    spec fn applied(&self, row: R, now: MyDatetime) -> R;

    fn new_interval(&self) -> (v: Option<i32>)
        ensures
            v == self.interval(),
    ;

    fn apply(&self, row: &R, now: MyDatetime) -> (r: R)
        ensures
            r == self.applied(*row, now),
    ;

    proof fn lemma_applied(&self, row: R, now: MyDatetime)
        ensures
            self.applied(row, now).key() == row.key(),
            self.applied(row, now).interval() == (if self.interval() is Some {
                self.interval()->0
            } else {
                row.interval()
            }),
            self.is_empty() ==> self.applied(row, now) == row && self.interval() is None,
    ;
}

/// No row carries a negative maintenance interval.
pub open spec fn intervals_valid<R: Entity>(rows: Seq<R>) -> bool {
    forall|i: int| 0 <= i < rows.len() ==> 0 <= (#[trigger] rows[i]).interval()
}

/// An entity table is well formed.
pub open spec fn entity_wf<R: Entity>(rows: Seq<R>, last: i32) -> bool {
    table_wf(rows, last) && intervals_valid(rows)
}

/// Some draft carries a negative maintenance interval.
pub open spec fn any_negative<R: Entity, D: Draft<R>>(drafts: Seq<D>) -> bool {
    exists|i: int| 0 <= i < drafts.len() && (#[trigger] drafts[i]).interval() < 0
}

/// The rows that the drafts become after the key `last`, in their order.
pub open spec fn rows_from<R: Entity, D: Draft<R>>(drafts: Seq<D>, last: i32, now: MyDatetime) -> Seq<R> {
    Seq::new(drafts.len(), |i: int| drafts[i].row((last + 1 + i) as i32, now))
}

/// The rows after an update of the row `id`: that row with the update
/// applied, the others as they were.
pub open spec fn amended<R: Entity, A: Amend<R>>(rows: Seq<R>, id: i32, upd: A, now: MyDatetime) -> Seq<R> {
    replaced(rows, id, upd.applied(row_of(rows, id), now))
}

/// Whether some draft carries a negative maintenance interval.
pub fn has_negative<R: Entity, D: Draft<R>>(drafts: &Vec<D>) -> (b: bool)
    ensures
        b == any_negative::<R, D>(drafts@),
{
    let mut i: usize = 0;
    while i < drafts.len()
        invariant
            i <= drafts.len(),
            forall|k: int| 0 <= k < i ==> (#[trigger] drafts@[k]).interval() >= 0,
        decreases drafts.len() - i,
    {
        if drafts[i].upkeep() < 0 {
            return true;
        }
        i += 1;
    }
    false
}

/// Appends the row of one draft under the next key. The caller has checked
/// that the interval is not negative and that a key is left.
pub(crate) fn append<R: Entity, D: Draft<R>>(rows: &mut Vec<R>, last: &mut i32, draft: &D, now: MyDatetime) -> (id: i32)
    requires
        entity_wf(old(rows)@, *old(last)),
        *old(last) < i32::MAX,
        draft.interval() >= 0,
    ensures
        id == *old(last) + 1,
        *final(last) == id,
        final(rows)@ == old(rows)@.push(draft.row(id, now)),
        entity_wf(final(rows)@, *final(last)),
        forall|key: i32| has_key(old(rows)@, key) ==> has_key(final(rows)@, key),
{
    let id: i32 = *last + 1;
    let row: R = draft.to_row(id, now);
    proof {
        draft.lemma_row(id, now);
        lemma_push_wf(rows@, *last, row);
    }
    rows.push(row);
    *last = id;
    id
}

/// Appends the rows of all drafts under the next keys. The caller has checked
/// that no interval is negative and that enough keys are left.
pub(crate) fn append_all<R: Entity, D: Draft<R>>(rows: &mut Vec<R>, last: &mut i32, drafts: &Vec<D>, now: MyDatetime)
    requires
        entity_wf(old(rows)@, *old(last)),
        *old(last) + drafts@.len() <= i32::MAX,
        !any_negative::<R, D>(drafts@),
    ensures
        *final(last) == *old(last) + drafts@.len(),
        final(rows)@ == old(rows)@ + rows_from::<R, D>(drafts@, *old(last), now),
        entity_wf(final(rows)@, *final(last)),
        forall|key: i32| has_key(old(rows)@, key) ==> has_key(final(rows)@, key),
{
    let ghost first: Seq<R> = rows@;
    let ghost start: i32 = *last;
    let mut i: usize = 0;
    proof {
        assert(rows@ =~= first + rows_from::<R, D>(drafts@, start, now).take(0));
    }
    while i < drafts.len()
        invariant
            i <= drafts.len(),
            start + drafts@.len() <= i32::MAX,
            !any_negative::<R, D>(drafts@),
            *last == start + i,
            rows@ == first + rows_from::<R, D>(drafts@, start, now).take(i as int),
            entity_wf(rows@, *last),
            forall|key: i32| has_key(first, key) ==> has_key(rows@, key),
        decreases drafts.len() - i,
    {
        let ghost before: Seq<R> = rows@;
        let id: i32 = append(rows, last, &drafts[i], now);
        proof {
            let all = rows_from::<R, D>(drafts@, start, now);
            all.lemma_take_succ_push(i as int);
            assert(all[i as int] == drafts@[i as int].row(id, now));
            assert(rows@ =~= first + all.take(i + 1));
        }
        i += 1;
    }
    proof {
        rows_from::<R, D>(drafts@, start, now).lemma_take_len();
    }
}

/// Applies a partial update to the row `id`, if there is one, and says how
/// many rows it reached. The caller has checked the interval it sets.
pub(crate) fn amend<R: Entity, A: Amend<R>>(rows: &mut Vec<R>, id: i32, upd: &A, now: MyDatetime, Ghost(last): Ghost<i32>) -> (n: usize)
    requires
        entity_wf(old(rows)@, last),
        upd.interval() is Some ==> upd.interval()->0 >= 0,
    ensures
        final(rows)@ == (if has_key(old(rows)@, id) {
            amended(old(rows)@, id, *upd, now)
        } else {
            old(rows)@
        }),
        n == if has_key(old(rows)@, id) { 1usize } else { 0usize },
        entity_wf(final(rows)@, last),
        forall|other: i32| has_key(final(rows)@, other) <==> has_key(old(rows)@, other),
{
    match position(rows, id) {
        Some(at) => {
            let row: R = upd.apply(&rows[at], now);
            proof {
                lemma_index_unique(rows@, id, at as int);
                upd.lemma_applied(rows@[at as int], now);
                lemma_replaced_wf(rows@, last, id, row);
                assert forall|k: int| 0 <= k < rows@.len() implies 0 <= (#[trigger] rows@.update(at as int, row)[k]).interval() by {
                    if k != at {
                        assert(rows@[k].interval() >= 0);
                    } else {
                        assert(rows@[at as int].interval() >= 0);
                    }
                }
            }
            rows.set(at, row);
            1
        },
        None => 0,
    }
}

/// An update without any field is a no-op: it leaves every field of every
/// row as it was, whether or not the row it names is there.
pub proof fn lemma_empty_update<R: Entity, A: Amend<R>>(rows: Seq<R>, id: i32, upd: A, now: MyDatetime)
    requires
        upd.is_empty(),
    ensures
        amended(rows, id, upd, now) == rows,
        upd.interval() is None,
{
    if has_key(rows, id) {
        upd.lemma_applied(row_of(rows, id), now);
        assert(amended(rows, id, upd, now) =~= rows);
    } else {
        upd.lemma_applied(arbitrary(), now);
    }
}

} // verus!
