use vstd::prelude::*;

use crate::error::Error;
use crate::order::{has_neighbour, is_neighbour, plan_reorder, Slot, Swap};

verus! {

/// The outcome that moving the row with a given identifier must have: the
/// row is missing, it sits at the boundary, or it exchanges positions with
/// its neighbour.
pub open spec fn move_outcome<K>(rows: Seq<Slot<K>>, found: Option<int>, up: bool, r: Result<
    Swap,
    Error,
>) -> bool {
    match found {
        None => r == Err::<Swap, Error>(Error::NotFound),
        Some(t) => {
            &&& (r is Err <==> !has_neighbour(rows, t, up))
            &&& (r is Err ==> r == Err::<Swap, Error>(Error::AtBoundary))
            &&& (r matches Ok(s) ==> {
                &&& s.target == t
                &&& is_neighbour(rows, t, s.neighbour as int, up)
                &&& s.target_position == rows[s.neighbour as int].position
                &&& s.neighbour_position == rows[t].position
            })
        },
    }
}

/// No two rows share a numeric identifier, as a primary key ensures.
pub open spec fn distinct_numbers(rows: Seq<Slot<i64>>) -> bool {
    forall|i: int, j: int| 0 <= i < rows.len() && 0 <= j < rows.len() && i != j ==> rows[i].id != rows[j].id
}

/// No two rows share a slug, as a primary key ensures.
pub open spec fn distinct_slugs(rows: Seq<Slot<String>>) -> bool {
    forall|i: int, j: int|
        0 <= i < rows.len() && 0 <= j < rows.len() && i != j ==> rows[i].id@ != rows[j].id@
}

/// Finds the first row whose numeric identifier is `id`.
pub fn index_of_number(rows: &Vec<Slot<i64>>, id: i64) -> (r: Option<usize>)
    ensures
        r matches Some(i) ==> i < rows.len() && rows@[i as int].id == id && forall|k: int|
            0 <= k < i ==> rows@[k].id != id,
        r is None ==> forall|k: int| 0 <= k < rows.len() ==> rows@[k].id != id,
{
    let mut i: usize = 0;
    while i < rows.len()
        invariant
            i <= rows.len(),
            forall|k: int| 0 <= k < i ==> rows@[k].id != id,
        decreases rows.len() - i,
    {
        if rows[i].id == id {
            return Some(i);
        }
        i = i + 1;
    }
    None
}

/// Finds the first row whose slug identifier is `id`.
pub fn index_of_slug(rows: &Vec<Slot<String>>, id: &String) -> (r: Option<usize>)
    ensures
        r matches Some(i) ==> i < rows.len() && rows@[i as int].id@ == id@ && forall|k: int|
            0 <= k < i ==> rows@[k].id@ != id@,
        r is None ==> forall|k: int| 0 <= k < rows.len() ==> rows@[k].id@ != id@,
{
    let mut i: usize = 0;
    while i < rows.len()
        invariant
            i <= rows.len(),
            forall|k: int| 0 <= k < i ==> rows@[k].id@ != id@,
        decreases rows.len() - i,
    {
        if rows[i].id == *id {
            return Some(i);
        }
        i = i + 1;
    }
    None
}

fn move_numbered(rows: &Vec<Slot<i64>>, id: i64, up: bool) -> (r: Result<Swap, Error>)
    ensures
        exists|found: Option<int>|
            {
                &&& (found matches Some(t) ==> 0 <= t < rows.len() && rows@[t].id == id
                    && forall|k: int| 0 <= k < t ==> rows@[k].id != id)
                &&& (found is None ==> forall|k: int| 0 <= k < rows.len() ==> rows@[k].id != id)
                &&& move_outcome(rows@, found, up, r)
            },
        distinct_numbers(rows@) ==> forall|t: int|
            0 <= t < rows.len() && rows@[t].id == id ==> move_outcome(rows@, Some(t), up, r),
{
    match index_of_number(rows, id) {
        None => {
            let r = Err(Error::NotFound);
            assert(move_outcome(rows@, None, up, r));
            r
        },
        Some(t) => {
            let r = plan_reorder(rows, t, up);
            assert(move_outcome(rows@, Some(t as int), up, r));
            r
        },
    }
}

/// Plans moving the category with slug `id` one step up or down among
/// `rows`, the (slug, position) pairs of every category. `NotFound` when no
/// category has that slug, `AtBoundary` when it is already first (`up`) or
/// last (`!up`); otherwise the two position writes of the swap.
pub fn move_category(rows: &Vec<Slot<String>>, id: &String, up: bool) -> (r: Result<Swap, Error>)
    ensures
        exists|found: Option<int>|
            {
                &&& (found matches Some(t) ==> 0 <= t < rows.len() && rows@[t].id@ == id@
                    && forall|k: int| 0 <= k < t ==> rows@[k].id@ != id@)
                &&& (found is None ==> forall|k: int|
                    0 <= k < rows.len() ==> rows@[k].id@ != id@)
                &&& move_outcome(rows@, found, up, r)
            },
        distinct_slugs(rows@) ==> forall|t: int|
            0 <= t < rows.len() && rows@[t].id@ == id@ ==> move_outcome(rows@, Some(t), up, r),
{
    match index_of_slug(rows, id) {
        None => {
            let r = Err(Error::NotFound);
            assert(move_outcome(rows@, None, up, r));
            r
        },
        Some(t) => {
            let r = plan_reorder(rows, t, up);
            assert(move_outcome(rows@, Some(t as int), up, r));
            r
        },
    }
}

/// Plans moving the image `id` one step up or down among `rows`, the
/// (id, position) pairs of every image; outcomes as for categories.
pub fn move_image(rows: &Vec<Slot<i64>>, id: i64, up: bool) -> (r: Result<Swap, Error>)
    ensures
        exists|found: Option<int>|
            {
                &&& (found matches Some(t) ==> 0 <= t < rows.len() && rows@[t].id == id
                    && forall|k: int| 0 <= k < t ==> rows@[k].id != id)
                &&& (found is None ==> forall|k: int| 0 <= k < rows.len() ==> rows@[k].id != id)
                &&& move_outcome(rows@, found, up, r)
            },
        distinct_numbers(rows@) ==> forall|t: int|
            0 <= t < rows.len() && rows@[t].id == id ==> move_outcome(rows@, Some(t), up, r),
{
    move_numbered(rows, id, up)
}

/// Plans moving the FAQ entry `id` one step up or down among `rows`, the
/// (id, position) pairs of every entry; outcomes as for categories.
pub fn move_faq(rows: &Vec<Slot<i64>>, id: i64, up: bool) -> (r: Result<Swap, Error>)
    ensures
        exists|found: Option<int>|
            {
                &&& (found matches Some(t) ==> 0 <= t < rows.len() && rows@[t].id == id
                    && forall|k: int| 0 <= k < t ==> rows@[k].id != id)
                &&& (found is None ==> forall|k: int| 0 <= k < rows.len() ==> rows@[k].id != id)
                &&& move_outcome(rows@, found, up, r)
            },
        distinct_numbers(rows@) ==> forall|t: int|
            0 <= t < rows.len() && rows@[t].id == id ==> move_outcome(rows@, Some(t), up, r),
{
    move_numbered(rows, id, up)
}

} // verus!
