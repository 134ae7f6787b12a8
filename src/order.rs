use vstd::prelude::*;

use crate::error::Error;

verus! {

/// One persisted row of an ordered entity kind: its identifier and its
/// display position.
pub struct Slot<K> {
    pub id: K,
    pub position: i64,
}

/// The two position writes that move `target` past its neighbour.
#[derive(Debug, Clone, Copy, PartialEq, Eq)]
pub struct Swap {
    pub target: usize,
    pub neighbour: usize,
    /// The position the target takes: the neighbour's old one.
    pub target_position: i64,
    /// The position the neighbour takes: the target's old one.
    pub neighbour_position: i64,
}

/// No two rows share a position.
pub open spec fn distinct_positions<K>(rows: Seq<Slot<K>>) -> bool {
    forall|i: int, j: int|
        0 <= i < rows.len() && 0 <= j < rows.len() && i != j ==> rows[i].position
            != rows[j].position
}

/// Some row holds position `p`.
pub open spec fn holds_position<K>(rows: Seq<Slot<K>>, p: i64) -> bool {
    exists|i: int| 0 <= i < rows.len() && rows[i].position == p
}

/// Row `j` is the immediate predecessor (`up`) or successor (`!up`) of row
/// `t` in position order.
pub open spec fn is_neighbour<K>(rows: Seq<Slot<K>>, t: int, j: int, up: bool) -> bool {
    &&& 0 <= t < rows.len()
    &&& 0 <= j < rows.len()
    &&& if up {
        &&& rows[j].position < rows[t].position
        &&& forall|k: int|
            0 <= k < rows.len() && rows[k].position < rows[t].position ==> rows[k].position
                <= rows[j].position
    } else {
        &&& rows[t].position < rows[j].position
        &&& forall|k: int|
            0 <= k < rows.len() && rows[t].position < rows[k].position ==> rows[j].position
                <= rows[k].position
    }
}

/// Row `t` can move one step in the given direction.
pub open spec fn has_neighbour<K>(rows: Seq<Slot<K>>, t: int, up: bool) -> bool {
    exists|j: int| is_neighbour(rows, t, j, up)
}

/// Rows `t` and `j` exchange their positions; everything else stays.
pub open spec fn swapped<K>(rows: Seq<Slot<K>>, t: int, j: int) -> Seq<Slot<K>> {
    rows.update(t, Slot { id: rows[t].id, position: rows[j].position }).update(
        j,
        Slot { id: rows[j].id, position: rows[t].position },
    )
}

/// The position a new row takes: one past the greatest, or zero in an
/// empty table; `None` where the greatest is already the largest `i64`.
pub open spec fn next_position_of<K>(rows: Seq<Slot<K>>) -> Option<i64> {
    if rows.len() == 0 {
        Some(0)
    } else if max_position(rows) == i64::MAX {
        None
    } else {
        Some((max_position(rows) + 1) as i64)
    }
}

/// The greatest position of a non-empty table.
pub open spec fn max_position<K>(rows: Seq<Slot<K>>) -> i64
    decreases rows.len(),
{
    if rows.len() <= 1 {
        if rows.len() == 1 {
            rows[0].position
        } else {
            0
        }
    } else {
        let rest = max_position(rows.drop_last());
        if rows.last().position > rest {
            rows.last().position
        } else {
            rest
        }
    }
}

proof fn lemma_max_position<K>(rows: Seq<Slot<K>>)
    requires
        rows.len() > 0,
    ensures
        holds_position(rows, max_position(rows)),
        forall|k: int| 0 <= k < rows.len() ==> rows[k].position <= max_position(rows),
    decreases rows.len(),
{
    if rows.len() > 1 {
        lemma_max_position(rows.drop_last());
        let rest = rows.drop_last();
        if rows.last().position <= max_position(rest) {
            let i = choose|i: int| 0 <= i < rest.len() && rest[i].position == max_position(rest);
            assert(rows[i] == rest[i]);
        }
        assert forall|k: int| 0 <= k < rows.len() implies rows[k].position <= max_position(
            rows,
        ) by {
            if k < rows.len() - 1 {
                assert(rows[k] == rest[k]);
            }
        }
    } else {
        assert(rows[0].position == max_position(rows));
    }
}

/// Finds the immediate predecessor (`up`) or successor (`!up`) of row
/// `target` in position order.
pub fn find_neighbour<K>(rows: &Vec<Slot<K>>, target: usize, up: bool) -> (r: Option<usize>)
    requires
        target < rows.len(),
    ensures
        r is None <==> !has_neighbour(rows@, target as int, up),
        r matches Some(j) ==> is_neighbour(rows@, target as int, j as int, up),
{
    let p = rows[target].position;
    let mut best: Option<usize> = None;
    let mut i: usize = 0;
    while i < rows.len()
        invariant
            target < rows.len(),
            p == rows@[target as int].position,
            i <= rows.len(),
            best matches Some(j) ==> j < i && (if up {
                rows@[j as int].position < p
            } else {
                p < rows@[j as int].position
            }),
            best matches Some(j) ==> forall|k: int|
                0 <= k < i && (if up {
                    rows@[k].position < p
                } else {
                    p < rows@[k].position
                }) ==> (if up {
                    rows@[k].position <= rows@[j as int].position
                } else {
                    rows@[j as int].position <= rows@[k].position
                }),
            best is None ==> forall|k: int|
                0 <= k < i ==> !(if up {
                    rows@[k].position < p
                } else {
                    p < rows@[k].position
                }),
        decreases rows.len() - i,
    {
        let q = rows[i].position;
        if up && q < p {
            match best {
                None => {
                    best = Some(i);
                },
                Some(j) => {
                    if q > rows[j].position {
                        best = Some(i);
                    }
                },
            }
        } else if !up && p < q {
            match best {
                None => {
                    best = Some(i);
                },
                Some(j) => {
                    if q < rows[j].position {
                        best = Some(i);
                    }
                },
            }
        }
        i = i + 1;
    }
    proof {
        if best is None {
            assert forall|j: int| !is_neighbour(rows@, target as int, j, up) by {}
        }
        if let Some(j) = best {
            assert(is_neighbour(rows@, target as int, j as int, up));
        }
    }
    best
}

/// Decides the two writes of a reorder: the target takes its neighbour's
/// position and the neighbour takes the target's. Fails with `AtBoundary`
/// exactly when the target is already first (`up`) or last (`!up`).
pub fn plan_reorder<K>(rows: &Vec<Slot<K>>, target: usize, up: bool) -> (r: Result<Swap, Error>)
    requires
        target < rows.len(),
    ensures
        r is Err <==> !has_neighbour(rows@, target as int, up),
        r is Err ==> r == Err::<Swap, Error>(Error::AtBoundary),
        r matches Ok(s) ==> {
            &&& s.target == target
            &&& is_neighbour(rows@, target as int, s.neighbour as int, up)
            &&& s.target_position == rows@[s.neighbour as int].position
            &&& s.neighbour_position == rows@[target as int].position
        },
{
    match find_neighbour(rows, target, up) {
        None => Err(Error::AtBoundary),
        Some(j) => Ok(
            Swap {
                target,
                neighbour: j,
                target_position: rows[j].position,
                neighbour_position: rows[target].position,
            },
        ),
    }
}

/// Writes the two positions of a planned swap.
pub fn apply_swap<K>(rows: &mut Vec<Slot<K>>, swap: &Swap)
    requires
        swap.target < old(rows).len(),
        swap.neighbour < old(rows).len(),
        swap.target_position == old(rows)@[swap.neighbour as int].position,
        swap.neighbour_position == old(rows)@[swap.target as int].position,
    ensures
        final(rows)@ == swapped(old(rows)@, swap.target as int, swap.neighbour as int),
{
    rows[swap.target].position = swap.target_position;
    rows[swap.neighbour].position = swap.neighbour_position;
}

/// Moves row `target` one step up or down by exchanging positions with its
/// neighbour. At the boundary nothing changes and `AtBoundary` is returned.
pub fn reorder<K>(rows: &mut Vec<Slot<K>>, target: usize, up: bool) -> (r: Result<(), Error>)
    requires
        target < old(rows).len(),
    ensures
        r is Err <==> !has_neighbour(old(rows)@, target as int, up),
        r is Err ==> r == Err::<(), Error>(Error::AtBoundary) && final(rows)@ == old(rows)@,
        r is Ok ==> exists|j: int|
            is_neighbour(old(rows)@, target as int, j, up) && final(rows)@ == swapped(
                old(rows)@,
                target as int,
                j,
            ),
        distinct_positions(old(rows)@) ==> final(rows)@ == reordered(
            old(rows)@,
            target as int,
            up,
        ),
{
    match plan_reorder(rows, target, up) {
        Err(e) => Err(e),
        Ok(s) => {
            apply_swap(rows, &s);
            proof {
                if distinct_positions(old(rows)@) {
                    let k = choose|k: int| is_neighbour(old(rows)@, target as int, k, up);
                    lemma_neighbour_unique(old(rows)@, target as int, s.neighbour as int, k, up);
                }
            }
            Ok(())
        },
    }
}

/// The position for a newly created row: one past the current greatest, or
/// zero in an empty table. `None` where no larger `i64` exists.
pub fn next_position<K>(rows: &Vec<Slot<K>>) -> (r: Option<i64>)
    ensures
        r == next_position_of(rows@),
        r matches Some(p) ==> forall|k: int| 0 <= k < rows.len() ==> rows@[k].position < p,
{
    if rows.len() == 0 {
        return Some(0);
    }
    let mut max = rows[0].position;
    let mut i: usize = 1;
    while i < rows.len()
        invariant
            1 <= i <= rows.len(),
            max == max_position(rows@.subrange(0, i as int)),
        decreases rows.len() - i,
    {
        assert(rows@.subrange(0, i as int + 1).drop_last() == rows@.subrange(0, i as int));
        if rows[i].position > max {
            max = rows[i].position;
        }
        i = i + 1;
    }
    assert(rows@.subrange(0, rows.len() as int) == rows@);
    proof {
        lemma_max_position(rows@);
    }
    if max == i64::MAX {
        None
    } else {
        Some(max + 1)
    }
}

/// Appends a row with a fresh position: one past the current greatest.
/// Fails, leaving the table as it was, when no larger position exists.
pub fn create_slot<K>(rows: &mut Vec<Slot<K>>, id: K) -> (r: Result<i64, Error>)
    ensures
        r is Err <==> next_position_of(old(rows)@) is None,
        r matches Ok(p) ==> next_position_of(old(rows)@) == Some(p),
        final(rows)@ == created(old(rows)@, id),
        r is Err ==> r == Err::<i64, Error>(Error::UnknownDatabaseError),
{
    match next_position(rows) {
        None => Err(Error::UnknownDatabaseError),
        Some(p) => {
            rows.push(Slot { id, position: p });
            Ok(p)
        },
    }
}

/// Removes row `index`; the other rows keep their positions.
pub fn delete_slot<K>(rows: &mut Vec<Slot<K>>, index: usize) -> (r: Slot<K>)
    requires
        index < old(rows).len(),
    ensures
        r == old(rows)@[index as int],
        final(rows)@ == deleted(old(rows)@, index as int),
{
    rows.remove(index)
}

/// The table after creating a row with identifier `id`.
pub open spec fn created<K>(rows: Seq<Slot<K>>, id: K) -> Seq<Slot<K>> {
    match next_position_of(rows) {
        Some(p) => rows.push(Slot { id, position: p }),
        None => rows,
    }
}

/// The table after deleting row `i` (unchanged where there is none).
pub open spec fn deleted<K>(rows: Seq<Slot<K>>, i: int) -> Seq<Slot<K>> {
    if 0 <= i < rows.len() {
        rows.remove(i)
    } else {
        rows
    }
}

/// The table after moving row `t` one step (unchanged at the boundary).
pub open spec fn reordered<K>(rows: Seq<Slot<K>>, t: int, up: bool) -> Seq<Slot<K>> {
    if has_neighbour(rows, t, up) {
        swapped(rows, t, choose|j: int| is_neighbour(rows, t, j, up))
    } else {
        rows
    }
}

/// One mutation of an ordered table.
pub enum Operation<K> {
    Create(K),
    Delete(usize),
    Reorder(usize, bool),
}

pub open spec fn apply_operation<K>(rows: Seq<Slot<K>>, op: Operation<K>) -> Seq<Slot<K>> {
    match op {
        Operation::Create(id) => created(rows, id),
        Operation::Delete(i) => deleted(rows, i as int),
        Operation::Reorder(t, up) => reordered(rows, t as int, up),
    }
}

/// The table after a sequence of operations, applied in order.
pub open spec fn apply_operations<K>(rows: Seq<Slot<K>>, ops: Seq<Operation<K>>) -> Seq<
    Slot<K>,
>
    decreases ops.len(),
{
    if ops.len() == 0 {
        rows
    } else {
        apply_operations(apply_operation(rows, ops[0]), ops.drop_first())
    }
}

/// Exchanging two positions keeps them distinct.
pub proof fn lemma_swap_keeps_distinct<K>(rows: Seq<Slot<K>>, t: int, j: int)
    requires
        distinct_positions(rows),
        0 <= t < rows.len(),
        0 <= j < rows.len(),
    ensures
        distinct_positions(swapped(rows, t, j)),
{
    let s = swapped(rows, t, j);
    assert forall|a: int, b: int|
        0 <= a < s.len() && 0 <= b < s.len() && a != b implies s[a].position
        != s[b].position by {
        let ia = if a == t { j } else if a == j { t } else { a };
        let ib = if b == t { j } else if b == j { t } else { b };
        assert(s[a].position == rows[ia].position);
        assert(s[b].position == rows[ib].position);
    }
}

/// A reorder only exchanges positions that the table already holds: no
/// position appears or disappears.
pub proof fn lemma_reorder_keeps_position_set<K>(rows: Seq<Slot<K>>, t: int, up: bool, p: i64)
    requires
        0 <= t < rows.len(),
    ensures
        holds_position(reordered(rows, t, up), p) <==> holds_position(rows, p),
{
    if has_neighbour(rows, t, up) {
        let j = choose|j: int| is_neighbour(rows, t, j, up);
        let s = swapped(rows, t, j);
        if holds_position(s, p) {
            let a = choose|a: int| 0 <= a < s.len() && s[a].position == p;
            let ia = if a == t { j } else if a == j { t } else { a };
            assert(rows[ia].position == p);
        }
        if holds_position(rows, p) {
            let a = choose|a: int| 0 <= a < rows.len() && rows[a].position == p;
            let ia = if a == t { j } else if a == j { t } else { a };
            assert(s[ia].position == p);
        }
    }
}

/// Every single operation keeps positions distinct.
pub proof fn lemma_operation_keeps_distinct<K>(rows: Seq<Slot<K>>, op: Operation<K>)
    requires
        distinct_positions(rows),
    ensures
        distinct_positions(apply_operation(rows, op)),
{
    match op {
        Operation::Create(id) => {
            if let Some(p) = next_position_of(rows) {
                if rows.len() > 0 {
                    lemma_max_position(rows);
                }
                let s = rows.push(Slot { id, position: p });
                assert forall|a: int, b: int|
                    0 <= a < s.len() && 0 <= b < s.len() && a != b implies s[a].position
                    != s[b].position by {
                    if a < rows.len() {
                        assert(s[a] == rows[a]);
                    }
                    if b < rows.len() {
                        assert(s[b] == rows[b]);
                    }
                }
            }
        },
        Operation::Delete(i) => {
            if (i as int) < rows.len() {
                let s = rows.remove(i as int);
                assert forall|a: int, b: int|
                    0 <= a < s.len() && 0 <= b < s.len() && a != b implies s[a].position
                    != s[b].position by {
                    let ia = if a < i { a } else { a + 1 };
                    let ib = if b < i { b } else { b + 1 };
                    assert(s[a] == rows[ia]);
                    assert(s[b] == rows[ib]);
                }
            }
        },
        Operation::Reorder(t, up) => {
            if has_neighbour(rows, t as int, up) {
                let j = choose|j: int| is_neighbour(rows, t as int, j, up);
                lemma_swap_keeps_distinct(rows, t as int, j);
            }
        },
    }
}

/// Whatever sequence of creates, deletes and reorders runs on a table whose
/// positions are distinct, no two surviving rows end up sharing a position.
pub proof fn lemma_positions_stay_distinct<K>(rows: Seq<Slot<K>>, ops: Seq<Operation<K>>)
    requires
        distinct_positions(rows),
    ensures
        distinct_positions(apply_operations(rows, ops)),
    decreases ops.len(),
{
    if ops.len() > 0 {
        lemma_operation_keeps_distinct(rows, ops[0]);
        lemma_positions_stay_distinct(apply_operation(rows, ops[0]), ops.drop_first());
    }
}

/// With distinct positions a row has at most one neighbour in each direction.
proof fn lemma_neighbour_unique<K>(rows: Seq<Slot<K>>, t: int, j: int, k: int, up: bool)
    requires
        distinct_positions(rows),
        is_neighbour(rows, t, j, up),
        is_neighbour(rows, t, k, up),
    ensures
        j == k,
{
}

/// After moving row `t` (whose neighbour is `j`), row `j` is the neighbour of
/// `t` in the opposite direction.
proof fn lemma_swap_then_neighbour<K>(rows: Seq<Slot<K>>, t: int, j: int, up: bool)
    requires
        distinct_positions(rows),
        is_neighbour(rows, t, j, up),
    ensures
        is_neighbour(swapped(rows, t, j), t, j, !up),
{
    let s = swapped(rows, t, j);
    assert(s[t].position == rows[j].position);
    assert(s[j].position == rows[t].position);
    assert forall|k: int| 0 <= k < s.len() && k != t && k != j implies s[k] == rows[k] by {}
}

/// Two opposite moves of the same row, applied one after the other in either
/// order (as two serialised transactions are), leave the table as it was; so
/// the row ends at its own original position, never at one that no row held.
pub proof fn lemma_opposite_moves_cancel<K>(rows: Seq<Slot<K>>, t: int, up: bool)
    requires
        distinct_positions(rows),
        0 <= t < rows.len(),
        has_neighbour(rows, t, up),
    ensures
        reordered(reordered(rows, t, up), t, !up) == rows,
        reordered(reordered(rows, t, up), t, !up)[t].position == rows[t].position,
{
    let j = choose|j: int| is_neighbour(rows, t, j, up);
    let s = swapped(rows, t, j);
    lemma_swap_then_neighbour(rows, t, j, up);
    lemma_swap_keeps_distinct(rows, t, j);
    let back = !up;
    let k = choose|k: int| is_neighbour(s, t, k, back);
    lemma_neighbour_unique(s, t, j, k, back);
    assert(swapped(s, t, j) =~= rows);
}

/// Moving the first row up, or the last row down, finds no neighbour: the
/// reorder reports `AtBoundary` and changes nothing.
pub proof fn lemma_boundary_is_no_op<K>(rows: Seq<Slot<K>>, t: int, up: bool)
    requires
        0 <= t < rows.len(),
        up ==> forall|k: int| 0 <= k < rows.len() ==> rows[t].position <= rows[k].position,
        !up ==> forall|k: int| 0 <= k < rows.len() ==> rows[k].position <= rows[t].position,
    ensures
        !has_neighbour(rows, t, up),
        reordered(rows, t, up) == rows,
{
}

} // verus!
