//! The entity repository: an id-keyed table of rows with the service's
//! update rules baked into its contracts.
//!
//! * ids are server-assigned, unique and immutable;
//! * `created_at` is stamped at insertion and never changed afterwards;
//! * an update touches only `name` and `email` of the matching row;
//! * a delete of an absent id leaves the table untouched (idempotence);
//! * a listing is capped at [`LIST_CAP`] rows in scan order.

use vstd::prelude::*;

use crate::model::{NewRustacean, RowModel, Rustacean};

verus! {

/// Upper bound on how many rows a listing returns.
pub const LIST_CAP: usize = 100;

/// Index of the first row with the given id, scanning from position `i`;
/// `rows.len()` when no such row follows.
pub open spec fn row_index_from(rows: Seq<RowModel>, id: int, i: int) -> int
    decreases rows.len() - i,
{
    if i < 0 || i >= rows.len() {
        rows.len() as int
    } else if rows[i].id == id {
        i
    } else {
        row_index_from(rows, id, i + 1)
    }
}

/// Index of the first row with the given id; `rows.len()` when absent.
pub open spec fn row_index(rows: Seq<RowModel>, id: int) -> int {
    row_index_from(rows, id, 0)
}

/// The row with the given id, when one exists.
pub open spec fn spec_find(rows: Seq<RowModel>, id: int) -> Option<RowModel> {
    let i = row_index(rows, id);
    if i < rows.len() {
        Some(rows[i])
    } else {
        None
    }
}

/// What `row_index_from` returns: the first hit at or after `i`, or the
/// length when nothing at or after `i` carries the id.
pub proof fn lemma_row_index_from(rows: Seq<RowModel>, id: int, i: int)
    requires
        0 <= i <= rows.len(),
    ensures
        ({
            let r = row_index_from(rows, id, i);
            &&& i <= r <= rows.len()
            &&& r < rows.len() ==> rows[r].id == id
            &&& forall|j: int| i <= j < r ==> (#[trigger] rows[j]).id != id
            &&& r == rows.len() ==> forall|j: int| i <= j < rows.len()
                ==> (#[trigger] rows[j]).id != id
        }),
    decreases rows.len() - i,
{
    if i < rows.len() && rows[i].id != id {
        lemma_row_index_from(rows, id, i + 1);
    }
}

/// The table of entities, keyed by server-assigned ids.
pub struct Table {
    rows: Vec<Rustacean>,
    next_id: i32,
}

impl View for Table {
    type V = Seq<RowModel>;

    closed spec fn view(&self) -> Seq<RowModel> {
        self.rows@.map_values(|r: Rustacean| r@)
    }
}

impl Table {
    /// Every row's id was assigned from the counter, and no two rows share
    /// one.
    pub closed spec fn wf(&self) -> bool {
        &&& 1 <= self.next_id
        &&& forall|i: int| 0 <= i < self@.len() ==> 1 <= (#[trigger] self@[i]).id
            < self.next_id as int
        &&& forall|i: int, j: int| 0 <= i < j < self@.len()
            ==> (#[trigger] self@[i]).id != (#[trigger] self@[j]).id
    }

    /// The id the next created row will receive.
    pub closed spec fn spec_next_id(&self) -> int {
        self.next_id as int
    }

    /// An empty table; the first created row will get id 1.
    pub fn new() -> (r: Table)
        ensures
            r.wf(),
            r@ == Seq::<RowModel>::empty(),
            r.spec_next_id() == 1,
    {
        let t = Table { rows: Vec::new(), next_id: 1 };
        proof {
            assert(t@ =~= Seq::<RowModel>::empty());
        }
        t
    }

    /// How many rows the table holds.
    pub fn len(&self) -> (r: usize)
        ensures
            r == self@.len(),
    {
        self.rows.len()
    }

    /// Position of the first row with the given id, or the table's length
    /// when no row has it.
    fn index_of(&self, id: i32) -> (r: usize)
        ensures
            r as int == row_index(self@, id as int),
            r <= self@.len(),
    {
        let n = self.rows.len();
        let mut i: usize = 0;
        while i < n
            invariant
                0 <= i <= n,
                n == self@.len(),
                row_index(self@, id as int) == row_index_from(self@, id as int, i as int),
            decreases n - i,
        {
            if self.rows[i].id == id {
                proof {
                    assert(row_index_from(self@, id as int, i as int) == i as int);
                }
                return i;
            }
            proof {
                assert(row_index_from(self@, id as int, i as int)
                    == row_index_from(self@, id as int, i as int + 1));
            }
            i = i + 1;
        }
        proof {
            assert(row_index_from(self@, id as int, n as int) == n as int);
        }
        n
    }

    /// Look one row up by id: `Some` exactly when a row with the id exists,
    /// and then that row; `None` exactly when none does.
    pub fn get(&self, id: i32) -> (r: Option<&Rustacean>)
        ensures
            match r {
                Some(row) => spec_find(self@, id as int) == Some(row@),
                None => spec_find(self@, id as int) is None,
            },
    {
        let i = self.index_of(id);
        if i < self.rows.len() {
            Some(&self.rows[i])
        } else {
            None
        }
    }

    /// The first rows of the table in scan order, at most [`LIST_CAP`] of
    /// them.
    pub fn list(&self) -> (r: Vec<Rustacean>)
        ensures
            r@.len() == if self@.len() <= LIST_CAP { self@.len() } else { LIST_CAP as nat },
            forall|i: int| 0 <= i < r@.len() ==> (#[trigger] r@[i])@ == self@[i],
    {
        let n = self.rows.len();
        let cap = if n <= LIST_CAP {
            n
        } else {
            LIST_CAP
        };
        let mut out: Vec<Rustacean> = Vec::new();
        let mut i: usize = 0;
        while i < cap
            invariant
                0 <= i <= cap,
                cap == if self@.len() <= LIST_CAP { self@.len() } else { LIST_CAP as nat },
                out@.len() == i,
                forall|j: int| 0 <= j < i ==> (#[trigger] out@[j])@ == self@[j],
            decreases cap - i,
        {
            out.push(self.rows[i].duplicate());
            i = i + 1;
        }
        out
    }

    /// Insert a new row: the server assigns the next id and stamps
    /// `created_at` with `now`. Returns the stored row, or `None` only when
    /// the id space is exhausted (and then changes nothing).
    pub fn create(&mut self, new_row: &NewRustacean, now: i64) -> (r: Option<Rustacean>)
        requires
            old(self).wf(),
        ensures
            final(self).wf(),
            r is Some <==> old(self).spec_next_id() < i32::MAX,
            match r {
                Some(row) => {
                    &&& row@ == (RowModel {
                        id: old(self).spec_next_id(),
                        name: new_row@.name,
                        email: new_row@.email,
                        created_at: now as int,
                    })
                    &&& final(self)@ == old(self)@.push(row@)
                    &&& final(self).spec_next_id() == old(self).spec_next_id() + 1
                },
                None => *final(self) == *old(self),
            },
    {
        if self.next_id == i32::MAX {
            return None;
        }
        let id = self.next_id;
        let row = Rustacean {
            id,
            name: new_row.name.clone(),
            email: new_row.email.clone(),
            created_at: now,
        };
        let out = row.duplicate();
        self.rows.push(row);
        self.next_id = id + 1;
        proof {
            assert(self@ =~= old(self)@.push(out@));
        }
        Some(out)
    }

    /// Overwrite `name` and `email` of the row with the given id from the
    /// payload; its `id` and `created_at` stay as they were, as does every
    /// other row. Returns how many rows matched: 1, or 0 when the id is
    /// absent (and then nothing changes).
    pub fn update(&mut self, id: i32, payload: &Rustacean) -> (count: usize)
        requires
            old(self).wf(),
        ensures
            final(self).wf(),
            final(self).spec_next_id() == old(self).spec_next_id(),
            ({
                let i = row_index(old(self)@, id as int);
                if i < old(self)@.len() {
                    count == 1 && final(self)@ == old(self)@.update(
                        i,
                        (RowModel {
                            id: old(self)@[i].id,
                            name: payload@.name,
                            email: payload@.email,
                            created_at: old(self)@[i].created_at,
                        }),
                    )
                } else {
                    count == 0 && *final(self) == *old(self)
                }
            }),
    {
        let i = self.index_of(id);
        if i < self.rows.len() {
            let name = payload.name.clone();
            let email = payload.email.clone();
            let row = &mut self.rows[i];
            row.name = name;
            row.email = email;
            proof {
                assert(self@ =~= old(self)@.update(
                    i as int,
                    (RowModel {
                        id: old(self)@[i as int].id,
                        name: payload@.name,
                        email: payload@.email,
                        created_at: old(self)@[i as int].created_at,
                    }),
                ));
            }
            1
        } else {
            0
        }
    }

    /// Remove the row with the given id. Deleting an absent id is not an
    /// error: the table is simply left as it was.
    pub fn delete(&mut self, id: i32)
        requires
            old(self).wf(),
        ensures
            final(self).wf(),
            final(self).spec_next_id() == old(self).spec_next_id(),
            ({
                let i = row_index(old(self)@, id as int);
                if i < old(self)@.len() {
                    final(self)@ == old(self)@.remove(i)
                } else {
                    *final(self) == *old(self)
                }
            }),
    {
        let i = self.index_of(id);
        if i < self.rows.len() {
            self.rows.remove(i);
            proof {
                assert(self@ =~= old(self)@.remove(i as int));
            }
        }
    }
}

/// The id the server will assign next is not yet in the table: together
/// with [`lemma_create_then_get`] and the contracts of [`Table::create`]
/// and [`Table::get`], a created row is found again under its returned id.
pub proof fn lemma_next_id_fresh(t: &Table)
    requires
        t.wf(),
    ensures
        spec_find(t@, t.spec_next_id()) is None,
{
    lemma_row_index_from(t@, t.spec_next_id(), 0);
}

/// Creating a row and immediately looking its id up finds exactly that row:
/// the stored name and email are the ones submitted, and the id and
/// timestamp are the server-assigned ones.
pub proof fn lemma_create_then_get(rows: Seq<RowModel>, row: RowModel)
    requires
        spec_find(rows, row.id) is None,
    ensures
        spec_find(rows.push(row), row.id) == Some(row),
{
    lemma_row_index_from(rows, row.id, 0);
    lemma_row_index_from_fresh(rows, row, 0);
}

/// Helper induction for [`lemma_create_then_get`]: scanning past rows that
/// do not carry the new id lands on the appended row.
proof fn lemma_row_index_from_fresh(rows: Seq<RowModel>, row: RowModel, i: int)
    requires
        0 <= i <= rows.len(),
        forall|j: int| i <= j < rows.len() ==> (#[trigger] rows[j]).id != row.id,
    ensures
        row_index_from(rows.push(row), row.id, i) == rows.len(),
    decreases rows.len() - i,
{
    if i < rows.len() {
        lemma_row_index_from_fresh(rows, row, i + 1);
    }
}

} // verus!

