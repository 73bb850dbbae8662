//! The domain entity and its mathematical model.
//!
//! A `Rustacean` row carries a server-assigned `id`, a `name`, an `email`
//! and a server-stamped `created_at` timestamp (seconds). Contracts speak
//! of rows through the ghost `RowModel` view.

use vstd::prelude::*;

verus! {

/// Mathematical view of one stored row.
pub ghost struct RowModel {
    pub id: int,
    pub name: Seq<char>,
    pub email: Seq<char>,
    pub created_at: int,
}

/// Mathematical view of a creation request: the client-settable fields only.
pub ghost struct NewRowModel {
    pub name: Seq<char>,
    pub email: Seq<char>,
}

/// One stored entity. `id` and `created_at` are server-generated and are
/// never taken from a client payload.
pub struct Rustacean {
    pub id: i32,
    pub name: String,
    pub email: String,
    pub created_at: i64,
}

impl View for Rustacean {
    type V = RowModel;

    open spec fn view(&self) -> RowModel {
        RowModel {
            id: self.id as int,
            name: self.name@,
            email: self.email@,
            created_at: self.created_at as int,
        }
    }
}

impl Rustacean {
    /// A field-for-field copy of the row.
    pub fn duplicate(&self) -> (r: Rustacean)
        ensures
            r@ == self@,
    {
        Rustacean {
            id: self.id,
            name: self.name.clone(),
            email: self.email.clone(),
            created_at: self.created_at,
        }
    }
}

/// The client-supplied part of a new entity: everything but the
/// server-generated fields.
pub struct NewRustacean {
    pub name: String,
    pub email: String,
}

impl View for NewRustacean {
    type V = NewRowModel;

    open spec fn view(&self) -> NewRowModel {
        NewRowModel { name: self.name@, email: self.email@ }
    }
}

} // verus!
