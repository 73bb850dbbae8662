//! The request dispatcher.
//!
//! One service value holds the migration gate, the connection pool and the
//! entity table. Each route handler validates authentication first (the
//! repository is never touched for an unauthenticated request), then checks
//! one connection out of the pool, runs the repository operation, gives the
//! connection back on every path, and maps the outcome to an HTTP status:
//! success to 200 (204 for delete), an absent id on a fetch to 404, a
//! repository failure to 500, an exhausted pool to 503.

use vstd::prelude::*;

use crate::auth::BasicAuth;
use crate::auth::spec_authorized;
use crate::migrate::Migrator;
use crate::model::NewRustacean;
use crate::model::RowModel;
use crate::model::Rustacean;
use crate::pool::Pool;
use crate::repo::LIST_CAP;
use crate::repo::Table;
use crate::repo::row_index;
use crate::repo::spec_find;

verus! {

pub const STATUS_OK: u16 = 200;

pub const STATUS_NO_CONTENT: u16 = 204;

pub const STATUS_UNAUTHORIZED: u16 = 401;

pub const STATUS_NOT_FOUND: u16 = 404;

pub const STATUS_UNPROCESSABLE: u16 = 422;

pub const STATUS_INTERNAL_ERROR: u16 = 500;

pub const STATUS_UNAVAILABLE: u16 = 503;

/// What a response carries beside its status; the serialization to JSON
/// text lives outside the library.
pub enum Body {
    Message(String),
    Row(Rustacean),
    Rows(Vec<Rustacean>),
    Count(usize),
    Empty,
}

/// One HTTP response: a status code and its body.
pub struct Response {
    pub status: u16,
    pub body: Body,
}

/// The serving process: the migration gate it passed at startup, its
/// connection pool and its entity table.
pub struct Service {
    table: Table,
    pool: Pool,
    gate: Migrator,
}

impl View for Service {
    type V = Seq<RowModel>;

    closed spec fn view(&self) -> Seq<RowModel> {
        self.table@
    }
}

impl Service {
    /// The table is well formed, the pool is well formed, and the
    /// migration gate was passed: a service value only exists migrated.
    pub closed spec fn wf(&self) -> bool {
        &&& self.table.wf()
        &&& self.pool.wf()
        &&& self.gate.phase() is Migrated
    }

    /// The id the next created entity will receive.
    pub closed spec fn spec_next_id(&self) -> int {
        self.table.spec_next_id()
    }

    pub closed spec fn pool_capacity(&self) -> nat {
        self.pool.spec_capacity()
    }

    pub closed spec fn pool_available(&self) -> nat {
        self.pool.spec_available()
    }

    /// The startup sequence. The caller performs the outside work first —
    /// taking one pooled connection and applying the pending migrations
    /// through it — and hands the outcome in; the migration gate consumes
    /// it, and only on success does a service exist to accept traffic,
    /// with an empty table and a full pool. On failure the cause is
    /// surfaced and no service exists.
    pub fn ignite(pool_size: usize, migration_outcome: Result<(), String>) -> (r: Result<
        Service,
        String,
    >)
        ensures
            match (r, migration_outcome) {
                (Ok(s), Ok(())) => {
                    &&& s.wf()
                    &&& s@ == Seq::<RowModel>::empty()
                    &&& s.spec_next_id() == 1
                    &&& s.pool_capacity() == pool_size
                    &&& s.pool_available() == pool_size
                },
                (Err(e), Err(cause)) => e@ == cause@,
                _ => false,
            },
    {
        let mut gate = Migrator::new();
        match gate.run(migration_outcome) {
            Ok(()) => Ok(Service { table: Table::new(), pool: Pool::new(pool_size), gate }),
            Err(e) => Err(e),
        }
    }

    /// The id the service will assign next is not yet among its entities.
    /// Together with the contracts of [`Service::create_rustacean`] and
    /// [`Service::get_rustacean`] and [`crate::repo::lemma_create_then_get`],
    /// a created entity is fetched again under the id it was assigned.
    pub proof fn lemma_next_id_fresh(&self)
        requires
            self.wf(),
        ensures
            spec_find(self@, self.spec_next_id()) is None,
    {
        crate::repo::lemma_next_id_fresh(&self.table);
    }

    /// List up to [`LIST_CAP`] entities in scan order. Unauthenticated
    /// requests are turned away before the pool or the table is touched;
    /// the whole request leaves the service exactly as it was.
    pub fn get_rustaceans(&mut self, auth: Option<&str>) -> (r: Response)
        requires
            old(self).wf(),
        ensures
            final(self).wf(),
            final(self)@ == old(self)@,
            final(self).spec_next_id() == old(self).spec_next_id(),
            final(self).pool_capacity() == old(self).pool_capacity(),
            final(self).pool_available() == old(self).pool_available(),
            !spec_authorized(auth) ==> r.status == STATUS_UNAUTHORIZED && (r.body matches
                Body::Message(m) && m@ == "Unauthorized!"@),
            spec_authorized(auth) && old(self).pool_available() == 0 ==> r.status
                == STATUS_UNAVAILABLE,
            spec_authorized(auth) && old(self).pool_available() > 0 ==> r.status == STATUS_OK && (
            r.body matches Body::Rows(rows) && rows@.len() == (if old(self)@.len() <= LIST_CAP {
                old(self)@.len()
            } else {
                LIST_CAP as nat
            }) && (forall|i: int| 0 <= i < rows@.len() ==> (#[trigger] rows@[i])@ == old(self)@[i])),
    {
        match BasicAuth::from_request(auth) {
            None => unauthorized(),
            Some(_credentials) => {
                if self.pool.acquire() {
                    let rows = self.table.list();
                    self.pool.release();
                    Response { status: STATUS_OK, body: Body::Rows(rows) }
                } else {
                    unavailable()
                }
            },
        }
    }

    /// Fetch one entity by id: 200 with the row when it exists, 404 when
    /// it does not — absence is distinguished from failure. The service is
    /// left exactly as it was.
    pub fn get_rustacean(&mut self, id: i32, auth: Option<&str>) -> (r: Response)
        requires
            old(self).wf(),
        ensures
            final(self).wf(),
            final(self)@ == old(self)@,
            final(self).spec_next_id() == old(self).spec_next_id(),
            final(self).pool_capacity() == old(self).pool_capacity(),
            final(self).pool_available() == old(self).pool_available(),
            !spec_authorized(auth) ==> r.status == STATUS_UNAUTHORIZED && (r.body matches
                Body::Message(m) && m@ == "Unauthorized!"@),
            spec_authorized(auth) && old(self).pool_available() == 0 ==> r.status
                == STATUS_UNAVAILABLE,
            spec_authorized(auth) && old(self).pool_available() > 0 ==> (match spec_find(
                old(self)@,
                id as int,
            ) {
                Some(row) => r.status == STATUS_OK && (r.body matches Body::Row(x) && x@ == row),
                None => r.status == STATUS_NOT_FOUND && (r.body matches Body::Message(m) && m@
                    == "Not Found!"@),
            }),
    {
        match BasicAuth::from_request(auth) {
            None => unauthorized(),
            Some(_credentials) => {
                if self.pool.acquire() {
                    let resp = match self.table.get(id) {
                        Some(row) => Response {
                            status: STATUS_OK,
                            body: Body::Row(row.duplicate()),
                        },
                        None => Response {
                            status: STATUS_NOT_FOUND,
                            body: Body::Message("Not Found!".to_owned()),
                        },
                    };
                    self.pool.release();
                    resp
                } else {
                    unavailable()
                }
            },
        }
    }

    /// Create one entity from the client-settable fields; the server
    /// assigns the id and stamps `created_at` with `now`. Success answers
    /// 200 with the affected-row count of 1; a repository failure (the id
    /// space is exhausted) answers 500 and changes nothing.
    pub fn create_rustacean(&mut self, auth: Option<&str>, new_row: &NewRustacean, now: i64) -> (r:
        Response)
        requires
            old(self).wf(),
        ensures
            final(self).wf(),
            final(self).pool_capacity() == old(self).pool_capacity(),
            final(self).pool_available() == old(self).pool_available(),
            !spec_authorized(auth) ==> r.status == STATUS_UNAUTHORIZED && (r.body matches
                Body::Message(m) && m@ == "Unauthorized!"@) && *final(self) == *old(self),
            spec_authorized(auth) && old(self).pool_available() == 0 ==> r.status
                == STATUS_UNAVAILABLE && *final(self) == *old(self),
            spec_authorized(auth) && old(self).pool_available() > 0 ==> (if old(self).spec_next_id()
                < i32::MAX {
                r.status == STATUS_OK && (r.body matches Body::Count(c) && c == 1) && final(self)@
                    == old(self)@.push(
                    (RowModel {
                        id: old(self).spec_next_id(),
                        name: new_row@.name,
                        email: new_row@.email,
                        created_at: now as int,
                    }),
                ) && final(self).spec_next_id() == old(self).spec_next_id() + 1
            } else {
                r.status == STATUS_INTERNAL_ERROR && final(self)@ == old(self)@
            }),
    {
        match BasicAuth::from_request(auth) {
            None => unauthorized(),
            Some(_credentials) => {
                if self.pool.acquire() {
                    let resp = match self.table.create(new_row, now) {
                        Some(_row) => Response { status: STATUS_OK, body: Body::Count(1) },
                        None => Response {
                            status: STATUS_INTERNAL_ERROR,
                            body: Body::Message("identifier space exhausted".to_owned()),
                        },
                    };
                    self.pool.release();
                    resp
                } else {
                    unavailable()
                }
            },
        }
    }

    /// Update the `name` and `email` of the entity with the given id from
    /// the payload. The payload's `id` and `created_at` fields are
    /// ignored: the stored ones are kept. Answers 200 with the
    /// affected-row count — 0 when the id is absent, and then nothing
    /// changed.
    pub fn edit_rustacean(&mut self, id: i32, auth: Option<&str>, payload: &Rustacean) -> (r:
        Response)
        requires
            old(self).wf(),
        ensures
            final(self).wf(),
            final(self).pool_capacity() == old(self).pool_capacity(),
            final(self).pool_available() == old(self).pool_available(),
            final(self).spec_next_id() == old(self).spec_next_id(),
            !spec_authorized(auth) ==> r.status == STATUS_UNAUTHORIZED && (r.body matches
                Body::Message(m) && m@ == "Unauthorized!"@) && *final(self) == *old(self),
            spec_authorized(auth) && old(self).pool_available() == 0 ==> r.status
                == STATUS_UNAVAILABLE && *final(self) == *old(self),
            spec_authorized(auth) && old(self).pool_available() > 0 ==> ({
                let i = row_index(old(self)@, id as int);
                r.status == STATUS_OK && if i < old(self)@.len() {
                    (r.body matches Body::Count(c) && c == 1) && final(self)@ == old(self)@.update(
                        i,
                        (RowModel {
                            id: old(self)@[i].id,
                            name: payload@.name,
                            email: payload@.email,
                            created_at: old(self)@[i].created_at,
                        }),
                    )
                } else {
                    (r.body matches Body::Count(c) && c == 0) && final(self)@ == old(self)@
                }
            }),
    {
        match BasicAuth::from_request(auth) {
            None => unauthorized(),
            Some(_credentials) => {
                if self.pool.acquire() {
                    let count = self.table.update(id, payload);
                    self.pool.release();
                    Response { status: STATUS_OK, body: Body::Count(count) }
                } else {
                    unavailable()
                }
            },
        }
    }

    /// Delete the entity with the given id. Deletion is idempotent: an
    /// absent id still answers 204 with no content, and leaves the table
    /// as it was. This route checks no credentials, exactly as the
    /// observed service behaves.
    pub fn del_rustacean(&mut self, id: i32) -> (r: Response)
        requires
            old(self).wf(),
        ensures
            final(self).wf(),
            final(self).pool_capacity() == old(self).pool_capacity(),
            final(self).pool_available() == old(self).pool_available(),
            final(self).spec_next_id() == old(self).spec_next_id(),
            old(self).pool_available() == 0 ==> r.status == STATUS_UNAVAILABLE && *final(self)
                == *old(self),
            old(self).pool_available() > 0 ==> r.status == STATUS_NO_CONTENT && (
            r.body is Empty) && ({
                let i = row_index(old(self)@, id as int);
                if i < old(self)@.len() {
                    final(self)@ == old(self)@.remove(i)
                } else {
                    final(self)@ == old(self)@
                }
            }),
    {
        if self.pool.acquire() {
            self.table.delete(id);
            self.pool.release();
            Response { status: STATUS_NO_CONTENT, body: Body::Empty }
        } else {
            unavailable()
        }
    }
}

/// The greeting route: 200 with a fixed message, no authentication.
pub fn hello() -> (r: Response)
    ensures
        r.status == STATUS_OK,
        r.body matches Body::Message(m) && m@ == "Hello World!!\n"@,
{
    Response { status: STATUS_OK, body: Body::Message("Hello World!!\n".to_owned()) }
}

/// Catch-all for unknown routes: a fixed JSON string body.
pub fn catchnf() -> (r: Response)
    ensures
        r.status == STATUS_NOT_FOUND,
        r.body matches Body::Message(m) && m@ == "Not Found!"@,
{
    Response { status: STATUS_NOT_FOUND, body: Body::Message("Not Found!".to_owned()) }
}

/// Catch-all for rejected credentials: a fixed JSON string body.
pub fn catchua() -> (r: Response)
    ensures
        r.status == STATUS_UNAUTHORIZED,
        r.body matches Body::Message(m) && m@ == "Unauthorized!"@,
{
    Response { status: STATUS_UNAUTHORIZED, body: Body::Message("Unauthorized!".to_owned()) }
}

/// Catch-all for unreadable route parameters or bodies: a fixed JSON
/// string body.
pub fn catchue() -> (r: Response)
    ensures
        r.status == STATUS_UNPROCESSABLE,
        r.body matches Body::Message(m) && m@ == "Unprocessable entity"@,
{
    Response { status: STATUS_UNPROCESSABLE, body: Body::Message("Unprocessable entity".to_owned()) }
}

/// The rejection every unauthenticated request gets.
fn unauthorized() -> (r: Response)
    ensures
        r.status == STATUS_UNAUTHORIZED,
        r.body matches Body::Message(m) && m@ == "Unauthorized!"@,
{
    Response { status: STATUS_UNAUTHORIZED, body: Body::Message("Unauthorized!".to_owned()) }
}

/// The failure reported when no pooled connection frees up in time.
fn unavailable() -> (r: Response)
    ensures
        r.status == STATUS_UNAVAILABLE,
        r.body matches Body::Message(m) && m@ == "Service Unavailable"@,
{
    Response { status: STATUS_UNAVAILABLE, body: Body::Message("Service Unavailable".to_owned()) }
}

} // verus!
