//! The dispatcher end to end: startup gate, authentication guard, CRUD
//! outcomes and their status codes.

use rustaceans::dispatch::{catchnf, catchua, catchue, hello, Body, Response, Service};
use rustaceans::model::{NewRustacean, Rustacean};

const AUTH: Option<&str> = Some("BASIC dXNlcjpwYXNz");

fn service() -> Service {
    Service::ignite(4, Ok(())).unwrap()
}

fn new_row(name: &str, email: &str) -> NewRustacean {
    NewRustacean { name: name.to_string(), email: email.to_string() }
}

fn assert_message(r: &Response, status: u16, text: &str) {
    assert_eq!(r.status, status);
    match &r.body {
        Body::Message(m) => assert_eq!(m, text),
        _ => panic!("expected a message body"),
    }
}

#[test]
fn migration_failure_aborts_startup() {
    let r = Service::ignite(4, Err("table rustaceans already exists".to_string()));
    match r {
        Err(e) => assert_eq!(e, "table rustaceans already exists"),
        Ok(_) => panic!("startup must not proceed past a failed migration"),
    }
}

#[test]
fn create_then_fetch_returns_matching_record() {
    let mut s = service();
    let created = s.create_rustacean(AUTH, &new_row("ferris", "ferris@rust.org"), 1700000000);
    assert_eq!(created.status, 200);
    match created.body {
        Body::Count(c) => assert_eq!(c, 1),
        _ => panic!("expected an affected-row count"),
    }
    let fetched = s.get_rustacean(1, AUTH);
    assert_eq!(fetched.status, 200);
    match fetched.body {
        Body::Row(row) => {
            assert_eq!(row.id, 1);
            assert_eq!(row.name, "ferris");
            assert_eq!(row.email, "ferris@rust.org");
            assert_eq!(row.created_at, 1700000000);
        },
        _ => panic!("expected the created row"),
    }
}

#[test]
fn update_keeps_id_and_created_at() {
    let mut s = service();
    s.create_rustacean(AUTH, &new_row("ferris", "ferris@rust.org"), 42);
    // The payload tries to smuggle in a different id and created_at.
    let payload = Rustacean {
        id: 999,
        name: "corro".to_string(),
        email: "corro@rust.org".to_string(),
        created_at: 7,
    };
    let updated = s.edit_rustacean(1, AUTH, &payload);
    assert_eq!(updated.status, 200);
    match updated.body {
        Body::Count(c) => assert_eq!(c, 1),
        _ => panic!("expected an affected-row count"),
    }
    match s.get_rustacean(1, AUTH).body {
        Body::Row(row) => {
            assert_eq!(row.id, 1);
            assert_eq!(row.created_at, 42);
            assert_eq!(row.name, "corro");
            assert_eq!(row.email, "corro@rust.org");
        },
        _ => panic!("the row must still exist under its original id"),
    }
}

#[test]
fn update_of_absent_id_reports_zero_rows() {
    let mut s = service();
    let payload = Rustacean {
        id: 5,
        name: "nobody".to_string(),
        email: "nobody@rust.org".to_string(),
        created_at: 0,
    };
    let updated = s.edit_rustacean(5, AUTH, &payload);
    assert_eq!(updated.status, 200);
    match updated.body {
        Body::Count(c) => assert_eq!(c, 0),
        _ => panic!("expected an affected-row count"),
    }
}

#[test]
fn delete_is_idempotent() {
    let mut s = service();
    s.create_rustacean(AUTH, &new_row("ferris", "ferris@rust.org"), 0);
    let first = s.del_rustacean(1);
    assert_eq!(first.status, 204);
    assert!(matches!(first.body, Body::Empty));
    // Deleting the same id again, and a never-assigned id, still succeeds.
    let again = s.del_rustacean(1);
    assert_eq!(again.status, 204);
    assert!(matches!(again.body, Body::Empty));
    let never = s.del_rustacean(12345);
    assert_eq!(never.status, 204);
    assert!(matches!(never.body, Body::Empty));
}

#[test]
fn fetch_of_absent_id_is_not_found() {
    let mut s = service();
    let r = s.get_rustacean(42, AUTH);
    assert_message(&r, 404, "Not Found!");
}

#[test]
fn listing_is_capped_at_one_hundred() {
    let mut s = service();
    for i in 0..150 {
        let r = s.create_rustacean(
            AUTH,
            &new_row(&format!("crab{}", i), &format!("crab{}@rust.org", i)),
            i,
        );
        assert_eq!(r.status, 200);
    }
    let listed = s.get_rustaceans(AUTH);
    assert_eq!(listed.status, 200);
    match listed.body {
        Body::Rows(rows) => {
            assert_eq!(rows.len(), 100);
            assert_eq!(rows[0].name, "crab0");
            assert_eq!(rows[99].name, "crab99");
        },
        _ => panic!("expected the listing"),
    }
}

#[test]
fn unauthenticated_requests_never_reach_the_table() {
    let mut s = service();
    let r = s.get_rustaceans(None);
    assert_message(&r, 401, "Unauthorized!");
    let r = s.get_rustacean(1, Some("Basic dXNlcjpwYXNz"));
    assert_message(&r, 401, "Unauthorized!");
    let r = s.create_rustacean(Some("BASIC not-base64!"), &new_row("x", "y"), 0);
    assert_message(&r, 401, "Unauthorized!");
    let r = s.edit_rustacean(
        1,
        None,
        &Rustacean { id: 1, name: "x".to_string(), email: "y".to_string(), created_at: 0 },
    );
    assert_message(&r, 401, "Unauthorized!");
    // Nothing was created along the way.
    match s.get_rustaceans(AUTH).body {
        Body::Rows(rows) => assert_eq!(rows.len(), 0),
        _ => panic!("expected the listing"),
    }
}

#[test]
fn exhausted_pool_means_service_unavailable() {
    let mut s = Service::ignite(0, Ok(())).unwrap();
    let r = s.get_rustaceans(AUTH);
    assert_eq!(r.status, 503);
    let r = s.del_rustacean(1);
    assert_eq!(r.status, 503);
}

#[test]
fn greeting_and_catchers_have_fixed_bodies() {
    assert_message(&hello(), 200, "Hello World!!\n");
    assert_message(&catchnf(), 404, "Not Found!");
    assert_message(&catchua(), 401, "Unauthorized!");
    assert_message(&catchue(), 422, "Unprocessable entity");
}
