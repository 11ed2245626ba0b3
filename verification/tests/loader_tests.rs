use event_service::graphql::{
    AttendesInput, EndlInput, EventInput, Mutation, OverridesInput, RecurrenceInput,
    RemindersInput, Role, StartInput,
};
use event_service::errors::ApiError;
use event_service::kafka::Channel;
use event_service::loader::BatchLoader;
use event_service::persistence::models::Attende;
use event_service::persistence::repository::{
    get, get_all, get_attendes, get_start, Database,
};

fn input(summary: &str, email: &str) -> EventInput {
    EventInput {
        summary: String::from(summary),
        description: String::from("d"),
        location: String::from("l"),
        attendes: AttendesInput { email: String::from(email) },
        endl: EndlInput { datetime: String::from("2024-01-02T10:00:00"), timezone: String::from("UTC") },
        overrides: OverridesInput { method: String::from("popup"), minutes: 5, idreminders: 0 },
        recurrence: RecurrenceInput { rrule: String::from("FREQ=WEEKLY") },
        reminders: RemindersInput { usedefault: false },
        start: StartInput { datetime: String::from("2024-01-02T09:00:00"), timezone: String::from("UTC") },
    }
}

fn two_event_store() -> Database {
    let mut db = Database::new();
    let mut chan = Channel::new();
    Mutation
        .create_event(&mut db, &mut chan, Role::Admin, input("one", "one@x.com"), None)
        .expect("create one");
    Mutation
        .create_event(&mut db, &mut chan, Role::Admin, input("two", "two@x.com"), None)
        .expect("create two");
    db
}

#[test]
fn one_query_per_burst_however_many_requests() {
    let db = two_event_store();
    let mut loader: BatchLoader<Attende> = BatchLoader::new();
    // a burst of four field requests over two distinct ids: one query
    let r = loader.load(&db.attendes, &vec![1, 2, 1, 2]);
    assert_eq!(loader.queries, 1);
    assert_eq!(r.len(), 4);
    assert_eq!(r[0].as_ref().expect("id 1 present").email, "one@x.com");
    assert_eq!(r[1].as_ref().expect("id 2 present").email, "two@x.com");
    assert_eq!(r[2].as_ref().expect("id 1 present").email, "one@x.com");
    assert_eq!(r[3].as_ref().expect("id 2 present").email, "two@x.com");
    // the same ids again within the request: the cache answers, no query
    let r = loader.load(&db.attendes, &vec![2, 1]);
    assert_eq!(loader.queries, 1);
    assert_eq!(r[0].as_ref().expect("id 2 present").email, "two@x.com");
    assert_eq!(r[1].as_ref().expect("id 1 present").email, "one@x.com");
}

#[test]
fn absent_id_is_reported_absent() {
    let db = two_event_store();
    let mut loader: BatchLoader<Attende> = BatchLoader::new();
    let r = loader.load(&db.attendes, &vec![1, 99]);
    assert_eq!(loader.queries, 1);
    assert!(r[0].is_some());
    assert!(r[1].is_none());
}

#[test]
fn resolver_reports_missing_satellite_as_not_found() {
    // a store holding an event without its attendee row: a data-integrity
    // fault the resolver surfaces per-field
    let mut db = two_event_store();
    db.attendes.clear();
    let ev = read_event_one(&db);
    let r = ev.attendes(&db, &mut BatchLoader::new());
    assert!(matches!(r, Err(ApiError::NotFound)));
}

fn read_event_one(db: &Database) -> event_service::graphql::Event {
    event_service::graphql::Query
        .get_event(db, "1")
        .expect("valid id")
        .expect("event one present")
}

#[test]
fn repository_reads_back_rows() {
    let db = two_event_store();
    let all = get_all(&db);
    assert_eq!(all.len(), 2);
    assert_eq!(all[0].id, 1);
    assert_eq!(all[0].summary, "one");
    assert_eq!(all[1].id, 2);

    let row = get(&db, 2).expect("id 2 present");
    assert_eq!(row.summary, "two");
    assert!(matches!(get(&db, 3), Err(ApiError::NotFound)));

    let atts = get_attendes(&db, &vec![1, 2, 7]);
    assert_eq!(atts.len(), 2);
    let starts = get_start(&db, &vec![2]);
    assert_eq!(starts.len(), 1);
    assert_eq!(starts[0].datetime, "2024-01-02T09:00:00");
}
