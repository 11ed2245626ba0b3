use event_service::errors::ApiError;
use event_service::graphql::{
    AttendesInput, EndlInput, EventInput, Mutation, OverridesInput, Query, RecurrenceInput,
    RemindersInput, Role, StartInput, Subscription,
};
use event_service::kafka::Channel;
use event_service::loader::BatchLoader;
use event_service::persistence::repository::Database;

fn standup_input() -> EventInput {
    EventInput {
        summary: String::from("Standup"),
        description: String::from("Daily sync"),
        location: String::from("Room 1"),
        attendes: AttendesInput { email: String::from("a@x.com") },
        endl: EndlInput {
            datetime: String::from("2024-01-01T09:15:00"),
            timezone: String::from("UTC"),
        },
        overrides: OverridesInput {
            method: String::from("email"),
            minutes: 10,
            idreminders: 0,
        },
        recurrence: RecurrenceInput { rrule: String::from("FREQ=DAILY") },
        reminders: RemindersInput { usedefault: true },
        start: StartInput {
            datetime: String::from("2024-01-01T09:00:00"),
            timezone: String::from("UTC"),
        },
    }
}

#[test]
fn create_and_read_back_all_satellites() {
    let mut db = Database::new();
    let mut chan = Channel::new();
    let ev = Mutation
        .create_event(&mut db, &mut chan, Role::Admin, standup_input(), None)
        .expect("an admin create must succeed");
    assert_eq!(ev.id, 1);
    assert_eq!(ev.summary, "Standup");
    assert_eq!(ev.description, "Daily sync");

    let read = Query.get_event(&db, "1").expect("a digit id is valid");
    let read = read.expect("the created event must be readable");
    assert_eq!(read.id, 1);
    assert_eq!(read.summary, "Standup");
    assert_eq!(read.description, "Daily sync");

    let att = read
        .attendes(&db, &mut BatchLoader::new())
        .expect("the attendee satellite must exist");
    assert_eq!(att.email, "a@x.com");
    let end = read.endl(&db, &mut BatchLoader::new()).expect("the end satellite must exist");
    assert_eq!(end.datetime, "2024-01-01T09:15:00");
    assert_eq!(end.timezone, "UTC");
    let ovr = read
        .overrides(&db, &mut BatchLoader::new())
        .expect("the override satellite must exist");
    assert_eq!(ovr.method, "email");
    assert_eq!(ovr.minutes, 10);
    let rec = read
        .recurrence(&db, &mut BatchLoader::new())
        .expect("the recurrence satellite must exist");
    assert_eq!(rec.rrule, "FREQ=DAILY");
    let rem = read
        .reminders(&db, &mut BatchLoader::new())
        .expect("the reminder satellite must exist");
    assert!(rem.usedefault);
    let sta = read.start(&db, &mut BatchLoader::new()).expect("the start satellite must exist");
    assert_eq!(sta.datetime, "2024-01-01T09:00:00");
    assert_eq!(sta.timezone, "UTC");
}

#[test]
fn failed_create_is_atomic() {
    let mut db = Database::new();
    let mut chan = Channel::new();
    for step in 0..7usize {
        let r = Mutation.create_event(&mut db, &mut chan, Role::Admin, standup_input(), Some(step));
        assert!(matches!(r, Err(ApiError::Storage)));
        // the id the create would have generated reads as absent
        let read = Query.get_event(&db, "1").expect("a digit id is valid");
        assert!(read.is_none());
        assert_eq!(Query.get_events(&db).len(), 0);
        assert_eq!(chan.messages.len(), 0);
    }
    // the store still works afterwards
    let ev = Mutation
        .create_event(&mut db, &mut chan, Role::Admin, standup_input(), None)
        .expect("a clean create must succeed");
    assert_eq!(ev.id, 1);
}

#[test]
fn forbidden_caller_writes_nothing() {
    let mut db = Database::new();
    let mut chan = Channel::new();
    let r = Mutation.create_event(&mut db, &mut chan, Role::User, standup_input(), None);
    assert!(matches!(r, Err(ApiError::Forbidden)));
    assert_eq!(Query.get_events(&db).len(), 0);
    assert_eq!(chan.messages.len(), 0);
}

#[test]
fn get_event_absent_id_is_none_not_error() {
    let db = Database::new();
    let r = Query.get_event(&db, "5").expect("a digit id is valid");
    assert!(r.is_none());
    let r = Query.get_event(&db, "18446744073709551615").expect("u64::MAX is a valid id");
    assert!(r.is_none());
}

#[test]
fn get_event_rejects_malformed_ids() {
    let db = Database::new();
    assert!(matches!(Query.get_event(&db, "abc"), Err(ApiError::Validation)));
    assert!(matches!(Query.get_event(&db, ""), Err(ApiError::Validation)));
    assert!(matches!(Query.get_event(&db, "12x"), Err(ApiError::Validation)));
    assert!(matches!(Query.get_event(&db, "-3"), Err(ApiError::Validation)));
    // one past u64::MAX overflows and is refused, not truncated
    assert!(matches!(
        Query.get_event(&db, "18446744073709551616"),
        Err(ApiError::Validation)
    ));
}

#[test]
fn get_event_is_idempotent() {
    let mut db = Database::new();
    let mut chan = Channel::new();
    Mutation
        .create_event(&mut db, &mut chan, Role::Admin, standup_input(), None)
        .expect("an admin create must succeed");
    let a = Query.get_event(&db, "1").expect("valid id").expect("present");
    let b = Query.get_event(&db, "1").expect("valid id").expect("present");
    assert_eq!(a.id, b.id);
    assert_eq!(a.summary, b.summary);
    assert_eq!(a.description, b.description);
}

#[test]
fn find_event_by_id_matches_get_event() {
    let mut db = Database::new();
    let mut chan = Channel::new();
    Mutation
        .create_event(&mut db, &mut chan, Role::Admin, standup_input(), None)
        .expect("an admin create must succeed");
    let a = Query.get_event(&db, "1").expect("valid id").expect("present");
    let b = Query.find_event_by_id(&db, "1").expect("valid id").expect("present");
    assert_eq!(a.id, b.id);
    assert_eq!(a.summary, b.summary);
}

#[test]
fn scenario_standup_with_subscription() {
    let mut db = Database::new();
    let mut chan = Channel::new();
    let mut counter: u64 = 0;
    // the subscription is open before the mutation runs
    let mut consumer = Subscription.latest_event(&chan, &mut counter);

    let ev = Mutation
        .create_event(&mut db, &mut chan, Role::Admin, standup_input(), None)
        .expect("an admin create must succeed");
    assert_eq!(ev.id, 1);
    assert_eq!(ev.summary, "Standup");
    assert_eq!(ev.description, "Daily sync");

    let read = Query.get_event(&db, "1").expect("valid id").expect("present");
    let sta = read.start(&db, &mut BatchLoader::new()).expect("the start satellite must exist");
    assert_eq!(sta.datetime, "2024-01-01T09:00:00");
    assert_eq!(sta.timezone, "UTC");

    // exactly one notification arrives for this creation
    let got = Subscription
        .next_event(&chan, &mut consumer)
        .expect("the published message must decode")
        .expect("one message must be pending");
    assert_eq!(got.id, 1);
    assert_eq!(got.summary, "Standup");
    assert_eq!(got.description, "Daily sync");
    let empty = Subscription.next_event(&chan, &mut consumer).expect("an empty poll is no error");
    assert!(empty.is_none());
}

#[test]
fn subscription_replays_no_history() {
    let mut db = Database::new();
    let mut chan = Channel::new();
    let mut counter: u64 = 0;
    Mutation
        .create_event(&mut db, &mut chan, Role::Admin, standup_input(), None)
        .expect("an admin create must succeed");
    // opened after the creation: the earlier notification is not replayed
    let mut consumer = Subscription.latest_event(&chan, &mut counter);
    let r = Subscription.next_event(&chan, &mut consumer).expect("an empty poll is no error");
    assert!(r.is_none());
}

#[test]
fn each_subscriber_sees_every_event() {
    let mut db = Database::new();
    let mut chan = Channel::new();
    let mut counter: u64 = 0;
    let mut first = Subscription.latest_event(&chan, &mut counter);
    let mut second = Subscription.latest_event(&chan, &mut counter);
    assert_ne!(first.group_id, second.group_id);
    Mutation
        .create_event(&mut db, &mut chan, Role::Admin, standup_input(), None)
        .expect("an admin create must succeed");
    let a = Subscription.next_event(&chan, &mut first).expect("decode").expect("pending");
    let b = Subscription.next_event(&chan, &mut second).expect("decode").expect("pending");
    assert_eq!(a.id, 1);
    assert_eq!(b.id, 1);
}

#[test]
fn malformed_payload_is_a_decode_error() {
    let chan = {
        let mut chan = Channel::new();
        event_service::kafka::send_message(&mut chan, vec![1, 2, 3]);
        chan
    };
    let mut consumer = event_service::kafka::Consumer { group_id: 1, offset: 0 };
    let r = Subscription.next_event(&chan, &mut consumer);
    assert!(matches!(r, Err(ApiError::Decode)));
}
