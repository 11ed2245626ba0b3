use vstd::prelude::*;

use vstd::string::StrSliceExecFns;
use vstd::utf8::encode_utf8;

use crate::codec::{
    decode_message, encode_message, lemma_message_roundtrip, spec_message, spec_parse_message,
};
use crate::errors::ApiError;
use crate::kafka::{create_consumer, get_kafka_consumer_group_id, send_message, Channel, Consumer};
use crate::loader::BatchLoader;
use crate::persistence::models::{
    Attende, Endl, Events, NewAttende, NewEndl, NewEvent, NewOverride, NewRecurrence,
    NewReminder, NewStart, Override, Recurrence, Reminder, Start,
};
use crate::persistence::repository::{
    create, create_post, get, get_all, insert_fails, Database,
};
use crate::persistence::table::{has_key, lemma_row_for_absent, row_for};

verus! {

/// The role a caller presents; mutations demand the elevated one. The
/// policy check is injected by the caller of the mutation instead of being
/// read from the environment.
#[derive(Clone, Copy, Debug, PartialEq, Eq, Structural)]
pub enum Role {
    Admin,
    User,
}

/// The event as the API returns it: id, summary and description; the six
/// satellite fields are resolved lazily through the batch loaders.
pub struct Event {
    pub id: u64,
    pub summary: String,
    pub description: String,
}

/// The per-request batch loader of attendee rows.
pub type AttendesLoader = BatchLoader<Attende>;

/// The per-request batch loader of end-time rows.
pub type EndlLoader = BatchLoader<Endl>;

/// The per-request batch loader of override rows.
pub type OverrideLoader = BatchLoader<Override>;

/// The per-request batch loader of recurrence rows.
pub type RecurrenceLoader = BatchLoader<Recurrence>;

/// The per-request batch loader of reminder rows.
pub type ReminderLoader = BatchLoader<Reminder>;

/// The per-request batch loader of start-time rows.
pub type StartLoader = BatchLoader<Start>;

/// The creation request: one event plus one satellite of each kind.
pub struct EventInput {
    pub summary: String,
    pub description: String,
    pub location: String,
    pub attendes: AttendesInput,
    pub endl: EndlInput,
    pub overrides: OverridesInput,
    pub recurrence: RecurrenceInput,
    pub reminders: RemindersInput,
    pub start: StartInput,
}

/// The attendee part of a creation request.
pub struct AttendesInput {
    pub email: String,
}

/// The end-time part of a creation request.
pub struct EndlInput {
    pub datetime: String,
    pub timezone: String,
}

/// The override part of a creation request.
pub struct OverridesInput {
    pub method: String,
    pub minutes: i64,
    pub idreminders: u64,
}

/// The recurrence part of a creation request.
pub struct RecurrenceInput {
    pub rrule: String,
}

/// The reminder part of a creation request.
pub struct RemindersInput {
    pub usedefault: bool,
}

/// The start-time part of a creation request.
pub struct StartInput {
    pub datetime: String,
    pub timezone: String,
}

/// Whether the character is a decimal digit.
pub open spec fn is_digit(c: char) -> bool {
    48 <= c as u32 && c as u32 <= 57
}

/// Whether the text is one or more decimal digits.
pub open spec fn all_digits(s: Seq<char>) -> bool {
    forall|i: int| 0 <= i < s.len() ==> is_digit(#[trigger] s[i])
}

/// The number the digit text denotes.
pub open spec fn digits_value(s: Seq<char>) -> int
    decreases s.len(),
{
    if s.len() == 0 {
        0
    } else {
        digits_value(s.drop_last()) * 10 + (s.last() as u32 - 48)
    }
}

/// Whether the text is a well-formed id: digits only, in range.
pub open spec fn valid_id(s: Seq<char>) -> bool {
    s.len() > 0 && all_digits(s) && digits_value(s) <= u64::MAX
}

/// A digit string denotes a non-negative number.
proof fn lemma_digits_nonneg(s: Seq<char>)
    requires
        all_digits(s),
    ensures
        digits_value(s) >= 0,
    decreases s.len(),
{
    if s.len() == 0 {
    } else {
        assert(all_digits(s.drop_last())) by {
            assert(forall|i: int| 0 <= i < s.len() - 1 ==> s.drop_last()[i] == s[i]);
        }
        lemma_digits_nonneg(s.drop_last());
        assert(is_digit(s.last()));
    }
}

/// A digit string denotes at least what any prefix of it denotes.
proof fn lemma_digits_prefix(s: Seq<char>, i: int)
    requires
        all_digits(s),
        0 <= i <= s.len(),
    ensures
        digits_value(s.take(i)) <= digits_value(s),
    decreases s.len() - i,
{
    if i == s.len() {
        assert(s.take(i) =~= s);
    } else {
        let t1 = s.take(i);
        let t2 = s.take(i + 1);
        assert(t2.drop_last() =~= t1);
        assert(t2.last() == s[i]);
        assert(all_digits(t1)) by {
            assert(forall|j: int| 0 <= j < t1.len() ==> t1[j] == s[j]);
        }
        lemma_digits_nonneg(t1);
        assert(is_digit(s[i]));
        assert(digits_value(t1) <= digits_value(t2));
        lemma_digits_prefix(s, i + 1);
    }
}

/// Parse a wire id. Digit text in range parses to its number; anything
/// else is a typed validation error, never an abort.
pub fn parse_id(s: &str) -> (r: Result<u64, ApiError>)
    ensures
        valid_id(s@) ==> r == Ok::<u64, ApiError>(digits_value(s@) as u64),
        !valid_id(s@) ==> r == Err::<u64, ApiError>(ApiError::Validation),
{
    let n = s.unicode_len();
    if n == 0 {
        return Err(ApiError::Validation);
    }
    let mut acc: u64 = 0;
    let mut i: usize = 0;
    while i < n
        invariant
            0 < n,
            n == s@.len(),
            0 <= i <= n,
            forall|j: int| 0 <= j < i ==> is_digit(#[trigger] s@[j]),
            acc == digits_value(s@.take(i as int)),
        decreases n - i,
    {
        let c = s.get_char(i);
        let u = c as u32;
        if u < 48 || u > 57 {
            proof {
                assert(!is_digit(s@[i as int]));
            }
            return Err(ApiError::Validation);
        }
        let d = (u - 48) as u64;
        proof {
            assert(s@.take(i as int + 1).drop_last() =~= s@.take(i as int));
            assert(s@.take(i as int + 1).last() == s@[i as int]);
        }
        let q = (u64::MAX - d) / 10;
        if acc > q {
            proof {
                vstd::arithmetic::div_mod::lemma_fundamental_div_mod(
                    (u64::MAX - d) as int,
                    10,
                );
                assert(acc * 10 >= (q + 1) * 10) by (nonlinear_arith)
                    requires
                        acc >= q + 1,
                ;
                assert(digits_value(s@.take(i as int + 1)) > u64::MAX);
                if all_digits(s@) {
                    lemma_digits_prefix(s@, i as int + 1);
                }
            }
            return Err(ApiError::Validation);
        }
        proof {
            vstd::arithmetic::div_mod::lemma_fundamental_div_mod((u64::MAX - d) as int, 10);
            assert(acc * 10 <= q * 10) by (nonlinear_arith)
                requires
                    acc <= q,
            ;
        }
        acc = acc * 10 + d;
        i += 1;
    }
    proof {
        assert(s@.take(n as int) =~= s@);
    }
    Ok(acc)
}

/// The API view of a stored event row.
pub open spec fn spec_event_of(row: Events) -> Event {
    Event { id: row.id, summary: row.summary, description: row.description }
}

/// What reading an event by its wire id yields: a validation error on a
/// malformed id, the event when the store holds the id, and an absent
/// result — not an error — when it does not.
pub open spec fn spec_get_event(db: Database, id: Seq<char>) -> Result<Option<Event>, ApiError> {
    if valid_id(id) {
        match row_for(db.events@, digits_value(id) as u64) {
            Some(row) => Ok(Some(spec_event_of(row))),
            None => Ok(None),
        }
    } else {
        Err(ApiError::Validation)
    }
}

/// Look an event up by its wire id.
pub fn find_event_by_id_internal(db: &Database, id: &str) -> (r: Result<Option<Event>, ApiError>)
    ensures
        r == spec_get_event(*db, id@),
{
    let n = match parse_id(id) {
        Ok(n) => n,
        Err(e) => {
            return Err(e);
        },
    };
    match get(db, n) {
        Ok(row) => Ok(Some(Event::from(&row))),
        Err(_) => Ok(None),
    }
}

/// The query surface of the API.
pub struct Query;

impl Query {
    /// All stored events, in insertion order.
    pub fn get_events(&self, db: &Database) -> (r: Vec<Event>)
        ensures
            r@.len() == db.events@.len(),
            forall|i: int| 0 <= i < r@.len() ==> r@[i] == spec_event_of(#[trigger] db.events@[i]),
    {
        let rows = get_all(db);
        let n = rows.len();
        let mut r: Vec<Event> = Vec::new();
        let mut i: usize = 0;
        while i < n
            invariant
                0 <= i <= n,
                n == rows@.len(),
                rows@ == db.events@,
                r@.len() == i,
                forall|j: int| 0 <= j < i ==> r@[j] == spec_event_of(#[trigger] db.events@[j]),
            decreases n - i,
        {
            r.push(Event::from(&rows[i]));
            i += 1;
        }
        r
    }

    /// One event by wire id, or an absent result.
    pub fn get_event(&self, db: &Database, id: &str) -> (r: Result<Option<Event>, ApiError>)
        ensures
            r == spec_get_event(*db, id@),
    {
        find_event_by_id_internal(db, id)
    }

    /// The federation entity resolver: the same lookup as `get_event`.
    pub fn find_event_by_id(&self, db: &Database, id: &str) -> (r: Result<
        Option<Event>,
        ApiError,
    >)
        ensures
            r == spec_get_event(*db, id@),
    {
        find_event_by_id_internal(db, id)
    }
}

/// The mutation surface of the API.
pub struct Mutation;

impl Mutation {
    /// Create one event with its six satellites and notify subscribers.
    ///
    /// A caller without the elevated role is refused outright and nothing is
    /// written. The seven inserts commit as one unit of work: on a storage
    /// failure the store is untouched. On success the created event is
    /// returned and exactly one notification for it is published.
    pub fn create_event(
        &self,
        db: &mut Database,
        chan: &mut Channel,
        caller: Role,
        event: EventInput,
        fail_step: Option<usize>,
    ) -> (r: Result<Event, ApiError>)
        requires
            old(db).wf(),
            old(db).next_id < u64::MAX,
        ensures
            final(db).wf(),
            caller != Role::Admin ==> r == Err::<Event, ApiError>(ApiError::Forbidden)
                && *final(db) == *old(db) && *final(chan) == *old(chan),
            caller == Role::Admin && insert_fails(fail_step) ==> r == Err::<Event, ApiError>(
                ApiError::Storage,
            ) && *final(db) == *old(db) && *final(chan) == *old(chan),
            caller == Role::Admin && !insert_fails(fail_step) ==> (({
                let row = spec_created_row(*old(db), event);
                &&& r == Ok::<Event, ApiError>(spec_event_of(row))
                &&& create_post(
                    *old(db),
                    *final(db),
                    (NewEvent {
                        summary: event.summary,
                        description: event.description,
                        location: event.location,
                    }),
                    (NewAttende { email: event.attendes.email, idevent: 0 }),
                    (NewEndl {
                        datetime: event.endl.datetime,
                        timezone: event.endl.timezone,
                        idevent: 0,
                    }),
                    (NewOverride {
                        method: event.overrides.method,
                        minutes: event.overrides.minutes,
                        idreminders: event.overrides.idreminders,
                        idevent: 0,
                    }),
                    (NewRecurrence { rrule: event.recurrence.rrule, idevent: 0 }),
                    (NewReminder { usedefault: event.reminders.usedefault, idevent: 0 }),
                    (NewStart {
                        datetime: event.start.datetime,
                        timezone: event.start.timezone,
                        idevent: 0,
                    }),
                    row,
                )
                &&& final(chan).messages@.len() == old(chan).messages@.len() + 1
                &&& final(chan).messages@.last()@ == spec_message(
                    row.id,
                    row.summary@,
                    row.description@,
                )
                &&& forall|i: int|
                    0 <= i < old(chan).messages@.len() ==> final(chan).messages@[i]
                        == old(chan).messages@[i]
            })),
    {
        if !(caller == Role::Admin) {
            return Err(ApiError::Forbidden);
        }
        let new_event = NewEvent {
            summary: event.summary,
            description: event.description,
            location: event.location,
        };
        let new_attendes = NewAttende { email: event.attendes.email, idevent: 0 };
        let new_endl = NewEndl {
            datetime: event.endl.datetime,
            timezone: event.endl.timezone,
            idevent: 0,
        };
        let new_overrides = NewOverride {
            method: event.overrides.method,
            minutes: event.overrides.minutes,
            idreminders: event.overrides.idreminders,
            idevent: 0,
        };
        let new_recurrence = NewRecurrence { rrule: event.recurrence.rrule, idevent: 0 };
        let new_reminders = NewReminder { usedefault: event.reminders.usedefault, idevent: 0 };
        let new_start = NewStart {
            datetime: event.start.datetime,
            timezone: event.start.timezone,
            idevent: 0,
        };
        let created = create(
            db,
            new_event,
            new_attendes,
            new_endl,
            new_overrides,
            new_recurrence,
            new_reminders,
            new_start,
            fail_step,
        );
        match created {
            Ok(ev) => {
                // publish one notification after the durability boundary
                let payload = encode_message(ev.id, &ev.summary, &ev.description);
                send_message(chan, payload);
                Ok(Event::from(&ev))
            },
            Err(e) => Err(e),
        }
    }
}

/// The event row a successful creation stores.
pub open spec fn spec_created_row(pre: Database, event: EventInput) -> Events {
    Events {
        id: pre.next_id,
        summary: event.summary,
        description: event.description,
        location: event.location,
    }
}

/// The subscription surface of the API.
pub struct Subscription;

impl Subscription {
    /// Open the "latest event" feed: a fresh consumer group positioned at
    /// the current end of the channel, so it replays no history.
    pub fn latest_event(&self, chan: &Channel, counter: &mut u64) -> (c: Consumer)
        requires
            *old(counter) < u64::MAX,
        ensures
            c.offset == chan.messages@.len(),
            c.group_id == *old(counter) + 1,
            *final(counter) == *old(counter) + 1,
    {
        let gid = get_kafka_consumer_group_id(counter);
        create_consumer(chan, gid)
    }

    /// One step of the subscription stream: the next message decoded as an
    /// event, an empty poll when the feed holds nothing new, or a decode
    /// error that ends this consumer's stream.
    pub fn next_event(&self, chan: &Channel, consumer: &mut Consumer) -> (r: Result<
        Option<Event>,
        ApiError,
    >)
        ensures
            old(consumer).offset >= chan.messages@.len() ==> r == Ok::<Option<Event>, ApiError>(
                None,
            ) && *final(consumer) == *old(consumer),
            old(consumer).offset < chan.messages@.len() ==> (match spec_parse_message(
                chan.messages@[old(consumer).offset as int]@,
            ) {
                Some(m) => (r matches Ok(o) && o matches Some(ev) && ev.id == m.0 && ev.summary@
                    == m.1 && ev.description@ == m.2) && final(consumer).offset
                    == old(consumer).offset + 1 && final(consumer).group_id
                    == old(consumer).group_id,
                None => r == Err::<Option<Event>, ApiError>(ApiError::Decode) && *final(consumer)
                    == *old(consumer),
            }),
    {
        if consumer.offset >= chan.messages.len() {
            return Ok(None);
        }
        let msg: &Vec<u8> = &chan.messages[consumer.offset];
        match decode_message(msg) {
            Some(m) => {
                consumer.offset = consumer.offset + 1;
                Ok(Some(Event { id: m.0, summary: m.1, description: m.2 }))
            },
            None => Err(ApiError::Decode),
        }
    }
}

impl Event {
    /// The id field.
    pub fn id(&self) -> (r: u64)
        ensures
            r == self.id,
    {
        self.id
    }

    /// The summary field.
    pub fn summary(&self) -> (r: &String)
        ensures
            *r == self.summary,
    {
        &self.summary
    }

    /// The description field.
    pub fn description(&self) -> (r: &String)
        ensures
            *r == self.description,
    {
        &self.description
    }

    /// The API view of a stored event row.
    pub fn from(row: &Events) -> (r: Event)
        ensures
            r == spec_event_of(*row),
    {
        Event {
            id: row.id,
            summary: row.summary.clone(),
            description: row.description.clone(),
        }
    }

    /// Resolve the attendee field through the per-request batch loader:
    /// the row, or `NotFound` when the store holds none for this event.
    pub fn attendes(&self, db: &Database, loader: &mut AttendesLoader) -> (r: Result<
        Attende,
        ApiError,
    >)
        requires
            db.wf(),
            old(loader).wf(),
            old(loader).coherent(db.attendes@),
            old(loader).queries < u64::MAX,
        ensures
            final(loader).wf(),
            final(loader).coherent(db.attendes@),
            final(loader).queries <= old(loader).queries + 1,
            old(loader).cached(self.id) ==> final(loader).queries == old(loader).queries,
            r == (match row_for(db.attendes@, self.id) {
                Some(v) => Ok::<Attende, ApiError>(v),
                None => Err::<Attende, ApiError>(ApiError::NotFound),
            }),
    {
        let mut keys: Vec<u64> = Vec::new();
        keys.push(self.id);
        let mut out = loader.load(&db.attendes, &keys);
        match out.pop() {
            Some(Some(v)) => Ok(v),
            _ => Err(ApiError::NotFound),
        }
    }

    /// Resolve the end-time field through the per-request batch loader.
    pub fn endl(&self, db: &Database, loader: &mut EndlLoader) -> (r: Result<Endl, ApiError>)
        requires
            db.wf(),
            old(loader).wf(),
            old(loader).coherent(db.endl@),
            old(loader).queries < u64::MAX,
        ensures
            final(loader).wf(),
            final(loader).coherent(db.endl@),
            final(loader).queries <= old(loader).queries + 1,
            old(loader).cached(self.id) ==> final(loader).queries == old(loader).queries,
            r == (match row_for(db.endl@, self.id) {
                Some(v) => Ok::<Endl, ApiError>(v),
                None => Err::<Endl, ApiError>(ApiError::NotFound),
            }),
    {
        let mut keys: Vec<u64> = Vec::new();
        keys.push(self.id);
        let mut out = loader.load(&db.endl, &keys);
        match out.pop() {
            Some(Some(v)) => Ok(v),
            _ => Err(ApiError::NotFound),
        }
    }

    /// Resolve the override field through the per-request batch loader.
    pub fn overrides(&self, db: &Database, loader: &mut OverrideLoader) -> (r: Result<
        Override,
        ApiError,
    >)
        requires
            db.wf(),
            old(loader).wf(),
            old(loader).coherent(db.overrides@),
            old(loader).queries < u64::MAX,
        ensures
            final(loader).wf(),
            final(loader).coherent(db.overrides@),
            final(loader).queries <= old(loader).queries + 1,
            old(loader).cached(self.id) ==> final(loader).queries == old(loader).queries,
            r == (match row_for(db.overrides@, self.id) {
                Some(v) => Ok::<Override, ApiError>(v),
                None => Err::<Override, ApiError>(ApiError::NotFound),
            }),
    {
        let mut keys: Vec<u64> = Vec::new();
        keys.push(self.id);
        let mut out = loader.load(&db.overrides, &keys);
        match out.pop() {
            Some(Some(v)) => Ok(v),
            _ => Err(ApiError::NotFound),
        }
    }

    /// Resolve the recurrence field through the per-request batch loader.
    pub fn recurrence(&self, db: &Database, loader: &mut RecurrenceLoader) -> (r: Result<
        Recurrence,
        ApiError,
    >)
        requires
            db.wf(),
            old(loader).wf(),
            old(loader).coherent(db.recurrence@),
            old(loader).queries < u64::MAX,
        ensures
            final(loader).wf(),
            final(loader).coherent(db.recurrence@),
            final(loader).queries <= old(loader).queries + 1,
            old(loader).cached(self.id) ==> final(loader).queries == old(loader).queries,
            r == (match row_for(db.recurrence@, self.id) {
                Some(v) => Ok::<Recurrence, ApiError>(v),
                None => Err::<Recurrence, ApiError>(ApiError::NotFound),
            }),
    {
        let mut keys: Vec<u64> = Vec::new();
        keys.push(self.id);
        let mut out = loader.load(&db.recurrence, &keys);
        match out.pop() {
            Some(Some(v)) => Ok(v),
            _ => Err(ApiError::NotFound),
        }
    }

    /// Resolve the reminder field through the per-request batch loader.
    pub fn reminders(&self, db: &Database, loader: &mut ReminderLoader) -> (r: Result<
        Reminder,
        ApiError,
    >)
        requires
            db.wf(),
            old(loader).wf(),
            old(loader).coherent(db.reminders@),
            old(loader).queries < u64::MAX,
        ensures
            final(loader).wf(),
            final(loader).coherent(db.reminders@),
            final(loader).queries <= old(loader).queries + 1,
            old(loader).cached(self.id) ==> final(loader).queries == old(loader).queries,
            r == (match row_for(db.reminders@, self.id) {
                Some(v) => Ok::<Reminder, ApiError>(v),
                None => Err::<Reminder, ApiError>(ApiError::NotFound),
            }),
    {
        let mut keys: Vec<u64> = Vec::new();
        keys.push(self.id);
        let mut out = loader.load(&db.reminders, &keys);
        match out.pop() {
            Some(Some(v)) => Ok(v),
            _ => Err(ApiError::NotFound),
        }
    }

    /// Resolve the start-time field through the per-request batch loader.
    pub fn start(&self, db: &Database, loader: &mut StartLoader) -> (r: Result<Start, ApiError>)
        requires
            db.wf(),
            old(loader).wf(),
            old(loader).coherent(db.start@),
            old(loader).queries < u64::MAX,
        ensures
            final(loader).wf(),
            final(loader).coherent(db.start@),
            final(loader).queries <= old(loader).queries + 1,
            old(loader).cached(self.id) ==> final(loader).queries == old(loader).queries,
            r == (match row_for(db.start@, self.id) {
                Some(v) => Ok::<Start, ApiError>(v),
                None => Err::<Start, ApiError>(ApiError::NotFound),
            }),
    {
        let mut keys: Vec<u64> = Vec::new();
        keys.push(self.id);
        let mut out = loader.load(&db.start, &keys);
        match out.pop() {
            Some(Some(v)) => Ok(v),
            _ => Err(ApiError::NotFound),
        }
    }
}

/// Law: reading an event is idempotent. Absent intervening writes, two
/// reads of one id against one store state yield identical results.
pub proof fn lemma_get_event_idempotent(
    db: Database,
    id: Seq<char>,
    r1: Result<Option<Event>, ApiError>,
    r2: Result<Option<Event>, ApiError>,
)
    requires
        r1 == spec_get_event(db, id),
        r2 == spec_get_event(db, id),
    ensures
        r1 == r2,
{
}

/// Law: reading an id no event carries yields an absent result, not an
/// error.
pub proof fn lemma_get_event_absent(db: Database, id: Seq<char>)
    requires
        valid_id(id),
        !has_key(db.events@, digits_value(id) as u64),
    ensures
        spec_get_event(db, id) == Ok::<Option<Event>, ApiError>(None),
{
    lemma_row_for_absent(db.events@, digits_value(id) as u64);
}

/// Law: a notification published on the channel and then consumed decodes
/// to the event that was persisted — the same id, summary and description.
pub proof fn lemma_publish_consume(
    pre: Seq<Vec<u8>>,
    m: Vec<u8>,
    id: u64,
    summary: Seq<char>,
    description: Seq<char>,
)
    requires
        m@ == spec_message(id, summary, description),
        encode_utf8(summary).len() <= u64::MAX,
        encode_utf8(description).len() <= u64::MAX,
    ensures
        spec_parse_message(pre.push(m)[pre.len() as int]@) == Some((id, summary, description)),
{
    lemma_message_roundtrip(id, summary, description);
    assert(pre.push(m)[pre.len() as int] == m);
}

} // verus!
