use vstd::prelude::*;

use crate::errors::ApiError;
use crate::persistence::models::{
    Attende, Endl, Events, NewAttende, NewEndl, NewEvent, NewOverride, NewRecurrence,
    NewReminder, NewStart, Override, Recurrence, Reminder, Row, Start,
};
use crate::persistence::table::{
    distinct_keys, has_key, lemma_distinct_push, lemma_has_key_push, lemma_row_for_absent,
    lemma_row_for_push, row_for, select_by_idevent,
};

verus! {

/// The event store: the event table, its six satellite tables, and the next
/// id the store will generate. It models the persistent state that one
/// connection of the real backend reads and writes.
pub struct Database {
    pub next_id: u64,
    pub events: Vec<Events>,
    pub attendes: Vec<Attende>,
    pub endl: Vec<Endl>,
    pub overrides: Vec<Override>,
    pub recurrence: Vec<Recurrence>,
    pub reminders: Vec<Reminder>,
    pub start: Vec<Start>,
}

impl Database {
    /// Store integrity: event ids are unique and below the id generator;
    /// each satellite table keys its rows uniquely, and every satellite row
    /// references an existing event (parent-before-children).
    pub open spec fn wf(self) -> bool {
        &&& self.next_id >= 1
        &&& distinct_keys(self.events@)
        &&& forall|i: int|
            0 <= i < self.events@.len() ==> (#[trigger] self.events@[i]).id < self.next_id
        &&& table_wf(self.attendes@, self.events@)
        &&& table_wf(self.endl@, self.events@)
        &&& table_wf(self.overrides@, self.events@)
        &&& table_wf(self.recurrence@, self.events@)
        &&& table_wf(self.reminders@, self.events@)
        &&& table_wf(self.start@, self.events@)
    }

    /// An empty store whose first generated id is 1.
    pub fn new() -> (r: Database)
        ensures
            r.wf(),
            r.next_id == 1,
            r.events@.len() == 0,
            r.attendes@.len() == 0,
            r.endl@.len() == 0,
            r.overrides@.len() == 0,
            r.recurrence@.len() == 0,
            r.reminders@.len() == 0,
            r.start@.len() == 0,
    {
        Database {
            next_id: 1,
            events: Vec::new(),
            attendes: Vec::new(),
            endl: Vec::new(),
            overrides: Vec::new(),
            recurrence: Vec::new(),
            reminders: Vec::new(),
            start: Vec::new(),
        }
    }
}

/// A satellite table is well formed against the event table: keys unique,
/// every key an existing event id.
pub open spec fn table_wf<V: Row>(rows: Seq<V>, events: Seq<Events>) -> bool {
    &&& distinct_keys(rows)
    &&& forall|i: int|
        0 <= i < rows.len() ==> has_key(events, (#[trigger] rows[i]).spec_key())
}

/// All rows of the event table.
pub fn get_all(db: &Database) -> (r: Vec<Events>)
    ensures
        r@ == db.events@,
{
    let n = db.events.len();
    let mut r: Vec<Events> = Vec::new();
    let mut i: usize = 0;
    while i < n
        invariant
            0 <= i <= n,
            n == db.events@.len(),
            r@ == db.events@.take(i as int),
        decreases n - i,
    {
        r.push(db.events[i].clone_row());
        proof {
            assert(db.events@.take(i as int + 1) =~= db.events@.take(i as int).push(
                db.events@[i as int],
            ));
        }
        i += 1;
    }
    proof {
        assert(db.events@.take(n as int) =~= db.events@);
    }
    r
}

/// The event row with the given id, or `NotFound`.
pub fn get(db: &Database, id: u64) -> (r: Result<Events, ApiError>)
    ensures
        r == (match row_for(db.events@, id) {
            Some(row) => Ok::<Events, ApiError>(row),
            None => Err::<Events, ApiError>(ApiError::NotFound),
        }),
{
    let n = db.events.len();
    proof {
        assert(db.events@.skip(0) =~= db.events@);
    }
    let mut i: usize = 0;
    while i < n
        invariant
            0 <= i <= n,
            n == db.events@.len(),
            row_for(db.events@, id) == row_for(db.events@.skip(i as int), id),
        decreases n - i,
    {
        let ghost rest = db.events@.skip(i as int);
        proof {
            assert(rest[0] == db.events@[i as int]);
            assert(rest.drop_first() =~= db.events@.skip(i as int + 1));
        }
        if db.events[i].key() == id {
            return Ok(db.events[i].clone_row());
        }
        i += 1;
    }
    proof {
        assert(db.events@.skip(n as int) =~= Seq::<Events>::empty());
    }
    Err(ApiError::NotFound)
}

/// The attendee rows of the given events: one batched query.
pub fn get_attendes(db: &Database, event_ids: &Vec<u64>) -> (r: Vec<Attende>)
    requires
        db.wf(),
    ensures
        distinct_keys(r@),
        forall|i: int|
            0 <= i < r@.len() ==> db.attendes@.contains(#[trigger] r@[i]) && event_ids@.contains(
                r@[i].spec_key(),
            ),
        forall|k: u64| event_ids@.contains(k) && has_key(db.attendes@, k) ==> has_key(r@, k),
{
    select_by_idevent(&db.attendes, event_ids)
}

/// The end-time rows of the given events: one batched query.
pub fn get_end(db: &Database, event_ids: &Vec<u64>) -> (r: Vec<Endl>)
    requires
        db.wf(),
    ensures
        distinct_keys(r@),
        forall|i: int|
            0 <= i < r@.len() ==> db.endl@.contains(#[trigger] r@[i]) && event_ids@.contains(
                r@[i].spec_key(),
            ),
        forall|k: u64| event_ids@.contains(k) && has_key(db.endl@, k) ==> has_key(r@, k),
{
    select_by_idevent(&db.endl, event_ids)
}

/// The override rows of the given events: one batched query.
pub fn get_overrides(db: &Database, event_ids: &Vec<u64>) -> (r: Vec<Override>)
    requires
        db.wf(),
    ensures
        distinct_keys(r@),
        forall|i: int|
            0 <= i < r@.len() ==> db.overrides@.contains(#[trigger] r@[i]) && event_ids@.contains(
                r@[i].spec_key(),
            ),
        forall|k: u64| event_ids@.contains(k) && has_key(db.overrides@, k) ==> has_key(r@, k),
{
    select_by_idevent(&db.overrides, event_ids)
}

/// The recurrence rows of the given events: one batched query.
pub fn get_recurrence(db: &Database, event_ids: &Vec<u64>) -> (r: Vec<Recurrence>)
    requires
        db.wf(),
    ensures
        distinct_keys(r@),
        forall|i: int|
            0 <= i < r@.len() ==> db.recurrence@.contains(#[trigger] r@[i]) && event_ids@.contains(
                r@[i].spec_key(),
            ),
        forall|k: u64| event_ids@.contains(k) && has_key(db.recurrence@, k) ==> has_key(r@, k),
{
    select_by_idevent(&db.recurrence, event_ids)
}

/// The reminder rows of the given events: one batched query.
pub fn get_reminders(db: &Database, event_ids: &Vec<u64>) -> (r: Vec<Reminder>)
    requires
        db.wf(),
    ensures
        distinct_keys(r@),
        forall|i: int|
            0 <= i < r@.len() ==> db.reminders@.contains(#[trigger] r@[i]) && event_ids@.contains(
                r@[i].spec_key(),
            ),
        forall|k: u64| event_ids@.contains(k) && has_key(db.reminders@, k) ==> has_key(r@, k),
{
    select_by_idevent(&db.reminders, event_ids)
}

/// The start-time rows of the given events: one batched query.
pub fn get_start(db: &Database, event_ids: &Vec<u64>) -> (r: Vec<Start>)
    requires
        db.wf(),
    ensures
        distinct_keys(r@),
        forall|i: int|
            0 <= i < r@.len() ==> db.start@.contains(#[trigger] r@[i]) && event_ids@.contains(
                r@[i].spec_key(),
            ),
        forall|k: u64| event_ids@.contains(k) && has_key(db.start@, k) ==> has_key(r@, k),
{
    select_by_idevent(&db.start, event_ids)
}

/// Whether the storage layer rejects one of the seven inserts of a create:
/// `Some(k)` with `k < 7` means the k-th insert fails (0 is the event row,
/// 1 to 6 the satellites in pipeline order).
pub open spec fn insert_fails(fail_step: Option<usize>) -> bool {
    match fail_step {
        Some(k) => k < 7,
        None => false,
    }
}

/// The exact store a successful create leaves behind: the event row under
/// the generated id, and one satellite row of each kind keyed by it.
pub open spec fn create_post(
    pre: Database,
    post: Database,
    ne: NewEvent,
    na: NewAttende,
    nendl: NewEndl,
    nov: NewOverride,
    nrec: NewRecurrence,
    nrem: NewReminder,
    ns: NewStart,
    ev: Events,
) -> bool {
    &&& ev == (Events {
        id: pre.next_id,
        summary: ne.summary,
        description: ne.description,
        location: ne.location,
    })
    &&& post.next_id == pre.next_id + 1
    &&& post.events@ == pre.events@.push(ev)
    &&& post.attendes@ == pre.attendes@.push((Attende { idevent: ev.id, email: na.email }))
    &&& post.endl@ == pre.endl@.push(
        (Endl { idevent: ev.id, datetime: nendl.datetime, timezone: nendl.timezone }),
    )
    &&& post.overrides@ == pre.overrides@.push(
        (Override {
            idevent: ev.id,
            method: nov.method,
            minutes: nov.minutes,
            idreminders: nov.idreminders,
        }),
    )
    &&& post.recurrence@ == pre.recurrence@.push(
        (Recurrence { idevent: ev.id, rrule: nrec.rrule }),
    )
    &&& post.reminders@ == pre.reminders@.push(
        (Reminder { idevent: ev.id, usedefault: nrem.usedefault }),
    )
    &&& post.start@ == pre.start@.push(
        (Start { idevent: ev.id, datetime: ns.datetime, timezone: ns.timezone }),
    )
}

/// Create one event and its six satellites as a single unit of work.
///
/// The seven inserts happen in pipeline order, event row first, and commit
/// together: when the storage layer rejects any insert (`fail_step`), the
/// whole unit rolls back and the store is exactly what it was, so no partial
/// state is ever visible to a later read.
pub fn create(
    db: &mut Database,
    new_event: NewEvent,
    new_attendes: NewAttende,
    new_endl: NewEndl,
    new_overrides: NewOverride,
    new_recurrence: NewRecurrence,
    new_reminder: NewReminder,
    new_start: NewStart,
    fail_step: Option<usize>,
) -> (r: Result<Events, ApiError>)
    requires
        old(db).wf(),
        old(db).next_id < u64::MAX,
    ensures
        final(db).wf(),
        insert_fails(fail_step) ==> r == Err::<Events, ApiError>(ApiError::Storage) && *final(db)
            == *old(db),
        !insert_fails(fail_step) ==> (r matches Ok(ev) && create_post(
            *old(db),
            *final(db),
            new_event,
            new_attendes,
            new_endl,
            new_overrides,
            new_recurrence,
            new_reminder,
            new_start,
            ev,
        )),
{
    // Any insert the storage layer rejects aborts the unit of work before
    // anything becomes visible: the commit is all-or-nothing.
    let aborted = match fail_step {
        Some(k) => k < 7,
        None => false,
    };
    if aborted {
        return Err(ApiError::Storage);
    }
    let id = db.next_id;
    let ev = Events {
        id,
        summary: new_event.summary,
        description: new_event.description,
        location: new_event.location,
    };
    let row_att = Attende { idevent: id, email: new_attendes.email };
    let row_end = Endl { idevent: id, datetime: new_endl.datetime, timezone: new_endl.timezone };
    let row_ovr = Override {
        idevent: id,
        method: new_overrides.method,
        minutes: new_overrides.minutes,
        idreminders: new_overrides.idreminders,
    };
    let row_rec = Recurrence { idevent: id, rrule: new_recurrence.rrule };
    let row_rem = Reminder { idevent: id, usedefault: new_reminder.usedefault };
    let row_sta = Start { idevent: id, datetime: new_start.datetime, timezone: new_start.timezone };
    let result = ev.clone_row();
    proof {
        lemma_fresh_key_tables(*old(db), id);
        lemma_distinct_push(db.events@, ev);
    }
    db.next_id = db.next_id + 1;
    db.events.push(ev);
    let ghost events2 = db.events@;
    proof {
        lemma_table_push::<Attende>(old(db).attendes@, old(db).events@, events2, ev,
            (Attende { idevent: id, email: row_att.email }));
    }
    db.attendes.push(row_att);
    proof {
        lemma_table_push::<Endl>(old(db).endl@, old(db).events@, events2, ev,
            (Endl { idevent: id, datetime: row_end.datetime, timezone: row_end.timezone }));
    }
    db.endl.push(row_end);
    proof {
        lemma_table_push::<Override>(old(db).overrides@, old(db).events@, events2, ev,
            (Override {
                idevent: id,
                method: row_ovr.method,
                minutes: row_ovr.minutes,
                idreminders: row_ovr.idreminders,
            }));
    }
    db.overrides.push(row_ovr);
    proof {
        lemma_table_push::<Recurrence>(old(db).recurrence@, old(db).events@, events2, ev,
            (Recurrence { idevent: id, rrule: row_rec.rrule }));
    }
    db.recurrence.push(row_rec);
    proof {
        lemma_table_push::<Reminder>(old(db).reminders@, old(db).events@, events2, ev,
            (Reminder { idevent: id, usedefault: row_rem.usedefault }));
    }
    db.reminders.push(row_rem);
    proof {
        lemma_table_push::<Start>(old(db).start@, old(db).events@, events2, ev,
            (Start { idevent: id, datetime: row_sta.datetime, timezone: row_sta.timezone }));
    }
    db.start.push(row_sta);
    Ok(result)
}

/// In a well-formed store, no table holds the id the generator will hand
/// out next.
proof fn lemma_fresh_key_tables(db: Database, id: u64)
    requires
        db.wf(),
        id >= db.next_id,
    ensures
        !has_key(db.events@, id),
        !has_key(db.attendes@, id),
        !has_key(db.endl@, id),
        !has_key(db.overrides@, id),
        !has_key(db.recurrence@, id),
        !has_key(db.reminders@, id),
        !has_key(db.start@, id),
{
    assert(!has_key(db.events@, id)) by {
        if has_key(db.events@, id) {
            let i = choose|i: int|
                0 <= i < db.events@.len() && (#[trigger] db.events@[i]).spec_key() == id;
        }
    }
    lemma_fresh_key_satellite(db.attendes@, db.events@, id);
    lemma_fresh_key_satellite(db.endl@, db.events@, id);
    lemma_fresh_key_satellite(db.overrides@, db.events@, id);
    lemma_fresh_key_satellite(db.recurrence@, db.events@, id);
    lemma_fresh_key_satellite(db.reminders@, db.events@, id);
    lemma_fresh_key_satellite(db.start@, db.events@, id);
}

/// A key absent from the event table is absent from a well-formed satellite
/// table too.
proof fn lemma_fresh_key_satellite<V: Row>(rows: Seq<V>, events: Seq<Events>, id: u64)
    requires
        table_wf(rows, events),
        !has_key(events, id),
    ensures
        !has_key(rows, id),
{
    if has_key(rows, id) {
        let i = choose|i: int| 0 <= i < rows.len() && (#[trigger] rows[i]).spec_key() == id;
        assert(has_key(events, rows[i].spec_key()));
    }
}

/// Pushing the new event row and then a satellite row keyed by it keeps the
/// satellite table well formed.
proof fn lemma_table_push<V: Row>(
    rows: Seq<V>,
    events: Seq<Events>,
    events2: Seq<Events>,
    ev: Events,
    v: V,
)
    requires
        table_wf(rows, events),
        events2 == events.push(ev),
        v.spec_key() == ev.id,
        ev.id == ev.spec_key(),
        !has_key(rows, ev.id),
    ensures
        table_wf(rows.push(v), events2),
{
    lemma_distinct_push(rows, v);
    let ext = rows.push(v);
    assert forall|i: int| 0 <= i < ext.len() implies has_key(
        events2,
        (#[trigger] ext[i]).spec_key(),
    ) by {
        if i < rows.len() {
            assert(ext[i] == rows[i]);
            lemma_has_key_push(events, ev, rows[i].spec_key());
        } else {
            assert(ext[i] == v);
            assert(events2[events2.len() - 1] == ev);
        }
    }
}

/// Law: a successful create leaves a fully formed event. Reading the
/// generated id back finds the event row and one satellite row of each of
/// the six kinds, each carrying exactly what the create was given.
pub proof fn lemma_create_fully_formed(
    pre: Database,
    post: Database,
    ne: NewEvent,
    na: NewAttende,
    nendl: NewEndl,
    nov: NewOverride,
    nrec: NewRecurrence,
    nrem: NewReminder,
    ns: NewStart,
    ev: Events,
)
    requires
        pre.wf(),
        create_post(pre, post, ne, na, nendl, nov, nrec, nrem, ns, ev),
    ensures
        row_for(post.events@, ev.id) == Some(ev),
        row_for(post.attendes@, ev.id) == Some((Attende { idevent: ev.id, email: na.email })),
        row_for(post.endl@, ev.id) == Some(
            (Endl { idevent: ev.id, datetime: nendl.datetime, timezone: nendl.timezone }),
        ),
        row_for(post.overrides@, ev.id) == Some(
            (Override {
                idevent: ev.id,
                method: nov.method,
                minutes: nov.minutes,
                idreminders: nov.idreminders,
            }),
        ),
        row_for(post.recurrence@, ev.id) == Some(
            (Recurrence { idevent: ev.id, rrule: nrec.rrule }),
        ),
        row_for(post.reminders@, ev.id) == Some(
            (Reminder { idevent: ev.id, usedefault: nrem.usedefault }),
        ),
        row_for(post.start@, ev.id) == Some(
            (Start { idevent: ev.id, datetime: ns.datetime, timezone: ns.timezone }),
        ),
{
    lemma_fresh_key_tables(pre, ev.id);
    lemma_row_for_push(pre.events@, ev, ev.id);
    lemma_row_for_push(pre.attendes@, (Attende { idevent: ev.id, email: na.email }), ev.id);
    lemma_row_for_push(
        pre.endl@,
        (Endl { idevent: ev.id, datetime: nendl.datetime, timezone: nendl.timezone }),
        ev.id,
    );
    lemma_row_for_push(
        pre.overrides@,
        (Override {
            idevent: ev.id,
            method: nov.method,
            minutes: nov.minutes,
            idreminders: nov.idreminders,
        }),
        ev.id,
    );
    lemma_row_for_push(pre.recurrence@, (Recurrence { idevent: ev.id, rrule: nrec.rrule }), ev.id);
    lemma_row_for_push(
        pre.reminders@,
        (Reminder { idevent: ev.id, usedefault: nrem.usedefault }),
        ev.id,
    );
    lemma_row_for_push(
        pre.start@,
        (Start { idevent: ev.id, datetime: ns.datetime, timezone: ns.timezone }),
        ev.id,
    );
}

/// Law: a failed create is atomic. The store is what it was, so reading the
/// id the create would have generated — or any later id — finds no event.
pub proof fn lemma_failed_create_atomic(pre: Database, post: Database)
    requires
        pre.wf(),
        post == pre,
    ensures
        forall|id: u64| id >= pre.next_id ==> row_for(post.events@, id) is None,
{
    assert forall|id: u64| id >= pre.next_id implies row_for(post.events@, id) is None by {
        assert(!has_key(post.events@, id)) by {
            if has_key(post.events@, id) {
                let i = choose|i: int|
                    0 <= i < post.events@.len() && (#[trigger] post.events@[i]).spec_key() == id;
            }
        };
        lemma_row_for_absent(post.events@, id);
    }
}

} // verus!
