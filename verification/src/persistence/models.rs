use vstd::prelude::*;

verus! {

/// An event row: the central calendar entry, keyed by its generated id.
pub struct Events {
    pub id: u64,
    pub summary: String,
    pub description: String,
    pub location: String,
}

/// The attendee satellite row of an event.
pub struct Attende {
    pub idevent: u64,
    pub email: String,
}

/// The end-time satellite row of an event.
pub struct Endl {
    pub idevent: u64,
    pub datetime: String,
    pub timezone: String,
}

/// The reminder-override satellite row of an event.
pub struct Override {
    pub idevent: u64,
    pub method: String,
    pub minutes: i64,
    pub idreminders: u64,
}

/// The recurrence-rule satellite row of an event.
pub struct Recurrence {
    pub idevent: u64,
    pub rrule: String,
}

/// The reminder satellite row of an event.
pub struct Reminder {
    pub idevent: u64,
    pub usedefault: bool,
}

/// The start-time satellite row of an event.
pub struct Start {
    pub idevent: u64,
    pub datetime: String,
    pub timezone: String,
}

/// A to-be-inserted event row; the id is generated by the store.
pub struct NewEvent {
    pub summary: String,
    pub description: String,
    pub location: String,
}

/// A to-be-inserted attendee row; `idevent` is filled in by the pipeline.
pub struct NewAttende {
    pub email: String,
    pub idevent: u64,
}

/// A to-be-inserted end-time row; `idevent` is filled in by the pipeline.
pub struct NewEndl {
    pub datetime: String,
    pub timezone: String,
    pub idevent: u64,
}

/// A to-be-inserted override row; `idevent` is filled in by the pipeline.
pub struct NewOverride {
    pub method: String,
    pub minutes: i64,
    pub idreminders: u64,
    pub idevent: u64,
}

/// A to-be-inserted recurrence row; `idevent` is filled in by the pipeline.
pub struct NewRecurrence {
    pub rrule: String,
    pub idevent: u64,
}

/// A to-be-inserted reminder row; `idevent` is filled in by the pipeline.
pub struct NewReminder {
    pub usedefault: bool,
    pub idevent: u64,
}

/// A to-be-inserted start-time row; `idevent` is filled in by the pipeline.
pub struct NewStart {
    pub datetime: String,
    pub timezone: String,
    pub idevent: u64,
}

/// A table row keyed by an event id: the event table itself (keyed by its
/// own id) and the six satellite tables (keyed by `idevent`).
pub trait Row: Sized {
    /// The event id this row is keyed by.
    spec fn spec_key(self) -> u64;

    fn key(&self) -> (k: u64)
        ensures
            k == self.spec_key(),
    ;

    fn clone_row(&self) -> (r: Self)
        ensures
            r == *self,
    ;
}

impl Row for Events {
    open spec fn spec_key(self) -> u64 {
        self.id
    }

    fn key(&self) -> u64 {
        self.id
    }

    fn clone_row(&self) -> Events {
        Events {
            id: self.id,
            summary: self.summary.clone(),
            description: self.description.clone(),
            location: self.location.clone(),
        }
    }
}

impl Row for Attende {
    open spec fn spec_key(self) -> u64 {
        self.idevent
    }

    fn key(&self) -> u64 {
        self.idevent
    }

    fn clone_row(&self) -> Attende {
        Attende { idevent: self.idevent, email: self.email.clone() }
    }
}

impl Row for Endl {
    open spec fn spec_key(self) -> u64 {
        self.idevent
    }

    fn key(&self) -> u64 {
        self.idevent
    }

    fn clone_row(&self) -> Endl {
        Endl {
            idevent: self.idevent,
            datetime: self.datetime.clone(),
            timezone: self.timezone.clone(),
        }
    }
}

impl Row for Override {
    open spec fn spec_key(self) -> u64 {
        self.idevent
    }

    fn key(&self) -> u64 {
        self.idevent
    }

    fn clone_row(&self) -> Override {
        Override {
            idevent: self.idevent,
            method: self.method.clone(),
            minutes: self.minutes,
            idreminders: self.idreminders,
        }
    }
}

impl Row for Recurrence {
    open spec fn spec_key(self) -> u64 {
        self.idevent
    }

    fn key(&self) -> u64 {
        self.idevent
    }

    fn clone_row(&self) -> Recurrence {
        Recurrence { idevent: self.idevent, rrule: self.rrule.clone() }
    }
}

impl Row for Reminder {
    open spec fn spec_key(self) -> u64 {
        self.idevent
    }

    fn key(&self) -> u64 {
        self.idevent
    }

    fn clone_row(&self) -> Reminder {
        Reminder { idevent: self.idevent, usedefault: self.usedefault }
    }
}

impl Row for Start {
    open spec fn spec_key(self) -> u64 {
        self.idevent
    }

    fn key(&self) -> u64 {
        self.idevent
    }

    fn clone_row(&self) -> Start {
        Start {
            idevent: self.idevent,
            datetime: self.datetime.clone(),
            timezone: self.timezone.clone(),
        }
    }
}

} // verus!
