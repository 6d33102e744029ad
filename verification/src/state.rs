//! The registry as a mathematical value, and each operation as a function
//! from the state before to the state after and what the caller is told.
//!
//! The executable registry is proved to do exactly what these functions say.

use crate::model::{
    CommunicationLog, CommunicationLogView, CourtHearing, CourtHearingView,
    CreateDisciplinaryActionPayloadView, CreateInmatePayloadView, CreatePrisonPayloadView,
    DisciplinaryAction, DisciplinaryActionView, Inmate, InmateRecord, InmateRecordView,
    InmateView, MessageView, Prison, PrisonView,
};
use crate::record::{storable, Record};
use vstd::prelude::*;

verus! {

// ---------------------------------------------------------------------------
// What callers are told when an operation fails
// ---------------------------------------------------------------------------

/// A payload lacks a field that an inmate or a prison must have.
pub open spec fn missing_fields() -> MessageView {
    MessageView::InvalidPayload("Missing required fields"@)
}

/// A communication log was given no message.
pub open spec fn empty_message() -> MessageView {
    MessageView::InvalidPayload("Message cannot be empty"@)
}

/// No inmate has the identifier.
pub open spec fn inmate_not_found() -> MessageView {
    MessageView::NotFound("Inmate not found"@)
}

/// No prison has the identifier.
pub open spec fn prison_not_found() -> MessageView {
    MessageView::NotFound("Prison not found"@)
}

/// The inmate has had no court hearing yet, or does not exist.
pub open spec fn record_not_found() -> MessageView {
    MessageView::NotFound("Inmate record not found"@)
}

/// No disciplinary action names the inmate.
pub open spec fn no_actions_found() -> MessageView {
    MessageView::NotFound("No disciplinary actions found"@)
}

/// The prison holds as many inmates as its capacity allows.
pub open spec fn prison_full() -> MessageView {
    MessageView::Error("Prison is at full capacity"@)
}

// ---------------------------------------------------------------------------
// The records that operations build
// ---------------------------------------------------------------------------

/// Whether a payload names the inmate and the sentence.
pub open spec fn inmate_payload_ok(payload: CreateInmatePayloadView) -> bool {
    payload.name.len() > 0 && payload.sentence_details.len() > 0
}

/// Whether a payload names the prison and its location.
pub open spec fn prison_payload_ok(payload: CreatePrisonPayloadView) -> bool {
    payload.name.len() > 0 && payload.location.len() > 0
}

/// The inmate that a payload describes, with no disciplinary action yet.
pub open spec fn new_inmate(id: u64, payload: CreateInmatePayloadView) -> InmateView {
    InmateView {
        id,
        name: payload.name,
        age: payload.age,
        gender: payload.gender,
        sentence_details: payload.sentence_details,
        emergency_contact: payload.emergency_contact,
        disciplinary_actions: Seq::empty(),
    }
}

/// `inmate` with the fields that a payload carries replaced; the identifier
/// and the inline disciplinary log stay.
pub open spec fn updated_inmate(inmate: InmateView, payload: CreateInmatePayloadView) -> InmateView {
    InmateView {
        id: inmate.id,
        name: payload.name,
        age: payload.age,
        gender: payload.gender,
        sentence_details: payload.sentence_details,
        emergency_contact: payload.emergency_contact,
        disciplinary_actions: inmate.disciplinary_actions,
    }
}

/// The prison that a payload describes, with no inmate yet.
pub open spec fn new_prison(id: u64, payload: CreatePrisonPayloadView) -> PrisonView {
    PrisonView {
        id,
        name: payload.name,
        location: payload.location,
        capacity: payload.capacity,
        inmates: Seq::empty(),
    }
}

/// `prison` with one more inmate, at the end of its list.
pub open spec fn grown_prison(prison: PrisonView, inmate_id: u64) -> PrisonView {
    PrisonView {
        id: prison.id,
        name: prison.name,
        location: prison.location,
        capacity: prison.capacity,
        inmates: prison.inmates.push(inmate_id),
    }
}

/// The disciplinary action that a payload describes, taken at `now`.
pub open spec fn new_action(
    id: u64,
    payload: CreateDisciplinaryActionPayloadView,
    now: u64,
) -> DisciplinaryActionView {
    DisciplinaryActionView {
        id,
        inmate_id: payload.inmate_id,
        officer_id: payload.officer_id,
        action: payload.action,
        timestamp: now,
    }
}

/// The first record of an inmate: one hearing, held at `now`.
pub open spec fn first_record(inmate_id: u64, hearing_id: u64, now: u64) -> InmateRecordView {
    InmateRecordView {
        id: inmate_id,
        inmate_id,
        disciplinary_actions: Seq::empty(),
        court_hearings: seq![hearing_id],
        last_updated: now,
    }
}

/// `record` with one more hearing at the end, brought up to date at `now`.
pub open spec fn extended_record(
    record: InmateRecordView,
    hearing_id: u64,
    now: u64,
) -> InmateRecordView {
    InmateRecordView {
        id: record.id,
        inmate_id: record.inmate_id,
        disciplinary_actions: record.disciplinary_actions,
        court_hearings: record.court_hearings.push(hearing_id),
        last_updated: now,
    }
}

// ---------------------------------------------------------------------------
// The state
// ---------------------------------------------------------------------------

/// Whether every record in `entries` is sound and stored under its own key.
pub open spec fn kept<E: Record>(entries: Map<u64, E::V>) -> bool {
    forall|key: u64| #[trigger]
        entries.contains_key(key) ==> E::key(entries[key]) == key && E::sound(entries[key])
}

/// Whether no key in `entries` exceeds `limit`.
pub open spec fn within<V>(entries: Map<u64, V>, limit: u64) -> bool {
    forall|key: u64| #[trigger] entries.contains_key(key) ==> key <= limit
}

/// Everything the registry holds.
pub struct RegistryView {
    /// The identifier handed out last; 0 before the first.
    pub last_id: u64,
    pub prisons: Map<u64, PrisonView>,
    pub inmates: Map<u64, InmateView>,
    pub actions: Map<u64, DisciplinaryActionView>,
    pub logs: Map<u64, CommunicationLogView>,
    pub hearings: Map<u64, CourtHearingView>,
    /// The inmate records, each under the identifier of its inmate.
    pub records: Map<u64, InmateRecordView>,
}

impl RegistryView {
    /// What holds of the registry at all times: every record is stored under
    /// its own key (an inmate record under the identifier of its inmate), no
    /// prison holds more inmates than its capacity, and no key in use is
    /// greater than the identifier handed out last.
    pub open spec fn wf(self) -> bool {
        &&& kept::<Prison>(self.prisons)
        &&& kept::<Inmate>(self.inmates)
        &&& kept::<DisciplinaryAction>(self.actions)
        &&& kept::<CommunicationLog>(self.logs)
        &&& kept::<CourtHearing>(self.hearings)
        &&& kept::<InmateRecord>(self.records)
        &&& within(self.prisons, self.last_id)
        &&& within(self.inmates, self.last_id)
        &&& within(self.actions, self.last_id)
        &&& within(self.logs, self.last_id)
        &&& within(self.hearings, self.last_id)
        &&& within(self.records, self.last_id)
    }

    /// The identifier that the next creation hands out.
    pub open spec fn next_id(self) -> u64 {
        (self.last_id + 1) as u64
    }

    /// Whether an identifier is left to hand out.
    pub open spec fn has_next_id(self) -> bool {
        self.last_id < u64::MAX
    }

    /// The disciplinary actions taken against one inmate, by identifier.
    pub open spec fn actions_of(self, inmate_id: u64) -> Map<u64, DisciplinaryActionView> {
        Map::new(
            |key: u64| self.actions.contains_key(key) && self.actions[key].inmate_id == inmate_id,
            |key: u64| self.actions[key],
        )
    }

    /// The record of an inmate once the hearing `hearing_id` is added to it.
    pub open spec fn record_with(self, inmate_id: u64, hearing_id: u64, now: u64)
        -> InmateRecordView {
        if self.records.contains_key(inmate_id) {
            extended_record(self.records[inmate_id], hearing_id, now)
        } else {
            first_record(inmate_id, hearing_id, now)
        }
    }

    // -----------------------------------------------------------------------
    // Lookups
    // -----------------------------------------------------------------------

    /// The inmate with the identifier `id`.
    pub open spec fn get_inmate(self, id: u64) -> Result<InmateView, MessageView> {
        if self.inmates.contains_key(id) {
            Ok(self.inmates[id])
        } else {
            Err(inmate_not_found())
        }
    }

    /// The prison with the identifier `prison_id`.
    pub open spec fn get_prison_details(self, prison_id: u64) -> Result<PrisonView, MessageView> {
        if self.prisons.contains_key(prison_id) {
            Ok(self.prisons[prison_id])
        } else {
            Err(prison_not_found())
        }
    }

    /// The record of the inmate `inmate_id`.
    pub open spec fn get_inmate_record(self, inmate_id: u64) -> Result<
        InmateRecordView,
        MessageView,
    > {
        if self.records.contains_key(inmate_id) {
            Ok(self.records[inmate_id])
        } else {
            Err(record_not_found())
        }
    }

    // -----------------------------------------------------------------------
    // Changes: the state after, and what the caller is told
    // -----------------------------------------------------------------------

    /// A payload that names the inmate and the sentence creates the inmate
    /// under the next identifier; any other is refused.
    pub open spec fn create_inmate(self, payload: CreateInmatePayloadView) -> (
        RegistryView,
        Result<InmateView, MessageView>,
    ) {
        if !inmate_payload_ok(payload) {
            (self, Err(missing_fields()))
        } else {
            let inmate = new_inmate(self.next_id(), payload);
            (
                RegistryView {
                    last_id: inmate.id,
                    inmates: self.inmates.insert(inmate.id, inmate),
                    ..self
                },
                Ok(inmate),
            )
        }
    }

    /// A payload that names the prison and its location creates the prison
    /// under the next identifier; any other is refused.
    pub open spec fn create_prison(self, payload: CreatePrisonPayloadView) -> (
        RegistryView,
        Result<PrisonView, MessageView>,
    ) {
        if !prison_payload_ok(payload) {
            (self, Err(missing_fields()))
        } else {
            let prison = new_prison(self.next_id(), payload);
            (
                RegistryView {
                    last_id: prison.id,
                    prisons: self.prisons.insert(prison.id, prison),
                    ..self
                },
                Ok(prison),
            )
        }
    }

    /// Every payload creates a disciplinary action under the next
    /// identifier, stamped `now`.
    pub open spec fn create_disciplinary_action(
        self,
        payload: CreateDisciplinaryActionPayloadView,
        now: u64,
    ) -> (RegistryView, Result<DisciplinaryActionView, MessageView>) {
        let action = new_action(self.next_id(), payload, now);
        (
            RegistryView {
                last_id: action.id,
                actions: self.actions.insert(action.id, action),
                ..self
            },
            Ok(action),
        )
    }

    /// A valid payload replaces the fields of the inmate `id`; the payload
    /// is judged before the inmate is looked for.
    pub open spec fn update_inmate(self, id: u64, payload: CreateInmatePayloadView) -> (
        RegistryView,
        Result<InmateView, MessageView>,
    ) {
        if !inmate_payload_ok(payload) {
            (self, Err(missing_fields()))
        } else if !self.inmates.contains_key(id) {
            (self, Err(inmate_not_found()))
        } else {
            let inmate = updated_inmate(self.inmates[id], payload);
            (RegistryView { inmates: self.inmates.insert(id, inmate), ..self }, Ok(inmate))
        }
    }

    /// A hearing of an inmate that exists is created under the next
    /// identifier and added to the record of the inmate.
    pub open spec fn create_court_hearing(
        self,
        inmate_id: u64,
        date: u64,
        outcome: Seq<char>,
        now: u64,
    ) -> (RegistryView, Result<CourtHearingView, MessageView>) {
        if !self.inmates.contains_key(inmate_id) {
            (self, Err(inmate_not_found()))
        } else {
            let hearing = CourtHearingView { id: self.next_id(), inmate_id, date, outcome };
            let record = self.record_with(inmate_id, hearing.id, now);
            (
                RegistryView {
                    last_id: hearing.id,
                    hearings: self.hearings.insert(hearing.id, hearing),
                    records: self.records.insert(inmate_id, record),
                    ..self
                },
                Ok(hearing),
            )
        }
    }

    /// A message that is not empty is logged under the next identifier,
    /// stamped `now`.
    pub open spec fn create_communication_log(
        self,
        inmate_id: u64,
        officer_id: u64,
        message: Seq<char>,
        now: u64,
    ) -> (RegistryView, Result<CommunicationLogView, MessageView>) {
        if message.len() == 0 {
            (self, Err(empty_message()))
        } else {
            let log = CommunicationLogView {
                id: self.next_id(),
                inmate_id,
                officer_id,
                message,
                timestamp: now,
            };
            (
                RegistryView { last_id: log.id, logs: self.logs.insert(log.id, log), ..self },
                Ok(log),
            )
        }
    }

    /// The inmate is looked for first, then the prison. An inmate that the
    /// prison holds already changes nothing; otherwise it joins the end of
    /// the list, unless the prison is full.
    pub open spec fn assign_inmate_to_prison(self, inmate_id: u64, prison_id: u64) -> (
        RegistryView,
        Result<PrisonView, MessageView>,
    ) {
        if !self.inmates.contains_key(inmate_id) {
            (self, Err(inmate_not_found()))
        } else if !self.prisons.contains_key(prison_id) {
            (self, Err(prison_not_found()))
        } else {
            let prison = self.prisons[prison_id];
            if prison.inmates.contains(inmate_id) {
                (self, Ok(prison))
            } else if prison.inmates.len() >= prison.capacity {
                (self, Err(prison_full()))
            } else {
                let grown = grown_prison(prison, inmate_id);
                (RegistryView { prisons: self.prisons.insert(prison_id, grown), ..self }, Ok(grown))
            }
        }
    }

    // -----------------------------------------------------------------------
    // The limits of the machine: an identifier must be left, and a record
    // must be small enough to store
    // -----------------------------------------------------------------------

    pub open spec fn admits_create_inmate(self, payload: CreateInmatePayloadView) -> bool {
        inmate_payload_ok(payload) ==> self.has_next_id() && storable::<Inmate>(
            new_inmate(self.next_id(), payload),
        )
    }

    pub open spec fn admits_create_prison(self, payload: CreatePrisonPayloadView) -> bool {
        prison_payload_ok(payload) ==> self.has_next_id() && storable::<Prison>(
            new_prison(self.next_id(), payload),
        )
    }

    pub open spec fn admits_create_disciplinary_action(
        self,
        payload: CreateDisciplinaryActionPayloadView,
        now: u64,
    ) -> bool {
        self.has_next_id() && storable::<DisciplinaryAction>(
            new_action(self.next_id(), payload, now),
        )
    }

    pub open spec fn admits_update_inmate(self, id: u64, payload: CreateInmatePayloadView)
        -> bool {
        inmate_payload_ok(payload) && self.inmates.contains_key(id) ==> storable::<Inmate>(
            updated_inmate(self.inmates[id], payload),
        )
    }

    pub open spec fn admits_create_court_hearing(
        self,
        inmate_id: u64,
        date: u64,
        outcome: Seq<char>,
        now: u64,
    ) -> bool {
        self.inmates.contains_key(inmate_id) ==> {
            &&& self.has_next_id()
            &&& storable::<CourtHearing>(
                CourtHearingView { id: self.next_id(), inmate_id, date, outcome },
            )
            &&& storable::<InmateRecord>(self.record_with(inmate_id, self.next_id(), now))
        }
    }

    pub open spec fn admits_create_communication_log(
        self,
        inmate_id: u64,
        officer_id: u64,
        message: Seq<char>,
        now: u64,
    ) -> bool {
        message.len() > 0 ==> self.has_next_id() && storable::<CommunicationLog>(
            CommunicationLogView {
                id: self.next_id(),
                inmate_id,
                officer_id,
                message,
                timestamp: now,
            },
        )
    }

    pub open spec fn admits_assign_inmate_to_prison(self, inmate_id: u64, prison_id: u64)
        -> bool {
        self.inmates.contains_key(inmate_id) && self.prisons.contains_key(prison_id)
            && !self.prisons[prison_id].inmates.contains(inmate_id)
            && self.prisons[prison_id].inmates.len() < self.prisons[prison_id].capacity
            ==> storable::<Prison>(grown_prison(self.prisons[prison_id], inmate_id))
    }
}

} // verus!
