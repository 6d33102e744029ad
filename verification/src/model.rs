//! The records the registry keeps, the payloads that create them, and the
//! messages that report failure. Each type has a view: the same value with
//! its strings as sequences of characters and its vectors as sequences.

use vstd::prelude::*;

verus! {

/// The views of `items`, in order.
pub open spec fn views<T: View>(items: Seq<T>) -> Seq<T::V> {
    Seq::new(items.len(), |i: int| items[i]@)
}

// ---------------------------------------------------------------------------
// Emergency contact
// ---------------------------------------------------------------------------

/// Whom to reach on behalf of an inmate. Lives inside an [`Inmate`].
#[derive(Clone, Debug, PartialEq, Eq, Default)]
pub struct EmergencyContact {
    pub name: String,
    pub phone_number: String,
    pub relationship: String,
}

pub struct EmergencyContactView {
    pub name: Seq<char>,
    pub phone_number: Seq<char>,
    pub relationship: Seq<char>,
}

impl View for EmergencyContact {
    type V = EmergencyContactView;

    open spec fn view(&self) -> EmergencyContactView {
        EmergencyContactView {
            name: self.name@,
            phone_number: self.phone_number@,
            relationship: self.relationship@,
        }
    }
}

// ---------------------------------------------------------------------------
// Prison
// ---------------------------------------------------------------------------

/// A prison and the inmates assigned to it, in the order they were assigned.
#[derive(Clone, Debug, PartialEq, Eq, Default)]
pub struct Prison {
    pub id: u64,
    pub name: String,
    pub location: String,
    pub capacity: u64,
    pub inmates: Vec<u64>,
}

pub struct PrisonView {
    pub id: u64,
    pub name: Seq<char>,
    pub location: Seq<char>,
    pub capacity: u64,
    pub inmates: Seq<u64>,
}

impl View for Prison {
    type V = PrisonView;

    open spec fn view(&self) -> PrisonView {
        PrisonView {
            id: self.id,
            name: self.name@,
            location: self.location@,
            capacity: self.capacity,
            inmates: self.inmates@,
        }
    }
}

// ---------------------------------------------------------------------------
// Inmate
// ---------------------------------------------------------------------------

/// An inmate. `disciplinary_actions` is an inline log of its own; it is not
/// kept in step with the stored [`DisciplinaryAction`]s.
#[derive(Clone, Debug, PartialEq, Eq, Default)]
pub struct Inmate {
    pub id: u64,
    pub name: String,
    pub age: u64,
    pub gender: String,
    pub sentence_details: String,
    pub emergency_contact: EmergencyContact,
    pub disciplinary_actions: Vec<String>,
}

pub struct InmateView {
    pub id: u64,
    pub name: Seq<char>,
    pub age: u64,
    pub gender: Seq<char>,
    pub sentence_details: Seq<char>,
    pub emergency_contact: EmergencyContactView,
    pub disciplinary_actions: Seq<Seq<char>>,
}

impl View for Inmate {
    type V = InmateView;

    open spec fn view(&self) -> InmateView {
        InmateView {
            id: self.id,
            name: self.name@,
            age: self.age,
            gender: self.gender@,
            sentence_details: self.sentence_details@,
            emergency_contact: self.emergency_contact@,
            disciplinary_actions: views(self.disciplinary_actions@),
        }
    }
}

// ---------------------------------------------------------------------------
// Disciplinary action
// ---------------------------------------------------------------------------

/// A disciplinary action taken by an officer against an inmate.
#[derive(Clone, Debug, PartialEq, Eq, Default)]
pub struct DisciplinaryAction {
    pub id: u64,
    pub inmate_id: u64,
    pub officer_id: u64,
    pub action: String,
    pub timestamp: u64,
}

pub struct DisciplinaryActionView {
    pub id: u64,
    pub inmate_id: u64,
    pub officer_id: u64,
    pub action: Seq<char>,
    pub timestamp: u64,
}

impl View for DisciplinaryAction {
    type V = DisciplinaryActionView;

    open spec fn view(&self) -> DisciplinaryActionView {
        DisciplinaryActionView {
            id: self.id,
            inmate_id: self.inmate_id,
            officer_id: self.officer_id,
            action: self.action@,
            timestamp: self.timestamp,
        }
    }
}

// ---------------------------------------------------------------------------
// Communication log
// ---------------------------------------------------------------------------

/// A message exchanged between an officer and an inmate.
#[derive(Clone, Debug, PartialEq, Eq, Default)]
pub struct CommunicationLog {
    pub id: u64,
    pub inmate_id: u64,
    pub officer_id: u64,
    pub message: String,
    pub timestamp: u64,
}

pub struct CommunicationLogView {
    pub id: u64,
    pub inmate_id: u64,
    pub officer_id: u64,
    pub message: Seq<char>,
    pub timestamp: u64,
}

impl View for CommunicationLog {
    type V = CommunicationLogView;

    open spec fn view(&self) -> CommunicationLogView {
        CommunicationLogView {
            id: self.id,
            inmate_id: self.inmate_id,
            officer_id: self.officer_id,
            message: self.message@,
            timestamp: self.timestamp,
        }
    }
}

// ---------------------------------------------------------------------------
// Court hearing
// ---------------------------------------------------------------------------

/// A court hearing of an inmate.
#[derive(Clone, Debug, PartialEq, Eq, Default)]
pub struct CourtHearing {
    pub id: u64,
    pub inmate_id: u64,
    pub date: u64,
    pub outcome: String,
}

pub struct CourtHearingView {
    pub id: u64,
    pub inmate_id: u64,
    pub date: u64,
    pub outcome: Seq<char>,
}

impl View for CourtHearing {
    type V = CourtHearingView;

    open spec fn view(&self) -> CourtHearingView {
        CourtHearingView {
            id: self.id,
            inmate_id: self.inmate_id,
            date: self.date,
            outcome: self.outcome@,
        }
    }
}

// ---------------------------------------------------------------------------
// Inmate record
// ---------------------------------------------------------------------------

/// The running history of one inmate: the court hearings held so far, in
/// order. It is stored under the inmate's identifier, which `id` repeats.
#[derive(Clone, Debug, PartialEq, Eq, Default)]
pub struct InmateRecord {
    pub id: u64,
    pub inmate_id: u64,
    pub disciplinary_actions: Vec<String>,
    pub court_hearings: Vec<u64>,
    pub last_updated: u64,
}

pub struct InmateRecordView {
    pub id: u64,
    pub inmate_id: u64,
    pub disciplinary_actions: Seq<Seq<char>>,
    pub court_hearings: Seq<u64>,
    pub last_updated: u64,
}

impl View for InmateRecord {
    type V = InmateRecordView;

    open spec fn view(&self) -> InmateRecordView {
        InmateRecordView {
            id: self.id,
            inmate_id: self.inmate_id,
            disciplinary_actions: views(self.disciplinary_actions@),
            court_hearings: self.court_hearings@,
            last_updated: self.last_updated,
        }
    }
}

// ---------------------------------------------------------------------------
// Payloads
// ---------------------------------------------------------------------------

/// What a caller supplies to create an inmate, or to update one.
#[derive(Clone, Debug, PartialEq, Eq, Default)]
pub struct CreateInmatePayload {
    pub name: String,
    pub age: u64,
    pub gender: String,
    pub sentence_details: String,
    pub emergency_contact: EmergencyContact,
}

pub struct CreateInmatePayloadView {
    pub name: Seq<char>,
    pub age: u64,
    pub gender: Seq<char>,
    pub sentence_details: Seq<char>,
    pub emergency_contact: EmergencyContactView,
}

impl View for CreateInmatePayload {
    type V = CreateInmatePayloadView;

    open spec fn view(&self) -> CreateInmatePayloadView {
        CreateInmatePayloadView {
            name: self.name@,
            age: self.age,
            gender: self.gender@,
            sentence_details: self.sentence_details@,
            emergency_contact: self.emergency_contact@,
        }
    }
}

/// What a caller supplies to create a prison.
#[derive(Clone, Debug, PartialEq, Eq, Default)]
pub struct CreatePrisonPayload {
    pub name: String,
    pub location: String,
    pub capacity: u64,
}

pub struct CreatePrisonPayloadView {
    pub name: Seq<char>,
    pub location: Seq<char>,
    pub capacity: u64,
}

impl View for CreatePrisonPayload {
    type V = CreatePrisonPayloadView;

    open spec fn view(&self) -> CreatePrisonPayloadView {
        CreatePrisonPayloadView {
            name: self.name@,
            location: self.location@,
            capacity: self.capacity,
        }
    }
}

/// What a caller supplies to record a disciplinary action.
#[derive(Clone, Debug, PartialEq, Eq, Default)]
pub struct CreateDisciplinaryActionPayload {
    pub inmate_id: u64,
    pub officer_id: u64,
    pub action: String,
}

pub struct CreateDisciplinaryActionPayloadView {
    pub inmate_id: u64,
    pub officer_id: u64,
    pub action: Seq<char>,
}

impl View for CreateDisciplinaryActionPayload {
    type V = CreateDisciplinaryActionPayloadView;

    open spec fn view(&self) -> CreateDisciplinaryActionPayloadView {
        CreateDisciplinaryActionPayloadView {
            inmate_id: self.inmate_id,
            officer_id: self.officer_id,
            action: self.action@,
        }
    }
}

// ---------------------------------------------------------------------------
// Messages
// ---------------------------------------------------------------------------

/// Why an operation did not return a record, with a detail for the caller.
/// `Success`, `PaymentFailed` and `PaymentCompleted` belong to the vocabulary
/// but no operation of this library produces them.
#[derive(Clone, Debug, PartialEq, Eq)]
pub enum Message {
    Success(String),
    Error(String),
    NotFound(String),
    InvalidPayload(String),
    PaymentFailed(String),
    PaymentCompleted(String),
}

pub enum MessageView {
    Success(Seq<char>),
    Error(Seq<char>),
    NotFound(Seq<char>),
    InvalidPayload(Seq<char>),
    PaymentFailed(Seq<char>),
    PaymentCompleted(Seq<char>),
}

impl View for Message {
    type V = MessageView;

    open spec fn view(&self) -> MessageView {
        match self {
            Message::Success(detail) => MessageView::Success(detail@),
            Message::Error(detail) => MessageView::Error(detail@),
            Message::NotFound(detail) => MessageView::NotFound(detail@),
            Message::InvalidPayload(detail) => MessageView::InvalidPayload(detail@),
            Message::PaymentFailed(detail) => MessageView::PaymentFailed(detail@),
            Message::PaymentCompleted(detail) => MessageView::PaymentCompleted(detail@),
        }
    }
}

/// The view of what an operation returned: the view of the record, or of the
/// message.
pub open spec fn outcome_view<T: View>(outcome: Result<T, Message>) -> Result<T::V, MessageView> {
    match outcome {
        Ok(record) => Ok(record@),
        Err(message) => Err(message@),
    }
}

} // verus!
