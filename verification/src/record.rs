//! How each kind of record is keyed, what must hold of it to be stored, and
//! how it is laid out in bytes.

use crate::codec::{
    ids_bytes, lemma_ids_len, lemma_parse_ids, lemma_parse_text, lemma_parse_texts,
    lemma_parse_u64, lemma_text_len, parse_ids, parse_text, parse_texts,
    parse_u64, put_ids, put_text, put_texts, put_u64, take_ids, take_text, take_texts, take_u64,
    text_bytes, texts_bytes, u64_bytes,
};
use crate::model::{
    CommunicationLog, CommunicationLogView, CourtHearing, CourtHearingView, DisciplinaryAction,
    DisciplinaryActionView, EmergencyContact, EmergencyContactView, Inmate, InmateRecord,
    InmateRecordView, InmateView, Prison, PrisonView,
};
use crate::stable::MAX_RECORD_BYTES;
use vstd::prelude::*;

verus! {

/// A kind of record that a [`crate::table::Table`] can hold.
pub trait Record: View + Sized {
    /// The key under which a record is stored.
    spec fn key(record: Self::V) -> u64;

    /// What must hold of a record for it to be stored.
    spec fn sound(record: Self::V) -> bool;

    /// The bytes that stand for a record.
    spec fn encoding(record: Self::V) -> Seq<u8>;

    /// The record that bytes stand for, if they stand for one.
    spec fn decoding(bytes: Seq<u8>) -> Option<Self::V>;

    /// The bytes of a record that is small enough to store stand for that
    /// record and no other.
    proof fn lemma_decoding_of_encoding(record: Self::V)
        requires
            Self::encoding(record).len() <= MAX_RECORD_BYTES,
        ensures
            Self::decoding(Self::encoding(record)) == Some(record),
    ;

    fn key_of(&self) -> (key: u64)
        ensures
            key == Self::key(self@),
    ;

    fn is_sound(&self) -> (sound: bool)
        ensures
            sound == Self::sound(self@),
    ;

    fn encode(&self) -> (bytes: Vec<u8>)
        ensures
            bytes@ == Self::encoding(self@),
    ;

    fn decode(bytes: &[u8]) -> (record: Option<Self>)
        ensures
            match record {
                Some(record) => Self::decoding(bytes@) == Some(record@),
                None => Self::decoding(bytes@) is None,
            },
    ;
}

/// Whether a record is small enough to store.
pub open spec fn storable<E: Record>(record: E::V) -> bool {
    E::encoding(record).len() <= MAX_RECORD_BYTES
}

// ---------------------------------------------------------------------------
// Prison
// ---------------------------------------------------------------------------

impl Record for Prison {
    open spec fn key(record: PrisonView) -> u64 {
        record.id
    }

    /// A prison never holds more inmates than its capacity.
    open spec fn sound(record: PrisonView) -> bool {
        record.inmates.len() <= record.capacity
    }

    open spec fn encoding(record: PrisonView) -> Seq<u8> {
        u64_bytes(record.id) + (text_bytes(record.name) + (text_bytes(record.location) + (
        u64_bytes(record.capacity) + ids_bytes(record.inmates))))
    }

    open spec fn decoding(bytes: Seq<u8>) -> Option<PrisonView> {
        let id = parse_u64(bytes);
        let name = parse_text(id.unwrap().1);
        let location = parse_text(name.unwrap().1);
        let capacity = parse_u64(location.unwrap().1);
        let inmates = parse_ids(capacity.unwrap().1);
        if id is Some && name is Some && location is Some && capacity is Some && inmates is Some
            && inmates.unwrap().1.len() == 0 {
            Some(
                PrisonView {
                    id: id.unwrap().0,
                    name: name.unwrap().0,
                    location: location.unwrap().0,
                    capacity: capacity.unwrap().0,
                    inmates: inmates.unwrap().0,
                },
            )
        } else {
            None
        }
    }

    proof fn lemma_decoding_of_encoding(record: PrisonView) {
        let t4 = ids_bytes(record.inmates);
        let t3 = u64_bytes(record.capacity) + t4;
        let t2 = text_bytes(record.location) + t3;
        let t1 = text_bytes(record.name) + t2;
        lemma_text_len(record.name);
        lemma_text_len(record.location);
        lemma_ids_len(record.inmates);
        lemma_parse_u64(record.id, t1);
        lemma_parse_text(record.name, t2);
        lemma_parse_text(record.location, t3);
        lemma_parse_u64(record.capacity, t4);
        lemma_parse_ids(record.inmates, Seq::empty());
    }

    fn key_of(&self) -> (key: u64) {
        self.id
    }

    fn is_sound(&self) -> (sound: bool) {
        self.inmates.len() as u64 <= self.capacity
    }

    fn encode(&self) -> (bytes: Vec<u8>) {
        let mut out: Vec<u8> = Vec::new();
        put_u64(&mut out, self.id);
        put_text(&mut out, self.name.as_str());
        put_text(&mut out, self.location.as_str());
        put_u64(&mut out, self.capacity);
        put_ids(&mut out, &self.inmates);
        out
    }

    fn decode(bytes: &[u8]) -> (record: Option<Prison>) {
        assert(bytes@.skip(0) =~= bytes@);
        let (id, at) = take_u64(bytes, 0)?;
        let (name, at) = take_text(bytes, at)?;
        let (location, at) = take_text(bytes, at)?;
        let (capacity, at) = take_u64(bytes, at)?;
        let (inmates, at) = take_ids(bytes, at)?;
        if at != bytes.len() {
            return None;
        }
        Some(Prison { id, name, location, capacity, inmates })
    }
}

// ---------------------------------------------------------------------------
// Inmate
// ---------------------------------------------------------------------------

impl Record for Inmate {
    open spec fn key(record: InmateView) -> u64 {
        record.id
    }

    open spec fn sound(record: InmateView) -> bool {
        true
    }

    open spec fn encoding(record: InmateView) -> Seq<u8> {
        u64_bytes(record.id) + (text_bytes(record.name) + (u64_bytes(record.age) + (text_bytes(
            record.gender,
        ) + (text_bytes(record.sentence_details) + (text_bytes(record.emergency_contact.name) + (
        text_bytes(record.emergency_contact.phone_number) + (text_bytes(
            record.emergency_contact.relationship,
        ) + texts_bytes(record.disciplinary_actions))))))))
    }

    open spec fn decoding(bytes: Seq<u8>) -> Option<InmateView> {
        let id = parse_u64(bytes);
        let name = parse_text(id.unwrap().1);
        let age = parse_u64(name.unwrap().1);
        let gender = parse_text(age.unwrap().1);
        let sentence_details = parse_text(gender.unwrap().1);
        let contact_name = parse_text(sentence_details.unwrap().1);
        let contact_phone = parse_text(contact_name.unwrap().1);
        let contact_relationship = parse_text(contact_phone.unwrap().1);
        let disciplinary_actions = parse_texts(contact_relationship.unwrap().1);
        if id is Some && name is Some && age is Some && gender is Some && sentence_details is Some
            && contact_name is Some && contact_phone is Some && contact_relationship is Some
            && disciplinary_actions is Some && disciplinary_actions.unwrap().1.len() == 0 {
            Some(
                InmateView {
                    id: id.unwrap().0,
                    name: name.unwrap().0,
                    age: age.unwrap().0,
                    gender: gender.unwrap().0,
                    sentence_details: sentence_details.unwrap().0,
                    emergency_contact: EmergencyContactView {
                        name: contact_name.unwrap().0,
                        phone_number: contact_phone.unwrap().0,
                        relationship: contact_relationship.unwrap().0,
                    },
                    disciplinary_actions: disciplinary_actions.unwrap().0,
                },
            )
        } else {
            None
        }
    }

    proof fn lemma_decoding_of_encoding(record: InmateView) {
        let contact = record.emergency_contact;
        let t8 = texts_bytes(record.disciplinary_actions);
        let t7 = text_bytes(contact.relationship) + t8;
        let t6 = text_bytes(contact.phone_number) + t7;
        let t5 = text_bytes(contact.name) + t6;
        let t4 = text_bytes(record.sentence_details) + t5;
        let t3 = text_bytes(record.gender) + t4;
        let t2 = u64_bytes(record.age) + t3;
        let t1 = text_bytes(record.name) + t2;
        lemma_text_len(record.name);
        lemma_text_len(record.gender);
        lemma_text_len(record.sentence_details);
        lemma_text_len(contact.name);
        lemma_text_len(contact.phone_number);
        lemma_text_len(contact.relationship);
        lemma_parse_u64(record.id, t1);
        lemma_parse_text(record.name, t2);
        lemma_parse_u64(record.age, t3);
        lemma_parse_text(record.gender, t4);
        lemma_parse_text(record.sentence_details, t5);
        lemma_parse_text(contact.name, t6);
        lemma_parse_text(contact.phone_number, t7);
        lemma_parse_text(contact.relationship, t8);
        lemma_parse_texts(record.disciplinary_actions, Seq::empty());
    }

    fn key_of(&self) -> (key: u64) {
        self.id
    }

    fn is_sound(&self) -> (sound: bool) {
        true
    }

    fn encode(&self) -> (bytes: Vec<u8>) {
        let mut out: Vec<u8> = Vec::new();
        put_u64(&mut out, self.id);
        put_text(&mut out, self.name.as_str());
        put_u64(&mut out, self.age);
        put_text(&mut out, self.gender.as_str());
        put_text(&mut out, self.sentence_details.as_str());
        put_text(&mut out, self.emergency_contact.name.as_str());
        put_text(&mut out, self.emergency_contact.phone_number.as_str());
        put_text(&mut out, self.emergency_contact.relationship.as_str());
        put_texts(&mut out, &self.disciplinary_actions);
        out
    }

    fn decode(bytes: &[u8]) -> (record: Option<Inmate>) {
        assert(bytes@.skip(0) =~= bytes@);
        let (id, at) = take_u64(bytes, 0)?;
        let (name, at) = take_text(bytes, at)?;
        let (age, at) = take_u64(bytes, at)?;
        let (gender, at) = take_text(bytes, at)?;
        let (sentence_details, at) = take_text(bytes, at)?;
        let (contact_name, at) = take_text(bytes, at)?;
        let (phone_number, at) = take_text(bytes, at)?;
        let (relationship, at) = take_text(bytes, at)?;
        let (disciplinary_actions, at) = take_texts(bytes, at)?;
        if at != bytes.len() {
            return None;
        }
        let emergency_contact = EmergencyContact { name: contact_name, phone_number, relationship };
        Some(
            Inmate {
                id,
                name,
                age,
                gender,
                sentence_details,
                emergency_contact,
                disciplinary_actions,
            },
        )
    }
}

// ---------------------------------------------------------------------------
// Disciplinary action
// ---------------------------------------------------------------------------

impl Record for DisciplinaryAction {
    open spec fn key(record: DisciplinaryActionView) -> u64 {
        record.id
    }

    open spec fn sound(record: DisciplinaryActionView) -> bool {
        true
    }

    open spec fn encoding(record: DisciplinaryActionView) -> Seq<u8> {
        u64_bytes(record.id) + (u64_bytes(record.inmate_id) + (u64_bytes(record.officer_id) + (
        text_bytes(record.action) + u64_bytes(record.timestamp))))
    }

    open spec fn decoding(bytes: Seq<u8>) -> Option<DisciplinaryActionView> {
        let id = parse_u64(bytes);
        let inmate_id = parse_u64(id.unwrap().1);
        let officer_id = parse_u64(inmate_id.unwrap().1);
        let action = parse_text(officer_id.unwrap().1);
        let timestamp = parse_u64(action.unwrap().1);
        if id is Some && inmate_id is Some && officer_id is Some && action is Some && timestamp
            is Some && timestamp.unwrap().1.len() == 0 {
            Some(
                DisciplinaryActionView {
                    id: id.unwrap().0,
                    inmate_id: inmate_id.unwrap().0,
                    officer_id: officer_id.unwrap().0,
                    action: action.unwrap().0,
                    timestamp: timestamp.unwrap().0,
                },
            )
        } else {
            None
        }
    }

    proof fn lemma_decoding_of_encoding(record: DisciplinaryActionView) {
        let t4 = u64_bytes(record.timestamp);
        let t3 = text_bytes(record.action) + t4;
        let t2 = u64_bytes(record.officer_id) + t3;
        let t1 = u64_bytes(record.inmate_id) + t2;
        lemma_text_len(record.action);
        lemma_parse_u64(record.id, t1);
        lemma_parse_u64(record.inmate_id, t2);
        lemma_parse_u64(record.officer_id, t3);
        lemma_parse_text(record.action, t4);
        lemma_parse_u64(record.timestamp, Seq::empty());
    }

    fn key_of(&self) -> (key: u64) {
        self.id
    }

    fn is_sound(&self) -> (sound: bool) {
        true
    }

    fn encode(&self) -> (bytes: Vec<u8>) {
        let mut out: Vec<u8> = Vec::new();
        put_u64(&mut out, self.id);
        put_u64(&mut out, self.inmate_id);
        put_u64(&mut out, self.officer_id);
        put_text(&mut out, self.action.as_str());
        put_u64(&mut out, self.timestamp);
        out
    }

    fn decode(bytes: &[u8]) -> (record: Option<DisciplinaryAction>) {
        assert(bytes@.skip(0) =~= bytes@);
        let (id, at) = take_u64(bytes, 0)?;
        let (inmate_id, at) = take_u64(bytes, at)?;
        let (officer_id, at) = take_u64(bytes, at)?;
        let (action, at) = take_text(bytes, at)?;
        let (timestamp, at) = take_u64(bytes, at)?;
        if at != bytes.len() {
            return None;
        }
        Some(DisciplinaryAction { id, inmate_id, officer_id, action, timestamp })
    }
}

// ---------------------------------------------------------------------------
// Communication log
// ---------------------------------------------------------------------------

impl Record for CommunicationLog {
    open spec fn key(record: CommunicationLogView) -> u64 {
        record.id
    }

    open spec fn sound(record: CommunicationLogView) -> bool {
        true
    }

    open spec fn encoding(record: CommunicationLogView) -> Seq<u8> {
        u64_bytes(record.id) + (u64_bytes(record.inmate_id) + (u64_bytes(record.officer_id) + (
        text_bytes(record.message) + u64_bytes(record.timestamp))))
    }

    open spec fn decoding(bytes: Seq<u8>) -> Option<CommunicationLogView> {
        let id = parse_u64(bytes);
        let inmate_id = parse_u64(id.unwrap().1);
        let officer_id = parse_u64(inmate_id.unwrap().1);
        let message = parse_text(officer_id.unwrap().1);
        let timestamp = parse_u64(message.unwrap().1);
        if id is Some && inmate_id is Some && officer_id is Some && message is Some && timestamp
            is Some && timestamp.unwrap().1.len() == 0 {
            Some(
                CommunicationLogView {
                    id: id.unwrap().0,
                    inmate_id: inmate_id.unwrap().0,
                    officer_id: officer_id.unwrap().0,
                    message: message.unwrap().0,
                    timestamp: timestamp.unwrap().0,
                },
            )
        } else {
            None
        }
    }

    proof fn lemma_decoding_of_encoding(record: CommunicationLogView) {
        let t4 = u64_bytes(record.timestamp);
        let t3 = text_bytes(record.message) + t4;
        let t2 = u64_bytes(record.officer_id) + t3;
        let t1 = u64_bytes(record.inmate_id) + t2;
        lemma_text_len(record.message);
        lemma_parse_u64(record.id, t1);
        lemma_parse_u64(record.inmate_id, t2);
        lemma_parse_u64(record.officer_id, t3);
        lemma_parse_text(record.message, t4);
        lemma_parse_u64(record.timestamp, Seq::empty());
    }

    fn key_of(&self) -> (key: u64) {
        self.id
    }

    fn is_sound(&self) -> (sound: bool) {
        true
    }

    fn encode(&self) -> (bytes: Vec<u8>) {
        let mut out: Vec<u8> = Vec::new();
        put_u64(&mut out, self.id);
        put_u64(&mut out, self.inmate_id);
        put_u64(&mut out, self.officer_id);
        put_text(&mut out, self.message.as_str());
        put_u64(&mut out, self.timestamp);
        out
    }

    fn decode(bytes: &[u8]) -> (record: Option<CommunicationLog>) {
        assert(bytes@.skip(0) =~= bytes@);
        let (id, at) = take_u64(bytes, 0)?;
        let (inmate_id, at) = take_u64(bytes, at)?;
        let (officer_id, at) = take_u64(bytes, at)?;
        let (message, at) = take_text(bytes, at)?;
        let (timestamp, at) = take_u64(bytes, at)?;
        if at != bytes.len() {
            return None;
        }
        Some(CommunicationLog { id, inmate_id, officer_id, message, timestamp })
    }
}

// ---------------------------------------------------------------------------
// Court hearing
// ---------------------------------------------------------------------------

impl Record for CourtHearing {
    open spec fn key(record: CourtHearingView) -> u64 {
        record.id
    }

    open spec fn sound(record: CourtHearingView) -> bool {
        true
    }

    open spec fn encoding(record: CourtHearingView) -> Seq<u8> {
        u64_bytes(record.id) + (u64_bytes(record.inmate_id) + (u64_bytes(record.date)
            + text_bytes(record.outcome)))
    }

    open spec fn decoding(bytes: Seq<u8>) -> Option<CourtHearingView> {
        let id = parse_u64(bytes);
        let inmate_id = parse_u64(id.unwrap().1);
        let date = parse_u64(inmate_id.unwrap().1);
        let outcome = parse_text(date.unwrap().1);
        if id is Some && inmate_id is Some && date is Some && outcome is Some
            && outcome.unwrap().1.len() == 0 {
            Some(
                CourtHearingView {
                    id: id.unwrap().0,
                    inmate_id: inmate_id.unwrap().0,
                    date: date.unwrap().0,
                    outcome: outcome.unwrap().0,
                },
            )
        } else {
            None
        }
    }

    proof fn lemma_decoding_of_encoding(record: CourtHearingView) {
        let t3 = text_bytes(record.outcome);
        let t2 = u64_bytes(record.date) + t3;
        let t1 = u64_bytes(record.inmate_id) + t2;
        lemma_text_len(record.outcome);
        lemma_parse_u64(record.id, t1);
        lemma_parse_u64(record.inmate_id, t2);
        lemma_parse_u64(record.date, t3);
        lemma_parse_text(record.outcome, Seq::empty());
    }

    fn key_of(&self) -> (key: u64) {
        self.id
    }

    fn is_sound(&self) -> (sound: bool) {
        true
    }

    fn encode(&self) -> (bytes: Vec<u8>) {
        let mut out: Vec<u8> = Vec::new();
        put_u64(&mut out, self.id);
        put_u64(&mut out, self.inmate_id);
        put_u64(&mut out, self.date);
        put_text(&mut out, self.outcome.as_str());
        out
    }

    fn decode(bytes: &[u8]) -> (record: Option<CourtHearing>) {
        assert(bytes@.skip(0) =~= bytes@);
        let (id, at) = take_u64(bytes, 0)?;
        let (inmate_id, at) = take_u64(bytes, at)?;
        let (date, at) = take_u64(bytes, at)?;
        let (outcome, at) = take_text(bytes, at)?;
        if at != bytes.len() {
            return None;
        }
        Some(CourtHearing { id, inmate_id, date, outcome })
    }
}

// ---------------------------------------------------------------------------
// Inmate record
// ---------------------------------------------------------------------------

impl Record for InmateRecord {
    /// A record is stored under the identifier of its inmate.
    open spec fn key(record: InmateRecordView) -> u64 {
        record.inmate_id
    }

    /// A record's own identifier repeats that of its inmate.
    open spec fn sound(record: InmateRecordView) -> bool {
        record.id == record.inmate_id
    }

    open spec fn encoding(record: InmateRecordView) -> Seq<u8> {
        u64_bytes(record.id) + (u64_bytes(record.inmate_id) + (texts_bytes(
            record.disciplinary_actions,
        ) + (ids_bytes(record.court_hearings) + u64_bytes(record.last_updated))))
    }

    open spec fn decoding(bytes: Seq<u8>) -> Option<InmateRecordView> {
        let id = parse_u64(bytes);
        let inmate_id = parse_u64(id.unwrap().1);
        let disciplinary_actions = parse_texts(inmate_id.unwrap().1);
        let court_hearings = parse_ids(disciplinary_actions.unwrap().1);
        let last_updated = parse_u64(court_hearings.unwrap().1);
        if id is Some && inmate_id is Some && disciplinary_actions is Some && court_hearings
            is Some && last_updated is Some && last_updated.unwrap().1.len() == 0 {
            Some(
                InmateRecordView {
                    id: id.unwrap().0,
                    inmate_id: inmate_id.unwrap().0,
                    disciplinary_actions: disciplinary_actions.unwrap().0,
                    court_hearings: court_hearings.unwrap().0,
                    last_updated: last_updated.unwrap().0,
                },
            )
        } else {
            None
        }
    }

    proof fn lemma_decoding_of_encoding(record: InmateRecordView) {
        let t4 = u64_bytes(record.last_updated);
        let t3 = ids_bytes(record.court_hearings) + t4;
        let t2 = texts_bytes(record.disciplinary_actions) + t3;
        let t1 = u64_bytes(record.inmate_id) + t2;
        lemma_ids_len(record.court_hearings);
        lemma_parse_u64(record.id, t1);
        lemma_parse_u64(record.inmate_id, t2);
        lemma_parse_texts(record.disciplinary_actions, t3);
        lemma_parse_ids(record.court_hearings, t4);
        lemma_parse_u64(record.last_updated, Seq::empty());
    }

    fn key_of(&self) -> (key: u64) {
        self.inmate_id
    }

    fn is_sound(&self) -> (sound: bool) {
        self.id == self.inmate_id
    }

    fn encode(&self) -> (bytes: Vec<u8>) {
        let mut out: Vec<u8> = Vec::new();
        put_u64(&mut out, self.id);
        put_u64(&mut out, self.inmate_id);
        put_texts(&mut out, &self.disciplinary_actions);
        put_ids(&mut out, &self.court_hearings);
        put_u64(&mut out, self.last_updated);
        out
    }

    fn decode(bytes: &[u8]) -> (record: Option<InmateRecord>) {
        assert(bytes@.skip(0) =~= bytes@);
        let (id, at) = take_u64(bytes, 0)?;
        let (inmate_id, at) = take_u64(bytes, at)?;
        let (disciplinary_actions, at) = take_texts(bytes, at)?;
        let (court_hearings, at) = take_ids(bytes, at)?;
        let (last_updated, at) = take_u64(bytes, at)?;
        if at != bytes.len() {
            return None;
        }
        Some(InmateRecord { id, inmate_id, disciplinary_actions, court_hearings, last_updated })
    }
}

} // verus!
