//! The registry itself: the durable tables, the identifier generator, and the
//! operations on them.

use crate::ids::IdGenerator;
use crate::model::{
    outcome_view, views, CommunicationLog, CourtHearing, CreateDisciplinaryActionPayload,
    CreateInmatePayload, CreatePrisonPayload, DisciplinaryAction, EmergencyContact, Inmate,
    InmateRecord, Message, MessageView, Prison, PrisonView,
};
use crate::stable::{byte_map_entries, id_cell_value, ByteMap, IdCell, Regions};
use crate::state::{
    grown_prison, inmate_payload_ok, new_action, new_inmate, new_prison, no_actions_found,
    prison_payload_ok, updated_inmate, RegistryView,
};
use crate::table::{adoptable, decoded, lists, Table};
use ic_stable_structures::cell::InitError;
use vstd::prelude::*;

verus! {

/// Whether `id` occurs in `ids`.
fn holds(ids: &Vec<u64>, id: u64) -> (found: bool)
    ensures
        found == ids@.contains(id),
{
    let mut i: usize = 0;
    while i < ids.len()
        invariant
            i <= ids@.len(),
            forall|j: int| 0 <= j < i ==> ids@[j] != id,
        decreases ids@.len() - i,
    {
        if ids[i] == id {
            return true;
        }
        i += 1;
    }
    false
}

fn copy_of_contact(contact: &EmergencyContact) -> (copy: EmergencyContact)
    ensures
        copy@ == contact@,
{
    EmergencyContact {
        name: contact.name.clone(),
        phone_number: contact.phone_number.clone(),
        relationship: contact.relationship.clone(),
    }
}

fn copy_of_inmate_payload(payload: &CreateInmatePayload) -> (copy: CreateInmatePayload)
    ensures
        copy@ == payload@,
{
    CreateInmatePayload {
        name: payload.name.clone(),
        age: payload.age,
        gender: payload.gender.clone(),
        sentence_details: payload.sentence_details.clone(),
        emergency_contact: copy_of_contact(&payload.emergency_contact),
    }
}

fn inmate_payload_valid(payload: &CreateInmatePayload) -> (valid: bool)
    ensures
        valid == inmate_payload_ok(payload@),
{
    !payload.name.as_str().is_empty() && !payload.sentence_details.as_str().is_empty()
}

fn prison_payload_valid(payload: &CreatePrisonPayload) -> (valid: bool)
    ensures
        valid == prison_payload_ok(payload@),
{
    !payload.name.as_str().is_empty() && !payload.location.as_str().is_empty()
}

fn build_inmate(id: u64, payload: CreateInmatePayload) -> (inmate: Inmate)
    ensures
        inmate@ == new_inmate(id, payload@),
{
    let inmate = Inmate {
        id,
        name: payload.name,
        age: payload.age,
        gender: payload.gender,
        sentence_details: payload.sentence_details,
        emergency_contact: payload.emergency_contact,
        disciplinary_actions: Vec::new(),
    };
    assert(inmate@.disciplinary_actions =~= Seq::empty());
    inmate
}

fn build_updated_inmate(inmate: Inmate, payload: CreateInmatePayload) -> (updated: Inmate)
    ensures
        updated@ == updated_inmate(inmate@, payload@),
{
    Inmate {
        id: inmate.id,
        name: payload.name,
        age: payload.age,
        gender: payload.gender,
        sentence_details: payload.sentence_details,
        emergency_contact: payload.emergency_contact,
        disciplinary_actions: inmate.disciplinary_actions,
    }
}

fn build_prison(id: u64, payload: CreatePrisonPayload) -> (prison: Prison)
    ensures
        prison@ == new_prison(id, payload@),
{
    Prison {
        id,
        name: payload.name,
        location: payload.location,
        capacity: payload.capacity,
        inmates: Vec::new(),
    }
}

fn build_action(id: u64, payload: CreateDisciplinaryActionPayload, now: u64) -> (action:
    DisciplinaryAction)
    ensures
        action@ == new_action(id, payload@, now),
{
    DisciplinaryAction {
        id,
        inmate_id: payload.inmate_id,
        officer_id: payload.officer_id,
        action: payload.action,
        timestamp: now,
    }
}

/// Why a registry could not be opened.
#[derive(Clone, Copy, Debug, PartialEq, Eq)]
pub enum OpenError {
    /// The counter of identifiers could not be created or read.
    Counter,
    /// A table holds a value that is not a sound record under its own key
    /// and within the counter.
    Table,
}

/// Whether the byte maps can serve as the tables of a registry whose
/// counter stands at `limit`.
pub open spec fn parts_fit(
    limit: u64,
    prisons: ByteMap,
    inmates: ByteMap,
    actions: ByteMap,
    logs: ByteMap,
    hearings: ByteMap,
    records: ByteMap,
) -> bool {
    &&& adoptable::<Prison>(prisons, limit)
    &&& adoptable::<Inmate>(inmates, limit)
    &&& adoptable::<DisciplinaryAction>(actions, limit)
    &&& adoptable::<CommunicationLog>(logs, limit)
    &&& adoptable::<CourtHearing>(hearings, limit)
    &&& adoptable::<InmateRecord>(records, limit)
}

/// The registry: six durable tables and the generator of their identifiers.
pub struct Registry {
    regions: Regions,
    ids: IdGenerator,
    prisons: Table<Prison>,
    inmates: Table<Inmate>,
    actions: Table<DisciplinaryAction>,
    logs: Table<CommunicationLog>,
    hearings: Table<CourtHearing>,
    records: Table<InmateRecord>,
}

impl View for Registry {
    type V = RegistryView;

    closed spec fn view(&self) -> RegistryView {
        RegistryView {
            last_id: self.ids.last(),
            prisons: self.prisons.entries(),
            inmates: self.inmates.entries(),
            actions: self.actions.entries(),
            logs: self.logs.entries(),
            hearings: self.hearings.entries(),
            records: self.records.entries(),
        }
    }
}

impl Registry {
    /// Whether every table holds only bytes that stand for records.
    pub closed spec fn intact(&self) -> bool {
        &&& self.prisons.wf()
        &&& self.inmates.wf()
        &&& self.actions.wf()
        &&& self.logs.wf()
        &&& self.hearings.wf()
        &&& self.records.wf()
    }

    /// The memory, divided into regions, that the registry lives in.
    pub closed spec fn memory(&self) -> Regions {
        self.regions
    }

    /// What every operation requires and keeps.
    pub open spec fn wf(&self) -> bool {
        self.intact() && self@.wf()
    }

    /// Opens the registry that stable memory holds, or starts an empty one
    /// there. It fails when the memory holds something else: a counter that
    /// cannot be read, or a table with a value that is not a sound record
    /// under its own key and within the counter.
    ///
    /// On a canister every call opens the same stable memory, and what is
    /// proved of a registry holds as long as it is the only one at work
    /// there: open it once.
    pub fn open() -> (registry: Result<Registry, OpenError>)
        ensures
            registry matches Ok(r) ==> r.wf(),
    {
        Registry::load(Regions::over_default_memory())
    }

    /// Gives up this registry and opens the one that its memory holds, as a
    /// restart of the canister would. The registry that comes back lives in
    /// the same memory; whether one comes back, and what it holds, is for the
    /// memory to say.
    pub fn reopen(self) -> (registry: Result<Registry, OpenError>)
        ensures
            registry matches Ok(r) ==> r.wf() && r.memory() == self.memory(),
    {
        Registry::load(self.into_regions())
    }

    /// Lets go of the structures and keeps the memory they lived in.
    fn into_regions(self) -> (regions: Regions)
        ensures
            regions == self.memory(),
    {
        self.regions
    }

    /// Opens the seven structures of a registry, each in its own region of
    /// `regions`, and puts the registry together.
    fn load(regions: Regions) -> (registry: Result<Registry, OpenError>)
        ensures
            registry matches Ok(r) ==> r.wf() && r.memory() == regions,
    {
        let counter = IdCell::open(regions.region(0));
        let prisons = ByteMap::open(regions.region(1));
        let inmates = ByteMap::open(regions.region(2));
        let actions = ByteMap::open(regions.region(3));
        let logs = ByteMap::open(regions.region(4));
        let hearings = ByteMap::open(regions.region(5));
        let records = ByteMap::open(regions.region(6));
        Registry::assemble(regions, counter, prisons, inmates, actions, logs, hearings, records)
    }

    /// Puts a registry together from its durable parts, after checking every
    /// value in them: each table must hold nothing but sound records, each
    /// under its own key, and no key may be greater than the counter.
    pub fn assemble(
        regions: Regions,
        counter: Result<IdCell, InitError>,
        prisons: ByteMap,
        inmates: ByteMap,
        actions: ByteMap,
        logs: ByteMap,
        hearings: ByteMap,
        records: ByteMap,
    ) -> (registry: Result<Registry, OpenError>)
        ensures
            match registry {
                Ok(r) => {
                    &&& counter is Ok
                    &&& parts_fit(
                        id_cell_value(counter->Ok_0),
                        prisons,
                        inmates,
                        actions,
                        logs,
                        hearings,
                        records,
                    )
                    &&& r.wf()
                    &&& r.memory() == regions
                    &&& r@ == (RegistryView {
                        last_id: id_cell_value(counter->Ok_0),
                        prisons: decoded::<Prison>(byte_map_entries(prisons)),
                        inmates: decoded::<Inmate>(byte_map_entries(inmates)),
                        actions: decoded::<DisciplinaryAction>(byte_map_entries(actions)),
                        logs: decoded::<CommunicationLog>(byte_map_entries(logs)),
                        hearings: decoded::<CourtHearing>(byte_map_entries(hearings)),
                        records: decoded::<InmateRecord>(byte_map_entries(records)),
                    })
                },
                Err(OpenError::Counter) => counter is Err,
                Err(OpenError::Table) => counter is Ok && !parts_fit(
                    id_cell_value(counter->Ok_0),
                    prisons,
                    inmates,
                    actions,
                    logs,
                    hearings,
                    records,
                ),
            },
    {
        let ids = match counter {
            Ok(cell) => IdGenerator::adopt(cell),
            Err(_) => { return Err(OpenError::Counter); },
        };
        let limit = ids.last_id();
        let prisons = Table::adopt(prisons, limit);
        let inmates = Table::adopt(inmates, limit);
        let actions = Table::adopt(actions, limit);
        let logs = Table::adopt(logs, limit);
        let hearings = Table::adopt(hearings, limit);
        let records = Table::adopt(records, limit);
        match (prisons, inmates, actions, logs, hearings, records) {
            (
                Some(prisons),
                Some(inmates),
                Some(actions),
                Some(logs),
                Some(hearings),
                Some(records),
            ) => Ok(Registry { regions, ids, prisons, inmates, actions, logs, hearings, records }),
            _ => Err(OpenError::Table),
        }
    }

    /// The identifier handed out last; 0 before the first.
    pub fn last_id(&self) -> (id: u64)
        ensures
            id == self@.last_id,
    {
        self.ids.last_id()
    }

    /// The inmate with the identifier `id`.
    pub fn get_inmate(&self, id: u64) -> (outcome: Result<Inmate, Message>)
        requires
            self.wf(),
        ensures
            outcome_view(outcome) == self@.get_inmate(id),
    {
        match self.inmates.get(id) {
            Some(inmate) => Ok(inmate),
            None => Err(Message::NotFound("Inmate not found".to_owned())),
        }
    }

    /// The prison with the identifier `prison_id`, with its inmates.
    pub fn get_prison_details(&self, prison_id: u64) -> (outcome: Result<Prison, Message>)
        requires
            self.wf(),
        ensures
            outcome_view(outcome) == self@.get_prison_details(prison_id),
    {
        match self.prisons.get(prison_id) {
            Some(prison) => Ok(prison),
            None => Err(Message::NotFound("Prison not found".to_owned())),
        }
    }

    /// The record of the inmate `inmate_id`: the court hearings held so far.
    pub fn get_inmate_record(&self, inmate_id: u64) -> (outcome: Result<InmateRecord, Message>)
        requires
            self.wf(),
        ensures
            outcome_view(outcome) == self@.get_inmate_record(inmate_id),
    {
        match self.records.get(inmate_id) {
            Some(record) => Ok(record),
            None => Err(Message::NotFound("Inmate record not found".to_owned())),
        }
    }

    /// Creates an inmate from `payload`, under a new identifier. A payload
    /// without a name or without sentence details is refused.
    pub fn create_inmate(&mut self, payload: CreateInmatePayload) -> (outcome: Result<
        Inmate,
        Message,
    >)
        requires
            old(self).wf(),
            old(self)@.admits_create_inmate(payload@),
        ensures
            final(self).wf(),
            (final(self)@, outcome_view(outcome)) == old(self)@.create_inmate(payload@),
    {
        if !inmate_payload_valid(&payload) {
            return Err(Message::InvalidPayload("Missing required fields".to_owned()));
        }
        let inmate = build_inmate(self.ids.next_id(), payload);
        self.inmates.insert(&inmate);
        Ok(inmate)
    }

    /// Whether the machine's limits let [`Registry::create_inmate`] run on
    /// `payload`.
    pub fn can_create_inmate(&self, payload: &CreateInmatePayload) -> (admitted: bool)
        requires
            self.wf(),
        ensures
            admitted == self@.admits_create_inmate(payload@),
    {
        if !inmate_payload_valid(payload) {
            return true;
        }
        if !self.ids.has_next() {
            return false;
        }
        let inmate = build_inmate(self.ids.last_id() + 1, copy_of_inmate_payload(payload));
        Table::<Inmate>::fits(&inmate)
    }

    /// Creates a prison from `payload`, under a new identifier and with no
    /// inmate. A payload without a name or without a location is refused.
    pub fn create_prison(&mut self, payload: CreatePrisonPayload) -> (outcome: Result<
        Prison,
        Message,
    >)
        requires
            old(self).wf(),
            old(self)@.admits_create_prison(payload@),
        ensures
            final(self).wf(),
            (final(self)@, outcome_view(outcome)) == old(self)@.create_prison(payload@),
    {
        if !prison_payload_valid(&payload) {
            return Err(Message::InvalidPayload("Missing required fields".to_owned()));
        }
        let prison = build_prison(self.ids.next_id(), payload);
        self.prisons.insert(&prison);
        Ok(prison)
    }

    /// Whether the machine's limits let [`Registry::create_prison`] run on
    /// `payload`.
    pub fn can_create_prison(&self, payload: &CreatePrisonPayload) -> (admitted: bool)
        requires
            self.wf(),
        ensures
            admitted == self@.admits_create_prison(payload@),
    {
        if !prison_payload_valid(payload) {
            return true;
        }
        if !self.ids.has_next() {
            return false;
        }
        let copy = CreatePrisonPayload {
            name: payload.name.clone(),
            location: payload.location.clone(),
            capacity: payload.capacity,
        };
        let prison = build_prison(self.ids.last_id() + 1, copy);
        Table::<Prison>::fits(&prison)
    }

    /// Records a disciplinary action taken at `now`, under a new identifier.
    /// The inmate and the officer it names are not looked up.
    pub fn create_disciplinary_action(
        &mut self,
        payload: CreateDisciplinaryActionPayload,
        now: u64,
    ) -> (outcome: Result<DisciplinaryAction, Message>)
        requires
            old(self).wf(),
            old(self)@.admits_create_disciplinary_action(payload@, now),
        ensures
            final(self).wf(),
            (final(self)@, outcome_view(outcome)) == old(self)@.create_disciplinary_action(
                payload@,
                now,
            ),
    {
        let action = build_action(self.ids.next_id(), payload, now);
        self.actions.insert(&action);
        Ok(action)
    }

    /// Whether the machine's limits let
    /// [`Registry::create_disciplinary_action`] run on `payload`.
    pub fn can_create_disciplinary_action(
        &self,
        payload: &CreateDisciplinaryActionPayload,
        now: u64,
    ) -> (admitted: bool)
        requires
            self.wf(),
        ensures
            admitted == self@.admits_create_disciplinary_action(payload@, now),
    {
        if !self.ids.has_next() {
            return false;
        }
        let copy = CreateDisciplinaryActionPayload {
            inmate_id: payload.inmate_id,
            officer_id: payload.officer_id,
            action: payload.action.clone(),
        };
        let action = build_action(self.ids.last_id() + 1, copy, now);
        Table::<DisciplinaryAction>::fits(&action)
    }

    /// Replaces what a payload carries in the inmate `id`; the identifier and
    /// the inline disciplinary log stay.
    pub fn update_inmate(&mut self, id: u64, payload: CreateInmatePayload) -> (outcome: Result<
        Inmate,
        Message,
    >)
        requires
            old(self).wf(),
            old(self)@.admits_update_inmate(id, payload@),
        ensures
            final(self).wf(),
            (final(self)@, outcome_view(outcome)) == old(self)@.update_inmate(id, payload@),
    {
        if !inmate_payload_valid(&payload) {
            return Err(Message::InvalidPayload("Missing required fields".to_owned()));
        }
        match self.inmates.get(id) {
            Some(inmate) => {
                let updated = build_updated_inmate(inmate, payload);
                self.inmates.insert(&updated);
                Ok(updated)
            },
            None => Err(Message::NotFound("Inmate not found".to_owned())),
        }
    }

    /// Whether the machine's limits let [`Registry::update_inmate`] run on
    /// `id` and `payload`.
    pub fn can_update_inmate(&self, id: u64, payload: &CreateInmatePayload) -> (admitted: bool)
        requires
            self.wf(),
        ensures
            admitted == self@.admits_update_inmate(id, payload@),
    {
        if !inmate_payload_valid(payload) {
            return true;
        }
        match self.inmates.get(id) {
            Some(inmate) => {
                let updated = build_updated_inmate(inmate, copy_of_inmate_payload(payload));
                Table::<Inmate>::fits(&updated)
            },
            None => true,
        }
    }

    /// The record of the inmate `inmate_id` once the hearing `hearing_id` is
    /// added to it at `now`.
    fn record_with(&self, inmate_id: u64, hearing_id: u64, now: u64) -> (record: InmateRecord)
        requires
            self.wf(),
        ensures
            record@ == self@.record_with(inmate_id, hearing_id, now),
    {
        match self.records.get(inmate_id) {
            Some(record) => {
                let mut record = record;
                record.court_hearings.push(hearing_id);
                record.last_updated = now;
                record
            },
            None => {
                let mut court_hearings: Vec<u64> = Vec::new();
                court_hearings.push(hearing_id);
                let record = InmateRecord {
                    id: inmate_id,
                    inmate_id,
                    disciplinary_actions: Vec::new(),
                    court_hearings,
                    last_updated: now,
                };
                assert(record@.disciplinary_actions =~= Seq::empty());
                record
            },
        }
    }

    /// Records a court hearing of the inmate `inmate_id`, under a new
    /// identifier, and adds it to the inmate's record, which is brought up to
    /// date at `now`; the first hearing starts the record.
    pub fn create_court_hearing(&mut self, inmate_id: u64, date: u64, outcome: String, now: u64)
        -> (result: Result<CourtHearing, Message>)
        requires
            old(self).wf(),
            old(self)@.admits_create_court_hearing(inmate_id, date, outcome@, now),
        ensures
            final(self).wf(),
            (final(self)@, outcome_view(result)) == old(self)@.create_court_hearing(
                inmate_id,
                date,
                outcome@,
                now,
            ),
    {
        if self.inmates.get(inmate_id).is_none() {
            return Err(Message::NotFound("Inmate not found".to_owned()));
        }
        let hearing = CourtHearing { id: self.ids.next_id(), inmate_id, date, outcome };
        let record = self.record_with(inmate_id, hearing.id, now);
        self.hearings.insert(&hearing);
        self.records.insert(&record);
        Ok(hearing)
    }

    /// Whether the machine's limits let [`Registry::create_court_hearing`]
    /// run on these arguments.
    pub fn can_create_court_hearing(&self, inmate_id: u64, date: u64, outcome: &str, now: u64)
        -> (admitted: bool)
        requires
            self.wf(),
        ensures
            admitted == self@.admits_create_court_hearing(inmate_id, date, outcome@, now),
    {
        if self.inmates.get(inmate_id).is_none() {
            return true;
        }
        if !self.ids.has_next() {
            return false;
        }
        let id = self.ids.last_id() + 1;
        let hearing = CourtHearing { id, inmate_id, date, outcome: outcome.to_owned() };
        let record = self.record_with(inmate_id, id, now);
        Table::<CourtHearing>::fits(&hearing) && Table::<InmateRecord>::fits(&record)
    }

    /// Records a message at `now`, under a new identifier. An empty message
    /// is refused; the inmate and the officer are not looked up.
    pub fn create_communication_log(
        &mut self,
        inmate_id: u64,
        officer_id: u64,
        message: String,
        now: u64,
    ) -> (outcome: Result<CommunicationLog, Message>)
        requires
            old(self).wf(),
            old(self)@.admits_create_communication_log(inmate_id, officer_id, message@, now),
        ensures
            final(self).wf(),
            (final(self)@, outcome_view(outcome)) == old(self)@.create_communication_log(
                inmate_id,
                officer_id,
                message@,
                now,
            ),
    {
        if message.as_str().is_empty() {
            return Err(Message::InvalidPayload("Message cannot be empty".to_owned()));
        }
        let log = CommunicationLog {
            id: self.ids.next_id(),
            inmate_id,
            officer_id,
            message,
            timestamp: now,
        };
        self.logs.insert(&log);
        Ok(log)
    }

    /// Whether the machine's limits let
    /// [`Registry::create_communication_log`] run on these arguments.
    pub fn can_create_communication_log(
        &self,
        inmate_id: u64,
        officer_id: u64,
        message: &str,
        now: u64,
    ) -> (admitted: bool)
        requires
            self.wf(),
        ensures
            admitted == self@.admits_create_communication_log(
                inmate_id,
                officer_id,
                message@,
                now,
            ),
    {
        if message.is_empty() {
            return true;
        }
        if !self.ids.has_next() {
            return false;
        }
        let log = CommunicationLog {
            id: self.ids.last_id() + 1,
            inmate_id,
            officer_id,
            message: message.to_owned(),
            timestamp: now,
        };
        Table::<CommunicationLog>::fits(&log)
    }

    /// What an assignment comes to, before anything is stored: the prison as
    /// it will be, and whether that differs from what is stored.
    fn plan_assignment(&self, inmate_id: u64, prison_id: u64) -> (plan: Result<
        (Prison, bool),
        Message,
    >)
        requires
            self.wf(),
        ensures
            match plan {
                Ok((prison, changed)) => {
                    &&& self@.assign_inmate_to_prison(inmate_id, prison_id).1 == Ok::<
                        _,
                        MessageView,
                    >(prison@)
                    &&& changed == (self@.assign_inmate_to_prison(inmate_id, prison_id).0
                        != self@)
                    &&& changed ==> prison@ == grown_prison(self@.prisons[prison_id], inmate_id)
                        && self@.prisons.contains_key(prison_id) && self@.inmates.contains_key(
                        inmate_id,
                    ) && !self@.prisons[prison_id].inmates.contains(inmate_id)
                        && self@.prisons[prison_id].inmates.len()
                        < self@.prisons[prison_id].capacity
                },
                Err(message) => self@.assign_inmate_to_prison(inmate_id, prison_id) == (
                    self@,
                    Err::<PrisonView, _>(message@),
                ),
            },
    {
        if self.inmates.get(inmate_id).is_none() {
            return Err(Message::NotFound("Inmate not found".to_owned()));
        }
        let mut prison = match self.prisons.get(prison_id) {
            Some(prison) => prison,
            None => { return Err(Message::NotFound("Prison not found".to_owned())); },
        };
        if holds(&prison.inmates, inmate_id) {
            return Ok((prison, false));
        }
        if prison.inmates.len() as u64 >= prison.capacity {
            return Err(Message::Error("Prison is at full capacity".to_owned()));
        }
        prison.inmates.push(inmate_id);
        Ok((prison, true))
    }

    /// Assigns the inmate `inmate_id` to the prison `prison_id`. An inmate
    /// already there stays where it is in the list; a full prison takes no
    /// further inmate.
    pub fn assign_inmate_to_prison(&mut self, inmate_id: u64, prison_id: u64) -> (outcome: Result<
        Prison,
        Message,
    >)
        requires
            old(self).wf(),
            old(self)@.admits_assign_inmate_to_prison(inmate_id, prison_id),
        ensures
            final(self).wf(),
            (final(self)@, outcome_view(outcome)) == old(self)@.assign_inmate_to_prison(
                inmate_id,
                prison_id,
            ),
    {
        let (prison, changed) = self.plan_assignment(inmate_id, prison_id)?;
        if changed {
            self.prisons.insert(&prison);
        }
        Ok(prison)
    }

    /// Whether the machine's limits let
    /// [`Registry::assign_inmate_to_prison`] run on these arguments.
    pub fn can_assign_inmate_to_prison(&self, inmate_id: u64, prison_id: u64) -> (admitted: bool)
        requires
            self.wf(),
        ensures
            admitted == self@.admits_assign_inmate_to_prison(inmate_id, prison_id),
    {
        match self.plan_assignment(inmate_id, prison_id) {
            Ok((prison, changed)) => !changed || Table::<Prison>::fits(&prison),
            Err(_) => true,
        }
    }

    /// The disciplinary actions taken against the inmate `inmate_id`, in
    /// ascending order of their identifiers. `NotFound` when there is none,
    /// whether or not the inmate exists.
    pub fn get_inmate_disciplinary_actions(&self, inmate_id: u64) -> (outcome: Result<
        Vec<DisciplinaryAction>,
        Message,
    >)
        requires
            self.wf(),
        ensures
            match outcome {
                Ok(found) => found@.len() > 0 && lists::<DisciplinaryAction>(
                    views(found@),
                    self@.actions_of(inmate_id),
                ),
                Err(message) => message@ == no_actions_found() && forall|key: u64|
                    !self@.actions_of(inmate_id).contains_key(key),
            },
    {
        let all = self.actions.scan();
        let ghost every = views(all@);
        let mut found: Vec<DisciplinaryAction> = Vec::new();
        let ghost mut picked: Seq<int> = Seq::empty();
        for action in it: all.into_iter()
            invariant
                every == views(all@),
                picked.len() == found@.len(),
                forall|k: int|
                    0 <= k < picked.len() ==> 0 <= #[trigger] picked[k] < it.index()
                        && every[picked[k]] == found@[k]@ && every[picked[k]].inmate_id
                        == inmate_id,
                forall|k: int, l: int|
                    0 <= k < l < picked.len() ==> #[trigger] picked[k] < #[trigger] picked[l],
                forall|j: int|
                    0 <= j < it.index() && (#[trigger] every[j]).inmate_id == inmate_id
                        ==> exists|k: int| 0 <= k < picked.len() && #[trigger] picked[k] == j,
        {
            let ghost at = it.index() as int;
            if action.inmate_id == inmate_id {
                let ghost before = picked;
                proof {
                    picked = picked.push(at);
                }
                found.push(action);
                assert forall|j: int|
                    0 <= j < at + 1 && (#[trigger] every[j]).inmate_id == inmate_id implies exists|
                    k: int,
                | 0 <= k < picked.len() && #[trigger] picked[k] == j by {
                    if j < at {
                        let k = choose|k: int| 0 <= k < before.len() && #[trigger] before[k] == j;
                        assert(picked[k] == j);
                    } else {
                        assert(picked[picked.len() - 1] == j);
                    }
                }
            }
        }
        proof {
            let items = views(found@);
            let matching = self@.actions_of(inmate_id);
            assert forall|k: int| 0 <= k < items.len() implies matching.contains_key(
                (#[trigger] items[k]).id,
            ) && matching[items[k].id] == items[k] by {
                assert(every[picked[k]] == items[k]);
            }
            assert forall|k: int, l: int| 0 <= k < l < items.len() implies (#[trigger] items[k]).id
                < (#[trigger] items[l]).id by {
                assert(every[picked[k]] == items[k]);
                assert(every[picked[l]] == items[l]);
            }
            assert forall|key: u64| #[trigger] matching.contains_key(key) implies exists|k: int|
                0 <= k < items.len() && (#[trigger] items[k]).id == key by {
                let j = choose|j: int| 0 <= j < every.len() && (#[trigger] every[j]).id == key;
                let k = choose|k: int| 0 <= k < picked.len() && #[trigger] picked[k] == j;
                assert(items[k] == every[j]);
            }
        }
        if found.len() == 0 {
            Err(Message::NotFound("No disciplinary actions found".to_owned()))
        } else {
            Ok(found)
        }
    }
}

} // verus!
