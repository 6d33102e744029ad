//! What holds of the registry whatever is asked of it, proved of the
//! functions in [`crate::state`] that the executable operations are proved to
//! compute.

use crate::model::{
    CreateDisciplinaryActionPayloadView, CreateInmatePayloadView, CreatePrisonPayloadView,
    InmateView, MessageView, PrisonView,
};
use crate::record::Record;
use crate::state::{inmate_payload_ok, missing_fields, prison_full, RegistryView};
use crate::table::lists;
use vstd::prelude::*;

verus! {

// ---------------------------------------------------------------------------
// Histories: the calls that change the registry, one after the other
// ---------------------------------------------------------------------------

/// A call of one of the operations that change the registry.
#[allow(inconsistent_fields)]
pub enum Call {
    CreateInmate { payload: CreateInmatePayloadView },
    CreatePrison { payload: CreatePrisonPayloadView },
    CreateDisciplinaryAction { payload: CreateDisciplinaryActionPayloadView, now: u64 },
    UpdateInmate { id: u64, payload: CreateInmatePayloadView },
    CreateCourtHearing { inmate_id: u64, date: u64, outcome: Seq<char>, now: u64 },
    CreateCommunicationLog { inmate_id: u64, officer_id: u64, message: Seq<char>, now: u64 },
    AssignInmateToPrison { inmate_id: u64, prison_id: u64 },
}

/// Whether the machine's limits let `call` run in `state`.
pub open spec fn admits(state: RegistryView, call: Call) -> bool {
    match call {
        Call::CreateInmate { payload } => state.admits_create_inmate(payload),
        Call::CreatePrison { payload } => state.admits_create_prison(payload),
        Call::CreateDisciplinaryAction { payload, now } => state.admits_create_disciplinary_action(
            payload,
            now,
        ),
        Call::UpdateInmate { id, payload } => state.admits_update_inmate(id, payload),
        Call::CreateCourtHearing {
            inmate_id,
            date,
            outcome,
            now,
        } => state.admits_create_court_hearing(inmate_id, date, outcome, now),
        Call::CreateCommunicationLog {
            inmate_id,
            officer_id,
            message,
            now,
        } => state.admits_create_communication_log(inmate_id, officer_id, message, now),
        Call::AssignInmateToPrison { inmate_id, prison_id } => state.admits_assign_inmate_to_prison(
            inmate_id,
            prison_id,
        ),
    }
}

/// The state that `call` leaves behind when it runs in `state`.
pub open spec fn step(state: RegistryView, call: Call) -> RegistryView {
    match call {
        Call::CreateInmate { payload } => state.create_inmate(payload).0,
        Call::CreatePrison { payload } => state.create_prison(payload).0,
        Call::CreateDisciplinaryAction { payload, now } => state.create_disciplinary_action(
            payload,
            now,
        ).0,
        Call::UpdateInmate { id, payload } => state.update_inmate(id, payload).0,
        Call::CreateCourtHearing { inmate_id, date, outcome, now } => state.create_court_hearing(
            inmate_id,
            date,
            outcome,
            now,
        ).0,
        Call::CreateCommunicationLog {
            inmate_id,
            officer_id,
            message,
            now,
        } => state.create_communication_log(inmate_id, officer_id, message, now).0,
        Call::AssignInmateToPrison { inmate_id, prison_id } => state.assign_inmate_to_prison(
            inmate_id,
            prison_id,
        ).0,
    }
}

/// The identifier of the record that `call` creates when it runs in `state`,
/// if it creates one.
pub open spec fn issued(state: RegistryView, call: Call) -> Option<u64> {
    match call {
        Call::CreateInmate { payload } => match state.create_inmate(payload).1 {
            Ok(inmate) => Some(inmate.id),
            Err(_) => None,
        },
        Call::CreatePrison { payload } => match state.create_prison(payload).1 {
            Ok(prison) => Some(prison.id),
            Err(_) => None,
        },
        Call::CreateDisciplinaryAction { payload, now } => match state.create_disciplinary_action(
            payload,
            now,
        ).1 {
            Ok(action) => Some(action.id),
            Err(_) => None,
        },
        Call::CreateCourtHearing { inmate_id, date, outcome, now } => match state.create_court_hearing(
            inmate_id,
            date,
            outcome,
            now,
        ).1 {
            Ok(hearing) => Some(hearing.id),
            Err(_) => None,
        },
        Call::CreateCommunicationLog {
            inmate_id,
            officer_id,
            message,
            now,
        } => match state.create_communication_log(inmate_id, officer_id, message, now).1 {
            Ok(log) => Some(log.id),
            Err(_) => None,
        },
        Call::UpdateInmate { .. } => None,
        Call::AssignInmateToPrison { .. } => None,
    }
}

/// The state after `calls` have run from `start`, in order.
pub open spec fn run(start: RegistryView, calls: Seq<Call>) -> RegistryView
    decreases calls.len(),
{
    if calls.len() == 0 {
        start
    } else {
        step(run(start, calls.drop_last()), calls.last())
    }
}

/// Whether the machine's limits let each of `calls` run in its turn.
pub open spec fn admitted(start: RegistryView, calls: Seq<Call>) -> bool
    decreases calls.len(),
{
    calls.len() == 0 || (admitted(start, calls.drop_last()) && admits(
        run(start, calls.drop_last()),
        calls.last(),
    ))
}

/// Whether `late` holds every record of `early`, each as it was.
pub open spec fn keeps<V>(early: Map<u64, V>, late: Map<u64, V>) -> bool {
    forall|key: u64| #[trigger]
        early.contains_key(key) ==> late.contains_key(key) && late[key] == early[key]
}

// ---------------------------------------------------------------------------
// One call
// ---------------------------------------------------------------------------

/// An inmate that was created is found under the identifier it was given,
/// exactly as it was returned.
pub proof fn law_created_inmate_is_found(state: RegistryView, payload: CreateInmatePayloadView)
    requires
        inmate_payload_ok(payload),
    ensures
        state.create_inmate(payload).1 is Ok,
        state.create_inmate(payload).0.get_inmate(state.create_inmate(payload).1->Ok_0.id)
            == state.create_inmate(payload).1,
{
}

/// A payload without a name or without sentence details is refused as
/// invalid, by creation and by update alike, and nothing changes.
pub proof fn law_invalid_inmate_payload_changes_nothing(
    state: RegistryView,
    id: u64,
    payload: CreateInmatePayloadView,
)
    requires
        payload.name.len() == 0 || payload.sentence_details.len() == 0,
    ensures
        state.create_inmate(payload) == (state, Err::<InmateView, MessageView>(missing_fields())),
        state.update_inmate(id, payload) == (state, Err::<InmateView, MessageView>(missing_fields())),
{
}

/// A call that creates a record gives it the identifier after the last one,
/// and no call moves the last identifier back.
pub proof fn law_identifiers_advance(state: RegistryView, call: Call)
    requires
        admits(state, call),
    ensures
        state.last_id <= step(state, call).last_id,
        issued(state, call) matches Some(id) ==> id == state.last_id + 1 && step(
            state,
            call,
        ).last_id == id,
{
}

/// The identifier that a call gives to the record it creates was in use for
/// no record of any kind before the call.
pub proof fn law_issued_identifier_is_new(state: RegistryView, call: Call)
    requires
        state.wf(),
        admits(state, call),
    ensures
        issued(state, call) matches Some(id) ==> {
            &&& !state.prisons.contains_key(id)
            &&& !state.inmates.contains_key(id)
            &&& !state.actions.contains_key(id)
            &&& !state.logs.contains_key(id)
            &&& !state.hearings.contains_key(id)
            &&& !state.records.contains_key(id)
        },
{
}

/// Every call keeps the registry well formed.
pub proof fn law_step_keeps_wf(state: RegistryView, call: Call)
    requires
        state.wf(),
        admits(state, call),
    ensures
        step(state, call).wf(),
{
}

/// No call removes a record, and no call changes a disciplinary action, a
/// communication log or a court hearing once it is stored.
pub proof fn law_nothing_is_removed(state: RegistryView, call: Call)
    requires
        state.wf(),
        admits(state, call),
    ensures
        keeps(state.actions, step(state, call).actions),
        keeps(state.logs, step(state, call).logs),
        keeps(state.hearings, step(state, call).hearings),
        forall|key: u64| #[trigger]
            state.prisons.contains_key(key) ==> step(state, call).prisons.contains_key(key),
        forall|key: u64| #[trigger]
            state.inmates.contains_key(key) ==> step(state, call).inmates.contains_key(key),
        forall|key: u64| #[trigger]
            state.records.contains_key(key) ==> step(state, call).records.contains_key(key),
{
}

/// A prison changes only by taking one more inmate at the end of its list:
/// its name, its location and its capacity stay, and so does the order of
/// the inmates it holds.
pub proof fn law_prisons_only_grow(state: RegistryView, call: Call, prison_id: u64)
    requires
        state.wf(),
        admits(state, call),
        state.prisons.contains_key(prison_id),
    ensures
        step(state, call).prisons.contains_key(prison_id),
        ({
            let before = state.prisons[prison_id];
            let after = step(state, call).prisons[prison_id];
            &&& after.id == before.id
            &&& after.name == before.name
            &&& after.location == before.location
            &&& after.capacity == before.capacity
            &&& after.inmates == before.inmates || exists|inmate_id: u64|
                after.inmates == before.inmates.push(inmate_id)
        }),
{
}

/// A full prison refuses an inmate it does not hold, and nothing changes.
pub proof fn law_full_prison_refuses(state: RegistryView, inmate_id: u64, prison_id: u64)
    requires
        state.inmates.contains_key(inmate_id),
        state.prisons.contains_key(prison_id),
        !state.prisons[prison_id].inmates.contains(inmate_id),
        state.prisons[prison_id].inmates.len() >= state.prisons[prison_id].capacity,
    ensures
        state.assign_inmate_to_prison(inmate_id, prison_id) == (
            state,
            Err::<PrisonView, MessageView>(prison_full()),
        ),
{
}

/// Assigning an inmate to the prison that holds it already succeeds, returns
/// the prison as it is, and changes nothing. So a second assignment, right
/// after a first that succeeded, returns the same prison as the first and
/// leaves the state of the first.
pub proof fn law_assignment_is_idempotent(state: RegistryView, inmate_id: u64, prison_id: u64)
    requires
        state.wf(),
    ensures
        state.inmates.contains_key(inmate_id) && state.prisons.contains_key(prison_id)
            && state.prisons[prison_id].inmates.contains(inmate_id)
            ==> state.assign_inmate_to_prison(inmate_id, prison_id) == (
            state,
            Ok::<PrisonView, MessageView>(state.prisons[prison_id]),
        ),
        ({
            let (once, first) = state.assign_inmate_to_prison(inmate_id, prison_id);
            first is Ok ==> once.assign_inmate_to_prison(inmate_id, prison_id) == (once, first)
        }),
{
    let (once, first) = state.assign_inmate_to_prison(inmate_id, prison_id);
    if first is Ok {
        let prison = state.prisons[prison_id];
        if !prison.inmates.contains(inmate_id) {
            assert(prison.inmates.push(inmate_id)[prison.inmates.len() as int] == inmate_id);
        }
    }
}

/// Two hearings created one after the other for the same inmate end up at
/// the end of the inmate's record, in that order, after the hearings that
/// were there; the record is as up to date as the second hearing. For an
/// inmate without a record, the record holds exactly the two.
pub proof fn law_record_aggregation(
    state: RegistryView,
    inmate_id: u64,
    date1: u64,
    outcome1: Seq<char>,
    now1: u64,
    date2: u64,
    outcome2: Seq<char>,
    now2: u64,
)
    requires
        state.wf(),
        state.inmates.contains_key(inmate_id),
    ensures
        ({
            let (middle, first) = state.create_court_hearing(inmate_id, date1, outcome1, now1);
            let (last, second) = middle.create_court_hearing(inmate_id, date2, outcome2, now2);
            let earlier = if state.records.contains_key(inmate_id) {
                state.records[inmate_id].court_hearings
            } else {
                Seq::empty()
            };
            &&& first is Ok
            &&& second is Ok
            &&& last.get_inmate_record(inmate_id) is Ok
            &&& last.get_inmate_record(inmate_id)->Ok_0.court_hearings == earlier + seq![
                first->Ok_0.id,
                second->Ok_0.id,
            ]
            &&& last.get_inmate_record(inmate_id)->Ok_0.last_updated == now2
            &&& last.get_inmate_record(inmate_id)->Ok_0.inmate_id == inmate_id
        }),
{
    let (middle, first) = state.create_court_hearing(inmate_id, date1, outcome1, now1);
    let (last, second) = middle.create_court_hearing(inmate_id, date2, outcome2, now2);
    let earlier = if state.records.contains_key(inmate_id) {
        state.records[inmate_id].court_hearings
    } else {
        Seq::empty()
    };
    assert(last.records[inmate_id].court_hearings =~= earlier + seq![
        first->Ok_0.id,
        second->Ok_0.id,
    ]);
}

/// There is one way to list the entries of a table: whatever lists them in
/// ascending order of the keys is the same sequence.
pub proof fn law_listing_is_unique<E: Record>(a: Seq<E::V>, b: Seq<E::V>, entries: Map<u64, E::V>)
    requires
        lists::<E>(a, entries),
        lists::<E>(b, entries),
    ensures
        a == b,
    decreases a.len(),
{
    if a.len() == 0 {
        if b.len() > 0 {
            assert(entries.contains_key(E::key(b[0])));
        }
        assert(a =~= b);
    } else {
        // The last record of each scan has the largest key.
        let last = a.last();
        assert(entries.contains_key(E::key(last)));
        let at = choose|i: int| 0 <= i < b.len() && E::key(#[trigger] b[i]) == E::key(last);
        if at < b.len() - 1 {
            let beyond = b.last();
            assert(entries.contains_key(E::key(beyond)));
            let back = choose|i: int| 0 <= i < a.len() && E::key(#[trigger] a[i]) == E::key(beyond);
            // So the last record of `b` comes after it, yet `a` holds none
            // with a greater key.
            assert(E::key(a[back]) <= E::key(last));
            assert(false);
        }
        assert(b.last() == last);
        let rest = entries.remove(E::key(last));
        assert(lists::<E>(a.drop_last(), rest)) by {
            assert forall|key: u64| #[trigger] rest.contains_key(key) implies exists|i: int|
                0 <= i < a.drop_last().len() && E::key(#[trigger] a.drop_last()[i]) == key by {
                let i = choose|i: int| 0 <= i < a.len() && E::key(#[trigger] a[i]) == key;
                assert(a.drop_last()[i] == a[i]);
            }
        }
        assert(lists::<E>(b.drop_last(), rest)) by {
            assert forall|key: u64| #[trigger] rest.contains_key(key) implies exists|i: int|
                0 <= i < b.drop_last().len() && E::key(#[trigger] b.drop_last()[i]) == key by {
                let i = choose|i: int| 0 <= i < b.len() && E::key(#[trigger] b[i]) == key;
                assert(b.drop_last()[i] == b[i]);
            }
        }
        law_listing_is_unique::<E>(a.drop_last(), b.drop_last(), rest);
        assert(a =~= a.drop_last().push(last));
        assert(b =~= b.drop_last().push(last));
    }
}

// ---------------------------------------------------------------------------
// Any number of calls
// ---------------------------------------------------------------------------

/// The calls before the `count`-th of an admitted history are admitted too.
pub proof fn lemma_admitted_prefix(start: RegistryView, calls: Seq<Call>, count: int)
    requires
        admitted(start, calls),
        0 <= count <= calls.len(),
    ensures
        admitted(start, calls.take(count)),
        count < calls.len() ==> admits(run(start, calls.take(count)), calls[count]),
    decreases calls.len(),
{
    if count == calls.len() {
        assert(calls.take(count) =~= calls);
    } else {
        let front = calls.drop_last();
        assert(front.take(count) =~= calls.take(count));
        lemma_admitted_prefix(start, front, count);
    }
}

/// The last identifier never moves back in the course of a history.
pub proof fn lemma_last_id_never_moves_back(
    start: RegistryView,
    calls: Seq<Call>,
    early: int,
    late: int,
)
    requires
        admitted(start, calls),
        0 <= early <= late <= calls.len(),
    ensures
        run(start, calls.take(early)).last_id <= run(start, calls.take(late)).last_id,
    decreases late - early,
{
    if early < late {
        lemma_last_id_never_moves_back(start, calls, early, late - 1);
        lemma_admitted_prefix(start, calls, late - 1);
        let before = calls.take(late - 1);
        let through = calls.take(late);
        assert(through.drop_last() =~= before);
        law_identifiers_advance(run(start, before), calls[late - 1]);
    }
}

/// In any history, the identifiers of the records created are distinct and
/// increase in the order of the calls: a later call that creates a record
/// gives it a greater identifier than any earlier call gave.
pub proof fn law_identifiers_increase(start: RegistryView, calls: Seq<Call>, early: int, late: int)
    requires
        admitted(start, calls),
        0 <= early < late < calls.len(),
        issued(run(start, calls.take(early)), calls[early]) is Some,
        issued(run(start, calls.take(late)), calls[late]) is Some,
    ensures
        issued(run(start, calls.take(early)), calls[early])->Some_0 < issued(
            run(start, calls.take(late)),
            calls[late],
        )->Some_0,
{
    lemma_admitted_prefix(start, calls, early);
    lemma_admitted_prefix(start, calls, late);
    law_identifiers_advance(run(start, calls.take(early)), calls[early]);
    law_identifiers_advance(run(start, calls.take(late)), calls[late]);
    let through = calls.take(early + 1);
    assert(through.drop_last() =~= calls.take(early));
    lemma_last_id_never_moves_back(start, calls, early + 1, late);
}

/// Every history keeps the registry well formed.
pub proof fn law_run_keeps_wf(start: RegistryView, calls: Seq<Call>)
    requires
        start.wf(),
        admitted(start, calls),
    ensures
        run(start, calls).wf(),
    decreases calls.len(),
{
    if calls.len() > 0 {
        law_run_keeps_wf(start, calls.drop_last());
        law_step_keeps_wf(run(start, calls.drop_last()), calls.last());
    }
}

/// After any history, no prison holds more inmates than its capacity.
pub proof fn law_capacity_is_never_exceeded(start: RegistryView, calls: Seq<Call>, prison_id: u64)
    requires
        start.wf(),
        admitted(start, calls),
        run(start, calls).prisons.contains_key(prison_id),
    ensures
        run(start, calls).prisons[prison_id].inmates.len() <= run(
            start,
            calls,
        ).prisons[prison_id].capacity,
{
    law_run_keeps_wf(start, calls);
}

} // verus!
