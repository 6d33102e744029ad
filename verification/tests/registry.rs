use prison_registry::model::{
    CreateDisciplinaryActionPayload, CreateInmatePayload, CreatePrisonPayload, EmergencyContact,
    Inmate, InmateRecord, Message, Prison,
};
use prison_registry::registry::Registry;

fn fresh() -> Registry {
    Registry::open().expect("fresh memory holds an empty registry")
}

fn contact() -> EmergencyContact {
    EmergencyContact {
        name: "Ann".to_string(),
        phone_number: "555-0100".to_string(),
        relationship: "sister".to_string(),
    }
}

fn inmate_payload(name: &str, sentence: &str) -> CreateInmatePayload {
    CreateInmatePayload {
        name: name.to_string(),
        age: 41,
        gender: "M".to_string(),
        sentence_details: sentence.to_string(),
        emergency_contact: contact(),
    }
}

fn prison_payload(name: &str, location: &str, capacity: u64) -> CreatePrisonPayload {
    CreatePrisonPayload { name: name.to_string(), location: location.to_string(), capacity }
}

fn action_payload(inmate_id: u64, officer_id: u64, action: &str) -> CreateDisciplinaryActionPayload {
    CreateDisciplinaryActionPayload { inmate_id, officer_id, action: action.to_string() }
}

#[test]
fn a_fresh_registry_has_handed_out_no_identifier() {
    let registry = fresh();
    assert_eq!(registry.last_id(), 0);
}

#[test]
fn assignment_to_a_prison_of_capacity_one() {
    let mut registry = fresh();
    let prison = registry.create_prison(prison_payload("Alpha", "X", 1)).unwrap();
    assert_eq!(
        prison,
        Prison {
            id: 1,
            name: "Alpha".to_string(),
            location: "X".to_string(),
            capacity: 1,
            inmates: vec![],
        }
    );
    let bob = registry.create_inmate(inmate_payload("Bob", "5y")).unwrap();
    assert_eq!(bob.id, 2);
    let assigned = registry.assign_inmate_to_prison(2, 1).unwrap();
    assert_eq!(assigned.id, 1);
    assert_eq!(assigned.inmates, vec![2]);
    let second = registry.create_inmate(inmate_payload("Carl", "2y")).unwrap();
    assert_eq!(second.id, 3);
    assert_eq!(
        registry.assign_inmate_to_prison(3, 1),
        Err(Message::Error("Prison is at full capacity".to_string()))
    );
    assert_eq!(registry.get_prison_details(1).unwrap().inmates, vec![2]);
}

#[test]
fn get_inmate_on_an_empty_store_is_not_found() {
    let registry = fresh();
    assert_eq!(
        registry.get_inmate(999),
        Err(Message::NotFound("Inmate not found".to_string()))
    );
}

#[test]
fn one_disciplinary_action_is_listed_for_its_inmate_only() {
    let mut registry = fresh();
    let first = registry.create_inmate(inmate_payload("Bob", "5y")).unwrap();
    let other = registry.create_inmate(inmate_payload("Carl", "2y")).unwrap();
    let action =
        registry.create_disciplinary_action(action_payload(first.id, 77, "warning"), 1_000).unwrap();
    assert_eq!(action.id, 3);
    assert_eq!(action.inmate_id, first.id);
    assert_eq!(action.officer_id, 77);
    assert_eq!(action.action, "warning");
    assert_eq!(action.timestamp, 1_000);
    assert_eq!(registry.get_inmate_disciplinary_actions(first.id), Ok(vec![action]));
    assert_eq!(
        registry.get_inmate_disciplinary_actions(other.id),
        Err(Message::NotFound("No disciplinary actions found".to_string()))
    );
}

#[test]
fn disciplinary_actions_of_an_unknown_inmate_are_not_found() {
    let registry = fresh();
    assert_eq!(
        registry.get_inmate_disciplinary_actions(5),
        Err(Message::NotFound("No disciplinary actions found".to_string()))
    );
}

#[test]
fn disciplinary_actions_are_accepted_for_an_inmate_that_does_not_exist() {
    let mut registry = fresh();
    let action = registry.create_disciplinary_action(action_payload(40, 50, "fine"), 9).unwrap();
    assert_eq!(action.id, 1);
    assert_eq!(registry.get_inmate_disciplinary_actions(40), Ok(vec![action]));
}

#[test]
fn disciplinary_actions_come_in_ascending_order_of_identifier() {
    let mut registry = fresh();
    let a = registry.create_disciplinary_action(action_payload(7, 1, "first"), 10).unwrap();
    let b = registry.create_disciplinary_action(action_payload(8, 1, "other"), 11).unwrap();
    let c = registry.create_disciplinary_action(action_payload(7, 2, "second"), 12).unwrap();
    let d = registry.create_disciplinary_action(action_payload(7, 3, "third"), 13).unwrap();
    assert_eq!(registry.get_inmate_disciplinary_actions(7), Ok(vec![a, c, d]));
    assert_eq!(registry.get_inmate_disciplinary_actions(8), Ok(vec![b]));
}

#[test]
fn many_disciplinary_actions_are_all_listed() {
    let mut registry = fresh();
    let mut expected = Vec::new();
    for i in 0..200u64 {
        let inmate_id = i % 3;
        let action =
            registry.create_disciplinary_action(action_payload(inmate_id, i, "note"), i).unwrap();
        if inmate_id == 1 {
            expected.push(action);
        }
    }
    assert_eq!(expected.len(), 67);
    assert_eq!(registry.get_inmate_disciplinary_actions(1), Ok(expected));
}

#[test]
fn a_created_inmate_is_found_again() {
    let mut registry = fresh();
    let created = registry.create_inmate(inmate_payload("Zoë Müller", "3 years, theft")).unwrap();
    assert_eq!(
        created,
        Inmate {
            id: 1,
            name: "Zoë Müller".to_string(),
            age: 41,
            gender: "M".to_string(),
            sentence_details: "3 years, theft".to_string(),
            emergency_contact: contact(),
            disciplinary_actions: vec![],
        }
    );
    assert_eq!(registry.get_inmate(created.id), Ok(created));
}

#[test]
fn an_inmate_without_name_or_sentence_is_refused() {
    let mut registry = fresh();
    let refused = Err(Message::InvalidPayload("Missing required fields".to_string()));
    assert_eq!(registry.create_inmate(inmate_payload("", "5y")), refused);
    assert_eq!(registry.create_inmate(inmate_payload("Bob", "")), refused);
    assert_eq!(registry.create_inmate(inmate_payload("", "")), refused);
    assert_eq!(registry.last_id(), 0);
    assert_eq!(
        registry.get_inmate(1),
        Err(Message::NotFound("Inmate not found".to_string()))
    );
}

#[test]
fn an_update_without_name_or_sentence_changes_nothing() {
    let mut registry = fresh();
    let bob = registry.create_inmate(inmate_payload("Bob", "5y")).unwrap();
    let refused = Err(Message::InvalidPayload("Missing required fields".to_string()));
    assert_eq!(registry.update_inmate(bob.id, inmate_payload("", "6y")), refused);
    assert_eq!(registry.update_inmate(bob.id, inmate_payload("Rob", "")), refused);
    assert_eq!(registry.get_inmate(bob.id), Ok(bob));
}

#[test]
fn an_invalid_update_of_a_missing_inmate_reports_the_payload() {
    let mut registry = fresh();
    assert_eq!(
        registry.update_inmate(4, inmate_payload("", "6y")),
        Err(Message::InvalidPayload("Missing required fields".to_string()))
    );
}

#[test]
fn an_update_replaces_the_fields_and_keeps_the_identifier() {
    let mut registry = fresh();
    let bob = registry.create_inmate(inmate_payload("Bob", "5y")).unwrap();
    let payload = CreateInmatePayload {
        name: "Robert".to_string(),
        age: 42,
        gender: "X".to_string(),
        sentence_details: "4y".to_string(),
        emergency_contact: EmergencyContact {
            name: "Dan".to_string(),
            phone_number: "555-0199".to_string(),
            relationship: "father".to_string(),
        },
    };
    let updated = registry.update_inmate(bob.id, payload.clone()).unwrap();
    assert_eq!(
        updated,
        Inmate {
            id: bob.id,
            name: "Robert".to_string(),
            age: 42,
            gender: "X".to_string(),
            sentence_details: "4y".to_string(),
            emergency_contact: payload.emergency_contact,
            disciplinary_actions: vec![],
        }
    );
    assert_eq!(registry.get_inmate(bob.id), Ok(updated));
    assert_eq!(registry.last_id(), 1);
}

#[test]
fn an_update_of_a_missing_inmate_is_not_found() {
    let mut registry = fresh();
    assert_eq!(
        registry.update_inmate(12, inmate_payload("Bob", "5y")),
        Err(Message::NotFound("Inmate not found".to_string()))
    );
    assert_eq!(
        registry.get_inmate(12),
        Err(Message::NotFound("Inmate not found".to_string()))
    );
}

#[test]
fn a_prison_without_name_or_location_is_refused() {
    let mut registry = fresh();
    let refused = Err(Message::InvalidPayload("Missing required fields".to_string()));
    assert_eq!(registry.create_prison(prison_payload("", "X", 3)), refused);
    assert_eq!(registry.create_prison(prison_payload("Alpha", "", 3)), refused);
    assert_eq!(registry.last_id(), 0);
    assert_eq!(
        registry.get_prison_details(1),
        Err(Message::NotFound("Prison not found".to_string()))
    );
}

#[test]
fn identifiers_increase_across_kinds() {
    let mut registry = fresh();
    let mut ids = Vec::new();
    ids.push(registry.create_prison(prison_payload("Alpha", "X", 3)).unwrap().id);
    ids.push(registry.create_inmate(inmate_payload("Bob", "5y")).unwrap().id);
    ids.push(registry.create_disciplinary_action(action_payload(2, 9, "late"), 5).unwrap().id);
    ids.push(registry.create_communication_log(2, 9, "hello".to_string(), 6).unwrap().id);
    ids.push(registry.create_court_hearing(2, 20260101, "adjourned".to_string(), 7).unwrap().id);
    ids.push(registry.create_inmate(inmate_payload("Carl", "1y")).unwrap().id);
    ids.push(registry.create_prison(prison_payload("Beta", "Y", 0)).unwrap().id);
    assert_eq!(ids, vec![1, 2, 3, 4, 5, 6, 7]);
    assert_eq!(registry.last_id(), 7);
}

#[test]
fn refused_calls_use_no_identifier() {
    let mut registry = fresh();
    assert!(registry.create_inmate(inmate_payload("", "5y")).is_err());
    assert!(registry.create_communication_log(1, 1, String::new(), 3).is_err());
    assert!(registry.create_court_hearing(1, 2, "none".to_string(), 3).is_err());
    assert!(registry.assign_inmate_to_prison(1, 1).is_err());
    assert_eq!(registry.create_inmate(inmate_payload("Bob", "5y")).unwrap().id, 1);
}

#[test]
fn a_prison_never_holds_more_than_its_capacity() {
    let mut registry = fresh();
    let prison = registry.create_prison(prison_payload("Alpha", "X", 2)).unwrap();
    let mut inmates = Vec::new();
    for name in ["A", "B", "C", "D"] {
        inmates.push(registry.create_inmate(inmate_payload(name, "1y")).unwrap().id);
    }
    assert_eq!(registry.assign_inmate_to_prison(inmates[0], prison.id).unwrap().inmates, vec![2]);
    assert_eq!(
        registry.assign_inmate_to_prison(inmates[1], prison.id).unwrap().inmates,
        vec![2, 3]
    );
    for &late in &inmates[2..] {
        assert_eq!(
            registry.assign_inmate_to_prison(late, prison.id),
            Err(Message::Error("Prison is at full capacity".to_string()))
        );
        let stored = registry.get_prison_details(prison.id).unwrap();
        assert_eq!(stored.inmates, vec![2, 3]);
        assert!(stored.inmates.len() as u64 <= stored.capacity);
    }
}

#[test]
fn a_prison_of_capacity_zero_takes_no_inmate() {
    let mut registry = fresh();
    let prison = registry.create_prison(prison_payload("Closed", "Z", 0)).unwrap();
    let bob = registry.create_inmate(inmate_payload("Bob", "5y")).unwrap();
    assert_eq!(
        registry.assign_inmate_to_prison(bob.id, prison.id),
        Err(Message::Error("Prison is at full capacity".to_string()))
    );
    assert_eq!(registry.get_prison_details(prison.id), Ok(prison));
}

#[test]
fn assigning_twice_changes_nothing() {
    let mut registry = fresh();
    let prison = registry.create_prison(prison_payload("Alpha", "X", 2)).unwrap();
    let a = registry.create_inmate(inmate_payload("A", "1y")).unwrap();
    let b = registry.create_inmate(inmate_payload("B", "1y")).unwrap();
    registry.assign_inmate_to_prison(a.id, prison.id).unwrap();
    let full = registry.assign_inmate_to_prison(b.id, prison.id).unwrap();
    assert_eq!(full.inmates, vec![a.id, b.id]);
    // Even in a full prison, an inmate that is there already is accepted.
    assert_eq!(registry.assign_inmate_to_prison(a.id, prison.id), Ok(full.clone()));
    assert_eq!(registry.assign_inmate_to_prison(b.id, prison.id), Ok(full.clone()));
    assert_eq!(registry.get_prison_details(prison.id), Ok(full));
}

#[test]
fn assignment_looks_for_the_inmate_first() {
    let mut registry = fresh();
    assert_eq!(
        registry.assign_inmate_to_prison(8, 9),
        Err(Message::NotFound("Inmate not found".to_string()))
    );
    let prison = registry.create_prison(prison_payload("Alpha", "X", 2)).unwrap();
    assert_eq!(
        registry.assign_inmate_to_prison(8, prison.id),
        Err(Message::NotFound("Inmate not found".to_string()))
    );
    let bob = registry.create_inmate(inmate_payload("Bob", "5y")).unwrap();
    assert_eq!(
        registry.assign_inmate_to_prison(bob.id, 9),
        Err(Message::NotFound("Prison not found".to_string()))
    );
    // An inmate's identifier names no prison, and the other way round.
    assert_eq!(
        registry.assign_inmate_to_prison(bob.id, bob.id),
        Err(Message::NotFound("Prison not found".to_string()))
    );
    assert_eq!(
        registry.assign_inmate_to_prison(prison.id, prison.id),
        Err(Message::NotFound("Inmate not found".to_string()))
    );
}

#[test]
fn hearings_are_gathered_in_the_record_of_their_inmate() {
    let mut registry = fresh();
    let bob = registry.create_inmate(inmate_payload("Bob", "5y")).unwrap();
    assert_eq!(
        registry.get_inmate_record(bob.id),
        Err(Message::NotFound("Inmate record not found".to_string()))
    );
    let h1 = registry.create_court_hearing(bob.id, 20260110, "adjourned".to_string(), 500).unwrap();
    assert_eq!(h1.id, 2);
    assert_eq!(h1.inmate_id, bob.id);
    assert_eq!(h1.date, 20260110);
    assert_eq!(h1.outcome, "adjourned");
    assert_eq!(
        registry.get_inmate_record(bob.id),
        Ok(InmateRecord {
            id: bob.id,
            inmate_id: bob.id,
            disciplinary_actions: vec![],
            court_hearings: vec![h1.id],
            last_updated: 500,
        })
    );
    let h2 = registry.create_court_hearing(bob.id, 20260220, "guilty".to_string(), 900).unwrap();
    assert_eq!(
        registry.get_inmate_record(bob.id),
        Ok(InmateRecord {
            id: bob.id,
            inmate_id: bob.id,
            disciplinary_actions: vec![],
            court_hearings: vec![h1.id, h2.id],
            last_updated: 900,
        })
    );
    assert_eq!(registry.last_id(), 3);
}

#[test]
fn each_inmate_has_a_record_of_its_own() {
    let mut registry = fresh();
    let a = registry.create_inmate(inmate_payload("A", "1y")).unwrap();
    let b = registry.create_inmate(inmate_payload("B", "1y")).unwrap();
    let ha = registry.create_court_hearing(a.id, 1, "x".to_string(), 10).unwrap();
    let hb = registry.create_court_hearing(b.id, 2, "y".to_string(), 20).unwrap();
    let ha2 = registry.create_court_hearing(a.id, 3, "z".to_string(), 30).unwrap();
    let record_a = registry.get_inmate_record(a.id).unwrap();
    let record_b = registry.get_inmate_record(b.id).unwrap();
    assert_eq!(record_a.court_hearings, vec![ha.id, ha2.id]);
    assert_eq!(record_a.last_updated, 30);
    assert_eq!(record_b.court_hearings, vec![hb.id]);
    assert_eq!(record_b.last_updated, 20);
}

#[test]
fn a_hearing_of_a_missing_inmate_is_not_found() {
    let mut registry = fresh();
    assert_eq!(
        registry.create_court_hearing(3, 20260110, "adjourned".to_string(), 500),
        Err(Message::NotFound("Inmate not found".to_string()))
    );
    assert_eq!(
        registry.get_inmate_record(3),
        Err(Message::NotFound("Inmate record not found".to_string()))
    );
    assert_eq!(registry.last_id(), 0);
}

#[test]
fn an_empty_message_is_refused() {
    let mut registry = fresh();
    assert_eq!(
        registry.create_communication_log(1, 2, String::new(), 77),
        Err(Message::InvalidPayload("Message cannot be empty".to_string()))
    );
    assert_eq!(registry.last_id(), 0);
}

#[test]
fn a_message_is_logged_with_its_time() {
    let mut registry = fresh();
    let log = registry.create_communication_log(31, 32, "visit at noon".to_string(), 77).unwrap();
    assert_eq!(log.id, 1);
    assert_eq!(log.inmate_id, 31);
    assert_eq!(log.officer_id, 32);
    assert_eq!(log.message, "visit at noon");
    assert_eq!(log.timestamp, 77);
}

#[test]
fn creating_a_disciplinary_action_leaves_the_inmate_as_it_was() {
    let mut registry = fresh();
    let bob = registry.create_inmate(inmate_payload("Bob", "5y")).unwrap();
    registry.create_disciplinary_action(action_payload(bob.id, 7, "warning"), 3).unwrap();
    let stored = registry.get_inmate(bob.id).unwrap();
    assert!(stored.disciplinary_actions.is_empty());
    assert_eq!(stored, bob);
}

#[test]
fn ordinary_calls_are_within_the_limits() {
    let mut registry = fresh();
    assert!(registry.can_create_prison(&prison_payload("Alpha", "X", 1)));
    assert!(registry.can_create_inmate(&inmate_payload("Bob", "5y")));
    assert!(registry.can_create_inmate(&inmate_payload("", "")));
    assert!(registry.can_create_disciplinary_action(&action_payload(1, 2, "late"), 5));
    assert!(registry.can_create_communication_log(1, 2, "hello", 5));
    assert!(registry.can_create_communication_log(1, 2, "", 5));
    assert!(registry.can_create_court_hearing(1, 2, "none", 5));
    assert!(registry.can_update_inmate(1, &inmate_payload("Bob", "5y")));
    assert!(registry.can_assign_inmate_to_prison(1, 2));
    let prison = registry.create_prison(prison_payload("Alpha", "X", 1)).unwrap();
    let bob = registry.create_inmate(inmate_payload("Bob", "5y")).unwrap();
    assert!(registry.can_assign_inmate_to_prison(bob.id, prison.id));
    assert!(registry.can_update_inmate(bob.id, &inmate_payload("Rob", "6y")));
    assert!(registry.can_create_court_hearing(bob.id, 2, "none", 5));
    // Asking changes nothing.
    assert_eq!(registry.last_id(), 2);
    assert_eq!(registry.get_prison_details(prison.id), Ok(prison));
    assert_eq!(registry.get_inmate(bob.id), Ok(bob));
}

#[test]
fn two_registries_do_not_share_state() {
    let mut one = fresh();
    let two = fresh();
    one.create_inmate(inmate_payload("Bob", "5y")).unwrap();
    assert_eq!(two.last_id(), 0);
    assert!(two.get_inmate(1).is_err());
}

#[test]
fn many_records_keep_their_contents() {
    let mut registry = fresh();
    let mut created = Vec::new();
    for i in 0..300u64 {
        let name = format!("inmate-{i}");
        created.push(registry.create_inmate(inmate_payload(&name, "1y")).unwrap());
    }
    for inmate in created {
        assert_eq!(registry.get_inmate(inmate.id), Ok(inmate));
    }
    assert!(registry.get_inmate(301).is_err());
}

#[test]
fn a_reopened_registry_holds_what_was_stored() {
    let mut registry = fresh();
    let prison = registry.create_prison(prison_payload("Alpha", "X", 2)).unwrap();
    let bob = registry.create_inmate(inmate_payload("Bob", "5y")).unwrap();
    let carl = registry.create_inmate(inmate_payload("Carl", "2y")).unwrap();
    registry.assign_inmate_to_prison(carl.id, prison.id).unwrap();
    let full = registry.assign_inmate_to_prison(bob.id, prison.id).unwrap();
    let action = registry.create_disciplinary_action(action_payload(bob.id, 9, "late"), 5).unwrap();
    let hearing = registry.create_court_hearing(bob.id, 20260101, "adjourned".to_string(), 7).unwrap();
    registry.create_communication_log(bob.id, 9, "hello".to_string(), 8).unwrap();
    let updated = registry.update_inmate(carl.id, inmate_payload("Carlos", "3y")).unwrap();
    let record = registry.get_inmate_record(bob.id).unwrap();

    let mut registry = registry.reopen().expect("the registry reads back what it wrote");
    assert_eq!(registry.last_id(), 6);
    assert_eq!(full.inmates, vec![carl.id, bob.id]);
    assert_eq!(registry.get_prison_details(prison.id), Ok(full));
    assert_eq!(registry.get_inmate(bob.id), Ok(bob.clone()));
    assert_eq!(registry.get_inmate(carl.id), Ok(updated));
    assert_eq!(registry.get_inmate_disciplinary_actions(bob.id), Ok(vec![action]));
    assert_eq!(record.court_hearings, vec![hearing.id]);
    assert_eq!(registry.get_inmate_record(bob.id), Ok(record));
    // The counter goes on where it was.
    assert_eq!(registry.create_inmate(inmate_payload("Dan", "1y")).unwrap().id, 7);
    assert_eq!(
        registry.assign_inmate_to_prison(7, prison.id),
        Err(Message::Error("Prison is at full capacity".to_string()))
    );
}

#[test]
fn an_empty_registry_reopens_empty() {
    let registry = fresh().reopen().unwrap();
    assert_eq!(registry.last_id(), 0);
    assert!(registry.get_inmate(1).is_err());
    assert!(registry.get_prison_details(1).is_err());
    assert!(registry.get_inmate_record(1).is_err());
    assert!(registry.get_inmate_disciplinary_actions(1).is_err());
}

#[test]
fn a_large_registry_reopens() {
    let mut registry = fresh();
    for i in 0..150u64 {
        registry.create_disciplinary_action(action_payload(i % 5, i, "note"), i).unwrap();
    }
    let registry = registry.reopen().unwrap();
    assert_eq!(registry.last_id(), 150);
    let listed = registry.get_inmate_disciplinary_actions(4).unwrap();
    assert_eq!(listed.len(), 30);
    assert_eq!(listed[0].id, 5);
    assert_eq!(listed[29].id, 150);
}

#[test]
fn a_record_larger_than_a_page_of_the_tree_is_kept() {
    let mut registry = fresh();
    let long = "x".repeat(5_000);
    let created = registry.create_inmate(inmate_payload(&long, "1y")).unwrap();
    assert_eq!(created.name.len(), 5_000);
    assert_eq!(registry.get_inmate(created.id), Ok(created.clone()));
    let longer = "y".repeat(70_000);
    let updated = registry.update_inmate(created.id, inmate_payload(&longer, "2y")).unwrap();
    assert_eq!(registry.get_inmate(created.id), Ok(updated.clone()));
    let registry = registry.reopen().unwrap();
    assert_eq!(registry.get_inmate(created.id), Ok(updated));
}
