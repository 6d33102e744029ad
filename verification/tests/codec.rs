use prison_registry::codec::{
    put_ids, put_text, put_texts, put_u64, take_ids, take_text, take_texts, take_u64,
};
use prison_registry::model::{
    CommunicationLog, CourtHearing, DisciplinaryAction, EmergencyContact, Inmate, InmateRecord,
    Prison,
};
use prison_registry::record::Record;
use prison_registry::table::Table;

fn sample_inmate() -> Inmate {
    Inmate {
        id: 7,
        name: "Zoë".to_string(),
        age: 30,
        gender: "F".to_string(),
        sentence_details: "2 years — fraud".to_string(),
        emergency_contact: EmergencyContact {
            name: "Ann".to_string(),
            phone_number: "555".to_string(),
            relationship: String::new(),
        },
        disciplinary_actions: vec!["late".to_string(), String::new(), "日本語".to_string()],
    }
}

#[test]
fn a_number_is_eight_little_endian_bytes() {
    let mut out = vec![0xaa];
    put_u64(&mut out, 0x0102_0304_0506_0708);
    assert_eq!(out, vec![0xaa, 8, 7, 6, 5, 4, 3, 2, 1]);
    assert_eq!(take_u64(&out, 1), Some((0x0102_0304_0506_0708, 9)));
    assert_eq!(take_u64(&out, 2), None);
    assert_eq!(take_u64(&out, 9), None);
}

#[test]
fn the_extreme_numbers_are_read_back() {
    for value in [0u64, 1, 255, 256, u64::MAX - 1, u64::MAX] {
        let mut out = Vec::new();
        put_u64(&mut out, value);
        assert_eq!(out.len(), 8);
        assert_eq!(take_u64(&out, 0), Some((value, 8)));
    }
}

#[test]
fn a_text_is_its_length_and_its_utf8_bytes() {
    let mut out = Vec::new();
    put_text(&mut out, "hé");
    assert_eq!(out, vec![3, 0, 0, 0, 0, 0, 0, 0, b'h', 0xc3, 0xa9]);
    assert_eq!(take_text(&out, 0), Some(("hé".to_string(), 11)));
}

#[test]
fn an_empty_text_is_read_back() {
    let mut out = Vec::new();
    put_text(&mut out, "");
    assert_eq!(out, vec![0; 8]);
    assert_eq!(take_text(&out, 0), Some((String::new(), 8)));
}

#[test]
fn a_text_that_is_cut_short_is_refused() {
    let mut out = Vec::new();
    put_text(&mut out, "hello");
    out.pop();
    assert_eq!(take_text(&out, 0), None);
    assert_eq!(take_text(&out[..4], 0), None);
}

#[test]
fn a_text_that_is_not_utf8_is_refused() {
    let bytes = vec![2, 0, 0, 0, 0, 0, 0, 0, 0xff, 0xfe];
    assert_eq!(take_text(&bytes, 0), None);
    // The first byte of a two-byte character alone.
    let bytes = vec![1, 0, 0, 0, 0, 0, 0, 0, 0xc3];
    assert_eq!(take_text(&bytes, 0), None);
}

#[test]
fn a_text_whose_length_exceeds_the_bytes_is_refused() {
    let mut bytes = vec![0xff; 8];
    bytes.extend_from_slice(b"abc");
    assert_eq!(take_text(&bytes, 0), None);
}

#[test]
fn a_list_of_numbers_is_its_length_and_its_items() {
    let mut out = Vec::new();
    put_ids(&mut out, &vec![5, 6]);
    assert_eq!(
        out,
        vec![2, 0, 0, 0, 0, 0, 0, 0, 5, 0, 0, 0, 0, 0, 0, 0, 6, 0, 0, 0, 0, 0, 0, 0]
    );
    assert_eq!(take_ids(&out, 0), Some((vec![5, 6], 24)));
    assert_eq!(take_ids(&out[..23], 0), None);
    let mut empty = Vec::new();
    put_ids(&mut empty, &vec![]);
    assert_eq!(take_ids(&empty, 0), Some((vec![], 8)));
}

#[test]
fn a_list_that_claims_more_items_than_it_has_is_refused() {
    let mut bytes = vec![0xff; 8];
    bytes.extend_from_slice(&[1, 0, 0, 0, 0, 0, 0, 0]);
    assert_eq!(take_ids(&bytes, 0), None);
    assert_eq!(take_texts(&bytes, 0), None);
}

#[test]
fn a_list_of_texts_is_read_back() {
    let texts = vec!["a".to_string(), String::new(), "ßé".to_string()];
    let mut out = vec![1, 2, 3];
    put_texts(&mut out, &texts);
    assert_eq!(out.len(), 3 + 8 + (8 + 1) + 8 + (8 + 4));
    assert_eq!(take_texts(&out, 3), Some((texts, out.len())));
}

#[test]
fn a_court_hearing_has_this_layout() {
    let hearing = CourtHearing { id: 1, inmate_id: 2, date: 3, outcome: "ok".to_string() };
    let mut expected = Vec::new();
    expected.extend_from_slice(&1u64.to_le_bytes());
    expected.extend_from_slice(&2u64.to_le_bytes());
    expected.extend_from_slice(&3u64.to_le_bytes());
    expected.extend_from_slice(&2u64.to_le_bytes());
    expected.extend_from_slice(b"ok");
    assert_eq!(hearing.encode(), expected);
    assert_eq!(CourtHearing::decode(&expected), Some(hearing));
}

#[test]
fn every_kind_of_record_is_read_back() {
    let inmate = sample_inmate();
    assert_eq!(Inmate::decode(&inmate.encode()), Some(inmate));
    let prison = Prison {
        id: 1,
        name: "Alpha".to_string(),
        location: "Nordküste".to_string(),
        capacity: 3,
        inmates: vec![4, 9, u64::MAX],
    };
    assert_eq!(Prison::decode(&prison.encode()), Some(prison));
    let action = DisciplinaryAction {
        id: 3,
        inmate_id: 4,
        officer_id: 5,
        action: "warning".to_string(),
        timestamp: 6,
    };
    assert_eq!(DisciplinaryAction::decode(&action.encode()), Some(action));
    let log = CommunicationLog {
        id: 3,
        inmate_id: 4,
        officer_id: 5,
        message: "hello".to_string(),
        timestamp: 6,
    };
    assert_eq!(CommunicationLog::decode(&log.encode()), Some(log));
    let record = InmateRecord {
        id: 4,
        inmate_id: 4,
        disciplinary_actions: vec!["x".to_string()],
        court_hearings: vec![8, 9],
        last_updated: 10,
    };
    assert_eq!(InmateRecord::decode(&record.encode()), Some(record));
}

#[test]
fn bytes_left_over_are_refused() {
    let mut bytes = sample_inmate().encode();
    bytes.push(0);
    assert_eq!(Inmate::decode(&bytes), None);
}

#[test]
fn bytes_cut_short_are_refused() {
    let bytes = sample_inmate().encode();
    for len in 0..bytes.len() {
        assert_eq!(Inmate::decode(&bytes[..len]), None);
    }
    assert_eq!(Prison::decode(&[]), None);
}

#[test]
fn a_record_of_one_kind_is_not_read_as_another() {
    let hearing = CourtHearing { id: 1, inmate_id: 2, date: 3, outcome: "ok".to_string() };
    assert_eq!(Inmate::decode(&hearing.encode()), None);
}

#[test]
fn records_are_keyed_by_identifier_and_inmate_records_by_inmate() {
    assert_eq!(sample_inmate().key_of(), 7);
    let record = InmateRecord {
        id: 1,
        inmate_id: 4,
        disciplinary_actions: vec![],
        court_hearings: vec![],
        last_updated: 0,
    };
    assert_eq!(record.key_of(), 4);
    assert!(!record.is_sound());
    assert!(InmateRecord { id: 4, ..record }.is_sound());
}

#[test]
fn a_prison_is_sound_up_to_its_capacity() {
    let prison = Prison {
        id: 1,
        name: "Alpha".to_string(),
        location: "X".to_string(),
        capacity: 2,
        inmates: vec![4, 9],
    };
    assert!(prison.is_sound());
    let crowded = Prison { inmates: vec![4, 9, 11], ..prison };
    assert!(!crowded.is_sound());
}

#[test]
fn an_ordinary_record_fits() {
    assert!(Table::<Inmate>::fits(&sample_inmate()));
}
