use erebor_backend::moria::{
    convert_activities, group_number, is_usable, parse_variant, prepare_timetable, sync_timetable,
    timetable_from_records, timetable_ids, to_activity, MoriaEvent, MoriaEventType, MoriaEventWrapper,
    MoriaStudentGroup, MoriaTeacher, MoriaTimetableId,
};
use erebor_backend::timetable::{ActivityOccurrence, TimetableId, TimetableVariant, UtcTime, Weekday};

fn event(weekday: u8) -> MoriaEvent {
    MoriaEvent {
        room: "C-12".to_string(),
        start_time: "08:00".to_string(),
        end_time: "09:30".to_string(),
        length: "2".to_string(),
        weekday,
    }
}

fn student(id: u32, group: &str, groups: &str) -> MoriaStudentGroup {
    MoriaStudentGroup { id, group: group.to_string(), groups: groups.to_string() }
}

fn record(id: u32, events: Vec<MoriaEvent>, students: Option<Vec<MoriaStudentGroup>>) -> MoriaEventWrapper {
    MoriaEventWrapper {
        id,
        event_array: events,
        subject: format!("Subject {}", id),
        teacher_array: vec![MoriaTeacher { name: "Kowalski".to_string() }, MoriaTeacher { name: "Nowak".to_string() }],
        students_array: students,
        kind: MoriaEventType { name: "Lecture".to_string(), id: 4, shortcut: "W".to_string() },
    }
}

#[test]
fn variant_year_from_leading_digit() {
    let (name, variant) = parse_variant("1 Informatyka".to_string());
    assert_eq!(name, "Informatyka");
    assert_eq!(variant, TimetableVariant::Year(1));
}

#[test]
fn variant_unique_without_leading_digit() {
    let (name, variant) = parse_variant("Informatyka".to_string());
    assert_eq!(name, "Informatyka");
    assert_eq!(variant, TimetableVariant::Unique);
}

#[test]
fn variant_year_nine() {
    let (name, variant) = parse_variant("9 X".to_string());
    assert_eq!(name, "X");
    assert_eq!(variant, TimetableVariant::Year(9));
}

#[test]
fn variant_rest_is_trimmed() {
    let (name, variant) = parse_variant("3   Fizyka \t".to_string());
    assert_eq!(name, "Fizyka");
    assert_eq!(variant, TimetableVariant::Year(3));
}

#[test]
fn variant_needs_digit_then_space() {
    assert_eq!(parse_variant("12 X".to_string()), ("12 X".to_string(), TimetableVariant::Unique));
    assert_eq!(parse_variant("A X".to_string()), ("A X".to_string(), TimetableVariant::Unique));
    assert_eq!(parse_variant("1".to_string()), ("1".to_string(), TimetableVariant::Unique));
    assert_eq!(parse_variant("".to_string()), ("".to_string(), TimetableVariant::Unique));
    assert_eq!(parse_variant(" 1 X".to_string()), (" 1 X".to_string(), TimetableVariant::Unique));
}

#[test]
fn listed_ids_get_the_moria_namespace() {
    let ids = timetable_ids(&vec![
        MoriaTimetableId { id: 42, name: "1 Informatyka".to_string() },
        MoriaTimetableId { id: 7, name: "Matematyka".to_string() },
    ]);
    assert_eq!(ids.len(), 2);
    assert_eq!(ids[0].0.namespace, "moria");
    assert_eq!(ids[0].0.id, "42");
    assert_eq!(ids[0].1, "1 Informatyka");
    assert_eq!(ids[1].0.id, "7");
}

#[test]
fn records_without_event_or_students_are_not_usable() {
    assert!(is_usable(&record(1, vec![event(1)], Some(vec![student(5, "2", "0")]))));
    assert!(!is_usable(&record(1, vec![], Some(vec![student(5, "2", "0")]))));
    assert!(!is_usable(&record(1, vec![event(1)], Some(vec![]))));
    assert!(!is_usable(&record(1, vec![event(1)], None)));
}

#[test]
fn group_comes_from_first_matching_roster_entry() {
    let roster = vec![student(4, "9", "0"), student(5, "1", "1"), student(5, "3", "0"), student(5, "4", "0")];
    assert_eq!(group_number(&roster, 5), Some("3".to_string()));
    assert_eq!(group_number(&roster, 4), Some("9".to_string()));
    assert_eq!(group_number(&roster, 6), None);
    assert_eq!(group_number(&vec![student(5, "1", "1")], 5), None);
}

#[test]
fn record_maps_to_activity() {
    let w = record(17, vec![event(3)], Some(vec![student(5, "2", "0")]));
    let a = to_activity(&w, &w.event_array[0], Some("Kowalski".to_string()), Some("2".to_string()));
    assert_eq!(a.id, "17");
    assert_eq!(a.name, "Subject 17");
    assert_eq!(a.teacher, Some("Kowalski".to_string()));
    assert!(matches!(a.occurrence, ActivityOccurrence::Regular { weekday: Weekday::Wednesday }));
    assert_eq!(a.group.symbol, "W");
    assert_eq!(a.group.name, "Lecture");
    assert_eq!(a.group.id, 4);
    assert_eq!(a.group.number, Some("2".to_string()));
    assert_eq!(a.time.start_time, "08:00");
    assert_eq!(a.time.end_time, "09:30");
    assert_eq!(a.time.duration, "2");
    assert_eq!(a.room, Some("C-12".to_string()));
}

#[test]
fn upstream_weekday_codes_decode_with_the_fallback() {
    let records = vec![
        record(1, vec![event(5)], Some(vec![student(9, "1", "0")])),
        record(2, vec![event(6)], Some(vec![student(9, "1", "0")])),
        record(3, vec![event(7)], Some(vec![student(9, "1", "0")])),
    ];
    let acts = convert_activities("9", &records);
    assert!(matches!(acts[0].occurrence, ActivityOccurrence::Regular { weekday: Weekday::Friday }));
    assert!(matches!(acts[1].occurrence, ActivityOccurrence::Regular { weekday: Weekday::Sunday }));
    assert!(matches!(acts[2].occurrence, ActivityOccurrence::Regular { weekday: Weekday::Saturday }));
}

#[test]
fn filtering_drops_records_without_event_or_students() {
    let records = vec![
        record(1, vec![event(1)], Some(vec![student(9, "1", "0")])),
        record(2, vec![], Some(vec![student(9, "1", "0")])),
        record(3, vec![event(2)], None),
        record(4, vec![event(2)], Some(vec![])),
        record(5, vec![event(4), event(5)], Some(vec![student(8, "6", "0")])),
    ];
    let acts = convert_activities("9", &records);
    assert_eq!(acts.len(), 2);
    assert_eq!(acts[0].id, "1");
    assert_eq!(acts[0].group.number, Some("1".to_string()));
    assert_eq!(acts[0].teacher, Some("Kowalski".to_string()));
    assert_eq!(acts[1].id, "5");
    assert_eq!(acts[1].group.number, None);
    assert!(matches!(acts[1].occurrence, ActivityOccurrence::Regular { weekday: Weekday::Thursday }));
}

#[test]
fn non_numeric_id_matches_roster_id_zero() {
    let records = vec![record(1, vec![event(1)], Some(vec![student(0, "5", "0")]))];
    let acts = convert_activities("abc", &records);
    assert_eq!(acts[0].group.number, Some("5".to_string()));
}

#[test]
fn id_left_without_activities_gives_no_timetable() {
    let records = vec![record(2, vec![], Some(vec![student(9, "1", "0")])), record(3, vec![event(2)], None)];
    let id = TimetableId::new("moria".to_string(), "9".to_string());
    assert!(timetable_from_records(id, "1 Informatyka".to_string(), &records, UtcTime { seconds: 1, nanos: 0 }).is_none());
    let id = TimetableId::new("moria".to_string(), "9".to_string());
    assert!(prepare_timetable(id, "X".to_string(), vec![], UtcTime { seconds: 1, nanos: 0 }).is_none());
}

#[test]
fn records_give_a_timetable() {
    let records = vec![record(2, vec![event(2)], Some(vec![student(9, "1", "0")]))];
    let id = TimetableId::new("moria".to_string(), "9".to_string());
    let t = timetable_from_records(id, "2 Biologia".to_string(), &records, UtcTime { seconds: 77, nanos: 3 }).unwrap();
    assert_eq!(t.descriptor.id.id, "9");
    assert_eq!(t.descriptor.name, "Biologia");
    assert_eq!(t.descriptor.variant, TimetableVariant::Year(2));
    assert_eq!(t.activities.len(), 1);
    assert_eq!(t.update_time, UtcTime { seconds: 77, nanos: 3 });
}

#[test]
fn synced_timetable_is_stamped_with_the_current_time() {
    let records = vec![record(2, vec![event(2)], Some(vec![student(9, "1", "0")]))];
    let id = TimetableId::new("moria".to_string(), "9".to_string());
    let t = sync_timetable(id, "Chemia".to_string(), &records).unwrap();
    assert!(t.update_time.seconds > 1_600_000_000);
    assert!(t.update_time.nanos < 1_000_000_000);
    assert_eq!(t.descriptor.variant, TimetableVariant::Unique);
}
