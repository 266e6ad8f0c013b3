use erebor_backend::sqlite::{
    activity_from_row, activity_row, activity_rows, as_db_id, db_to_occurrence, db_to_variant, occurrence_to_db,
    timetable_from_rows, timetable_row, variant_to_db, write_commands, StoreCommand,
};
use erebor_backend::timetable::{
    Activity, ActivityGroup, ActivityOccurrence, ActivityTime, Timetable, TimetableDescriptor, TimetableId,
    TimetableVariant, UtcTime, Weekday,
};

fn activity(id: &str, occurrence: ActivityOccurrence, group_id: u8) -> Activity {
    Activity {
        id: id.to_string(),
        name: "Analiza".to_string(),
        teacher: None,
        occurrence,
        group: ActivityGroup { symbol: "C".to_string(), name: "Exercises".to_string(), id: group_id, number: Some("2".to_string()) },
        time: ActivityTime { start_time: "12:00".to_string(), end_time: "13:30".to_string(), duration: "2".to_string() },
        room: None,
    }
}

fn sample(activities: Vec<Activity>) -> Timetable {
    Timetable::new(
        TimetableDescriptor::new(
            TimetableId::new("moria".to_string(), "42".to_string()),
            "Informatyka".to_string(),
            TimetableVariant::Year(1),
        ),
        activities,
        UtcTime { seconds: 1_700_000_123, nanos: 456_789 },
    )
}

#[test]
fn composite_ids() {
    assert_eq!(as_db_id(&TimetableId::new("moria".to_string(), "42".to_string())), "moria_42");
    let t = sample(vec![activity("7", ActivityOccurrence::Regular { weekday: Weekday::Monday }, 3)]);
    let row = activity_row(&t.descriptor.id, &t.activities[0]);
    assert_eq!(row.id, "moria_42_7");
    assert_eq!(row.timetable_id, "moria_42");
    assert_eq!(row.group_id, "3");
    assert_eq!(row.occurrence, "regular");
    assert_eq!(row.occurrence_weekday, Some(1));
    assert_eq!(row.occurrence_date, None);
}

#[test]
fn variants_to_and_from_the_store() {
    assert_eq!(variant_to_db(&TimetableVariant::Semester(3)), ("semester", Some(3)));
    assert_eq!(variant_to_db(&TimetableVariant::Year(2)), ("year", Some(2)));
    assert_eq!(variant_to_db(&TimetableVariant::Unique), ("unique", None));
    assert_eq!(db_to_variant("semester", Some(3)), Some(TimetableVariant::Semester(3)));
    assert_eq!(db_to_variant("year", Some(2)), Some(TimetableVariant::Year(2)));
    assert_eq!(db_to_variant("year", None), None);
    assert_eq!(db_to_variant("unique", None), Some(TimetableVariant::Unique));
    assert_eq!(db_to_variant("anything", Some(1)), Some(TimetableVariant::Unique));
}

#[test]
fn occurrences_to_and_from_the_store() {
    let (kind, weekday, date) = occurrence_to_db(&ActivityOccurrence::Special { date: "2024-05-01".to_string() });
    assert_eq!((kind, weekday, date), ("special", None, Some("2024-05-01".to_string())));
    let (kind, weekday, date) = occurrence_to_db(&ActivityOccurrence::Regular { weekday: Weekday::Sunday });
    assert_eq!((kind, weekday, date), ("regular", Some(7), None));
    assert!(matches!(
        db_to_occurrence("special", None, Some("d".to_string())),
        Some(ActivityOccurrence::Special { date }) if date == "d"
    ));
    assert!(matches!(db_to_occurrence("regular", Some(2), None), Some(ActivityOccurrence::Regular { weekday: Weekday::Tuesday })));
    assert!(matches!(db_to_occurrence("regular", Some(6), None), Some(ActivityOccurrence::Regular { weekday: Weekday::Saturday })));
    assert!(matches!(db_to_occurrence("regular", Some(7), None), Some(ActivityOccurrence::Regular { weekday: Weekday::Sunday })));
    assert!(matches!(db_to_occurrence("regular", Some(0), None), Some(ActivityOccurrence::Regular { weekday: Weekday::Sunday })));
    assert!(db_to_occurrence("regular", None, None).is_none());
    assert!(db_to_occurrence("special", Some(1), None).is_none());
    assert!(db_to_occurrence("weekly", Some(1), None).is_none());
    assert!(db_to_occurrence("lecture", Some(3), Some("d".to_string())).is_none());
}

#[test]
fn store_round_trip_keeps_descriptor_and_activities() {
    let t = sample(vec![
        activity("1", ActivityOccurrence::Regular { weekday: Weekday::Monday }, 0),
        activity("2", ActivityOccurrence::Special { date: "2024-05-01".to_string() }, 255),
        activity("3", ActivityOccurrence::Regular { weekday: Weekday::Friday }, 17),
    ]);
    let row = timetable_row(&t);
    assert_eq!(row.id, "moria_42");
    assert_eq!(row.variant, "year");
    assert_eq!(row.variant_value, Some(1));
    assert_eq!(row.update_time, 1_700_000_123);
    let rows = activity_rows(&t);
    let back = timetable_from_rows(&row, &rows).unwrap();
    assert_eq!(back.descriptor.id.namespace, "moria");
    assert_eq!(back.descriptor.id.id, "42");
    assert_eq!(back.descriptor.name, "Informatyka");
    assert_eq!(back.descriptor.variant, TimetableVariant::Year(1));
    assert_eq!(back.update_time, UtcTime { seconds: 1_700_000_123, nanos: 0 });
    assert_eq!(back.activities.len(), 3);
    for (a, b) in t.activities.iter().zip(back.activities.iter()) {
        assert_eq!(a.id, b.id);
        assert_eq!(a.group.id, b.group.id);
        assert_eq!(a.group.number, b.group.number);
        assert_eq!(a.room, b.room);
    }
    assert!(matches!(back.activities[1].occurrence, ActivityOccurrence::Special { ref date } if date == "2024-05-01"));
    assert!(matches!(back.activities[2].occurrence, ActivityOccurrence::Regular { weekday: Weekday::Friday }));
}

#[test]
fn stored_weekends_read_back_unchanged() {
    let t = sample(vec![
        activity("1", ActivityOccurrence::Regular { weekday: Weekday::Saturday }, 1),
        activity("2", ActivityOccurrence::Regular { weekday: Weekday::Sunday }, 1),
    ]);
    let rows = activity_rows(&t);
    assert_eq!(rows[0].occurrence_weekday, Some(6));
    assert_eq!(rows[1].occurrence_weekday, Some(7));
    let back = timetable_from_rows(&timetable_row(&t), &rows).unwrap();
    assert!(matches!(back.activities[0].occurrence, ActivityOccurrence::Regular { weekday: Weekday::Saturday }));
    assert!(matches!(back.activities[1].occurrence, ActivityOccurrence::Regular { weekday: Weekday::Sunday }));
}

#[test]
fn activity_rows_of_other_kinds_read_as_regular() {
    let t = sample(vec![activity("1", ActivityOccurrence::Regular { weekday: Weekday::Monday }, 1)]);
    let mut row = activity_row(&t.descriptor.id, &t.activities[0]);
    row.occurrence = "lecture".to_string();
    row.occurrence_weekday = Some(3);
    assert!(matches!(activity_from_row(&row).unwrap().occurrence, ActivityOccurrence::Regular { weekday: Weekday::Wednesday }));
    row.occurrence_weekday = None;
    assert!(activity_from_row(&row).is_none());
}

#[test]
fn unreadable_rows_are_left_out() {
    let t = sample(vec![
        activity("1", ActivityOccurrence::Regular { weekday: Weekday::Monday }, 1),
        activity("2", ActivityOccurrence::Regular { weekday: Weekday::Tuesday }, 1),
    ]);
    let row = timetable_row(&t);
    let mut rows = activity_rows(&t);
    rows[0].occurrence = "special".to_string();
    let back = timetable_from_rows(&row, &rows).unwrap();
    assert_eq!(back.activities.len(), 1);
    assert_eq!(back.activities[0].id, "2");
    assert!(activity_from_row(&rows[0]).is_none());
    rows[0].occurrence = "lecture".to_string();
    let kept = activity_from_row(&rows[0]).unwrap();
    assert!(matches!(kept.occurrence, ActivityOccurrence::Regular { weekday: Weekday::Monday }));
}

#[test]
fn bad_group_ids_read_as_zero() {
    let t = sample(vec![activity("1", ActivityOccurrence::Regular { weekday: Weekday::Monday }, 1)]);
    let mut row = activity_row(&t.descriptor.id, &t.activities[0]);
    row.group_id = "abc".to_string();
    assert_eq!(activity_from_row(&row).unwrap().group.id, 0);
    row.group_id = "300".to_string();
    assert_eq!(activity_from_row(&row).unwrap().group.id, 0);
    row.group_id = "12".to_string();
    assert_eq!(activity_from_row(&row).unwrap().group.id, 12);
}

#[test]
fn unreadable_timetable_rows_give_none() {
    let t = sample(vec![]);
    let mut row = timetable_row(&t);
    row.update_time = -1;
    assert!(timetable_from_rows(&row, &vec![]).is_none());
    let mut row = timetable_row(&t);
    row.variant_value = None;
    assert!(timetable_from_rows(&row, &vec![]).is_none());
    let mut row = timetable_row(&t);
    row.variant_value = Some(-5);
    assert!(timetable_from_rows(&row, &vec![]).is_none());
}

#[test]
fn writes_go_namespace_row_delete_then_activities() {
    let t = sample(vec![
        activity("1", ActivityOccurrence::Regular { weekday: Weekday::Monday }, 1),
        activity("2", ActivityOccurrence::Special { date: "2024-05-01".to_string() }, 2),
    ]);
    let commands = write_commands(&t);
    assert_eq!(commands.len(), 5);
    assert!(matches!(&commands[0], StoreCommand::InsertNamespace(ns) if ns == "moria"));
    assert!(matches!(&commands[1], StoreCommand::UpsertTimetable(row) if row.id == "moria_42" && row.name == "Informatyka"));
    assert!(matches!(&commands[2], StoreCommand::DeleteActivities(key) if key == "moria_42"));
    assert!(matches!(&commands[3], StoreCommand::InsertActivity(row) if row.id == "moria_42_1"));
    assert!(matches!(&commands[4], StoreCommand::InsertActivity(row) if row.id == "moria_42_2" && row.occurrence == "special"));
}
