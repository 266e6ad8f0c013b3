use erebor_backend::text::{contains, decimal_string, parse_unsigned, str_eq};
use erebor_backend::timetable::{
    Activity, ActivityGroup, ActivityOccurrence, ActivityTime, Timetable, TimetableDescriptor, TimetableId,
    TimetableVariant, UtcTime, Weekday,
};

#[test]
fn weekday_codes_one_to_five_are_monday_to_friday() {
    assert_eq!(Weekday::from(1u8), Weekday::Monday);
    assert_eq!(Weekday::from(2u8), Weekday::Tuesday);
    assert_eq!(Weekday::from(3u8), Weekday::Wednesday);
    assert_eq!(Weekday::from(4u8), Weekday::Thursday);
    assert_eq!(Weekday::from(5u8), Weekday::Friday);
}

#[test]
fn weekday_code_seven_is_saturday() {
    assert_eq!(Weekday::from(7u8), Weekday::Saturday);
}

#[test]
fn weekday_other_codes_fall_through_to_sunday() {
    for code in [0u8, 6, 8, 9, 100, 255] {
        assert_eq!(Weekday::from(code), Weekday::Sunday);
    }
}

#[test]
fn weekday_encoding_is_one_to_seven() {
    assert_eq!(u8::from(Weekday::Monday), 1);
    assert_eq!(u8::from(Weekday::Friday), 5);
    assert_eq!(u8::from(Weekday::Saturday), 6);
    assert_eq!(u8::from(Weekday::Sunday), 7);
}

#[test]
fn timetable_id_displays_namespace_and_id() {
    let id = TimetableId::new("moria".to_string(), "123".to_string());
    assert_eq!(id.to_string(), "moria:123");
}

#[test]
fn timetable_ids_compare_by_content() {
    let a = TimetableId::new("moria".to_string(), "1".to_string());
    let b = TimetableId::new("moria".to_string(), "1".to_string());
    let c = TimetableId::new("moria".to_string(), "2".to_string());
    assert!(a == b);
    assert!(a != c);
}

#[test]
fn truncating_a_time_drops_the_fraction() {
    let t = UtcTime { seconds: 1_700_000_000, nanos: 999 };
    assert_eq!(t.truncated(), UtcTime { seconds: 1_700_000_000, nanos: 0 });
    assert_eq!(UtcTime::from_seconds(5), UtcTime { seconds: 5, nanos: 0 });
}

#[test]
fn cloned_timetable_keeps_everything() {
    let t = Timetable::new(
        TimetableDescriptor::new(
            TimetableId::new("ns".to_string(), "7".to_string()),
            "Name".to_string(),
            TimetableVariant::Semester(2),
        ),
        vec![Activity {
            id: "a".to_string(),
            name: "Algebra".to_string(),
            teacher: None,
            occurrence: ActivityOccurrence::Special { date: "2024-01-01".to_string() },
            group: ActivityGroup { symbol: "W".to_string(), name: "Lecture".to_string(), id: 3, number: None },
            time: ActivityTime { start_time: "8:00".to_string(), end_time: "9:30".to_string(), duration: "2".to_string() },
            room: Some("101".to_string()),
        }],
        UtcTime { seconds: 10, nanos: 5 },
    );
    let c = t.clone();
    assert_eq!(c.descriptor.name, "Name");
    assert_eq!(c.descriptor.variant, TimetableVariant::Semester(2));
    assert_eq!(c.activities.len(), 1);
    assert_eq!(c.activities[0].room, Some("101".to_string()));
    assert_eq!(c.update_time, UtcTime { seconds: 10, nanos: 5 });
}

#[test]
fn decimal_numerals() {
    assert_eq!(decimal_string(0), "0");
    assert_eq!(decimal_string(7), "7");
    assert_eq!(decimal_string(1234), "1234");
    assert_eq!(decimal_string(u64::MAX), "18446744073709551615");
}

#[test]
fn unsigned_parsing_follows_rust() {
    assert_eq!(parse_unsigned("12", 255), Some(12));
    assert_eq!(parse_unsigned("+12", 255), Some(12));
    assert_eq!(parse_unsigned("255", 255), Some(255));
    assert_eq!(parse_unsigned("256", 255), None);
    assert_eq!(parse_unsigned("", 255), None);
    assert_eq!(parse_unsigned("+", 255), None);
    assert_eq!(parse_unsigned("-1", 255), None);
    assert_eq!(parse_unsigned("1a", 255), None);
    assert_eq!(parse_unsigned("4294967295", u32::MAX), Some(u32::MAX));
    assert_eq!(parse_unsigned("4294967296", u32::MAX), None);
    assert_eq!(parse_unsigned("000000000000000000000000042", u32::MAX), Some(42));
}

#[test]
fn substring_search() {
    assert!(contains("https://erebor.example/page", "erebor.example"));
    assert!(contains("abc", ""));
    assert!(!contains("abc", "abcd"));
    assert!(!contains("abc", "ac"));
}

#[test]
fn string_equality() {
    assert!(str_eq("semester", "semester"));
    assert!(!str_eq("semester", "semesters"));
    assert!(!str_eq("year", "yeah"));
}
