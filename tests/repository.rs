use erebor_backend::repository::{
    in_memory_repo, receive_timetable, IngestStep, ShareableTimetableProvider, TimetableConsumer, TimetableProvider,
    TimetableRepository,
};
use erebor_backend::sqlite::SqliteConsumer;
use erebor_backend::timetable::{
    Activity, ActivityGroup, ActivityOccurrence, ActivityTime, Timetable, TimetableDescriptor, TimetableId,
    TimetableVariant, UtcTime, Weekday,
};

fn activity(id: &str, weekday: Weekday) -> Activity {
    Activity {
        id: id.to_string(),
        name: format!("Subject {}", id),
        teacher: Some("Dr. Who".to_string()),
        occurrence: ActivityOccurrence::Regular { weekday },
        group: ActivityGroup { symbol: "L".to_string(), name: "Lab".to_string(), id: 2, number: Some("3".to_string()) },
        time: ActivityTime { start_time: "10:00".to_string(), end_time: "11:30".to_string(), duration: "2".to_string() },
        room: Some("A1".to_string()),
    }
}

fn timetable(ns: &str, id: &str, name: &str, activities: Vec<Activity>) -> Timetable {
    Timetable::new(
        TimetableDescriptor::new(TimetableId::new(ns.to_string(), id.to_string()), name.to_string(), TimetableVariant::Unique),
        activities,
        UtcTime { seconds: 1_000, nanos: 0 },
    )
}

fn id(ns: &str, id: &str) -> TimetableId {
    TimetableId::new(ns.to_string(), id.to_string())
}

#[test]
fn never_ingested_id_is_absent() {
    let mut repo = TimetableRepository::new();
    assert!(repo.get(&id("moria", "1")).is_none());
    repo.insert(timetable("moria", "1", "One", vec![activity("a", Weekday::Monday)]));
    assert!(repo.get(&id("moria", "2")).is_none());
    assert!(repo.get(&id("other", "1")).is_none());
}

#[test]
fn ingested_timetable_reads_back() {
    let mut repo = TimetableRepository::new();
    repo.insert(timetable("moria", "1", "One", vec![activity("a", Weekday::Monday), activity("b", Weekday::Friday)]));
    let t = repo.get(&id("moria", "1")).unwrap();
    assert_eq!(t.descriptor.name, "One");
    assert_eq!(t.activities.len(), 2);
    assert_eq!(t.activities[1].id, "b");
}

#[test]
fn last_write_wins() {
    let mut repo = TimetableRepository::new();
    repo.insert(timetable("moria", "1", "Old", vec![activity("a", Weekday::Monday), activity("b", Weekday::Monday)]));
    repo.insert(timetable("moria", "1", "New", vec![activity("c", Weekday::Tuesday)]));
    let t = repo.get(&id("moria", "1")).unwrap();
    assert_eq!(t.descriptor.name, "New");
    assert_eq!(t.activities.len(), 1);
    assert_eq!(t.activities[0].id, "c");
    let listing = repo.available_timetables("moria").unwrap();
    assert_eq!(listing.len(), 1);
    assert_eq!(listing[0].name, "New");
}

#[test]
fn namespaces_are_the_distinct_namespaces_stored() {
    let mut repo = TimetableRepository::new();
    assert!(repo.namespaces().is_empty());
    repo.insert(timetable("moria", "1", "One", vec![]));
    repo.insert(timetable("moria", "2", "Two", vec![]));
    repo.insert(timetable("usos", "1", "Three", vec![]));
    repo.insert(timetable("moria", "1", "One again", vec![]));
    let mut names = repo.namespaces();
    names.sort();
    assert_eq!(names, vec!["moria".to_string(), "usos".to_string()]);
}

#[test]
fn listing_of_a_namespace() {
    let mut repo = TimetableRepository::new();
    repo.insert(timetable("moria", "1", "One", vec![]));
    repo.insert(timetable("usos", "9", "Nine", vec![]));
    repo.insert(timetable("moria", "2", "Two", vec![]));
    assert!(repo.available_timetables("unknown").is_none());
    let listing = repo.available_timetables("moria").unwrap();
    let mut ids: Vec<String> = listing.iter().map(|d| d.id.id.clone()).collect();
    ids.sort();
    assert_eq!(ids, vec!["1".to_string(), "2".to_string()]);
    assert!(listing.iter().all(|d| d.id.namespace == "moria"));
}

#[test]
fn loading_ingests_in_order() {
    let repo = TimetableRepository::load(vec![
        timetable("moria", "1", "First", vec![]),
        timetable("moria", "2", "Other", vec![]),
        timetable("moria", "1", "Second", vec![]),
    ]);
    assert_eq!(repo.get(&id("moria", "1")).unwrap().descriptor.name, "Second");
    assert_eq!(repo.get(&id("moria", "2")).unwrap().descriptor.name, "Other");
}

#[test]
fn default_repository_is_empty() {
    let repo = TimetableRepository::default();
    assert!(repo.namespaces().is_empty());
}

#[test]
fn shared_handles_see_the_writer() {
    let (mut consumer, provider) = in_memory_repo();
    let shared = ShareableTimetableProvider::new(provider);
    assert!(TimetableProvider::get(&shared, id("moria", "5")).is_none());
    consumer.consume(timetable("moria", "5", "Five", vec![activity("x", Weekday::Wednesday)]));
    let t = TimetableProvider::get(&shared, id("moria", "5")).unwrap();
    assert_eq!(t.descriptor.name, "Five");
    assert_eq!(TimetableProvider::namespaces(&shared), vec!["moria".to_string()]);
    assert_eq!(TimetableProvider::available_timetables(&shared, "moria").unwrap().len(), 1);
    let copy = shared.clone();
    assert!(TimetableProvider::get(&copy, id("moria", "5")).is_some());
}

#[test]
fn receiving_hands_timetables_to_the_consumer() {
    let (mut consumer, provider) = in_memory_repo();
    let step = receive_timetable(Some(timetable("moria", "1", "One", vec![])), &mut consumer, true);
    assert_eq!(step, IngestStep::Continue);
    assert!(provider.get(&id("moria", "1")).is_some());
}

#[test]
fn closed_channel_exits_only_by_policy() {
    let (mut consumer, _provider) = in_memory_repo();
    assert_eq!(receive_timetable(None, &mut consumer, true), IngestStep::Exit);
    assert_eq!(receive_timetable(None, &mut consumer, false), IngestStep::Continue);
}

#[test]
fn store_backed_writer_updates_the_index_and_hands_over() {
    let (consumer, provider) = in_memory_repo();
    let (sender, receiver) = std::sync::mpsc::channel();
    let mut writer = SqliteConsumer::new(consumer, sender);
    assert!(writer.write(timetable("moria", "3", "Three", vec![activity("q", Weekday::Monday)])));
    assert!(writer.last_handed_over());
    let handed = receiver.recv().unwrap();
    assert_eq!(handed.descriptor.name, "Three");
    assert_eq!(handed.activities.len(), 1);
    drop(receiver);
    assert!(!writer.write(timetable("moria", "4", "Four", vec![])));
    assert!(!writer.last_handed_over());
    assert!(provider.get(&id("moria", "3")).is_some());
    assert!(provider.get(&id("moria", "4")).is_some());
}

#[test]
fn writer_keeps_and_publishes_its_index() {
    let (mut writer, reader) = in_memory_repo();
    writer.consume(timetable("moria", "1", "Old", vec![activity("a", Weekday::Monday)]));
    writer.consume(timetable("moria", "1", "New", vec![]));
    writer.consume(timetable("usos", "2", "Other", vec![]));
    assert_eq!(writer.get(&id("moria", "1")).unwrap().descriptor.name, "New");
    assert!(writer.get(&id("moria", "1")).unwrap().activities.is_empty());
    assert_eq!(reader.get(&id("moria", "1")).unwrap().descriptor.name, "New");
    assert_eq!(reader.get(&id("usos", "2")).unwrap().descriptor.name, "Other");
    let mut names = reader.namespaces();
    names.sort();
    assert_eq!(names, vec!["moria".to_string(), "usos".to_string()]);
    let second = reader.share();
    assert!(second.get(&id("usos", "2")).is_some());
    assert!(writer.reader().available_timetables("usos").is_some());
}
