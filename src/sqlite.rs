use std::sync::mpsc::Sender;

use vstd::prelude::*;

use crate::repository::{InMemoryWriter, TimetableConsumer, TimetableKey};

use crate::text::{decimal, decimal_string, lemma_decimal_round_trip, parse_unsigned, str_eq, unsigned_value};
use crate::timetable::{
    code_of_weekday, weekday_of_stored_code, Activity, ActivityGroup, ActivityOccurrence, ActivityTime, Timetable,
    TimetableDescriptor, TimetableId, TimetableVariant, TimetableView, UtcTime, Weekday,
};

verus! {

/// A row of the `timetable` table.
#[derive(Debug)]
pub struct TimetableRow {
    /// The composite key `"{namespace}_{id}"`.
    pub id: String,
    pub timetable_id: String,
    pub name: String,
    pub variant: String,
    pub variant_value: Option<i64>,
    /// Seconds since the Unix epoch.
    pub update_time: i64,
    pub namespace_id: String,
}

/// A row of the `activity` table.
#[derive(Debug)]
pub struct ActivityRow {
    /// The composite key `"{timetable composite key}_{activity id}"`.
    pub id: String,
    pub activity_id: String,
    /// The composite key of the timetable the activity belongs to.
    pub timetable_id: String,
    pub name: String,
    pub teacher: Option<String>,
    pub occurrence: String,
    pub occurrence_weekday: Option<u8>,
    pub occurrence_date: Option<String>,
    pub group_symbol: String,
    pub group_id: String,
    pub group_name: String,
    pub group_number: Option<String>,
    pub start_time: String,
    pub end_time: String,
    pub duration: String,
    pub room: Option<String>,
}

/// The composite key of a timetable: `"{namespace}_{id}"`.
pub open spec fn db_id(id: TimetableId) -> Seq<char> {
    id.namespace@ + seq!['_'] + id.id@
}

pub open spec fn variant_name(v: TimetableVariant) -> Seq<char> {
    match v {
        TimetableVariant::Semester(_) => "semester"@,
        TimetableVariant::Year(_) => "year"@,
        TimetableVariant::Unique => "unique"@,
    }
}

pub open spec fn variant_number(v: TimetableVariant) -> Option<i64> {
    match v {
        TimetableVariant::Semester(n) => Some(n as i64),
        TimetableVariant::Year(n) => Some(n as i64),
        TimetableVariant::Unique => None,
    }
}

/// The variant that a stored name and number stand for; a semester or a year
/// without its number stands for none, and any other name for `Unique`.
pub open spec fn decoded_variant(name: Seq<char>, value: Option<u32>) -> Option<TimetableVariant> {
    if name == "semester"@ {
        match value {
            Some(n) => Some(TimetableVariant::Semester(n)),
            None => None,
        }
    } else if name == "year"@ {
        match value {
            Some(n) => Some(TimetableVariant::Year(n)),
            None => None,
        }
    } else {
        Some(TimetableVariant::Unique)
    }
}

pub open spec fn occurrence_name(o: ActivityOccurrence) -> Seq<char> {
    match o {
        ActivityOccurrence::Regular { .. } => "regular"@,
        ActivityOccurrence::Special { .. } => "special"@,
    }
}

/// The occurrence that a stored kind, weekday code and date stand for:
/// `"special"` with its date, `"regular"` with its weekday code; none for any
/// other kind or where the column the kind needs is empty.
pub open spec fn decoded_occurrence(kind: Seq<char>, weekday: Option<u8>, date: Option<String>) -> Option<
    ActivityOccurrence,
> {
    if kind == "special"@ {
        match date {
            Some(d) => Some(ActivityOccurrence::Special { date: d }),
            None => None,
        }
    } else if kind == "regular"@ {
        match weekday {
            Some(w) => Some(ActivityOccurrence::Regular { weekday: weekday_of_stored_code(w) }),
            None => None,
        }
    } else {
        None
    }
}

/// The occurrence of a stored activity row: a `"special"` kind with its date,
/// and any other kind as a regular occurrence on its weekday code; none where
/// the column that kind needs is empty.
pub open spec fn row_occurrence(kind: Seq<char>, weekday: Option<u8>, date: Option<String>) -> Option<
    ActivityOccurrence,
> {
    if kind == "special"@ {
        match date {
            Some(d) => Some(ActivityOccurrence::Special { date: d }),
            None => None,
        }
    } else {
        match weekday {
            Some(w) => Some(ActivityOccurrence::Regular { weekday: weekday_of_stored_code(w) }),
            None => None,
        }
    }
}

/// `row` stores timetable `t`, activities aside.
pub open spec fn stores_timetable(t: Timetable, row: TimetableRow) -> bool {
    &&& row.id@ == db_id(t.descriptor.id)
    &&& row.timetable_id == t.descriptor.id.id
    &&& row.name == t.descriptor.name
    &&& row.variant@ == variant_name(t.descriptor.variant)
    &&& row.variant_value == variant_number(t.descriptor.variant)
    &&& row.update_time == t.update_time.seconds
    &&& row.namespace_id == t.descriptor.id.namespace
}

/// `row` stores activity `a` of the timetable with id `id`.
pub open spec fn stores_activity(id: TimetableId, a: Activity, row: ActivityRow) -> bool {
    &&& row.id@ == db_id(id) + seq!['_'] + a.id@
    &&& row.activity_id == a.id
    &&& row.timetable_id@ == db_id(id)
    &&& row.name == a.name
    &&& row.teacher == a.teacher
    &&& row.occurrence@ == occurrence_name(a.occurrence)
    &&& row.occurrence_weekday == (match a.occurrence {
        ActivityOccurrence::Regular { weekday } => Some(code_of_weekday(weekday)),
        ActivityOccurrence::Special { .. } => None,
    })
    &&& row.occurrence_date == (match a.occurrence {
        ActivityOccurrence::Regular { .. } => None::<String>,
        ActivityOccurrence::Special { date } => Some(date),
    })
    &&& row.group_symbol == a.group.symbol
    &&& row.group_id@ == decimal(a.group.id as nat)
    &&& row.group_name == a.group.name
    &&& row.group_number == a.group.number
    &&& row.start_time == a.time.start_time
    &&& row.end_time == a.time.end_time
    &&& row.duration == a.time.duration
    &&& row.room == a.room
}

/// The group id that a stored text stands for: its number where it reads as
/// a `u8`, else 0.
pub open spec fn decoded_group_id(s: Seq<char>) -> u8 {
    match unsigned_value(s) {
        Some(v) => if v <= 255 {
            v as u8
        } else {
            0
        },
        None => 0,
    }
}

/// The activity that `row` stands for, if its occurrence can be read.
pub open spec fn decoded_activity(row: ActivityRow) -> Option<Activity> {
    match row_occurrence(row.occurrence@, row.occurrence_weekday, row.occurrence_date) {
        Some(occurrence) => Some(
            Activity {
                id: row.activity_id,
                name: row.name,
                teacher: row.teacher,
                occurrence,
                group: ActivityGroup {
                    symbol: row.group_symbol,
                    name: row.group_name,
                    id: decoded_group_id(row.group_id@),
                    number: row.group_number,
                },
                time: ActivityTime {
                    start_time: row.start_time,
                    end_time: row.end_time,
                    duration: row.duration,
                },
                room: row.room,
            },
        ),
        None => None,
    }
}

/// The activities that `rows` stand for, in order, leaving out rows that
/// cannot be read.
pub open spec fn decoded_activities(rows: Seq<ActivityRow>) -> Seq<Activity>
    decreases rows.len(),
{
    if rows.len() == 0 {
        Seq::empty()
    } else {
        let init = decoded_activities(rows.drop_last());
        match decoded_activity(rows.last()) {
            Some(a) => init.push(a),
            None => init,
        }
    }
}

/// The stored number of a variant, where it fits a `u32`.
pub open spec fn stored_number(v: Option<i64>) -> Option<Option<u32>> {
    match v {
        Some(n) => if 0 <= n <= u32::MAX {
            Some(Some(n as u32))
        } else {
            None
        },
        None => Some(None),
    }
}

/// The timetable that a row and its activity rows stand for; none where the
/// update time is negative or the variant cannot be read.
pub open spec fn decoded_timetable(row: TimetableRow, activities: Seq<ActivityRow>) -> Option<TimetableView> {
    match stored_number(row.variant_value) {
        Some(number) => match decoded_variant(row.variant@, number) {
            Some(variant) => if row.update_time >= 0 {
                Some(
                    TimetableView {
                        descriptor: TimetableDescriptor {
                            id: TimetableId { namespace: row.namespace_id, id: row.timetable_id },
                            name: row.name,
                            variant,
                        },
                        activities: decoded_activities(activities),
                        update_time: UtcTime { seconds: row.update_time, nanos: 0 },
                    },
                )
            } else {
                None
            },
            None => None,
        },
        None => None,
    }
}

/// The composite key of `timetable`.
pub fn as_db_id(timetable: &TimetableId) -> (r: String)
    ensures
        r@ == db_id(*timetable),
{
    let mut r = timetable.namespace.clone();
    let sep = "_";
    proof {
        reveal_strlit("_");
    }
    r.append(sep);
    r.append(timetable.id.as_str());
    r
}

/// Reads a stored variant.
pub fn db_to_variant(variant: &str, variant_value: Option<u32>) -> (r: Option<TimetableVariant>)
    ensures
        r == decoded_variant(variant@, variant_value),
{
    if str_eq(variant, "semester") {
        match variant_value {
            Some(n) => Some(TimetableVariant::Semester(n)),
            None => None,
        }
    } else if str_eq(variant, "year") {
        match variant_value {
            Some(n) => Some(TimetableVariant::Year(n)),
            None => None,
        }
    } else {
        Some(TimetableVariant::Unique)
    }
}

/// The stored name and number of a variant.
pub fn variant_to_db(variant: &TimetableVariant) -> (r: (&'static str, Option<i64>))
    ensures
        r.0@ == variant_name(*variant),
        r.1 == variant_number(*variant),
{
    match variant {
        TimetableVariant::Semester(semester) => ("semester", Some(*semester as i64)),
        TimetableVariant::Year(year) => ("year", Some(*year as i64)),
        TimetableVariant::Unique => ("unique", None),
    }
}

/// Reads a stored occurrence: its kind, weekday code and date.
pub fn db_to_occurrence(kind: &str, weekday: Option<u8>, date: Option<String>) -> (r: Option<ActivityOccurrence>)
    ensures
        r == decoded_occurrence(kind@, weekday, date),
{
    if str_eq(kind, "special") {
        match date {
            Some(date) => Some(ActivityOccurrence::Special { date }),
            None => None,
        }
    } else if str_eq(kind, "regular") {
        match weekday {
            Some(code) => Some(ActivityOccurrence::Regular { weekday: Weekday::from_stored_code(code) }),
            None => None,
        }
    } else {
        None
    }
}

/// The stored kind, weekday code and date of an occurrence.
pub fn occurrence_to_db(occurrence: &ActivityOccurrence) -> (r: (&'static str, Option<u8>, Option<String>))
    ensures
        r.0@ == occurrence_name(*occurrence),
        r.1 == (match *occurrence {
            ActivityOccurrence::Regular { weekday } => Some(code_of_weekday(weekday)),
            ActivityOccurrence::Special { .. } => None,
        }),
        r.2 == (match *occurrence {
            ActivityOccurrence::Regular { .. } => None::<String>,
            ActivityOccurrence::Special { date } => Some(date),
        }),
{
    match occurrence {
        ActivityOccurrence::Regular { weekday } => ("regular", Some(u8::from(*weekday)), None),
        ActivityOccurrence::Special { date } => ("special", None, Some(date.clone())),
    }
}

/// The `timetable` row that stores `timetable`.
pub fn timetable_row(timetable: &Timetable) -> (r: TimetableRow)
    ensures
        stores_timetable(*timetable, r),
{
    let (variant, variant_value) = variant_to_db(&timetable.descriptor.variant);
    TimetableRow {
        id: as_db_id(&timetable.descriptor.id),
        timetable_id: timetable.descriptor.id.id.clone(),
        name: timetable.descriptor.name.clone(),
        variant: String::from_str(variant),
        variant_value,
        update_time: timetable.update_time.seconds,
        namespace_id: timetable.descriptor.id.namespace.clone(),
    }
}

/// The `activity` row that stores `activity` of the timetable with id `id`.
pub fn activity_row(id: &TimetableId, activity: &Activity) -> (r: ActivityRow)
    ensures
        stores_activity(*id, *activity, r),
{
    let (occurrence, occurrence_weekday, occurrence_date) = occurrence_to_db(&activity.occurrence);
    let timetable_id = as_db_id(id);
    let mut row_id = as_db_id(id);
    let sep = "_";
    proof {
        reveal_strlit("_");
    }
    row_id.append(sep);
    row_id.append(activity.id.as_str());
    assert(row_id@ =~= db_id(*id) + seq!['_'] + activity.id@);
    ActivityRow {
        id: row_id,
        activity_id: activity.id.clone(),
        timetable_id,
        name: activity.name.clone(),
        teacher: activity.teacher.clone(),
        occurrence: String::from_str(occurrence),
        occurrence_weekday,
        occurrence_date,
        group_symbol: activity.group.symbol.clone(),
        group_id: decimal_string(activity.group.id as u64),
        group_name: activity.group.name.clone(),
        group_number: activity.group.number.clone(),
        start_time: activity.time.start_time.clone(),
        end_time: activity.time.end_time.clone(),
        duration: activity.time.duration.clone(),
        room: activity.room.clone(),
    }
}

/// The `activity` rows that store the activities of `timetable`, in order.
pub fn activity_rows(timetable: &Timetable) -> (r: Vec<ActivityRow>)
    ensures
        r@.len() == timetable.activities@.len(),
        forall|i: int|
            0 <= i < r@.len() ==> stores_activity(
                timetable.descriptor.id,
                timetable.activities@[i],
                #[trigger] r@[i],
            ),
{
    let mut rows: Vec<ActivityRow> = Vec::new();
    let mut i: usize = 0;
    while i < timetable.activities.len()
        invariant
            i <= timetable.activities@.len(),
            rows@.len() == i,
            forall|j: int|
                0 <= j < i ==> stores_activity(
                    timetable.descriptor.id,
                    timetable.activities@[j],
                    #[trigger] rows@[j],
                ),
        decreases timetable.activities@.len() - i,
    {
        rows.push(activity_row(&timetable.descriptor.id, &timetable.activities[i]));
        i = i + 1;
    }
    rows
}

/// One write to the store.
#[derive(Debug)]
pub enum StoreCommand {
    /// Add the namespace unless it is there.
    InsertNamespace(String),
    /// Add or replace the `timetable` row.
    UpsertTimetable(TimetableRow),
    /// Remove every activity row of the timetable with this composite key.
    DeleteActivities(String),
    /// Add one activity row.
    InsertActivity(ActivityRow),
}

/// The writes that store `timetable`, in order: its namespace, its row, the
/// removal of its old activities, then one insert for each activity.
pub fn write_commands(timetable: &Timetable) -> (r: Vec<StoreCommand>)
    ensures
        r@.len() == 3 + timetable.activities@.len(),
        r@[0] == StoreCommand::InsertNamespace(timetable.descriptor.id.namespace),
        r@[1] matches StoreCommand::UpsertTimetable(row) && stores_timetable(*timetable, row),
        r@[2] matches StoreCommand::DeleteActivities(key) && key@ == db_id(timetable.descriptor.id),
        forall|i: int|
            0 <= i < timetable.activities@.len() ==> ((#[trigger] r@[3 + i]) matches StoreCommand::InsertActivity(
                row,
            ) && stores_activity(timetable.descriptor.id, timetable.activities@[i], row)),
{
    let mut r: Vec<StoreCommand> = Vec::new();
    r.push(StoreCommand::InsertNamespace(timetable.descriptor.id.namespace.clone()));
    r.push(StoreCommand::UpsertTimetable(timetable_row(timetable)));
    r.push(StoreCommand::DeleteActivities(as_db_id(&timetable.descriptor.id)));
    let mut i: usize = 0;
    while i < timetable.activities.len()
        invariant
            i <= timetable.activities@.len(),
            r@.len() == 3 + i,
            r@[0] == StoreCommand::InsertNamespace(timetable.descriptor.id.namespace),
            r@[1] matches StoreCommand::UpsertTimetable(row) && stores_timetable(*timetable, row),
            r@[2] matches StoreCommand::DeleteActivities(key) && key@ == db_id(timetable.descriptor.id),
            forall|j: int|
                0 <= j < i ==> ((#[trigger] r@[3 + j]) matches StoreCommand::InsertActivity(row) && stores_activity(
                    timetable.descriptor.id,
                    timetable.activities@[j],
                    row,
                )),
        decreases timetable.activities@.len() - i,
    {
        r.push(StoreCommand::InsertActivity(activity_row(&timetable.descriptor.id, &timetable.activities[i])));
        i = i + 1;
    }
    r
}

/// Reads one `activity` row; `None` where its occurrence lacks the weekday
/// or the date its kind needs.
pub fn activity_from_row(row: &ActivityRow) -> (r: Option<Activity>)
    ensures
        r == decoded_activity(*row),
{
    let occurrence = if str_eq(row.occurrence.as_str(), "special") {
        match &row.occurrence_date {
            Some(date) => Some(ActivityOccurrence::Special { date: date.clone() }),
            None => None,
        }
    } else {
        match row.occurrence_weekday {
            Some(code) => Some(ActivityOccurrence::Regular { weekday: Weekday::from_stored_code(code) }),
            None => None,
        }
    };
    match occurrence {
        Some(occurrence) => {
            let group_id = match parse_unsigned(row.group_id.as_str(), 255) {
                Some(v) => v as u8,
                None => 0,
            };
            Some(
                Activity {
                    id: row.activity_id.clone(),
                    name: row.name.clone(),
                    teacher: row.teacher.clone(),
                    occurrence,
                    group: ActivityGroup {
                        symbol: row.group_symbol.clone(),
                        name: row.group_name.clone(),
                        id: group_id,
                        number: row.group_number.clone(),
                    },
                    time: ActivityTime {
                        start_time: row.start_time.clone(),
                        end_time: row.end_time.clone(),
                        duration: row.duration.clone(),
                    },
                    room: row.room.clone(),
                },
            )
        },
        None => None,
    }
}

/// Reads a `timetable` row and the rows of its activities; `None` where the
/// row cannot be read. Activity rows that cannot be read are left out.
pub fn timetable_from_rows(row: &TimetableRow, activities: &Vec<ActivityRow>) -> (r: Option<Timetable>)
    ensures
        match r {
            Some(t) => decoded_timetable(*row, activities@) == Some(t@),
            None => decoded_timetable(*row, activities@) is None,
        },
{
    let number = match row.variant_value {
        Some(n) => if 0 <= n && n <= u32::MAX as i64 {
            Some(n as u32)
        } else {
            return None;
        },
        None => None,
    };
    let variant = match db_to_variant(row.variant.as_str(), number) {
        Some(v) => v,
        None => return None,
    };
    if row.update_time < 0 {
        return None;
    }
    let mut decoded: Vec<Activity> = Vec::new();
    let mut i: usize = 0;
    while i < activities.len()
        invariant
            i <= activities@.len(),
            decoded@ == decoded_activities(activities@.take(i as int)),
        decreases activities@.len() - i,
    {
        let a = activity_from_row(&activities[i]);
        assert(activities@.take(i + 1).drop_last() =~= activities@.take(i as int));
        assert(activities@.take(i + 1).last() == activities@[i as int]);
        match a {
            Some(a) => decoded.push(a),
            None => {},
        }
        i = i + 1;
    }
    assert(activities@.take(activities@.len() as int) =~= activities@);
    let id = TimetableId::new(row.namespace_id.clone(), row.timetable_id.clone());
    Some(
        Timetable::new(
            TimetableDescriptor::new(id, row.name.clone(), variant),
            decoded,
            UtcTime::from_seconds(row.update_time),
        ),
    )
}

/// A timetable written to the store reads back with the same descriptor and
/// activities and its update time cut to whole seconds, provided its update
/// time is not before the epoch (the store reads no earlier time).
pub proof fn law_store_round_trip(t: Timetable, row: TimetableRow, rows: Seq<ActivityRow>)
    requires
        t.update_time.seconds >= 0,
        stores_timetable(t, row),
        rows.len() == t.activities@.len(),
        forall|i: int| 0 <= i < rows.len() ==> stores_activity(t.descriptor.id, t.activities@[i], #[trigger] rows[i]),
    ensures
        decoded_timetable(row, rows) == Some(
            TimetableView {
                descriptor: t.descriptor,
                activities: t.activities@,
                update_time: t.update_time.spec_truncated(),
            },
        ),
{
    reveal_strlit("semester");
    reveal_strlit("year");
    reveal_strlit("unique");
    lemma_activities_round_trip(t.descriptor.id, t.activities@, rows);
    let v = t.descriptor.variant;
    assert(stored_number(row.variant_value) == Some(
        match v {
            TimetableVariant::Semester(n) => Some(n),
            TimetableVariant::Year(n) => Some(n),
            TimetableVariant::Unique => None::<u32>,
        },
    ));
    assert("semester"@.len() == 8 && "year"@.len() == 4 && "unique"@.len() == 6);
    assert("semester"@ != "year"@);
    assert("unique"@ != "year"@ && "unique"@ != "semester"@);
    assert(decoded_variant(row.variant@, stored_number(row.variant_value).unwrap()) == Some(v));
    assert(t.activities@.take(t.activities@.len() as int) =~= t.activities@);
    assert(rows.take(rows.len() as int) =~= rows);
}

proof fn lemma_activities_round_trip(id: TimetableId, acts: Seq<Activity>, rows: Seq<ActivityRow>)
    requires
        rows.len() == acts.len(),
        forall|i: int| 0 <= i < rows.len() ==> stores_activity(id, acts[i], #[trigger] rows[i]),
    ensures
        decoded_activities(rows) == acts,
    decreases rows.len(),
{
    reveal_strlit("special");
    reveal_strlit("regular");
    if rows.len() > 0 {
        let n = rows.len() - 1;
        lemma_activities_round_trip(id, acts.drop_last(), rows.drop_last());
        let a = acts[n];
        let row = rows[n];
        assert(stores_activity(id, a, row));
        lemma_decimal_round_trip(a.group.id as nat);
        assert(decoded_group_id(row.group_id@) == a.group.id);
        assert("regular"@[0] != "special"@[0]);
        assert("regular"@ != "special"@);
        assert(row_occurrence(row.occurrence@, row.occurrence_weekday, row.occurrence_date) == Some(a.occurrence));
        assert(decoded_activity(row) == Some(a));
        assert(acts.drop_last().push(a) =~= acts);
    }
}

#[verifier::external_type_specification]
#[verifier::external_body]
#[verifier::reject_recursive_types(T)]
pub struct ExSender<T>(Sender<T>);

/// Relies on `Sender::send`: it hands the timetable to the store's task and
/// fails only where that task's receiver is gone.
#[verifier::external_body]
fn hand_to_store(sender: &Sender<Timetable>, timetable: Timetable) -> (r: bool) {
    sender.send(timetable).is_ok()
}

/// The writer of a repository backed by the durable store: each timetable
/// goes to the in-memory index, then to the task that writes the store.
pub struct SqliteConsumer {
    consumer: InMemoryWriter,
    sender: Sender<Timetable>,
    handed_over: bool,
}

impl SqliteConsumer {
    /// The in-memory writer this consumer updates.
    pub closed spec fn writer(&self) -> InMemoryWriter {
        self.consumer
    }

    /// Whether the store's task took the timetable of the last write; true
    /// before any write.
    pub closed spec fn spec_last_handed_over(&self) -> bool {
        self.handed_over
    }

    pub fn new(consumer: InMemoryWriter, sender: Sender<Timetable>) -> (r: SqliteConsumer)
        ensures
            r.writer() == consumer,
            r.ready() == consumer.ready(),
            r.model() == consumer.model(),
            r.spec_last_handed_over(),
    {
        SqliteConsumer { consumer, sender, handed_over: true }
    }

    /// Whether the store's task took the timetable of the last write.
    pub fn last_handed_over(&self) -> (r: bool)
        ensures
            r == self.spec_last_handed_over(),
    {
        self.handed_over
    }

    /// Stores `timetable` in the index and hands a copy to the store; returns
    /// whether the store's task took it. The index is updated whatever the
    /// store does: a store that is gone is not rolled back into it.
    pub fn write(&mut self, timetable: Timetable) -> (r: bool)
        requires
            old(self).ready(),
        ensures
            final(self).ready(),
            final(self).model() == old(self).model().insert(timetable.key(), timetable@),
            final(self).writer().handle() == old(self).writer().handle(),
            final(self).spec_last_handed_over() == r,
    {
        let copy = timetable.clone();
        self.consumer.store(copy);
        let r = hand_to_store(&self.sender, timetable);
        self.handed_over = r;
        r
    }
}

impl TimetableConsumer for SqliteConsumer {
    closed spec fn ready(&self) -> bool {
        self.consumer.ready()
    }

    closed spec fn model(&self) -> Map<TimetableKey, TimetableView> {
        self.consumer.model()
    }

    fn consume(&mut self, timetable: Timetable) {
        let _ = self.write(timetable);
    }
}

} // verus!
