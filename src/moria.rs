use vstd::prelude::*;

use crate::text::{decimal, decimal_string, digit_value, is_digit, parse_unsigned, str_eq, trim, trimmed, unsigned_value};
use crate::timetable::{
    weekday_of_code, Activity, ActivityGroup, ActivityOccurrence, ActivityTime, Timetable, TimetableDescriptor,
    TimetableId, TimetableVariant, UtcTime, Weekday,
};

verus! {

/// An entry of the upstream list of timetables.
#[derive(Debug)]
pub struct MoriaTimetableId {
    pub id: u64,
    pub name: String,
}

/// One upstream activity record.
#[derive(Debug)]
pub struct MoriaEventWrapper {
    pub id: u32,
    pub event_array: Vec<MoriaEvent>,
    pub subject: String,
    pub teacher_array: Vec<MoriaTeacher>,
    pub students_array: Option<Vec<MoriaStudentGroup>>,
    pub kind: MoriaEventType,
}

/// When and where an upstream activity takes place.
#[derive(Debug)]
pub struct MoriaEvent {
    pub room: String,
    pub start_time: String,
    pub end_time: String,
    pub length: String,
    pub weekday: u8,
}

#[derive(Debug)]
pub struct MoriaTeacher {
    pub name: String,
}

/// The kind of an upstream activity.
#[derive(Debug)]
pub struct MoriaEventType {
    pub name: String,
    pub id: u8,
    pub shortcut: String,
}

/// A student roster entry of an upstream activity.
#[derive(Debug)]
pub struct MoriaStudentGroup {
    pub id: u32,
    pub group: String,
    pub groups: String,
}

/// The namespace of the timetables this source provides.
pub open spec fn moria_namespace() -> Seq<char> {
    "moria"@
}

/// The ids and display names of the upstream list, in order.
pub fn timetable_ids(list: &Vec<MoriaTimetableId>) -> (r: Vec<(TimetableId, String)>)
    ensures
        r@.len() == list@.len(),
        forall|i: int|
            0 <= i < r@.len() ==> {
                &&& (#[trigger] r@[i]).0.namespace@ == moria_namespace()
                &&& r@[i].0.id@ == decimal(list@[i].id as nat)
                &&& r@[i].1 == list@[i].name
            },
{
    let mut r: Vec<(TimetableId, String)> = Vec::new();
    let mut i: usize = 0;
    while i < list.len()
        invariant
            i <= list@.len(),
            r@.len() == i,
            forall|j: int|
                0 <= j < i ==> {
                    &&& (#[trigger] r@[j]).0.namespace@ == moria_namespace()
                    &&& r@[j].0.id@ == decimal(list@[j].id as nat)
                    &&& r@[j].1 == list@[j].name
                },
        decreases list@.len() - i,
    {
        let entry = &list[i];
        let id = TimetableId::new(String::from_str("moria"), decimal_string(entry.id));
        r.push((id, entry.name.clone()));
        i = i + 1;
    }
    r
}

/// A record is kept when it has an event and a non-empty student roster.
pub open spec fn usable(w: MoriaEventWrapper) -> bool {
    &&& w.event_array@.len() > 0
    &&& w.students_array matches Some(students) && students@.len() > 0
}

/// Whether `w` is kept.
pub fn is_usable(w: &MoriaEventWrapper) -> (r: bool)
    ensures
        r == usable(*w),
{
    let has_event = w.event_array.len() > 0;
    let has_students = match &w.students_array {
        Some(students) => students.len() > 0,
        None => false,
    };
    has_event && has_students
}

/// A roster entry names the group of timetable `id` unless its groups code is `"1"`.
pub open spec fn names_group(s: MoriaStudentGroup, id: u32) -> bool {
    s.id == id && s.groups@ != "1"@
}

/// The group of the first roster entry that names timetable `id`.
pub open spec fn first_group(students: Seq<MoriaStudentGroup>, id: u32) -> Option<String>
    decreases students.len(),
{
    if students.len() == 0 {
        None
    } else if names_group(students[0], id) {
        Some(students[0].group)
    } else {
        first_group(students.drop_first(), id)
    }
}

/// The group number that the roster gives timetable `id`.
pub fn group_number(students: &Vec<MoriaStudentGroup>, id: u32) -> (r: Option<String>)
    ensures
        r == first_group(students@, id),
{
    let mut i: usize = 0;
    assert(students@.skip(0) =~= students@);
    while i < students.len()
        invariant
            i <= students@.len(),
            first_group(students@, id) == first_group(students@.skip(i as int), id),
        decreases students@.len() - i,
    {
        let s = &students[i];
        assert(students@.skip(i as int)[0] == *s);
        assert(students@.skip(i as int).drop_first() =~= students@.skip(i + 1));
        if s.id == id && !str_eq(s.groups.as_str(), "1") {
            return Some(s.group.clone());
        }
        i = i + 1;
    }
    assert(students@.skip(i as int) =~= Seq::<MoriaStudentGroup>::empty());
    None
}

/// `a` is the activity that record `w` gives with `event`, `teacher` and
/// `group`.
pub open spec fn activity_of(
    w: MoriaEventWrapper,
    event: MoriaEvent,
    teacher: Option<String>,
    group: Option<String>,
    a: Activity,
) -> bool {
    &&& a.id@ == decimal(w.id as nat)
    &&& a.name == w.subject
    &&& a.teacher == teacher
    &&& a.occurrence == ActivityOccurrence::Regular { weekday: weekday_of_code(event.weekday) }
    &&& a.group == ActivityGroup {
        symbol: w.kind.shortcut,
        name: w.kind.name,
        id: w.kind.id,
        number: group,
    }
    &&& a.time == ActivityTime {
        start_time: event.start_time,
        end_time: event.end_time,
        duration: event.length,
    }
    &&& a.room == Some(event.room)
}

/// Maps one record, with its event, teacher and group, into an activity.
pub fn to_activity(
    wrapper: &MoriaEventWrapper,
    event: &MoriaEvent,
    teacher: Option<String>,
    group: Option<String>,
) -> (r: Activity)
    ensures
        activity_of(*wrapper, *event, teacher, group, r),
{
    Activity {
        id: decimal_string(wrapper.id as u64),
        name: wrapper.subject.clone(),
        teacher,
        occurrence: ActivityOccurrence::Regular { weekday: Weekday::from(event.weekday) },
        group: ActivityGroup {
            symbol: wrapper.kind.shortcut.clone(),
            name: wrapper.kind.name.clone(),
            id: wrapper.kind.id,
            number: group,
        },
        time: ActivityTime {
            start_time: event.start_time.clone(),
            end_time: event.end_time.clone(),
            duration: event.length.clone(),
        },
        room: Some(event.room.clone()),
    }
}

/// The number of a timetable id as the roster writes it; 0 where the id is
/// not a `u32`.
pub open spec fn id_number(id: Seq<char>) -> u32 {
    match unsigned_value(id) {
        Some(v) => if v <= u32::MAX {
            v as u32
        } else {
            0
        },
        None => 0,
    }
}

/// The records that are kept, in order.
pub open spec fn usable_records(ws: Seq<MoriaEventWrapper>) -> Seq<MoriaEventWrapper>
    decreases ws.len(),
{
    if ws.len() == 0 {
        Seq::empty()
    } else {
        let init = usable_records(ws.drop_last());
        if usable(ws.last()) {
            init.push(ws.last())
        } else {
            init
        }
    }
}

/// Filtering: every record kept is usable and comes from the input, and
/// nothing is kept exactly when no record of the input is usable.
pub proof fn law_filtering(ws: Seq<MoriaEventWrapper>)
    ensures
        forall|i: int|
            0 <= i < usable_records(ws).len() ==> usable(#[trigger] usable_records(ws)[i]) && ws.contains(
                usable_records(ws)[i],
            ),
        usable_records(ws).len() == 0 <==> forall|j: int| 0 <= j < ws.len() ==> !usable(#[trigger] ws[j]),
    decreases ws.len(),
{
    if ws.len() > 0 {
        let init = ws.drop_last();
        law_filtering(init);
        let kept = usable_records(ws);
        assert forall|i: int| 0 <= i < kept.len() implies usable(#[trigger] kept[i]) && ws.contains(kept[i]) by {
            if i < usable_records(init).len() {
                assert(kept[i] == usable_records(init)[i]);
                let j = choose|j: int| 0 <= j < init.len() && init[j] == kept[i];
                assert(ws[j] == kept[i]);
            } else {
                assert(kept[i] == ws.last());
                assert(ws[ws.len() - 1] == kept[i]);
            }
        }
        if kept.len() == 0 {
            assert forall|j: int| 0 <= j < ws.len() implies !usable(#[trigger] ws[j]) by {
                if j < ws.len() - 1 {
                    assert(ws[j] == init[j]);
                }
            }
        }
        if forall|j: int| 0 <= j < ws.len() ==> !usable(#[trigger] ws[j]) {
            assert(!usable(ws[ws.len() - 1]));
            assert forall|j: int| 0 <= j < init.len() implies !usable(#[trigger] init[j]) by {
                assert(ws[j] == init[j]);
            }
        }
    }
}

/// `a` is the activity that the kept record `w` gives in timetable `id`:
/// its first event, its first teacher, and its group for that timetable.
pub open spec fn converts(w: MoriaEventWrapper, id: Seq<char>, a: Activity) -> bool {
    activity_of(
        w,
        w.event_array@[0],
        if w.teacher_array@.len() > 0 {
            Some(w.teacher_array@[0].name)
        } else {
            None
        },
        first_group(w.students_array->0@, id_number(id)),
        a,
    )
}

/// The activities of timetable `id` that the upstream records give: one for
/// each kept record, in order.
pub fn convert_activities(id: &str, wrappers: &Vec<MoriaEventWrapper>) -> (r: Vec<Activity>)
    ensures
        r@.len() == usable_records(wrappers@).len(),
        forall|i: int| 0 <= i < r@.len() ==> converts(usable_records(wrappers@)[i], id@, #[trigger] r@[i]),
{
    let id_num: u32 = match parse_unsigned(id, u32::MAX) {
        Some(v) => v,
        None => 0,
    };
    let mut r: Vec<Activity> = Vec::new();
    let mut i: usize = 0;
    while i < wrappers.len()
        invariant
            i <= wrappers@.len(),
            id_num == id_number(id@),
            r@.len() == usable_records(wrappers@.take(i as int)).len(),
            forall|j: int|
                0 <= j < r@.len() ==> converts(usable_records(wrappers@.take(i as int))[j], id@, #[trigger] r@[j]),
        decreases wrappers@.len() - i,
    {
        let w = &wrappers[i];
        let ghost before = wrappers@.take(i as int);
        assert(wrappers@.take(i + 1).drop_last() =~= before);
        assert(wrappers@.take(i + 1).last() == *w);
        if is_usable(w) {
            let event = &w.event_array[0];
            let teacher = if w.teacher_array.len() > 0 {
                Some(w.teacher_array[0].name.clone())
            } else {
                None
            };
            let group = match &w.students_array {
                Some(students) => group_number(students, id_num),
                None => None,
            };
            r.push(to_activity(w, event, teacher, group));
        }
        i = i + 1;
    }
    assert(wrappers@.take(wrappers@.len() as int) =~= wrappers@);
    r
}

/// The display name and variant that an upstream name stands for: a digit
/// followed by a space gives that year and the rest of the name, trimmed;
/// any other name is kept as it is, with no variant.
pub open spec fn parsed_name(name: Seq<char>) -> (Seq<char>, TimetableVariant) {
    if name.len() >= 2 && is_digit(name[0]) && name[1] == ' ' {
        (trimmed(name.subrange(2, name.len() as int)), TimetableVariant::Year(digit_value(name[0]) as u32))
    } else {
        (name, TimetableVariant::Unique)
    }
}

/// Splits an upstream display name into a name and a variant.
pub fn parse_variant(name: String) -> (r: (String, TimetableVariant))
    ensures
        r.0@ == parsed_name(name@).0,
        r.1 == parsed_name(name@).1,
        !(name@.len() >= 2 && is_digit(name@[0]) && name@[1] == ' ') ==> r.0 == name,
{
    let len = name.unicode_len();
    if len >= 2 {
        let first = name.get_char(0);
        let second = name.get_char(1);
        if '0' <= first && first <= '9' && second == ' ' {
            let year = (first as u32) - ('0' as u32);
            let rest = trim(name.as_str().substring_char(2, len));
            return (String::from_str(rest), TimetableVariant::Year(year));
        }
    }
    (name, TimetableVariant::Unique)
}

/// The timetable that an id, its upstream name, its converted activities and
/// a fetch time give; none where no activity is left.
pub fn prepare_timetable(id: TimetableId, name: String, activities: Vec<Activity>, now: UtcTime) -> (r: Option<Timetable>)
    ensures
        r is None <==> activities@.len() == 0,
        r matches Some(t) ==> {
            &&& t.descriptor.id == id
            &&& t.descriptor.name@ == parsed_name(name@).0
            &&& t.descriptor.variant == parsed_name(name@).1
            &&& t.activities@ == activities@
            &&& t.update_time == now
        },
{
    if activities.len() == 0 {
        return None;
    }
    let (name, variant) = parse_variant(name);
    Some(Timetable::new(TimetableDescriptor::new(id, name, variant), activities, now))
}

/// The timetable that upstream records give for one listed id, fetched at
/// `now`: records without an event or a roster are left out, and an id left
/// with no activity gives none.
pub fn timetable_from_records(id: TimetableId, name: String, records: &Vec<MoriaEventWrapper>, now: UtcTime) -> (r:
    Option<Timetable>)
    ensures
        r is None <==> usable_records(records@).len() == 0,
        r matches Some(t) ==> {
            &&& t.descriptor.id == id
            &&& t.descriptor.name@ == parsed_name(name@).0
            &&& t.descriptor.variant == parsed_name(name@).1
            &&& t.activities@.len() == usable_records(records@).len()
            &&& forall|i: int|
                0 <= i < t.activities@.len() ==> converts(
                    usable_records(records@)[i],
                    id.id@,
                    #[trigger] t.activities@[i],
                )
            &&& t.update_time == now
        },
{
    let activities = convert_activities(id.id.as_str(), records);
    prepare_timetable(id, name, activities, now)
}

/// Relies on `chrono::Utc::now`: the current time, built from the system
/// clock's distance to the epoch, so neither before the epoch nor with a
/// fraction of a second of one second or more.
#[verifier::external_body]
fn now_utc() -> (r: UtcTime)
    ensures
        r.wf(),
        r.seconds >= 0,
{
    let now = chrono::Utc::now();
    UtcTime { seconds: now.timestamp(), nanos: now.timestamp_subsec_nanos() }
}

/// The timetable that upstream records give for one listed id, stamped
/// with the current time.
pub fn sync_timetable(id: TimetableId, name: String, records: &Vec<MoriaEventWrapper>) -> (r: Option<Timetable>)
    ensures
        r is None <==> usable_records(records@).len() == 0,
        r matches Some(t) ==> {
            &&& t.descriptor.id == id
            &&& t.descriptor.name@ == parsed_name(name@).0
            &&& t.descriptor.variant == parsed_name(name@).1
            &&& t.activities@.len() == usable_records(records@).len()
            &&& forall|i: int|
                0 <= i < t.activities@.len() ==> converts(
                    usable_records(records@)[i],
                    id.id@,
                    #[trigger] t.activities@[i],
                )
            &&& t.update_time.wf()
            &&& t.update_time.seconds >= 0
        },
{
    let now = now_utc();
    timetable_from_records(id, name, records, now)
}

} // verus!
