use vstd::prelude::*;

verus! {

/// A point in UTC time: whole seconds since the Unix epoch and the nanoseconds
/// past that second.
#[derive(Clone, Copy, PartialEq, Eq, Structural, Debug)]
pub struct UtcTime {
    pub seconds: i64,
    pub nanos: u32,
}

impl UtcTime {
    pub open spec fn wf(self) -> bool {
        self.nanos < 1_000_000_000
    }

    /// The same instant with its fraction of a second dropped.
    pub open spec fn spec_truncated(self) -> UtcTime {
        UtcTime { seconds: self.seconds, nanos: 0 }
    }

    pub fn from_seconds(seconds: i64) -> (r: UtcTime)
        ensures
            r == (UtcTime { seconds, nanos: 0 }),
            r.wf(),
    {
        UtcTime { seconds, nanos: 0 }
    }

    pub fn truncated(&self) -> (r: UtcTime)
        ensures
            r == self.spec_truncated(),
    {
        UtcTime { seconds: self.seconds, nanos: 0 }
    }
}

/// Identity of a timetable: the namespace (upstream source) and the id there.
#[derive(Debug)]
pub struct TimetableId {
    pub namespace: String,
    pub id: String,
}

impl View for TimetableId {
    type V = (Seq<char>, Seq<char>);

    open spec fn view(&self) -> (Seq<char>, Seq<char>) {
        (self.namespace@, self.id@)
    }
}

impl TimetableId {
    pub fn new(namespace: String, id: String) -> (r: TimetableId)
        ensures
            r.namespace == namespace,
            r.id == id,
    {
        TimetableId { namespace, id }
    }

    /// The display form `"{namespace}:{id}"`.
    pub fn to_string(&self) -> (r: String)
        ensures
            r@ == self.namespace@ + seq![':'] + self.id@,
    {
        let mut r = self.namespace.clone();
        let sep = ":";
        proof {
            reveal_strlit(":");
        }
        r.append(sep);
        r.append(self.id.as_str());
        r
    }
}

impl Clone for TimetableId {
    fn clone(&self) -> (r: Self)
        ensures
            r == *self,
    {
        TimetableId { namespace: self.namespace.clone(), id: self.id.clone() }
    }
}

impl PartialEq for TimetableId {
    fn eq(&self, other: &TimetableId) -> (r: bool) {
        self.namespace == other.namespace && self.id == other.id
    }
}

impl vstd::std_specs::cmp::PartialEqSpecImpl for TimetableId {
    open spec fn obeys_eq_spec() -> bool {
        true
    }

    open spec fn eq_spec(&self, other: &TimetableId) -> bool {
        self@ == other@
    }
}

impl Eq for TimetableId {
}

/// The scope of a timetable: one semester, one year of study, or neither.
#[derive(Clone, Copy, PartialEq, Eq, Structural, Debug)]
pub enum TimetableVariant {
    Semester(u32),
    Year(u32),
    Unique,
}

/// The listing projection of a timetable.
#[derive(Debug)]
pub struct TimetableDescriptor {
    pub id: TimetableId,
    pub name: String,
    pub variant: TimetableVariant,
}

impl TimetableDescriptor {
    pub fn new(id: TimetableId, name: String, variant: TimetableVariant) -> (r: TimetableDescriptor)
        ensures
            r.id == id,
            r.name == name,
            r.variant == variant,
    {
        TimetableDescriptor { id, name, variant }
    }
}

impl Clone for TimetableDescriptor {
    fn clone(&self) -> (r: Self)
        ensures
            r == *self,
    {
        TimetableDescriptor { id: self.id.clone(), name: self.name.clone(), variant: self.variant }
    }
}

/// Day of the week of a regular activity.
#[derive(Clone, Copy, PartialEq, Eq, Structural, Debug)]
pub enum Weekday {
    Monday,
    Tuesday,
    Wednesday,
    Thursday,
    Friday,
    Saturday,
    Sunday,
}

/// Decoding of a weekday code: 1 to 5 are Monday to Friday, 7 is Saturday,
/// and every other code, 6 among them, falls through to Sunday.
pub open spec fn weekday_of_code(code: u8) -> Weekday {
    if code == 1 {
        Weekday::Monday
    } else if code == 2 {
        Weekday::Tuesday
    } else if code == 3 {
        Weekday::Wednesday
    } else if code == 4 {
        Weekday::Thursday
    } else if code == 5 {
        Weekday::Friday
    } else if code == 7 {
        Weekday::Saturday
    } else {
        Weekday::Sunday
    }
}

/// Decoding of a weekday code read back from the store, where weekdays are
/// written as 1 (Monday) to 7 (Sunday): 1 to 6 are Monday to Saturday, and
/// every other code, 7 among them, falls through to Sunday.
pub open spec fn weekday_of_stored_code(code: u8) -> Weekday {
    if code == 1 {
        Weekday::Monday
    } else if code == 2 {
        Weekday::Tuesday
    } else if code == 3 {
        Weekday::Wednesday
    } else if code == 4 {
        Weekday::Thursday
    } else if code == 5 {
        Weekday::Friday
    } else if code == 6 {
        Weekday::Saturday
    } else {
        Weekday::Sunday
    }
}

/// Encoding of a weekday as 1 (Monday) to 7 (Sunday).
pub open spec fn code_of_weekday(day: Weekday) -> u8 {
    match day {
        Weekday::Monday => 1,
        Weekday::Tuesday => 2,
        Weekday::Wednesday => 3,
        Weekday::Thursday => 4,
        Weekday::Friday => 5,
        Weekday::Saturday => 6,
        Weekday::Sunday => 7,
    }
}

impl From<u8> for Weekday {
    fn from(code: u8) -> (r: Weekday)
        ensures
            r == weekday_of_code(code),
    {
        match code {
            1 => Weekday::Monday,
            2 => Weekday::Tuesday,
            3 => Weekday::Wednesday,
            4 => Weekday::Thursday,
            5 => Weekday::Friday,
            7 => Weekday::Saturday,
            _ => Weekday::Sunday,
        }
    }
}

impl Weekday {
    /// Reads a weekday code written by the store.
    pub fn from_stored_code(code: u8) -> (r: Weekday)
        ensures
            r == weekday_of_stored_code(code),
    {
        match code {
            1 => Weekday::Monday,
            2 => Weekday::Tuesday,
            3 => Weekday::Wednesday,
            4 => Weekday::Thursday,
            5 => Weekday::Friday,
            6 => Weekday::Saturday,
            _ => Weekday::Sunday,
        }
    }
}

impl vstd::std_specs::convert::FromSpecImpl<u8> for Weekday {
    open spec fn obeys_from_spec() -> bool {
        true
    }

    open spec fn from_spec(v: u8) -> Weekday {
        weekday_of_code(v)
    }
}

impl From<Weekday> for u8 {
    fn from(day: Weekday) -> (r: u8)
        ensures
            r == code_of_weekday(day),
    {
        match day {
            Weekday::Monday => 1,
            Weekday::Tuesday => 2,
            Weekday::Wednesday => 3,
            Weekday::Thursday => 4,
            Weekday::Friday => 5,
            Weekday::Saturday => 6,
            Weekday::Sunday => 7,
        }
    }
}

impl vstd::std_specs::convert::FromSpecImpl<Weekday> for u8 {
    open spec fn obeys_from_spec() -> bool {
        true
    }

    open spec fn from_spec(v: Weekday) -> u8 {
        code_of_weekday(v)
    }
}

/// When an activity takes place: every week on a weekday, or once on a date.
#[derive(Debug)]
pub enum ActivityOccurrence {
    Regular { weekday: Weekday },
    Special { date: String },
}

impl Clone for ActivityOccurrence {
    fn clone(&self) -> (r: Self)
        ensures
            r == *self,
    {
        match self {
            ActivityOccurrence::Regular { weekday } => ActivityOccurrence::Regular {
                weekday: *weekday,
            },
            ActivityOccurrence::Special { date } => ActivityOccurrence::Special {
                date: date.clone(),
            },
        }
    }
}

/// The kind of an activity (lecture, lab, ...) and the student group it is for.
#[derive(Debug)]
pub struct ActivityGroup {
    pub symbol: String,
    pub name: String,
    pub id: u8,
    pub number: Option<String>,
}

impl Clone for ActivityGroup {
    fn clone(&self) -> (r: Self)
        ensures
            r == *self,
    {
        ActivityGroup {
            symbol: self.symbol.clone(),
            name: self.name.clone(),
            id: self.id,
            number: self.number.clone(),
        }
    }
}

/// Start, end and length of an activity, kept as the source wrote them.
#[derive(Debug)]
pub struct ActivityTime {
    pub start_time: String,
    pub end_time: String,
    pub duration: String,
}

impl Clone for ActivityTime {
    fn clone(&self) -> (r: Self)
        ensures
            r == *self,
    {
        ActivityTime {
            start_time: self.start_time.clone(),
            end_time: self.end_time.clone(),
            duration: self.duration.clone(),
        }
    }
}

/// One entry of a timetable.
#[derive(Debug)]
pub struct Activity {
    pub id: String,
    pub name: String,
    pub teacher: Option<String>,
    pub occurrence: ActivityOccurrence,
    pub group: ActivityGroup,
    pub time: ActivityTime,
    pub room: Option<String>,
}

impl Clone for Activity {
    fn clone(&self) -> (r: Self)
        ensures
            r == *self,
    {
        Activity {
            id: self.id.clone(),
            name: self.name.clone(),
            teacher: self.teacher.clone(),
            occurrence: self.occurrence.clone(),
            group: self.group.clone(),
            time: self.time.clone(),
            room: self.room.clone(),
        }
    }
}

/// A timetable: its descriptor, its activities in order, and when it was fetched.
#[derive(Debug)]
pub struct Timetable {
    pub descriptor: TimetableDescriptor,
    pub activities: Vec<Activity>,
    pub update_time: UtcTime,
}

/// What a timetable holds, with its activities as a sequence.
pub struct TimetableView {
    pub descriptor: TimetableDescriptor,
    pub activities: Seq<Activity>,
    pub update_time: UtcTime,
}

impl View for Timetable {
    type V = TimetableView;

    open spec fn view(&self) -> TimetableView {
        TimetableView {
            descriptor: self.descriptor,
            activities: self.activities@,
            update_time: self.update_time,
        }
    }
}

impl Timetable {
    pub fn new(descriptor: TimetableDescriptor, activities: Vec<Activity>, update_time: UtcTime) -> (r: Timetable)
        ensures
            r.descriptor == descriptor,
            r.activities@ == activities@,
            r.update_time == update_time,
    {
        Timetable { descriptor, activities, update_time }
    }

    /// The key under which the repository stores this timetable.
    pub open spec fn key(&self) -> (Seq<char>, Seq<char>) {
        self.descriptor.id@
    }
}

impl Clone for Timetable {
    fn clone(&self) -> (r: Self)
        ensures
            r@ == self@,
    {
        let activities = self.activities.clone();
        assert(activities@ =~= self.activities@);
        Timetable {
            descriptor: self.descriptor.clone(),
            activities,
            update_time: self.update_time,
        }
    }
}

} // verus!
