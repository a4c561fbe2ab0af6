//! The site's two-step protocol: what is sent to it, and how its documents
//! are read. Requests and responses travel as plain strings; sending them is
//! the caller's part.

use vstd::prelude::*;
use crate::model::{Appointment, AppointmentView};
use crate::text::{find_char, find_from, strip_leading, strip_leading_char};

verus! {

/// The two embedded-data elements of a catalog document.
#[derive(Clone, Copy, Debug, PartialEq, Eq, Structural)]
pub enum CatalogField {
    /// The list of appointments, in the element `ApptInfo`.
    Appointments,
    /// The list of days, in the element `hdnDates`.
    Dates,
}

/// What can go wrong while a document of the site is read.
#[derive(Clone, Copy, Debug, PartialEq, Eq, Structural)]
pub enum SiteError {
    /// The catalog document lacks an embedded-data element, or the element has no value.
    MissingField(CatalogField),
    /// An embedded value is not the JSON that was expected.
    Decode,
    /// A date has no calendar day of the form year, month, day at its start.
    MalformedDate,
}

/// The fields that every appointment payload carries besides the
/// appointment's own, with their fixed values.
pub open spec fn default_field_table() -> Seq<(Seq<char>, Seq<char>)> {
    seq![
        ("RecurrenceInfo"@, ""@),
        ("AppointmentType"@, "0"@),
        ("Subject"@, ""@),
        ("AllDay"@, "false"@),
        ("ResourceId"@, ""@),
        ("Status"@, "0"@),
        ("ProductId"@, "00000000-0000-0000-0000-000000000000"@),
        ("ProgramDescription"@, ""@),
        ("ProgramInstanceId"@, "00000000-0000-0000-0000-000000000000"@),
        ("NumberRegistered"@, "0"@),
        ("NumberOnWaitlist"@, "0"@),
        ("ClassSize"@, "12"@),
        ("PortalURL"@, ""@),
        ("InstructorFirstNameLastInitial"@, ""@),
        ("IsInstructor"@, "false"@),
        ("InstructorId"@, "00000000-0000-0000-0000-000000000000"@),
        ("IsRecurring"@, "false"@),
    ]
}

/// The characters of a sequence of pairs of string slices.
pub open spec fn slice_pairs_view(s: Seq<(&'static str, &'static str)>) -> Seq<
    (Seq<char>, Seq<char>),
> {
    Seq::new(s.len(), |i: int| (s[i].0@, s[i].1@))
}

/// The characters of a sequence of pairs of strings.
pub open spec fn pairs_view(s: Seq<(String, String)>) -> Seq<(Seq<char>, Seq<char>)> {
    Seq::new(s.len(), |i: int| (s[i].0@, s[i].1@))
}

/// The default fields carried over in each appointment payload.
pub fn default_fields() -> (r: Vec<(&'static str, &'static str)>)
    ensures
        slice_pairs_view(r@) == default_field_table(),
{
    let r = vec![
        ("RecurrenceInfo", ""),
        ("AppointmentType", "0"),
        ("Subject", ""),
        ("AllDay", "false"),
        ("ResourceId", ""),
        ("Status", "0"),
        ("ProductId", "00000000-0000-0000-0000-000000000000"),
        ("ProgramDescription", ""),
        ("ProgramInstanceId", "00000000-0000-0000-0000-000000000000"),
        ("NumberRegistered", "0"),
        ("NumberOnWaitlist", "0"),
        ("ClassSize", "12"),
        ("PortalURL", ""),
        ("InstructorFirstNameLastInitial", ""),
        ("IsInstructor", "false"),
        ("InstructorId", "00000000-0000-0000-0000-000000000000"),
        ("IsRecurring", "false"),
    ];
    assert(slice_pairs_view(r@) =~= default_field_table());
    r
}

/// Year, month and day of a date, as the filter form wants them.
#[derive(Debug)]
pub struct DateParts {
    pub year: String,
    pub month: String,
    pub day: String,
}

/// What a [`DateParts`] is, as sequences of characters.
pub ghost struct DatePartsView {
    pub year: Seq<char>,
    pub month: Seq<char>,
    pub day: Seq<char>,
}

impl View for DateParts {
    type V = DatePartsView;

    open spec fn view(&self) -> DatePartsView {
        DatePartsView { year: self.year@, month: self.month@, day: self.day@ }
    }
}

/// The calendar day of a date: its first ten characters.
pub open spec fn day_of(date: Seq<char>) -> Seq<char>
    recommends
        date.len() >= 10,
{
    date.subrange(0, 10)
}

/// A date starts with a calendar day in which two hyphens part year, month and day.
pub open spec fn well_formed_date(date: Seq<char>) -> bool {
    &&& date.len() >= 10
    &&& find_from(day_of(date), '-', 0) < 10
    &&& find_from(day_of(date), '-', find_from(day_of(date), '-', 0) + 1) < 10
}

/// Year, month and day of a well-formed date: the three pieces of its
/// calendar day between hyphens, month and day without the zeros they start with.
pub open spec fn date_parts_of(date: Seq<char>) -> DatePartsView {
    let day = day_of(date);
    let h1 = find_from(day, '-', 0);
    let h2 = find_from(day, '-', h1 + 1);
    let h3 = find_from(day, '-', h2 + 1);
    DatePartsView {
        year: day.subrange(0, h1),
        month: strip_leading(day.subrange(h1 + 1, h2), '0'),
        day: strip_leading(day.subrange(h2 + 1, h3), '0'),
    }
}

/// Derives year, month and day from a date; `None` exactly for a date that is not well formed.
pub fn date_parts(date_iso: &str) -> (r: Option<DateParts>)
    ensures
        match r {
            Some(p) => well_formed_date(date_iso@) && p@ == date_parts_of(date_iso@),
            None => !well_formed_date(date_iso@),
        },
{
    if date_iso.unicode_len() < 10 {
        return None;
    }
    let day = date_iso.substring_char(0, 10);
    let h1 = find_char(day, '-', 0);
    if h1 >= 10 {
        return None;
    }
    let h2 = find_char(day, '-', h1 + 1);
    if h2 >= 10 {
        return None;
    }
    let h3 = find_char(day, '-', h2 + 1);
    let year = String::from_str(day.substring_char(0, h1));
    let month = strip_leading_char(day.substring_char(h1 + 1, h2), '0');
    let day_of_month = strip_leading_char(day.substring_char(h2 + 1, h3), '0');
    Some(DateParts { year, month, day: day_of_month })
}

/// Deriving the parts of a date rests on its calendar day alone: the day
/// taken for a date gives the same parts as the date, and taking it again
/// changes nothing.
pub proof fn law_date_parts_rest_on_the_day(date: Seq<char>)
    requires
        date.len() >= 10,
    ensures
        day_of(day_of(date)) == day_of(date),
        well_formed_date(day_of(date)) == well_formed_date(date),
        date_parts_of(day_of(date)) == date_parts_of(date),
{
    assert(day_of(day_of(date)) =~= day_of(date));
}

/// The program segment of an appointment id: what stands before its first
/// hyphen, where it has one.
pub open spec fn program_segment_of(id: Seq<char>) -> Option<Seq<char>> {
    if find_from(id, '-', 0) < id.len() {
        Some(id.subrange(0, find_from(id, '-', 0)))
    } else {
        None
    }
}

/// The program segment of an appointment id; `None` exactly for an id without a hyphen.
pub fn program_segment(id: &str) -> (r: Option<String>)
    ensures
        match r {
            Some(p) => program_segment_of(id@) == Some(p@),
            None => program_segment_of(id@) is None,
        },
{
    let n = id.unicode_len();
    let h = find_char(id, '-', 0);
    if h < n {
        Some(String::from_str(id.substring_char(0, h)))
    } else {
        None
    }
}

/// The label that stands for an appointment id without a program segment.
pub open spec fn invalid_id_label() -> Seq<char> {
    "Error: Invalid ID format"@
}

/// The label that stands for a response without the appointment's fragment.
pub open spec fn unavailable_label() -> Seq<char> {
    "N/A"@
}

/// The name of an appointment field in the filter form.
pub open spec fn field_name(k: Seq<char>) -> Seq<char> {
    "appointments[0]["@ + k + "]"@
}

/// The appointment's own fields in the filter form.
pub open spec fn own_fields(a: AppointmentView) -> Seq<(Seq<char>, Seq<char>)> {
    seq![
        (field_name("ID"@), a.id),
        (field_name("StartDate"@), a.start_date),
        (field_name("EndDate"@), a.end_date),
        (field_name("Location"@), a.location),
        (field_name("ProductName"@), a.product_name),
    ]
}

/// The first `n` default fields as the filter form names them.
pub open spec fn named_defaults(n: int) -> Seq<(Seq<char>, Seq<char>)> {
    Seq::new(
        n as nat,
        |i: int| (field_name(default_field_table()[i].0), default_field_table()[i].1),
    )
}

/// The fields of the form that closes it: program, year, month and day.
pub open spec fn query_fields(program: Seq<char>, parts: DatePartsView) -> Seq<
    (Seq<char>, Seq<char>),
> {
    seq![
        ("programID"@, program),
        ("year"@, parts.year),
        ("month"@, parts.month),
        ("day"@, parts.day),
    ]
}

/// The whole filter form for one appointment on one day.
pub open spec fn form_of(a: AppointmentView, program: Seq<char>, parts: DatePartsView) -> Seq<
    (Seq<char>, Seq<char>),
> {
    own_fields(a) + named_defaults(default_field_table().len() as int) + query_fields(
        program,
        parts,
    )
}

/// What to do for one appointment on one day.
#[derive(Debug)]
pub enum SpotsQuery {
    /// Send this form to the filter endpoint and read the response.
    Submit(Vec<(String, String)>),
    /// Ask nothing: this label is the result.
    Answer(String),
}

fn named(k: &str) -> (r: String)
    ensures
        r@ == field_name(k@),
{
    let mut r = String::from_str("appointments[0][");
    r.append(k);
    r.append("]");
    r
}

/// Builds the filter form for an appointment on a date. A date that is not
/// well formed is an error. An appointment id without a program segment
/// gives the label that stands for it, and nothing is to be sent.
pub fn spots_query(appt: &Appointment, date_iso: &str) -> (r: Result<SpotsQuery, SiteError>)
    ensures
        match r {
            Err(e) => e == SiteError::MalformedDate && !well_formed_date(date_iso@),
            Ok(SpotsQuery::Answer(label)) => {
                &&& well_formed_date(date_iso@)
                &&& program_segment_of(appt@.id) is None
                &&& label@ == invalid_id_label()
            },
            Ok(SpotsQuery::Submit(form)) => {
                &&& well_formed_date(date_iso@)
                &&& program_segment_of(appt@.id) is Some
                &&& pairs_view(form@) == form_of(
                    appt@,
                    program_segment_of(appt@.id).unwrap(),
                    date_parts_of(date_iso@),
                )
            },
        },
{
    let parts = match date_parts(date_iso) {
        Some(p) => p,
        None => {
            return Err(SiteError::MalformedDate);
        },
    };
    let program = match program_segment(appt.id.as_str()) {
        Some(p) => p,
        None => {
            return Ok(SpotsQuery::Answer(String::from_str("Error: Invalid ID format")));
        },
    };
    let mut form: Vec<(String, String)> = Vec::new();
    form.push((named("ID"), appt.id.clone()));
    form.push((named("StartDate"), appt.start_date.clone()));
    form.push((named("EndDate"), appt.end_date.clone()));
    form.push((named("Location"), appt.location.clone()));
    form.push((named("ProductName"), appt.product_name.clone()));
    assert(pairs_view(form@) =~= own_fields(appt@) + named_defaults(0));
    let defaults = default_fields();
    let n = defaults.len();
    assert(n == slice_pairs_view(defaults@).len());
    let mut i: usize = 0;
    while i < n
        invariant
            i <= n,
            n == defaults@.len(),
            n == default_field_table().len(),
            slice_pairs_view(defaults@) == default_field_table(),
            pairs_view(form@) == own_fields(appt@) + named_defaults(i as int),
        decreases n - i,
    {
        let ghost before = pairs_view(form@);
        let name = defaults[i].0;
        let value = defaults[i].1;
        assert(slice_pairs_view(defaults@)[i as int] == (name@, value@));
        form.push((named(name), String::from_str(value)));
        assert(pairs_view(form@) =~= before.push((field_name(name@), value@)));
        assert(named_defaults(i as int + 1) =~= named_defaults(i as int).push(
            (field_name(name@), value@),
        ));
        assert(pairs_view(form@) =~= own_fields(appt@) + named_defaults(i as int + 1));
        i += 1;
    }
    let ghost before = pairs_view(form@);
    form.push((String::from_str("programID"), program));
    form.push((String::from_str("year"), parts.year));
    form.push((String::from_str("month"), parts.month));
    form.push((String::from_str("day"), parts.day));
    assert(pairs_view(form@) =~= before + query_fields(
        program_segment_of(appt@.id).unwrap(),
        date_parts_of(date_iso@),
    ));
    Ok(SpotsQuery::Submit(form))
}

} // verus!
