//! The program poller's decisions: which appointment answers for which
//! date, and what is recorded for it. The caller asks the site in between.

use vstd::prelude::*;
use crate::model::{
    Appointment,
    AppointmentView,
    ProgramConfig,
    SnapshotKey,
    SnapshotKeyView,
    SpotInfo,
    SpotInfoView,
};
use crate::site::day_of;
use crate::table::SpotTable;
use crate::text::{find_char, find_from, same_text};

verus! {

/// An appointment starts on the calendar day of a date.
pub open spec fn matches_day(a: AppointmentView, date: Seq<char>) -> bool {
    &&& date.len() >= 10
    &&& a.start_date.len() >= 10
    &&& a.start_date.subrange(0, 10) == day_of(date)
}

/// Appointment `a` is the first of the catalog that starts on the day of `date`.
pub open spec fn is_first_match(appts: Seq<Appointment>, date: Seq<char>, a: int) -> bool {
    &&& 0 <= a < appts.len()
    &&& matches_day(appts[a]@, date)
    &&& forall|j: int| 0 <= j < a ==> !matches_day(#[trigger] appts[j]@, date)
}

/// No appointment of the catalog starts on the day of `date`.
pub open spec fn no_match(appts: Seq<Appointment>, date: Seq<char>) -> bool {
    forall|j: int| 0 <= j < appts.len() ==> !matches_day(#[trigger] appts[j]@, date)
}

/// A date is too short to hold a calendar day, and there are appointments to hold against it.
pub open spec fn unreadable(appts: Seq<Appointment>, date: Seq<char>) -> bool {
    appts.len() > 0 && date.len() < 10
}

/// The time of day of a start date: what stands between its first `T` and
/// the next one, or nothing where it has no `T`.
pub open spec fn time_of(start_date: Seq<char>) -> Seq<char> {
    let t1 = find_from(start_date, 'T', 0);
    if t1 < start_date.len() {
        start_date.subrange(t1 + 1, find_from(start_date, 'T', t1 + 1))
    } else {
        Seq::empty()
    }
}

/// The key under which an appointment is tracked for a date.
pub open spec fn key_of(program_id: Seq<char>, a: AppointmentView, date: Seq<char>) -> SnapshotKeyView {
    SnapshotKeyView { program_id, date: day_of(date), appointment_id: a.id }
}

/// The observation of an appointment for a date, with the label that was read.
pub open spec fn info_of(
    program_name: Seq<char>,
    a: AppointmentView,
    date: Seq<char>,
    spots: Seq<char>,
) -> SpotInfoView {
    SpotInfoView {
        program_name,
        product_name: a.product_name,
        date: day_of(date),
        time: time_of(a.start_date),
        spots,
    }
}

/// What the poller does next.
#[derive(Clone, Copy, Debug, PartialEq, Eq, Structural)]
pub enum PollStep {
    /// Ask the site about this appointment for this date (two positions in the catalog's lists).
    Query { date: usize, appointment: usize },
    /// The date at this position holds no calendar day.
    Malformed { date: usize },
    /// No date is left.
    Finished,
}

/// The first appointment that starts on the day of a date, by its position.
pub fn find_appointment(appts: &Vec<Appointment>, date_iso: &str) -> (r: Option<usize>)
    ensures
        match r {
            Some(a) => is_first_match(appts@, date_iso@, a as int),
            None => no_match(appts@, date_iso@),
        },
{
    if date_iso.unicode_len() < 10 {
        return None;
    }
    let day = date_iso.substring_char(0, 10);
    let mut j: usize = 0;
    while j < appts.len()
        invariant
            j <= appts.len(),
            date_iso@.len() >= 10,
            day@ == day_of(date_iso@),
            forall|k: int| 0 <= k < j ==> !matches_day(#[trigger] appts@[k]@, date_iso@),
        decreases appts.len() - j,
    {
        let start = appts[j].start_date.as_str();
        if start.unicode_len() >= 10 && same_text(start.substring_char(0, 10), day) {
            return Some(j);
        }
        j += 1;
    }
    None
}

/// The time of day of a start date.
pub fn time_of_day(start_date: &str) -> (r: String)
    ensures
        r@ == time_of(start_date@),
{
    let n = start_date.unicode_len();
    let t1 = find_char(start_date, 'T', 0);
    if t1 < n {
        let t2 = find_char(start_date, 'T', t1 + 1);
        String::from_str(start_date.substring_char(t1 + 1, t2))
    } else {
        String::new()
    }
}

/// The next thing to do for a catalog, from the date at position `from` on:
/// the first date that some appointment starts on, with the first such
/// appointment, or the first date too short to hold a day. Dates that
/// no appointment starts on are passed over.
pub fn next_step(appts: &Vec<Appointment>, dates: &Vec<String>, from: usize) -> (r: PollStep)
    ensures
        match r {
            PollStep::Query { date, appointment } => {
                &&& from <= date < dates@.len()
                &&& is_first_match(appts@, dates@[date as int]@, appointment as int)
                &&& forall|d: int|
                    from <= d < date ==> no_match(appts@, #[trigger] dates@[d]@) && !unreadable(
                        appts@,
                        dates@[d]@,
                    )
            },
            PollStep::Malformed { date } => {
                &&& from <= date < dates@.len()
                &&& unreadable(appts@, dates@[date as int]@)
                &&& forall|d: int|
                    from <= d < date ==> no_match(appts@, #[trigger] dates@[d]@) && !unreadable(
                        appts@,
                        dates@[d]@,
                    )
            },
            PollStep::Finished => forall|d: int|
                from <= d < dates@.len() ==> no_match(appts@, #[trigger] dates@[d]@) && !unreadable(
                    appts@,
                    dates@[d]@,
                ),
        },
{
    let mut d: usize = from;
    while d < dates.len()
        invariant
            from <= d,
            forall|e: int|
                from <= e < d && e < dates@.len() ==> no_match(appts@, #[trigger] dates@[e]@)
                    && !unreadable(appts@, dates@[e]@),
        decreases dates.len() - d,
    {
        let date = dates[d].as_str();
        if appts.len() > 0 && date.unicode_len() < 10 {
            return PollStep::Malformed { date: d };
        }
        match find_appointment(appts, date) {
            Some(a) => {
                return PollStep::Query { date: d, appointment: a };
            },
            None => {},
        }
        d += 1;
    }
    PollStep::Finished
}

/// The key and the observation for an appointment on a date, given the
/// label that was read; `None` exactly where the date holds no calendar day.
pub fn observation(program: &ProgramConfig, appt: &Appointment, date_iso: &str, spots: String) -> (r:
    Option<(SnapshotKey, SpotInfo)>)
    ensures
        match r {
            Some((key, info)) => {
                &&& date_iso@.len() >= 10
                &&& key@ == key_of(program.id@, appt@, date_iso@)
                &&& info@ == info_of(program.name@, appt@, date_iso@, spots@)
            },
            None => date_iso@.len() < 10,
        },
{
    if date_iso.unicode_len() < 10 {
        return None;
    }
    let day = date_iso.substring_char(0, 10);
    let key = SnapshotKey {
        program_id: program.id.clone(),
        date: String::from_str(day),
        appointment_id: appt.id.clone(),
    };
    let info = SpotInfo {
        program_name: program.name.clone(),
        product_name: appt.product_name.clone(),
        date: String::from_str(day),
        time: time_of_day(appt.start_date.as_str()),
        spots,
    };
    Some((key, info))
}

/// Records the label read for an appointment on a date in the snapshot,
/// under the appointment's key and in place of what stood there. Where the
/// date holds no calendar day the snapshot stays as it is, and the result is `false`.
pub fn record(
    snapshot: &mut SpotTable,
    program: &ProgramConfig,
    appt: &Appointment,
    date_iso: &str,
    spots: String,
) -> (r: bool)
    requires
        old(snapshot).wf(),
    ensures
        final(snapshot).wf(),
        r == (date_iso@.len() >= 10),
        r ==> final(snapshot)@ == old(snapshot)@.insert(
            key_of(program.id@, appt@, date_iso@),
            info_of(program.name@, appt@, date_iso@, spots@),
        ),
        !r ==> final(snapshot)@ == old(snapshot)@ && final(snapshot).pairs() == old(snapshot).pairs(),
{
    match observation(program, appt, date_iso, spots) {
        Some((key, info)) => {
            snapshot.insert(key, info);
            true
        },
        None => false,
    }
}

} // verus!
