//! The data that flows through a polling cycle, each with its mathematical view.

use vstd::prelude::*;

verus! {

/// One monitored program: the site's token for it and the name shown to people.
#[derive(Debug)]
pub struct ProgramConfig {
    pub id: String,
    pub name: String,
}

impl Clone for ProgramConfig {
    fn clone(&self) -> (r: Self)
        ensures
            r.id@ == self.id@,
            r.name@ == self.name@,
    {
        ProgramConfig { id: self.id.clone(), name: self.name.clone() }
    }
}

/// A scheduling slot as the site's catalog lists it.
#[derive(Debug)]
pub struct Appointment {
    pub id: String,
    pub start_date: String,
    pub end_date: String,
    pub location: String,
    pub product_name: String,
}

/// What an [`Appointment`] is, as sequences of characters.
pub ghost struct AppointmentView {
    pub id: Seq<char>,
    pub start_date: Seq<char>,
    pub end_date: Seq<char>,
    pub location: Seq<char>,
    pub product_name: Seq<char>,
}

impl View for Appointment {
    type V = AppointmentView;

    open spec fn view(&self) -> AppointmentView {
        AppointmentView {
            id: self.id@,
            start_date: self.start_date@,
            end_date: self.end_date@,
            location: self.location@,
            product_name: self.product_name@,
        }
    }
}

impl Clone for Appointment {
    fn clone(&self) -> (r: Self)
        ensures
            r@ == self@,
    {
        Appointment {
            id: self.id.clone(),
            start_date: self.start_date.clone(),
            end_date: self.end_date.clone(),
            location: self.location.clone(),
            product_name: self.product_name.clone(),
        }
    }
}

/// One observation of one appointment's availability on one day.
#[derive(Debug)]
pub struct SpotInfo {
    pub program_name: String,
    pub product_name: String,
    pub date: String,
    pub time: String,
    pub spots: String,
}

/// What a [`SpotInfo`] is, as sequences of characters.
pub ghost struct SpotInfoView {
    pub program_name: Seq<char>,
    pub product_name: Seq<char>,
    pub date: Seq<char>,
    pub time: Seq<char>,
    pub spots: Seq<char>,
}

impl View for SpotInfo {
    type V = SpotInfoView;

    open spec fn view(&self) -> SpotInfoView {
        SpotInfoView {
            program_name: self.program_name@,
            product_name: self.product_name@,
            date: self.date@,
            time: self.time@,
            spots: self.spots@,
        }
    }
}

impl Clone for SpotInfo {
    fn clone(&self) -> (r: Self)
        ensures
            r@ == self@,
    {
        SpotInfo {
            program_name: self.program_name.clone(),
            product_name: self.product_name.clone(),
            date: self.date.clone(),
            time: self.time.clone(),
            spots: self.spots.clone(),
        }
    }
}

/// The identity of one appointment on one day: the join key between cycles.
#[derive(Debug)]
pub struct SnapshotKey {
    pub program_id: String,
    pub date: String,
    pub appointment_id: String,
}

/// What a [`SnapshotKey`] is, as sequences of characters.
pub ghost struct SnapshotKeyView {
    pub program_id: Seq<char>,
    pub date: Seq<char>,
    pub appointment_id: Seq<char>,
}

impl View for SnapshotKey {
    type V = SnapshotKeyView;

    open spec fn view(&self) -> SnapshotKeyView {
        SnapshotKeyView {
            program_id: self.program_id@,
            date: self.date@,
            appointment_id: self.appointment_id@,
        }
    }
}

impl Clone for SnapshotKey {
    fn clone(&self) -> (r: Self)
        ensures
            r@ == self@,
    {
        SnapshotKey {
            program_id: self.program_id.clone(),
            date: self.date.clone(),
            appointment_id: self.appointment_id.clone(),
        }
    }
}

impl SnapshotKey {
    /// Whether two keys name the same appointment on the same day.
    pub fn same(&self, other: &SnapshotKey) -> (r: bool)
        ensures
            r == (self@ == other@),
    {
        self.program_id == other.program_id && self.date == other.date
            && self.appointment_id == other.appointment_id
    }
}

} // verus!
