use spotwatch::engine::RetainedState;
use spotwatch::markup::{decode_dates, embedded_value, spots_from_response};
use spotwatch::model::{Appointment, ProgramConfig, SnapshotKey};
use spotwatch::poller::{find_appointment, next_step, observation, record, time_of_day, PollStep};
use spotwatch::site::{spots_query, CatalogField, SpotsQuery};
use spotwatch::table::SpotTable;

fn appointment(id: &str, start: &str, product: &str) -> Appointment {
    Appointment {
        id: id.to_string(),
        start_date: start.to_string(),
        end_date: String::new(),
        location: String::new(),
        product_name: product.to_string(),
    }
}

fn program(id: &str, name: &str) -> ProgramConfig {
    ProgramConfig { id: id.to_string(), name: name.to_string() }
}

fn dates(list: &[&str]) -> Vec<String> {
    list.iter().map(|d| d.to_string()).collect()
}

fn appointments_from(raw: &str) -> Vec<Appointment> {
    let decoded: serde_json::Value = serde_json::from_str(raw).unwrap();
    let text = |item: &serde_json::Value, name: &str| item.get(name).unwrap().as_str().unwrap().to_string();
    decoded
        .as_array()
        .unwrap()
        .iter()
        .map(|item| Appointment {
            id: text(item, "ID"),
            start_date: text(item, "StartDate"),
            end_date: text(item, "EndDate"),
            location: text(item, "Location"),
            product_name: text(item, "ProductName"),
        })
        .collect()
}

fn catalog_document() -> String {
    let appointments = "[{&quot;ID&quot;:&quot;42-a&quot;,&quot;StartDate&quot;:&quot;2024-03-07T09:00:00&quot;,\
        &quot;EndDate&quot;:&quot;2024-03-07T10:00:00&quot;,&quot;Location&quot;:&quot;Gym 1&quot;,\
        &quot;ProductName&quot;:&quot;Intro&quot;}]";
    format!(
        "<html><body><input id=\"ApptInfo\" value=\"{}\"><input id=\"hdnDates\" \
         value=\"[&quot;2024-03-07T00:00:00&quot;]\"></body></html>",
        appointments
    )
}

fn filter_response(label: &str) -> String {
    format!(
        "<div data-instance-appointmentid=\"42-a\"><span class=\"spots-tag\"> {} </span></div>",
        label
    )
}

/// One polling of a program against a catalog document, with the filter
/// endpoint answering every query with the same label.
fn poll(program: &ProgramConfig, catalog: &str, label: &str) -> Option<SpotTable> {
    let raw = embedded_value(catalog, CatalogField::Appointments).ok()?;
    let appts = appointments_from(&raw);
    let days = decode_dates(&embedded_value(catalog, CatalogField::Dates).ok()?).ok()?;
    let mut snapshot = SpotTable::new();
    let mut from = 0;
    loop {
        match next_step(&appts, &days, from) {
            PollStep::Query { date, appointment } => {
                let spots = match spots_query(&appts[appointment], &days[date]).unwrap() {
                    SpotsQuery::Submit(_) => {
                        spots_from_response(&appts[appointment].id, &filter_response(label)).unwrap()
                    }
                    SpotsQuery::Answer(fixed) => fixed,
                };
                assert!(record(&mut snapshot, program, &appts[appointment], &days[date], spots));
                from = date + 1;
            }
            PollStep::Malformed { .. } => return None,
            PollStep::Finished => return Some(snapshot),
        }
    }
}

#[test]
fn first_appointment_of_the_day_wins() {
    let appts = vec![
        appointment("42-a", "2024-03-06T09:00:00", "A"),
        appointment("42-b", "2024-03-07T09:00:00", "B"),
        appointment("42-c", "2024-03-07T11:00:00", "C"),
    ];
    assert_eq!(find_appointment(&appts, "2024-03-07T00:00:00"), Some(1));
    assert_eq!(find_appointment(&appts, "2024-03-06T00:00:00"), Some(0));
    assert_eq!(find_appointment(&appts, "2024-03-08T00:00:00"), None);
    assert_eq!(find_appointment(&appts, "2024-03"), None);
    assert_eq!(find_appointment(&Vec::new(), "2024-03-07T00:00:00"), None);
}

#[test]
fn appointment_with_a_short_start_never_matches() {
    let appts = vec![appointment("42-a", "2024-03", "A")];
    assert_eq!(find_appointment(&appts, "2024-03-07T00:00:00"), None);
}

#[test]
fn time_of_day_follows_the_first_t() {
    assert_eq!(time_of_day("2024-03-07T09:00:00"), "09:00:00");
    assert_eq!(time_of_day("2024-03-07"), "");
    assert_eq!(time_of_day("2024-03-07T"), "");
    assert_eq!(time_of_day("2024-03-07T09:00T10:00"), "09:00");
    assert_eq!(time_of_day(""), "");
}

#[test]
fn dates_without_appointment_are_passed_over() {
    let appts = vec![
        appointment("42-a", "2024-03-07T09:00:00", "A"),
        appointment("42-b", "2024-03-09T09:00:00", "B"),
    ];
    let days = dates(&[
        "2024-03-06T00:00:00",
        "2024-03-07T00:00:00",
        "2024-03-08T00:00:00",
        "2024-03-09T00:00:00",
    ]);
    assert_eq!(next_step(&appts, &days, 0), PollStep::Query { date: 1, appointment: 0 });
    assert_eq!(next_step(&appts, &days, 2), PollStep::Query { date: 3, appointment: 1 });
    assert_eq!(next_step(&appts, &days, 4), PollStep::Finished);
    assert_eq!(next_step(&appts, &days, 9), PollStep::Finished);
}

#[test]
fn short_date_is_reported_where_there_are_appointments() {
    let appts = vec![appointment("42-a", "2024-03-07T09:00:00", "A")];
    let days = dates(&["2024-03-06T00:00:00", "2024"]);
    assert_eq!(next_step(&appts, &days, 0), PollStep::Malformed { date: 1 });
    assert_eq!(next_step(&Vec::new(), &days, 0), PollStep::Finished);
}

#[test]
fn observation_is_keyed_by_program_day_and_appointment() {
    let p = program("42", "Climbing");
    let a = appointment("42-a", "2024-03-07T09:00:00", "Intro");
    let (key, info) = observation(&p, &a, "2024-03-07T00:00:00", "3 spots".to_string()).unwrap();
    assert_eq!(key.program_id, "42");
    assert_eq!(key.date, "2024-03-07");
    assert_eq!(key.appointment_id, "42-a");
    assert_eq!(info.program_name, "Climbing");
    assert_eq!(info.product_name, "Intro");
    assert_eq!(info.date, "2024-03-07");
    assert_eq!(info.time, "09:00:00");
    assert_eq!(info.spots, "3 spots");
    assert!(observation(&p, &a, "2024", "3 spots".to_string()).is_none());
}

#[test]
fn record_overwrites_the_same_day() {
    let p = program("42", "Climbing");
    let a = appointment("42-a", "2024-03-07T09:00:00", "Intro");
    let mut snapshot = SpotTable::new();
    assert!(record(&mut snapshot, &p, &a, "2024-03-07T00:00:00", "3 spots".to_string()));
    assert!(record(&mut snapshot, &p, &a, "2024-03-07T12:00:00", "1 spot".to_string()));
    assert!(!record(&mut snapshot, &p, &a, "2024", "0 spots".to_string()));
    assert_eq!(snapshot.len(), 1);
    assert_eq!(snapshot.info_at(0).spots, "1 spot");
}

#[test]
fn three_cycles_notify_only_on_the_change() {
    let p = program("42", "Climbing");
    let catalog = catalog_document();
    let key = SnapshotKey {
        program_id: "42".to_string(),
        date: "2024-03-07".to_string(),
        appointment_id: "42-a".to_string(),
    };
    let mut state = RetainedState::new();

    let first = state.merge(&poll(&p, &catalog, "3 spots").unwrap());
    assert!(first.is_empty());
    assert_eq!(state.get(&key).unwrap().spots, "3 spots");

    let second = state.merge(&poll(&p, &catalog, "2 spots").unwrap());
    assert_eq!(second.len(), 1);
    let body = second[0].body();
    assert!(body.contains("3 spots"));
    assert!(body.contains("2 spots"));
    assert_eq!(body, "Climbing (Intro) on 2024-03-07 @ 09:00:00: 3 spots → 2 spots");
    assert_eq!(second[0].title(), "Spot change: Intro");

    let third = state.merge(&poll(&p, &catalog, "2 spots").unwrap());
    assert!(third.is_empty());
    assert_eq!(state.len(), 1);
    assert_eq!(state.get(&key).unwrap().spots, "2 spots");
}

#[test]
fn failing_program_leaves_the_other_to_be_merged() {
    let good = program("42", "Climbing");
    let bad = program("43", "Yoga");
    let catalog = catalog_document();
    let mut state = RetainedState::new();
    state.merge(&poll(&good, &catalog, "3 spots").unwrap());

    let outcomes = vec![
        poll(&bad, "<html><body>maintenance</body></html>", "9 spots"),
        poll(&good, &catalog, "2 spots"),
    ];
    assert!(outcomes[0].is_none());
    let events = state.merge_all(&outcomes);
    assert_eq!(events.len(), 1);
    assert_eq!(events[0].previous.spots, "3 spots");
    assert_eq!(events[0].current.spots, "2 spots");
    assert_eq!(events[0].body(), "Climbing (Intro) on 2024-03-07 @ 09:00:00: 3 spots → 2 spots");
    assert_eq!(state.len(), 1);
}

#[test]
fn cycle_without_the_failed_program_is_the_same_cycle() {
    let good = program("42", "Climbing");
    let catalog = catalog_document();
    let mut with_failure = RetainedState::new();
    let mut without = RetainedState::new();
    with_failure.merge_all(&vec![poll(&good, &catalog, "3 spots"), None]);
    without.merge_all(&vec![poll(&good, &catalog, "3 spots")]);
    let a = with_failure.merge_all(&vec![None, poll(&good, &catalog, "Full"), None]);
    let b = without.merge_all(&vec![poll(&good, &catalog, "Full")]);
    assert_eq!(a.len(), 1);
    assert_eq!(b.len(), 1);
    assert_eq!(a[0].body(), b[0].body());
    assert_eq!(with_failure.len(), without.len());
}

#[test]
fn later_program_is_compared_with_what_the_earlier_left() {
    let p = program("42", "Climbing");
    let catalog = catalog_document();
    let mut state = RetainedState::new();
    let events = state.merge_all(&vec![
        poll(&p, &catalog, "3 spots"),
        poll(&p, &catalog, "2 spots"),
        poll(&p, &catalog, "2 spots"),
    ]);
    assert_eq!(events.len(), 1);
    assert_eq!(events[0].body(), "Climbing (Intro) on 2024-03-07 @ 09:00:00: 3 spots → 2 spots");
}
