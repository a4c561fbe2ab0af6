//! Reading the site's documents: the one place that knows its markup.
//!
//! HTML is parsed and queried by `scraper`, JSON lists are decoded by
//! `serde_json`. What those calls return is taken on trust and given a name;
//! what is made of it is verified.

use vstd::prelude::*;
use crate::site::{unavailable_label, CatalogField, SiteError};
use crate::text::{trim_of, trim_white_space};

verus! {

/// The error of `serde_json`, carried through and never looked into.
#[verifier::external_type_specification]
#[verifier::external_body]
pub struct ExJsonError(serde_json::Error);

/// What `scraper` finds in `document` for the CSS selector `selector`:
/// `None` where the selector does not parse, else the text below the first
/// element that its selection yields, if it yields one.
pub uninterp spec fn selected_text(document: Seq<char>, selector: Seq<char>) -> Option<
    Option<Seq<char>>,
>;

/// What `scraper` finds in `document` for the CSS selector `selector` and
/// the attribute `attr`: `None` where the selector does not parse, else that
/// attribute's value on the first element that its selection yields, if it
/// yields one and that one has the attribute.
pub uninterp spec fn selected_attr(
    document: Seq<char>,
    selector: Seq<char>,
    attr: Seq<char>,
) -> Option<Option<Seq<char>>>;

/// The list of strings that `raw` is as JSON, as `serde_json` decodes it, if it is one.
pub uninterp spec fn json_string_list(raw: Seq<char>) -> Option<Seq<Seq<char>>>;

/// The characters of a sequence of strings.
pub open spec fn strings_view(s: Seq<String>) -> Seq<Seq<char>> {
    Seq::new(s.len(), |i: int| s[i]@)
}

/// Calls `scraper::Selector::parse`, `scraper::Html::parse_document`,
/// `Html::select` and `ElementRef::text`. Trusted: the result is the one
/// named [`selected_text`], which depends on the two strings alone. A
/// selector that does not parse gives `None`; no input makes the calls panic.
#[verifier::external_body]
fn select_text(document: &str, selector: &str) -> (r: Option<Option<String>>)
    ensures
        match r {
            None => selected_text(document@, selector@) is None,
            Some(None) => selected_text(document@, selector@) == Some(None::<Seq<char>>),
            Some(Some(t)) => selected_text(document@, selector@) == Some(Some(t@)),
        },
{
    let parsed = match scraper::Selector::parse(selector) {
        Ok(parsed) => parsed,
        Err(_) => return None,
    };
    let html = scraper::Html::parse_document(document);
    match html.select(&parsed).next() {
        Some(element) => Some(Some(element.text().collect::<String>())),
        None => Some(None),
    }
}

/// Calls `scraper::Selector::parse`, `scraper::Html::parse_document`,
/// `Html::select` and `Element::attr`. Trusted: the result is the one named
/// [`selected_attr`], which depends on the three strings alone. A selector
/// that does not parse gives `None`; no input makes the calls panic.
#[verifier::external_body]
fn select_attr(document: &str, selector: &str, attr: &str) -> (r: Option<Option<String>>)
    ensures
        match r {
            None => selected_attr(document@, selector@, attr@) is None,
            Some(None) => selected_attr(document@, selector@, attr@) == Some(None::<Seq<char>>),
            Some(Some(t)) => selected_attr(document@, selector@, attr@) == Some(Some(t@)),
        },
{
    let parsed = match scraper::Selector::parse(selector) {
        Ok(parsed) => parsed,
        Err(_) => return None,
    };
    let html = scraper::Html::parse_document(document);
    match html.select(&parsed).next() {
        Some(element) => Some(element.value().attr(attr).map(|value| value.to_string())),
        None => Some(None),
    }
}

/// Calls `serde_json::from_str` for a list of strings. Trusted: it succeeds
/// exactly where [`json_string_list`] names a list, and then returns that list.
#[verifier::external_body]
fn parse_string_list(raw: &str) -> (r: Result<Vec<String>, serde_json::Error>)
    ensures
        match r {
            Ok(list) => json_string_list(raw@) == Some(strings_view(list@)),
            Err(_) => json_string_list(raw@) is None,
        },
{
    serde_json::from_str::<Vec<String>>(raw)
}

/// The selector of an appointment's availability label in a filter response.
pub open spec fn spots_selector_of(appointment_id: Seq<char>) -> Seq<char> {
    "div[data-instance-appointmentid='"@ + appointment_id + "'] .spots-tag"@
}

/// Builds the selector of an appointment's availability label.
pub fn spots_selector(appointment_id: &str) -> (r: String)
    ensures
        r@ == spots_selector_of(appointment_id@),
{
    let mut r = String::from_str("div[data-instance-appointmentid='");
    r.append(appointment_id);
    r.append("'] .spots-tag");
    r
}

/// The availability label for what was found in a filter response: the
/// text of the appointment's label element without the white space around
/// it, or `N/A` where the response has no such element.
pub fn label_from_match(found: Option<String>) -> (r: String)
    ensures
        r@ == (match found {
            Some(text) => trim_of(text@),
            None => unavailable_label(),
        }),
{
    match found {
        Some(text) => trim_white_space(text.as_str()),
        None => String::from_str("N/A"),
    }
}

/// Reads an appointment's availability label from a filter response. A
/// response without the appointment's fragment gives `N/A`. The result is
/// `None` exactly where the appointment id makes no selector.
pub fn spots_from_response(appointment_id: &str, response: &str) -> (r: Option<String>)
    ensures
        match selected_text(response@, spots_selector_of(appointment_id@)) {
            None => r is None,
            Some(None) => r is Some && r.unwrap()@ == unavailable_label(),
            Some(Some(text)) => r is Some && r.unwrap()@ == trim_of(text),
        },
{
    let selector = spots_selector(appointment_id);
    match select_text(response, selector.as_str()) {
        None => None,
        Some(found) => Some(label_from_match(found)),
    }
}

/// The selector of an embedded-data element of the catalog document.
pub open spec fn field_selector_of(field: CatalogField) -> Seq<char> {
    match field {
        CatalogField::Appointments => "input#ApptInfo"@,
        CatalogField::Dates => "input#hdnDates"@,
    }
}

/// Reads the value of an embedded-data element from a catalog document. It
/// is an error exactly where no such element with a value is found.
pub fn embedded_value(document: &str, field: CatalogField) -> (r: Result<String, SiteError>)
    ensures
        match selected_attr(document@, field_selector_of(field), "value"@) {
            Some(Some(value)) => r is Ok && r.unwrap()@ == value,
            _ => r == Err::<String, SiteError>(SiteError::MissingField(field)),
        },
{
    let selector = match field {
        CatalogField::Appointments => "input#ApptInfo",
        CatalogField::Dates => "input#hdnDates",
    };
    match select_attr(document, selector, "value") {
        Some(Some(value)) => Ok(value),
        _ => Err(SiteError::MissingField(field)),
    }
}

/// What decoding makes of what `serde_json` returned.
pub fn dates_from_decoded(decoded: Result<Vec<String>, serde_json::Error>) -> (r: Result<
    Vec<String>,
    SiteError,
>)
    ensures
        match decoded {
            Ok(list) => r == Ok::<Vec<String>, SiteError>(list),
            Err(_) => r == Err::<Vec<String>, SiteError>(SiteError::Decode),
        },
{
    match decoded {
        Ok(list) => Ok(list),
        Err(_) => Err(SiteError::Decode),
    }
}

/// Decodes the embedded list of dates. It is an error exactly where the
/// value is not a JSON list of strings.
pub fn decode_dates(raw: &str) -> (r: Result<Vec<String>, SiteError>)
    ensures
        match json_string_list(raw@) {
            Some(list) => r is Ok && strings_view(r.unwrap()@) == list,
            None => r == Err::<Vec<String>, SiteError>(SiteError::Decode),
        },
{
    dates_from_decoded(parse_string_list(raw))
}

} // verus!
