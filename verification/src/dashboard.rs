//! The dashboard as it is configured: where its template lies, which text
//! fields it has, and which icon goes into which slot.

use crate::compose::{IconSlot, Placeholder};
use vstd::prelude::*;

verus! {

/// The path of the template, relative to the working directory.
pub const TEMPLATE_SVG_PATH: &'static str = "weather_template.svg";

/// Where the icon of a slot lies.
pub struct IconSource {
    /// The id of the slot element.
    pub id: String,
    /// The path of the icon, relative to the working directory.
    pub path: String,
}

/// The text fields, in the order in which they are filled in: the day, then
/// the temperature.
pub fn dashboard_fields() -> (fields: Vec<Placeholder>)
    ensures
        fields@.len() == 2,
        fields@[0].token@ == "{{Den}}"@,
        fields@[0].text@ == "Pondelol"@,
        fields@[1].token@ == "{{Teplota}}"@,
        fields@[1].text@ == "15\u{c2}\u{b0}C"@,
{
    let mut fields: Vec<Placeholder> = Vec::new();
    fields.push(Placeholder { token: "{{Den}}".to_owned(), text: "Pondelol".to_owned() });
    fields.push(
        Placeholder { token: "{{Teplota}}".to_owned(), text: "15\u{c2}\u{b0}C".to_owned() },
    );
    fields
}

/// The icon slots, in the order in which they are spliced: the first day's
/// icon.
pub fn dashboard_icons() -> (icons: Vec<IconSource>)
    ensures
        icons@.len() == 1,
        icons@[0].id@ == "day1-icon"@,
        icons@[0].path@ == "snow-icon.svg"@,
{
    let mut icons: Vec<IconSource> = Vec::new();
    icons.push(IconSource { id: "day1-icon".to_owned(), path: "snow-icon.svg".to_owned() });
    icons
}

/// The slot of `source` with the icon that was read for it; `None` stands
/// for an icon that could not be read.
pub fn slot_with_icon(source: &IconSource, icon: Option<String>) -> (slot: IconSlot)
    ensures
        slot.id@ == source.id@,
        slot.icon == icon,
{
    IconSlot { id: source.id.clone(), icon }
}

} // verus!
