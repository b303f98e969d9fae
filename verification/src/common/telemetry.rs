//! The records that telemetry writes to the log. Writing them is left to the caller.
use vstd::prelude::*;
use vstd::string::*;

use crate::text::{append_decimal, concat, decimal};

verus! {

/// The text that `{:?}` gives for a list of string pairs.
pub uninterp spec fn debug_text_of_pairs(pairs: Seq<(Seq<char>, Seq<char>)>) -> Seq<char>;

pub open spec fn pair_chars(pairs: Seq<(&str, &str)>) -> Seq<(Seq<char>, Seq<char>)> {
    pairs.map_values(|p: (&str, &str)| (p.0@, p.1@))
}

/// `format!("{:?}", pairs)`: the `Debug` text of a vector of string pairs, which
/// depends on the pairs alone; it is named, not spelled out.
#[verifier::external_body]
fn debug_pairs(pairs: &Vec<(&str, &str)>) -> (s: String)
    ensures
        s@ == debug_text_of_pairs(pair_chars(pairs@)),
{
    format!("{:?}", pairs)
}

/// Builds telemetry log records.
pub struct Telemetry;

impl Telemetry {
    /// The record of an event with its properties.
    pub fn log_event(event_name: &str, properties: Vec<(&str, &str)>) -> (r: String)
        ensures
            r@ == "Telemetry Event: "@ + event_name@ + " - "@ + debug_text_of_pairs(
                pair_chars(properties@),
            ),
    {
        let text = debug_pairs(&properties);
        Self::event_record(event_name, text.as_str())
    }

    /// The record of an event whose properties read `properties_text`.
    pub fn event_record(event_name: &str, properties_text: &str) -> (r: String)
        ensures
            r@ == "Telemetry Event: "@ + event_name@ + " - "@ + properties_text@,
    {
        let mut r = concat("Telemetry Event: ", event_name);
        r.append(" - ");
        r.append(properties_text);
        r
    }

    /// The record of an error.
    pub fn log_error(error_msg: &str) -> (r: String)
        ensures
            r@ == "Telemetry Error: "@ + error_msg@,
    {
        concat("Telemetry Error: ", error_msg)
    }

    /// The record of a performance measurement in milliseconds.
    pub fn log_performance(metric: &str, value_ms: u64) -> (r: String)
        ensures
            r@ == "Performance Metric: "@ + metric@ + " = "@ + decimal(value_ms as nat) + "ms"@,
    {
        let mut r = concat("Performance Metric: ", metric);
        r.append(" = ");
        append_decimal(&mut r, value_ms);
        r.append("ms");
        r
    }

    /// The record of an error with its code.
    pub fn track_error(code: &str, message: &str) -> (r: String)
        ensures
            r@ == "Error ["@ + code@ + "]: "@ + message@,
    {
        let mut r = concat("Error [", code);
        r.append("]: ");
        r.append(message);
        r
    }

    /// The record of an analytics event: the event name alone, nothing that
    /// identifies a person.
    pub fn capture_analytics(event: &str) -> (r: String)
        ensures
            r@ == "Analytics Event: "@ + event@,
    {
        concat("Analytics Event: ", event)
    }
}

} // verus!
