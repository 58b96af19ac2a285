use vstd::prelude::*;

verus! {

use crate::json::{
    entries_view, field_of, field_of_exec, json_view, lemma_views_of, views_of, JsonValue,
    JsonView,
};
use crate::schedule::{ContestDay, ContestDetails, DayView};

#[verifier::external_type_specification]
#[verifier::external_body]
pub struct ExValue(serde_json::Value);

/// The JSON document that `bytes` holds, reduced to the library's model,
/// `None` when the bytes are no well-formed JSON. Parsing is serde_json's
/// work; the result depends on the bytes alone, so it only gets a name.
pub uninterp spec fn json_of(bytes: Seq<u8>) -> Option<JsonView>;

/// Relies on serde_json::Value: the parsed tree is carried over variant by
/// variant, a number becoming its exact u64 value where it has one.
#[verifier::external_body]
fn convert_value(v: serde_json::Value) -> (r: JsonValue) {
    match v {
        serde_json::Value::Array(a) => JsonValue::Array(
            a.into_iter().map(convert_value).collect(),
        ),
        serde_json::Value::Object(m) => JsonValue::Object(
            m.into_iter().map(|(k, x)| (k, convert_value(x))).collect(),
        ),
        serde_json::Value::String(s) => JsonValue::Text(s),
        serde_json::Value::Number(n) => match n.as_u64() {
            Some(u) => JsonValue::UInt(u),
            None => JsonValue::Other,
        },
        _ => JsonValue::Other,
    }
}

/// Relies on serde_json::from_slice: whether `bytes` parse, and to which
/// document, is a function of the bytes alone, named `json_of`.
#[verifier::external_body]
fn parse_json(bytes: &[u8]) -> (r: Option<JsonValue>)
    ensures
        match r {
            Some(v) => json_of(bytes@) == Some(v@),
            None => json_of(bytes@) is None,
        },
{
    serde_json::from_slice::<serde_json::Value>(bytes).ok().map(convert_value)
}

/// The hint texts of a hints array: every element must be text.
pub open spec fn strings_of(elems: Seq<JsonView>) -> Option<Seq<Seq<char>>>
    decreases elems.len(),
{
    if elems.len() == 0 {
        Some(Seq::empty())
    } else {
        match (strings_of(elems.drop_last()), elems.last()) {
            (Some(rest), JsonView::Text(t)) => Some(rest.push(t)),
            _ => None,
        }
    }
}

/// The hint texts of a hints value: it must be an array of text.
pub open spec fn strings_of_value(v: JsonView) -> Option<Seq<Seq<char>>> {
    match v {
        JsonView::Array(elems) => strings_of(elems),
        _ => None,
    }
}

/// One schedule entry read off an object's entries: integer `day` and
/// `species` fitting the key space, text `version`, and a `hints` array of
/// text. Other entries are ignored.
pub open spec fn day_of_fields(fields: Seq<(Seq<char>, JsonView)>) -> Option<DayView> {
    match (
        field_of(fields, "day"@),
        field_of(fields, "species"@),
        field_of(fields, "version"@),
        field_of(fields, "hints"@),
    ) {
        (
            Some(JsonView::UInt(d)),
            Some(JsonView::UInt(sp)),
            Some(JsonView::Text(ver)),
            Some(hv),
        ) => match strings_of_value(hv) {
            Some(hs) => if d <= 255 && sp <= 255 {
                Some(DayView { day: d as u8, species: sp as u8, version: ver, hints: hs })
            } else {
                None
            },
            None => None,
        },
        _ => None,
    }
}

/// One schedule entry read off a day value: it must be an object.
pub open spec fn day_of_json(v: JsonView) -> Option<DayView> {
    match v {
        JsonView::Object(fields) => day_of_fields(fields),
        _ => None,
    }
}

/// The schedule read off the document's elements: every element must be a
/// day object.
pub open spec fn days_of(elems: Seq<JsonView>) -> Option<Seq<DayView>>
    decreases elems.len(),
{
    if elems.len() == 0 {
        Some(Seq::empty())
    } else {
        match (days_of(elems.drop_last()), day_of_json(elems.last())) {
            (Some(rest), Some(d)) => Some(rest.push(d)),
            _ => None,
        }
    }
}

/// The schedule read off a document: it must be an array of day objects.
pub open spec fn schedule_of_json(doc: JsonView) -> Option<Seq<DayView>> {
    match doc {
        JsonView::Array(elems) => days_of(elems),
        _ => None,
    }
}

/// The schedule that `bytes` hold: the parsed document read as the schedule
/// format, `None` on any structural fault.
pub open spec fn schedule_spec(bytes: Seq<u8>) -> Option<Seq<DayView>> {
    match json_of(bytes) {
        Some(doc) => schedule_of_json(doc),
        None => None,
    }
}

proof fn lemma_strings_none(elems: Seq<JsonView>, i: int)
    requires
        0 <= i < elems.len(),
        !(elems[i] is Text),
    ensures
        strings_of(elems) is None,
    decreases elems.len(),
{
    if i < elems.len() - 1 {
        lemma_strings_none(elems.drop_last(), i);
    }
}

proof fn lemma_days_none(elems: Seq<JsonView>, i: int)
    requires
        0 <= i < elems.len(),
        day_of_json(elems[i]) is None,
    ensures
        days_of(elems) is None,
    decreases elems.len(),
{
    if i < elems.len() - 1 {
        lemma_days_none(elems.drop_last(), i);
    }
}

/// Assemble one schedule entry from its extracted parts. The entry exists
/// exactly when every part is present and both numbers fit the key space;
/// its fields are then the parts, unchanged.
pub fn day_from_parts(
    day: Option<u64>,
    species: Option<u64>,
    version: Option<String>,
    hints: Option<Vec<String>>,
) -> (r: Option<ContestDay>)
    ensures
        r is Some <==> {
            &&& day matches Some(d) && d <= 255
            &&& species matches Some(sp) && sp <= 255
            &&& version is Some
            &&& hints is Some
        },
        r matches Some(cd) ==> {
            &&& cd.day as u64 == day->Some_0
            &&& cd.species as u64 == species->Some_0
            &&& cd.version == version->Some_0
            &&& cd.hints == hints->Some_0
        },
{
    match (day, species, version, hints) {
        (Some(d), Some(sp), Some(v), Some(h)) => {
            if d <= 255 && sp <= 255 {
                Some(ContestDay { day: d as u8, species: sp as u8, version: v, hints: h })
            } else {
                None
            }
        },
        _ => None,
    }
}

/// The u64 value of the object's `key` entry, `None` when it is absent or
/// no such number.
fn uint_field(fields: &Vec<(String, JsonValue)>, key: &String) -> (r: Option<u64>)
    ensures
        match r {
            Some(u) => field_of(entries_view(fields@), key@) == Some(JsonView::UInt(u)),
            None => !(field_of(entries_view(fields@), key@) matches Some(JsonView::UInt(_))),
        },
{
    match field_of_exec(fields, key) {
        Some(JsonValue::UInt(u)) => Some(*u),
        _ => None,
    }
}

/// The text of the object's `key` entry, `None` when it is absent or no
/// text.
fn text_field(fields: &Vec<(String, JsonValue)>, key: &String) -> (r: Option<String>)
    ensures
        match r {
            Some(s) => field_of(entries_view(fields@), key@) == Some(JsonView::Text(s@)),
            None => !(field_of(entries_view(fields@), key@) matches Some(JsonView::Text(_))),
        },
{
    match field_of_exec(fields, key) {
        Some(JsonValue::Text(s)) => Some(s.clone()),
        _ => None,
    }
}

/// The texts of an array value's elements, `None` when any element is no
/// text.
fn strings_from(elems: &Vec<JsonValue>) -> (r: Option<Vec<String>>)
    ensures
        match r {
            Some(h) => strings_of(views_of(elems@)) == Some(h@.map_values(|s: String| s@)),
            None => strings_of(views_of(elems@)) is None,
        },
{
    proof {
        lemma_views_of(elems@);
        assert(views_of(elems@).take(0) =~= Seq::<JsonView>::empty());
    }
    let ghost ev = views_of(elems@);
    let mut out: Vec<String> = Vec::new();
    let mut i: usize = 0;
    while i < elems.len()
        invariant
            i <= elems.len(),
            ev == views_of(elems@),
            ev.len() == elems@.len(),
            forall|j: int| 0 <= j < elems@.len() ==> ev[j] == json_view(elems@[j]),
            strings_of(ev.take(i as int)) == Some(out@.map_values(|s: String| s@)),
        decreases elems.len() - i,
    {
        proof {
            assert(ev.take(i as int + 1).drop_last() =~= ev.take(i as int));
            assert(ev.take(i as int + 1).last() == ev[i as int]);
        }
        match &elems[i] {
            JsonValue::Text(s) => {
                out.push(s.clone());
                proof {
                    assert(out@.map_values(|s: String| s@) =~= out@.drop_last().map_values(
                        |s: String| s@,
                    ).push(out@.last()@));
                }
            },
            _ => {
                proof {
                    lemma_strings_none(ev, i as int);
                }
                return None;
            },
        }
        i += 1;
    }
    proof {
        assert(ev.take(elems@.len() as int) =~= ev);
    }
    Some(out)
}

/// One day object of the document, as the format reads it.
pub fn day_from_json(v: &JsonValue) -> (r: Option<ContestDay>)
    ensures
        match r {
            Some(cd) => day_of_json(v@) == Some(cd@),
            None => day_of_json(v@) is None,
        },
{
    match v {
        JsonValue::Object(fields) => {
            let k_day: String = "day".to_owned();
            let k_species: String = "species".to_owned();
            let k_version: String = "version".to_owned();
            let k_hints: String = "hints".to_owned();
            let day = uint_field(fields, &k_day);
            let species = uint_field(fields, &k_species);
            let version = text_field(fields, &k_version);
            let hints: Option<Vec<String>> = match field_of_exec(fields, &k_hints) {
                Some(JsonValue::Array(elems)) => strings_from(elems),
                _ => None,
            };
            let r = day_from_parts(day, species, version, hints);
            proof {
                let fv = entries_view(fields@);
                assert(v@ == JsonView::Object(fv));
                if r is Some {
                    assert(day_of_fields(fv) matches Some(dv) && r->Some_0@ =~~= dv);
                }
            }
            r
        },
        _ => None,
    }
}

/// Parse an uploaded schedule document: one JSON array of day objects.
/// `None` exactly on the bytes whose document the schedule format refuses.
pub(crate) fn parse_schedule(bytes: &[u8]) -> (r: Option<ContestDetails>)
    ensures
        match r {
            Some(d) => schedule_spec(bytes@) == Some(d@),
            None => schedule_spec(bytes@) is None,
        },
{
    let doc = match parse_json(bytes) {
        Some(d) => d,
        None => {
            return None;
        },
    };
    let elems: &Vec<JsonValue> = match &doc {
        JsonValue::Array(a) => a,
        _ => {
            return None;
        },
    };
    proof {
        lemma_views_of(elems@);
        assert(views_of(elems@).take(0) =~= Seq::<JsonView>::empty());
    }
    let ghost ev = views_of(elems@);
    let mut days: Vec<ContestDay> = Vec::new();
    let mut i: usize = 0;
    while i < elems.len()
        invariant
            i <= elems.len(),
            ev == views_of(elems@),
            ev.len() == elems@.len(),
            forall|j: int| 0 <= j < elems@.len() ==> ev[j] == json_view(elems@[j]),
            days_of(ev.take(i as int)) == Some(days@.map_values(|d: ContestDay| d@)),
            schedule_spec(bytes@) == days_of(ev),
        decreases elems.len() - i,
    {
        proof {
            assert(ev.take(i as int + 1).drop_last() =~= ev.take(i as int));
            assert(ev.take(i as int + 1).last() == ev[i as int]);
        }
        match day_from_json(&elems[i]) {
            Some(d) => {
                days.push(d);
                proof {
                    assert(days@.map_values(|d: ContestDay| d@) =~= days@.drop_last().map_values(
                        |d: ContestDay| d@,
                    ).push(days@.last()@));
                }
            },
            None => {
                proof {
                    lemma_days_none(ev, i as int);
                }
                return None;
            },
        }
        i += 1;
    }
    proof {
        assert(ev.take(elems@.len() as int) =~= ev);
    }
    Some(ContestDetails(days))
}

} // verus!
