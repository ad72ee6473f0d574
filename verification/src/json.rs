use vstd::prelude::*;
use crate::errors::SecretError;
use crate::render::spec_entry_views;

verus! {

/// The entries of the JSON object that the text `s` parses to, in the
/// order the parser's map yields them, each key paired with the string
/// found under the field named `field` of that entry's value (`None` where
/// the value is not an object with such a string field); `None` when `s`
/// is not valid JSON or its top-level value is not an object. The parser's
/// backing map is ordered by key, so the result is a function of `s` and
/// `field` alone.
pub uninterp spec fn json_field_entries(s: Seq<char>, field: Seq<char>) -> Option<
    Seq<(Seq<char>, Option<Seq<char>>)>,
>;

/// View of parsed raw entries as plain character sequences.
pub open spec fn spec_raw_entry_views(es: Seq<(String, Option<String>)>) -> Seq<
    (Seq<char>, Option<Seq<char>>),
> {
    es.map_values(
        |e: (String, Option<String>)|
            (
                e.0@,
                match e.1 {
                    Option::Some(v) => Option::Some(v@),
                    Option::None => Option::<Seq<char>>::None,
                },
            ),
    )
}

/// Relies on `serde_json::from_str::<serde_json::Value>` to parse the text,
/// on matching `serde_json::Value::Object` to insist on a top-level object,
/// and on `serde_json::Value::get` and `serde_json::Value::as_str` to read
/// the string under `field` of each entry's value. The object's keys are
/// distinct, and the backing map hands them out in a fixed order.
#[verifier::external_body]
fn parse_field_entries(s: &str, field: &str) -> (r: Option<Vec<(String, Option<String>)>>)
    ensures
        r is Some <==> json_field_entries(s@, field@) is Some,
        r matches Some(es) ==> {
            &&& spec_raw_entry_views(es@) == json_field_entries(s@, field@)->0
            &&& forall|i: int, j: int| 0 <= i < j < es@.len() ==> es@[i].0@ != es@[j].0@
        },
{
    let v: serde_json::Value = match serde_json::from_str(s) { Ok(v) => v, Err(_) => return None };
    let obj = match v { serde_json::Value::Object(m) => m, _ => return None };
    let mut out: Vec<(String, Option<String>)> = Vec::new();
    for (k, val) in obj.iter() {
        let c = match val.get(field) { Some(f) => f.as_str().map(str::to_string), None => None };
        out.push((k.clone(), c));
    }
    Some(out)
}

/// The secret map in the backend's response: the entries of its JSON
/// object, each reduced to the string under `field` of its value; `None`
/// when the response is not a JSON object or some entry lacks such a
/// string.
pub open spec fn spec_secrets(s: Seq<char>, field: Seq<char>) -> Option<
    Seq<(Seq<char>, Seq<char>)>,
> {
    match json_field_entries(s, field) {
        Option::None => Option::None,
        Option::Some(es) => if forall|i: int| 0 <= i < es.len() ==> (#[trigger] es[i]).1 is Some {
            Option::Some(es.map_values(|e: (Seq<char>, Option<Seq<char>>)| (e.0, e.1->0)))
        } else {
            Option::None
        },
    }
}

/// Parses the backend's JSON response and reduces it to (key, value) pairs,
/// where each value is the string under the entry's `computed` field;
/// rejects any other shape with `ParseError`. The keys of a successful
/// result are distinct.
pub fn extract_secrets(response: &str) -> (r: Result<Vec<(String, String)>, SecretError>)
    ensures
        r is Ok <==> spec_secrets(response@, "computed"@) is Some,
        r matches Ok(v) ==> spec_entry_views(v@) == spec_secrets(response@, "computed"@)->0,
        r matches Ok(v) ==> forall|i: int, j: int|
            0 <= i < j < v@.len() ==> v@[i].0@ != v@[j].0@,
        r matches Err(e) ==> e is ParseError,
{
    let parsed: Vec<(String, Option<String>)> = match parse_field_entries(response, "computed") {
        Some(es) => es,
        None => {
            return Err(SecretError::ParseError);
        },
    };
    let ghost raw = spec_raw_entry_views(parsed@);
    let mut out: Vec<(String, String)> = Vec::new();
    let mut i: usize = 0;
    while i < parsed.len()
        invariant
            0 <= i <= parsed@.len(),
            raw == spec_raw_entry_views(parsed@),
            raw.len() == parsed@.len(),
            raw == json_field_entries(response@, "computed"@)->0,
            json_field_entries(response@, "computed"@) is Some,
            forall|p: int, q: int| 0 <= p < q < parsed@.len() ==> parsed@[p].0@ != parsed@[q].0@,
            out@.len() == i,
            forall|j: int| 0 <= j < i ==> (#[trigger] raw[j]).1 is Some,
            forall|j: int| 0 <= j < i ==> (#[trigger] out@[j].0@) == raw[j].0,
            forall|j: int| 0 <= j < i ==> (#[trigger] out@[j].1@) == raw[j].1->0,
        decreases parsed@.len() - i,
    {
        let pair: &(String, Option<String>) = &parsed[i];
        match &pair.1 {
            Some(v) => {
                out.push((pair.0.clone(), v.clone()));
            },
            None => {
                proof {
                    assert(!(raw[i as int].1 is Some));
                }
                return Err(SecretError::ParseError);
            },
        }
        i = i + 1;
    }
    proof {
        let secrets = spec_secrets(response@, "computed"@);
        assert(forall|j: int| 0 <= j < raw.len() ==> (#[trigger] raw[j]).1 is Some);
        assert(secrets is Some);
        assert(spec_entry_views(out@) =~= secrets->0);
    }
    Ok(out)
}

} // verus!
