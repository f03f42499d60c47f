//! The tap of a formula, read from the package manager's JSON description
//! of it (`brew info --json=v2`): the `tap` of its first formula, unless
//! that is the core tap, which needs no mention.

use vstd::prelude::*;
use crate::text::text_eq;

verus! {

#[verifier::external_type_specification]
#[verifier::external_body]
pub struct ExJsonValue(serde_json::Value);

/// Relies on `serde_json::from_str` into a `serde_json::Value`: the parsed
/// document, or `None` when the text is not JSON.
#[verifier::external_body]
fn parse_json(text: &str) -> (r: Option<serde_json::Value>) {
    serde_json::from_str::<serde_json::Value>(text).ok()
}

/// Relies on `serde_json::Value::get` with a string key: the member of an
/// object, or `None`.
#[verifier::external_body]
fn json_member<'a>(v: &'a serde_json::Value, key: &str) -> (r: Option<&'a serde_json::Value>) {
    v.get(key)
}

/// Relies on `serde_json::Value::get` with a position: the element of an
/// array, or `None`.
#[verifier::external_body]
fn json_element(v: &serde_json::Value, i: usize) -> (r: Option<&serde_json::Value>) {
    v.get(i)
}

/// Relies on `serde_json::Value::as_str`: the text of a JSON string, or
/// `None`.
#[verifier::external_body]
fn json_text(v: &serde_json::Value) -> (r: Option<&str>) {
    v.as_str()
}

/// The name of the core tap, which a formula's tap is not reported as.
pub open spec fn core_tap() -> Seq<char> {
    "homebrew/core"@
}

/// The tap `tap`, unless it is the core tap.
pub fn non_core_tap(tap: &str) -> (r: Option<String>)
    ensures
        tap@ == core_tap() ==> r is None,
        tap@ != core_tap() ==> r is Some && r->0@ == tap@,
{
    if text_eq(tap, "homebrew/core") {
        None
    } else {
        Some(String::from_str(tap))
    }
}

/// The tap named in a JSON formula description: the `tap` text of the
/// first entry of its `formulae` array, unless that is the core tap; `None`
/// when the text is not such a description.
pub fn tap_from_info(info_json: &str) -> (r: Option<String>)
    ensures
        r is Some ==> r->0@ != core_tap(),
{
    let doc = match parse_json(info_json) {
        Some(d) => d,
        None => return None,
    };
    let formulae = match json_member(&doc, "formulae") {
        Some(f) => f,
        None => return None,
    };
    let first = match json_element(formulae, 0) {
        Some(f) => f,
        None => return None,
    };
    let tap = match json_member(first, "tap") {
        Some(t) => t,
        None => return None,
    };
    match json_text(tap) {
        Some(t) => non_core_tap(t),
        None => None,
    }
}

} // verus!
