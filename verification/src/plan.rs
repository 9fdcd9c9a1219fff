//! Decoding the model's answer text into a [`CommandPlan`].
//!
//! Unlike the targeted-field scanner, the plan record has unambiguous typed
//! fields, so a conventional structured JSON decoder (serde_json) parses the
//! document; the shape checks around it are the library's own. The accepted
//! surface: a JSON object with a required `cmd` array of strings; optional
//! `explain` string, `needs_confirmation` boolean, `risk` string, and
//! `assumptions`/`notes` arrays of strings. `null` counts as absent for the
//! optional fields, unknown extra keys are ignored, and any present field of
//! the wrong type is a schema error. An empty `cmd` array still decodes: the
//! executor, not the decoder, rejects it as a content error.
//!
//! What the decoder computes is named, not restated: `json_doc_of` and the
//! member names below stand for serde_json's results, and every contract
//! here speaks of the document only through those names, so the decode is
//! fixed for every input up to what serde_json itself returns.
use vstd::prelude::*;

use crate::executor::CommandPlan;
use crate::setting::opt_view;
use crate::text::lemma_strs_view_index;
use crate::text::lemma_strs_view_len;
use crate::text::opt_strs_view;
use crate::text::strs_view;

verus! {

/// Declares serde_json's document type so values of it can pass through
/// signatures; the library never looks inside one except through the
/// trusted accessors below.
#[verifier::external_type_specification]
#[verifier::external_body]
pub struct ExJsonValue(serde_json::Value);

/// Whether serde_json parses the text as a JSON document.
pub uninterp spec fn json_parse_ok_of(s: Seq<char>) -> bool;

/// The document serde_json parses the text into, when it parses.
pub uninterp spec fn json_doc_of(s: Seq<char>) -> serde_json::Value;

/// The diagnostic serde_json reports for the text, when it does not parse.
pub uninterp spec fn json_err_of(s: Seq<char>) -> Seq<char>;

/// Whether a document value is a JSON object.
pub uninterp spec fn json_is_object_of(v: serde_json::Value) -> bool;

/// Whether a document value is JSON `null`.
pub uninterp spec fn json_is_null_of(v: serde_json::Value) -> bool;

/// Whether a document value is an object holding the given member key.
pub uninterp spec fn json_has_key_of(v: serde_json::Value, key: Seq<char>) -> bool;

/// The member a document object holds under the given key, when it does.
pub uninterp spec fn json_member_of(v: serde_json::Value, key: Seq<char>) -> serde_json::Value;

/// The characters of a document value that is a JSON string.
pub uninterp spec fn json_str_of(v: serde_json::Value) -> Option<Seq<char>>;

/// The value of a document value that is a JSON boolean.
pub uninterp spec fn json_bool_of(v: serde_json::Value) -> Option<bool>;

/// The elements of a document value that is a JSON array.
pub uninterp spec fn json_elems_of(v: serde_json::Value) -> Option<Seq<serde_json::Value>>;

/// Relies on `serde_json::from_str::<Value>`: parses a JSON document or
/// yields the decoder's diagnostic; [`json_doc_of`] and [`json_err_of`]
/// name its results, which depend on the text alone.
#[verifier::external_body]
fn parse_json_text(text: &str) -> (r: Result<serde_json::Value, String>)
    ensures
        r is Ok <==> json_parse_ok_of(text@),
        r matches Ok(v) ==> v == json_doc_of(text@),
        r matches Err(m) ==> m@ == json_err_of(text@),
{
    serde_json::from_str::<serde_json::Value>(text).map_err(|e| e.to_string())
}

/// Relies on `serde_json::Value::is_object`, named by [`json_is_object_of`].
#[verifier::external_body]
fn json_is_object(v: &serde_json::Value) -> (r: bool)
    ensures
        r == json_is_object_of(*v),
{
    v.is_object()
}

/// Relies on `serde_json::Value::is_null`, named by [`json_is_null_of`].
#[verifier::external_body]
fn json_is_null(v: &serde_json::Value) -> (r: bool)
    ensures
        r == json_is_null_of(*v),
{
    v.is_null()
}

/// Relies on `serde_json::Value::get`: member lookup, `None` on absent keys
/// and on non-object values; named by [`json_has_key_of`] and
/// [`json_member_of`].
#[verifier::external_body]
fn json_get<'a>(v: &'a serde_json::Value, key: &str) -> (r: Option<&'a serde_json::Value>)
    ensures
        r is Some <==> json_has_key_of(*v, key@),
        r matches Some(f) ==> *f == json_member_of(*v, key@),
{
    v.get(key)
}

/// Relies on `serde_json::Value::as_str`: `Some` exactly for JSON strings,
/// handing the characters back unchanged (owned); named by [`json_str_of`].
#[verifier::external_body]
fn json_as_str(v: &serde_json::Value) -> (r: Option<String>)
    ensures
        r is Some <==> json_str_of(*v) is Some,
        r matches Some(s) ==> json_str_of(*v) == Some(s@),
{
    match v.as_str() {
        Some(s) => Some(s.to_owned()),
        None => None,
    }
}

/// Relies on `serde_json::Value::as_bool`: `Some` exactly for JSON
/// booleans; named by [`json_bool_of`].
#[verifier::external_body]
fn json_as_bool(v: &serde_json::Value) -> (r: Option<bool>)
    ensures
        r == json_bool_of(*v),
{
    v.as_bool()
}

/// Relies on `serde_json::Value::as_array`: `Some` exactly for JSON
/// arrays; named by [`json_elems_of`].
#[verifier::external_body]
fn json_as_array<'a>(v: &'a serde_json::Value) -> (r: Option<&'a Vec<serde_json::Value>>)
    ensures
        r is Some <==> json_elems_of(*v) is Some,
        r matches Some(a) ==> json_elems_of(*v) == Some(a@),
{
    v.as_array()
}

/// The member a document holds under a key, if any.
pub open spec fn field_of(doc: serde_json::Value, key: Seq<char>) -> Option<serde_json::Value> {
    if json_has_key_of(doc, key) {
        Some(json_member_of(doc, key))
    } else {
        None
    }
}

/// Whether every element of an array is a JSON string.
pub open spec fn string_elems_ok(elems: Seq<serde_json::Value>) -> bool {
    forall|i: int| 0 <= i < elems.len() ==> (#[trigger] json_str_of(elems[i])) is Some
}

/// The texts of an array of JSON strings, element by element.
pub open spec fn string_elems_of(elems: Seq<serde_json::Value>) -> Seq<Seq<char>> {
    Seq::new(
        elems.len(),
        |i: int|
            match json_str_of(elems[i]) {
                Some(s) => s,
                None => Seq::empty(),
            },
    )
}

/// The elements of a value read as an array, or nothing when it is none.
pub open spec fn elems_or_empty(v: serde_json::Value) -> Seq<serde_json::Value> {
    match json_elems_of(v) {
        Some(e) => e,
        None => Seq::empty(),
    }
}

/// The elements of the document's `cmd` member.
pub open spec fn cmd_elems_of(doc: serde_json::Value) -> Seq<serde_json::Value> {
    elems_or_empty(json_member_of(doc, "cmd"@))
}

/// Whether the document's `cmd` member is an array of strings.
pub open spec fn cmd_field_ok(doc: serde_json::Value) -> bool {
    json_elems_of(json_member_of(doc, "cmd"@)) is Some && string_elems_ok(cmd_elems_of(doc))
}

/// Whether an optional text field is acceptable: absent, `null`, or a
/// string.
pub open spec fn opt_text_field_ok(doc: serde_json::Value, key: Seq<char>) -> bool {
    match field_of(doc, key) {
        None => true,
        Some(f) => json_is_null_of(f) || json_str_of(f) is Some,
    }
}

/// The text an optional text field contributes; absent and `null` give
/// nothing.
pub open spec fn opt_text_field_val(doc: serde_json::Value, key: Seq<char>) -> Option<Seq<char>> {
    match field_of(doc, key) {
        None => None,
        Some(f) => if json_is_null_of(f) {
            None
        } else {
            json_str_of(f)
        },
    }
}

/// Whether an optional boolean field is acceptable: absent, `null`, or a
/// boolean.
pub open spec fn opt_flag_field_ok(doc: serde_json::Value, key: Seq<char>) -> bool {
    match field_of(doc, key) {
        None => true,
        Some(f) => json_is_null_of(f) || json_bool_of(f) is Some,
    }
}

/// The value an optional boolean field contributes.
pub open spec fn opt_flag_field_val(doc: serde_json::Value, key: Seq<char>) -> Option<bool> {
    match field_of(doc, key) {
        None => None,
        Some(f) => if json_is_null_of(f) {
            None
        } else {
            json_bool_of(f)
        },
    }
}

/// Whether an optional list field is acceptable: absent, `null`, or an
/// array of strings.
pub open spec fn opt_list_field_ok(doc: serde_json::Value, key: Seq<char>) -> bool {
    match field_of(doc, key) {
        None => true,
        Some(f) => json_is_null_of(f) || (json_elems_of(f) is Some && string_elems_ok(
            elems_or_empty(f),
        )),
    }
}

/// The texts an optional list field contributes.
pub open spec fn opt_list_field_val(doc: serde_json::Value, key: Seq<char>) -> Option<
    Seq<Seq<char>>,
> {
    match field_of(doc, key) {
        None => None,
        Some(f) => if json_is_null_of(f) {
            None
        } else if json_elems_of(f) is Some {
            Some(string_elems_of(elems_or_empty(f)))
        } else {
            None
        },
    }
}

fn string_array(v: &serde_json::Value) -> (r: Option<Vec<String>>)
    ensures
        r is Some <==> (json_elems_of(*v) is Some && string_elems_ok(elems_or_empty(*v))),
        r matches Some(out) ==> strs_view(out@) == string_elems_of(elems_or_empty(*v)),
{
    match json_as_array(v) {
        None => None,
        Some(arr) => {
            let mut out: Vec<String> = Vec::new();
            let mut i: usize = 0;
            while i < arr.len()
                invariant
                    i <= arr@.len(),
                    arr@ == elems_or_empty(*v),
                    json_elems_of(*v) == Some(arr@),
                    out@.len() == i,
                    forall|j: int|
                        0 <= j < i ==> (#[trigger] json_str_of(arr@[j])) is Some && out@[j]@
                            == string_elems_of(arr@)[j],
                decreases arr@.len() - i,
            {
                match json_as_str(&arr[i]) {
                    None => {
                        assert(!string_elems_ok(arr@));
                        return None;
                    },
                    Some(s) => out.push(s),
                }
                i = i + 1;
            }
            proof {
                lemma_strs_view_len(out@);
                assert forall|j: int| 0 <= j < out@.len() implies strs_view(out@)[j]
                    == string_elems_of(arr@)[j] by {
                    lemma_strs_view_index(out@, j);
                }
                assert(strs_view(out@) =~= string_elems_of(arr@));
            }
            Some(out)
        },
    }
}

fn opt_string_field(v: &serde_json::Value, key: &str, err: &str) -> (r: Result<
    Option<String>,
    String,
>)
    ensures
        r matches Ok(x) ==> opt_text_field_ok(*v, key@) && opt_view(x) == opt_text_field_val(
            *v,
            key@,
        ),
        r matches Err(m) ==> !opt_text_field_ok(*v, key@) && m@ == err@,
{
    match json_get(v, key) {
        None => Ok(None),
        Some(f) => {
            if json_is_null(f) {
                Ok(None)
            } else {
                match json_as_str(f) {
                    Some(s) => Ok(Some(s)),
                    None => Err(err.to_owned()),
                }
            }
        },
    }
}

fn opt_bool_field(v: &serde_json::Value, key: &str, err: &str) -> (r: Result<Option<bool>, String>)
    ensures
        r matches Ok(x) ==> opt_flag_field_ok(*v, key@) && x == opt_flag_field_val(*v, key@),
        r matches Err(m) ==> !opt_flag_field_ok(*v, key@) && m@ == err@,
{
    match json_get(v, key) {
        None => Ok(None),
        Some(f) => {
            if json_is_null(f) {
                Ok(None)
            } else {
                match json_as_bool(f) {
                    Some(b) => Ok(Some(b)),
                    None => Err(err.to_owned()),
                }
            }
        },
    }
}

fn opt_string_array_field(v: &serde_json::Value, key: &str, err: &str) -> (r: Result<
    Option<Vec<String>>,
    String,
>)
    ensures
        r matches Ok(x) ==> opt_list_field_ok(*v, key@) && opt_strs_view(x) == opt_list_field_val(
            *v,
            key@,
        ),
        r matches Err(m) ==> !opt_list_field_ok(*v, key@) && m@ == err@,
{
    match json_get(v, key) {
        None => Ok(None),
        Some(f) => {
            if json_is_null(f) {
                Ok(None)
            } else {
                match string_array(f) {
                    Some(a) => Ok(Some(a)),
                    None => Err(err.to_owned()),
                }
            }
        },
    }
}

/// Decode the model's answer text into a plan, enforcing the documented
/// shape. Success is owed exactly when the text parses to a JSON object
/// whose `cmd` member is an array of strings — empty included — and whose
/// optional fields, where present and non-null, carry their documented
/// types; members under any other key play no part. Each failure carries
/// the diagnostic for the first violation found, the parse diagnostic
/// being serde_json's own.
pub fn decode_plan(answer_text: &str) -> (r: Result<CommandPlan, String>)
    ensures
        ({
            let s = answer_text@;
            let doc = json_doc_of(s);
            if !json_parse_ok_of(s) {
                (r matches Err(m) && m@ == json_err_of(s))
            } else if !json_is_object_of(doc) {
                (r matches Err(m) && m@ == "expected a JSON object"@)
            } else if !json_has_key_of(doc, "cmd"@) {
                (r matches Err(m) && m@ == "missing required key: cmd"@)
            } else if !cmd_field_ok(doc) {
                (r matches Err(m) && m@ == "cmd: expected an array of strings"@)
            } else if !opt_text_field_ok(doc, "explain"@) {
                (r matches Err(m) && m@ == "explain: expected a string"@)
            } else if !opt_flag_field_ok(doc, "needs_confirmation"@) {
                (r matches Err(m) && m@ == "needs_confirmation: expected a boolean"@)
            } else if !opt_text_field_ok(doc, "risk"@) {
                (r matches Err(m) && m@ == "risk: expected a string"@)
            } else if !opt_list_field_ok(doc, "assumptions"@) {
                (r matches Err(m) && m@ == "assumptions: expected an array of strings"@)
            } else if !opt_list_field_ok(doc, "notes"@) {
                (r matches Err(m) && m@ == "notes: expected an array of strings"@)
            } else {
                (r matches Ok(p) && strs_view(p.cmd@) == string_elems_of(cmd_elems_of(doc))
                    && opt_view(p.explain) == opt_text_field_val(doc, "explain"@)
                    && p.needs_confirmation == opt_flag_field_val(doc, "needs_confirmation"@)
                    && opt_view(p.risk) == opt_text_field_val(doc, "risk"@) && opt_strs_view(
                    p.assumptions,
                ) == opt_list_field_val(doc, "assumptions"@) && opt_strs_view(p.notes)
                    == opt_list_field_val(doc, "notes"@))
            }
        }),
{
    let doc = match parse_json_text(answer_text) {
        Ok(v) => v,
        Err(msg) => {
            return Err(msg);
        },
    };
    if !json_is_object(&doc) {
        return Err("expected a JSON object".to_owned());
    }
    let cmd: Vec<String> = match json_get(&doc, "cmd") {
        None => {
            return Err("missing required key: cmd".to_owned());
        },
        Some(f) => match string_array(f) {
            Some(a) => a,
            None => {
                return Err("cmd: expected an array of strings".to_owned());
            },
        },
    };
    let explain = match opt_string_field(&doc, "explain", "explain: expected a string") {
        Ok(x) => x,
        Err(m) => {
            return Err(m);
        },
    };
    let needs_confirmation = match opt_bool_field(
        &doc,
        "needs_confirmation",
        "needs_confirmation: expected a boolean",
    ) {
        Ok(x) => x,
        Err(m) => {
            return Err(m);
        },
    };
    let risk = match opt_string_field(&doc, "risk", "risk: expected a string") {
        Ok(x) => x,
        Err(m) => {
            return Err(m);
        },
    };
    let assumptions = match opt_string_array_field(
        &doc,
        "assumptions",
        "assumptions: expected an array of strings",
    ) {
        Ok(x) => x,
        Err(m) => {
            return Err(m);
        },
    };
    let notes = match opt_string_array_field(
        &doc,
        "notes",
        "notes: expected an array of strings",
    ) {
        Ok(x) => x,
        Err(m) => {
            return Err(m);
        },
    };
    Ok(CommandPlan { cmd, explain, needs_confirmation, risk, assumptions, notes })
}

} // verus!
