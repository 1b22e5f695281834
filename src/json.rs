use vstd::prelude::*;

use crate::config::{first_key_at, lookup};
use crate::text::{concat, same_text, trim_both, trim_end, trim_start};

verus! {

/// A loosely typed value of a source document, as read from JSON.
pub enum JsonValue {
    Null,
    Bool(bool),
    /// A number, kept as the text that JSON writes for it.
    Number(String),
    Str(String),
    Array(Vec<JsonValue>),
    /// An object's entries, in the order in which they were read.
    Object(Vec<(String, JsonValue)>),
}

/// The JSON string literal that serde_json writes for `s`.
pub uninterp spec fn quoted(s: Seq<char>) -> Seq<char>;

/// Relies on `serde_json::to_string` on a `str`: it writes the JSON string
/// literal of its argument, and depends on the characters alone.
#[verifier::external_body]
fn json_quote(s: &str) -> (r: String)
    ensures
        r@ == quoted(s@),
{
    serde_json::to_string(s).unwrap_or_default()
}

/// The compact JSON text of `v`.
pub open spec fn json_text(v: JsonValue) -> Seq<char>
    decreases v,
{
    match v {
        JsonValue::Null => "null"@,
        JsonValue::Bool(b) => if b {
            "true"@
        } else {
            "false"@
        },
        JsonValue::Number(n) => n@,
        JsonValue::Str(s) => quoted(s@),
        JsonValue::Array(items) => "["@ + items_text(items@) + "]"@,
        JsonValue::Object(entries) => "{"@ + entries_text(entries@) + "}"@,
    }
}

/// The JSON texts of `items`, separated by commas.
pub open spec fn items_text(items: Seq<JsonValue>) -> Seq<char>
    decreases items,
{
    if items.len() == 0 {
        Seq::empty()
    } else if items.len() == 1 {
        json_text(items[0])
    } else {
        items_text(items.subrange(0, items.len() - 1)) + ","@ + json_text(items[items.len() - 1])
    }
}

/// The JSON texts of object `entries`, each a quoted key, a colon and a
/// value, separated by commas.
pub open spec fn entries_text(entries: Seq<(String, JsonValue)>) -> Seq<char>
    decreases entries,
{
    if entries.len() == 0 {
        Seq::empty()
    } else {
        let last = entries[entries.len() - 1];
        let one = quoted(last.0@) + ":"@ + json_text(last.1);
        if entries.len() == 1 {
            one
        } else {
            entries_text(entries.subrange(0, entries.len() - 1)) + ","@ + one
        }
    }
}

/// The text of `v` without the double quotes at either end.
pub open spec fn unquoted_text(v: JsonValue) -> Seq<char> {
    trim_end(trim_start(json_text(v), '"'), '"')
}

/// The compact JSON text of `v`.
pub fn render_json(v: &JsonValue) -> (r: String)
    ensures
        r@ == json_text(*v),
    decreases *v,
{
    match v {
        JsonValue::Null => String::from_str("null"),
        JsonValue::Bool(b) => if *b {
            String::from_str("true")
        } else {
            String::from_str("false")
        },
        JsonValue::Number(n) => n.clone(),
        JsonValue::Str(s) => json_quote(s.as_str()),
        JsonValue::Array(items) => {
            let mut out = String::new();
            let mut i: usize = 0;
            while i < items.len()
                invariant
                    i <= items@.len(),
                    v is Array,
                    v->Array_0 == *items,
                    out@ == items_text(items@.subrange(0, i as int)),
                decreases items@.len() - i,
            {
                proof {
                    assert(decreases_to!(*v => v->Array_0));
                    assert(decreases_to!(*items => items@));
                    assert(decreases_to!(items@ => items@[i as int]));
                }
                let one = render_json(&items[i]);
                if i > 0 {
                    out = concat(out.as_str(), ",");
                }
                out = concat(out.as_str(), one.as_str());
                proof {
                    let next = items@.subrange(0, i + 1);
                    assert(next.subrange(0, i as int) =~= items@.subrange(0, i as int));
                    if i == 0 {
                        assert(out@ =~= json_text(next[0]));
                    }
                }
                i = i + 1;
            }
            assert(items@.subrange(0, items@.len() as int) =~= items@);
            concat(concat("[", out.as_str()).as_str(), "]")
        },
        JsonValue::Object(entries) => {
            let mut out = String::new();
            let mut i: usize = 0;
            while i < entries.len()
                invariant
                    i <= entries@.len(),
                    v is Object,
                    v->Object_0 == *entries,
                    out@ == entries_text(entries@.subrange(0, i as int)),
                decreases entries@.len() - i,
            {
                proof {
                    assert(decreases_to!(*v => v->Object_0));
                    assert(decreases_to!(*entries => entries@));
                    assert(decreases_to!(entries@ => entries@[i as int]));
                    assert(decreases_to!(entries@[i as int] => entries@[i as int].1));
                }
                let key = json_quote(entries[i].0.as_str());
                let value = render_json(&entries[i].1);
                if i > 0 {
                    out = concat(out.as_str(), ",");
                }
                out = concat(out.as_str(), key.as_str());
                out = concat(out.as_str(), ":");
                out = concat(out.as_str(), value.as_str());
                proof {
                    let next = entries@.subrange(0, i + 1);
                    assert(next.subrange(0, i as int) =~= entries@.subrange(0, i as int));
                }
                i = i + 1;
            }
            assert(entries@.subrange(0, entries@.len() as int) =~= entries@);
            concat(concat("{", out.as_str()).as_str(), "}")
        },
    }
}

/// The text of `value` without the double quotes at either end.
pub fn convert_value_to_string_without_quotes(value: &JsonValue) -> (r: String)
    ensures
        r@ == unquoted_text(*value),
{
    let text = render_json(value);
    trim_both(text.as_str(), '"')
}

/// The value of the first entry of `entries` under `key`, if any.
pub fn get_entry<'a>(entries: &'a Vec<(String, JsonValue)>, key: &str) -> (r: Option<
    &'a JsonValue,
>)
    ensures
        r matches Some(v) ==> lookup(entries@, key@) == Some(*v),
        r is None ==> lookup(entries@, key@) is None,
{
    let mut i: usize = 0;
    while i < entries.len()
        invariant
            i <= entries@.len(),
            forall|j: int| 0 <= j < i ==> entries@[j].0@ != key@,
        decreases entries@.len() - i,
    {
        if same_text(entries[i].0.as_str(), key) {
            proof {
                assert(first_key_at(entries@, key@, i as int));
                let j = choose|j: int| first_key_at(entries@, key@, j);
                assert(j == i as int) by {
                    if j < i {
                        assert(entries@[j].0@ != key@);
                    }
                    if j > i {
                        assert(entries@[i as int].0@ != key@);
                    }
                }
            }
            return Some(&entries[i].1);
        }
        i = i + 1;
    }
    None
}

} // verus!
