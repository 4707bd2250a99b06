//! JSON values, as far as the text of a request is read from them.
use vstd::prelude::*;
use vstd::string::*;

use crate::text::{first_chars, head, same_text};

verus! {

/// A JSON value. Of nulls, booleans and numbers nothing is read, so they carry nothing.
#[derive(Debug)]
pub enum JsonValue {
    Scalar,
    Text(String),
    Array(Vec<JsonValue>),
    Object(Vec<JsonField>),
}

/// A member of a JSON object.
#[derive(Debug)]
pub struct JsonField {
    pub name: String,
    pub value: JsonValue,
}

/// The value of the last of the members with the given name.
pub open spec fn member_named(fields: Seq<JsonField>, name: Seq<char>) -> Option<JsonValue>
    decreases fields.len(),
{
    if fields.len() == 0 {
        None
    } else if fields.last().name@ == name {
        Some(fields.last().value)
    } else {
        member_named(fields.drop_last(), name)
    }
}

/// The member of the given name, where the value is an object that has one.
pub open spec fn member(value: JsonValue, name: Seq<char>) -> Option<JsonValue> {
    match value {
        JsonValue::Object(fields) => member_named(fields@, name),
        _ => None,
    }
}

/// The text that the member `text` of a value holds.
pub open spec fn text_member(value: JsonValue) -> Option<Seq<char>> {
    match member(value, "text"@) {
        Some(JsonValue::Text(text)) => Some(text@),
        _ => None,
    }
}

/// The text that is `out` with `text` on a new line, up to `max` characters in all. An `out`
/// that is full stays as it is.
pub open spec fn line_added(out: Seq<char>, text: Seq<char>, max: nat) -> Seq<char> {
    if out.len() >= max {
        out
    } else {
        let start = if out.len() == 0 {
            out
        } else {
            out.push('\n')
        };
        start + first_chars(text, (max - start.len()) as nat)
    }
}

/// The text that is `out` with the texts of a value added: a text itself, the member `text` of
/// an object, and the items of an array in turn.
pub open spec fn texts_added(value: JsonValue, out: Seq<char>, max: nat) -> Seq<char>
    decreases value,
{
    match value {
        JsonValue::Scalar => out,
        JsonValue::Text(text) => line_added(out, text@, max),
        JsonValue::Array(items) => items_added(items@, out, max),
        JsonValue::Object(_) => match text_member(value) {
            Some(text) => line_added(out, text, max),
            None => out,
        },
    }
}

/// The text that is `out` with the texts of the items of an array added.
pub open spec fn items_added(items: Seq<JsonValue>, out: Seq<char>, max: nat) -> Seq<char>
    decreases items,
{
    if items.len() == 0 {
        out
    } else {
        let before = items_added(items.drop_last(), out, max);
        match text_member(items.last()) {
            Some(text) => line_added(before, text, max),
            None => texts_added(items.last(), before, max),
        }
    }
}

impl JsonValue {
    /// The member of the given name.
    pub fn get(&self, name: &str) -> (found: Option<&JsonValue>)
        ensures
            match found {
                Some(value) => member(*self, name@) == Some(*value),
                None => member(*self, name@) is None,
            },
    {
        match self {
            JsonValue::Object(fields) => {
                let mut i: usize = fields.len();
                assert(fields@.take(i as int) =~= fields@);
                while i > 0
                    invariant
                        i <= fields@.len(),
                        member(*self, name@) == member_named(fields@.take(i as int), name@),
                    decreases i,
                {
                    i -= 1;
                    assert(fields@.take(i + 1).drop_last() =~= fields@.take(i as int));
                    if same_text(fields[i].name.as_str(), name) {
                        return Some(&fields[i].value);
                    }
                }
                None
            },
            _ => None,
        }
    }

    /// The text that the member `text` holds.
    pub fn text_of_member(&self) -> (found: Option<&str>)
        ensures
            match found {
                Some(text) => text_member(*self) == Some(text@),
                None => text_member(*self) is None,
            },
    {
        match self.get("text") {
            Some(JsonValue::Text(text)) => Some(text.as_str()),
            _ => None,
        }
    }
}

/// Adds a text on a new line, up to `max_chars` characters in all.
pub fn push_capped(out: &mut String, text: &str, max_chars: usize)
    ensures
        final(out)@ == line_added(old(out)@, text@, max_chars as nat),
{
    let count: usize = out.as_str().unicode_len();
    if count >= max_chars {
        return ;
    }
    let start: usize = if count == 0 {
        0
    } else {
        out.push('\n');
        count + 1
    };
    out.append(head(text, max_chars - start));
}

/// A full text takes nothing more.
pub proof fn lemma_full_stays(value: JsonValue, out: Seq<char>, max: nat)
    requires
        out.len() >= max,
    ensures
        texts_added(value, out, max) == out,
    decreases value,
{
    match value {
        JsonValue::Array(items) => {
            lemma_full_stays_items(items@, out, max);
        },
        _ => {},
    }
}

/// A full text takes nothing more from an array either.
pub proof fn lemma_full_stays_items(items: Seq<JsonValue>, out: Seq<char>, max: nat)
    requires
        out.len() >= max,
    ensures
        items_added(items, out, max) == out,
    decreases items,
{
    if items.len() > 0 {
        lemma_full_stays_items(items.drop_last(), out, max);
        lemma_full_stays(items.last(), out, max);
    }
}

/// Once the first items have filled the text, the others add nothing.
proof fn lemma_full_after(items: Seq<JsonValue>, k: int, out: Seq<char>, max: nat)
    requires
        0 <= k <= items.len(),
        items_added(items.take(k), out, max).len() >= max,
    ensures
        items_added(items, out, max) == items_added(items.take(k), out, max),
    decreases items.len(),
{
    if k < items.len() {
        assert(items.drop_last().take(k) =~= items.take(k));
        lemma_full_after(items.drop_last(), k, out, max);
        lemma_full_stays(items.last(), items_added(items.take(k), out, max), max);
    } else {
        assert(items.take(k) =~= items);
    }
}

/// Adds the texts of a value, up to `max_chars` characters in all.
pub fn collect_text_from_value(value: &JsonValue, out: &mut String, max_chars: usize)
    ensures
        final(out)@ == texts_added(*value, old(out)@, max_chars as nat),
    decreases value,
{
    let ghost max = max_chars as nat;
    let ghost start = out@;
    if out.as_str().unicode_len() >= max_chars {
        proof {
            lemma_full_stays(*value, start, max);
        }
        return ;
    }
    match value {
        JsonValue::Scalar => {},
        JsonValue::Text(text) => {
            push_capped(out, text.as_str(), max_chars);
        },
        JsonValue::Array(items) => {
            let mut i: usize = 0;
            assert(items@.take(0) =~= Seq::<JsonValue>::empty());
            while i < items.len()
                invariant
                    i <= items@.len(),
                    max == max_chars,
                    start == old(out)@,
                    *value == JsonValue::Array(*items),
                    out@ == items_added(items@.take(i as int), start, max),
                decreases items@.len() - i,
            {
                proof {
                    assert(items@.take(i + 1).drop_last() =~= items@.take(i as int));
                    assert(decreases_to!(*value => value->Array_0));
                    assert(decreases_to!(value->Array_0 => value->Array_0@));
                    assert(decreases_to!(items@ => items@[i as int]));
                }
                match items[i].text_of_member() {
                    Some(text) => {
                        push_capped(out, text, max_chars);
                    },
                    None => {
                        collect_text_from_value(&items[i], out, max_chars);
                    },
                }
                i += 1;
                if out.as_str().unicode_len() >= max_chars {
                    proof {
                        lemma_full_after(items@, i as int, start, max);
                    }
                    return ;
                }
            }
            assert(items@.take(i as int) =~= items@);
        },
        JsonValue::Object(_) => {
            if let Some(text) = value.text_of_member() {
                push_capped(out, text, max_chars);
            }
        },
    }
}

} // verus!
