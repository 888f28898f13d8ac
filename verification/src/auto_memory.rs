//! Automatic memory: the prompt that asks the model what of a conversation
//! is worth keeping, and the arguments that store each item it names.

use vstd::prelude::*;
use crate::json::{get_str, items_view, json_object, json_str, member, members_view, Json, JsonValue};
use crate::memory_broker::{bracketed, bracketed_spec, bracketed_text, Bracketed};
use crate::reply::{parse_value_array, value_array};
use crate::mcp::servers::protocol::{arg_str, arg_strings, arg_strings_spec, texts_json, texts_to_json};

verus! {

/// The prompt that asks what of the exchange `query` / `response` to keep.
pub open spec fn extraction_prompt_spec(query: Seq<char>, response: Seq<char>) -> Seq<char> {
    "Extract key pieces of information from this conversation that would be valuable to remember for future interactions.\n\nUSER QUERY:\n\""@
        + query + "\"\n\nASSISTANT RESPONSE:\n\""@ + response
        + "\"\n\nFor each piece of key information, return a JSON object with these properties:\n- key: A brief, descriptive identifier for this information (e.g., 'project_deadline', 'user_preference_theme')\n- value: The specific information to remember\n- tags: An array of 1-3 categorical tags (e.g., ['project', 'timeline'], ['preference', 'ui'])\n\nReturn these as a JSON array of objects. If no key information is found, return an empty array.\nOnly extract truly important/reusable information. Focus on facts, preferences, project details.\n\nReturn ONLY valid JSON, no other text."@
}

/// The prompt that asks what of the exchange to keep.
pub fn extraction_prompt(query: &str, response: &str) -> (r: String)
    ensures
        r@ == extraction_prompt_spec(query@, response@),
{
    let mut p = String::from_str(
        "Extract key pieces of information from this conversation that would be valuable to remember for future interactions.\n\nUSER QUERY:\n\"",
    );
    p.append(query);
    p.append("\"\n\nASSISTANT RESPONSE:\n\"");
    p.append(response);
    p.append(
        "\"\n\nFor each piece of key information, return a JSON object with these properties:\n- key: A brief, descriptive identifier for this information (e.g., 'project_deadline', 'user_preference_theme')\n- value: The specific information to remember\n- tags: An array of 1-3 categorical tags (e.g., ['project', 'timeline'], ['preference', 'ui'])\n\nReturn these as a JSON array of objects. If no key information is found, return an empty array.\nOnly extract truly important/reusable information. Focus on facts, preferences, project details.\n\nReturn ONLY valid JSON, no other text.",
    );
    p
}

/// The items the model's answer `text` extracts: the answer read as a JSON
/// array, or else the text from its first `[` to its last `]` read so; none
/// when neither reads.
pub open spec fn reply_items(text: Seq<char>) -> Seq<Json> {
    match value_array(text) {
        Ok(v) => v,
        Err(_) => match bracketed_spec(text) {
            Bracketed::Slice(_) => match value_array(bracketed_text(text)) {
                Ok(v) => v,
                Err(_) => Seq::empty(),
            },
            _ => Seq::empty(),
        },
    }
}

/// The pieces of information the model's answer `text` extracted (see
/// [`reply_items`]). An answer whose last `]` comes before its first `[`
/// cannot be a JSON array, and its slice cannot be taken, so it is left
/// out.
pub fn extracted_items(text: &str) -> (r: Vec<JsonValue>)
    requires
        !(bracketed_spec(text@) is Reversed),
    ensures
        items_view(r@) == reply_items(text@),
{
    match parse_value_array(text) {
        Ok(v) => v,
        Err(_) => match bracketed(text) {
            Bracketed::Slice(t) => match parse_value_array(t.as_str()) {
                Ok(v) => v,
                Err(_) => Vec::new(),
            },
            _ => {
                assert(items_view(Seq::<JsonValue>::empty()) =~= Seq::<Json>::empty());
                Vec::new()
            },
        },
    }
}

/// The arguments that store an extracted item: its key, value and string
/// tags; none when it has no key or no value.
pub open spec fn store_args_spec(m: Json) -> Option<Json> {
    match (get_str(m, "key"@), get_str(m, "value"@)) {
        (Some(k), Some(v)) => Some(
            Json::Object(
                seq![
                    ("key"@, Json::Str(k)),
                    ("value"@, Json::Str(v)),
                    ("tags"@, Json::Array(texts_json(arg_strings_spec(m, "tags"@)))),
                ],
            ),
        ),
        _ => None,
    }
}

/// The arguments that store an extracted item (see [`store_args_spec`]).
pub fn store_memory_args(m: &JsonValue) -> (r: Option<JsonValue>)
    ensures
        match store_args_spec(m@) {
            Some(j) => r matches Some(x) && x@ == j,
            None => r is None,
        },
{
    match (arg_str(m, "key"), arg_str(m, "value")) {
        (Some(k), Some(v)) => {
            let tags = arg_strings(m, "tags");
            let members = vec![
                member("key", json_str(k.as_str())),
                member("value", json_str(v.as_str())),
                member("tags", texts_to_json(&tags)),
            ];
            assert(members_view(members@) =~= seq![
                ("key"@, Json::Str(k@)),
                ("value"@, Json::Str(v@)),
                ("tags"@, Json::Array(texts_json(arg_strings_spec(m@, "tags"@)))),
            ]);
            Some(json_object(members))
        },
        _ => None,
    }
}

} // verus!
