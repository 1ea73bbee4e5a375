//! The `content_normalize` filter: rewrites Anthropic content block types
//! that vLLM's Anthropic endpoint rejects into ones it accepts.
//!
//! `server_tool_use` and `server_tool_result` become `tool_use` and
//! `tool_result`; any other type outside vLLM's accepted set becomes a
//! `text` block carrying the best text that can be recovered from it.
//! Inside a `tool_result`, blocks other than `text` and `image` become
//! `text` blocks too, because Qwen's chat template handles only those two.
use vstd::prelude::*;
use vstd::pervasive::VecAdditionalExecFns;

use crate::filter::{body_bytes, BodyAccess, BodyMode, FilterAction, FilterError};
use crate::json::{
    field_index, fields_view, insert_field, insert_member, items_view, json_bytes, json_parse,
    lemma_arr_view, lemma_first_key_bounds, lemma_obj_view, member, member_str, parse_json, replace_json_body,
    JsonSpec, JsonValue,
};
use crate::text;

verus! {

/// Default maximum request body bytes (4 MiB: agentic sessions send large contexts).
pub const DEFAULT_MAX_BODY_BYTES: usize = 4_194_304;

/// Default for `max_body_bytes`.
pub fn default_max_body_bytes() -> (r: usize)
    ensures
        r == DEFAULT_MAX_BODY_BYTES,
{
    DEFAULT_MAX_BODY_BYTES
}

// -----------------------------------------------------------------------------
// The rewrite, as content
// -----------------------------------------------------------------------------

/// Content block types that vLLM accepts in the Anthropic endpoint.
pub open spec fn vllm_accepted(t: Seq<char>) -> bool {
    t == "text"@ || t == "image"@ || t == "tool_use"@ || t == "tool_result"@ || t
        == "tool_reference"@ || t == "thinking"@ || t == "redacted_thinking"@
}

/// Content block types Qwen's template accepts inside a `tool_result`.
pub open spec fn qwen_accepted(t: Seq<char>) -> bool {
    t == "text"@ || t == "image"@
}

/// `[{ty}: {name}]`.
pub open spec fn labeled(ty: Seq<char>, name: Seq<char>) -> Seq<char> {
    "["@ + ty + ": "@ + name + "]"@
}

/// Best-effort text for a replaced block: its `text`, else `[{type}: {name}]`
/// from `name` or `tool_name`, else `[{type}]`.
pub open spec fn replacement_text(block: JsonSpec, ty: Seq<char>) -> Seq<char> {
    match member_str(block, "text"@) {
        Some(t) => t,
        None => match member_str(block, "name"@) {
            Some(n) => labeled(ty, n),
            None => match member_str(block, "tool_name"@) {
                Some(n) => labeled(ty, n),
                None => "["@ + ty + "]"@,
            },
        },
    }
}

/// The `text` block that replaces a block of type `ty`.
pub open spec fn text_block(block: JsonSpec, ty: Seq<char>) -> JsonSpec {
    JsonSpec::Obj(
        seq![("type"@, JsonSpec::Str("text"@)), ("text"@, JsonSpec::Str(replacement_text(block, ty)))],
    )
}

/// A block inside a `tool_result`, normalized for Qwen.
pub open spec fn normalize_inner_block(b: JsonSpec) -> JsonSpec {
    if b is Obj {
        match member_str(b, "type"@) {
            Some(t) => if !qwen_accepted(t) {
                text_block(b, t)
            } else {
                b
            },
            None => b,
        }
    } else {
        b
    }
}

/// Whether normalization rewrites a block inside a `tool_result`.
pub open spec fn inner_block_changes(b: JsonSpec) -> bool {
    b is Obj && match member_str(b, "type"@) {
        Some(t) => !qwen_accepted(t),
        None => false,
    }
}

/// Blocks inside a `tool_result`, normalized.
pub open spec fn normalize_inner_blocks(bs: Seq<JsonSpec>) -> Seq<JsonSpec> {
    Seq::new(bs.len(), |i: int| normalize_inner_block(bs[i]))
}

/// Whether any block inside a `tool_result` is rewritten.
pub open spec fn inner_blocks_change(bs: Seq<JsonSpec>) -> bool {
    exists|i: int| 0 <= i < bs.len() && inner_block_changes(#[trigger] bs[i])
}

/// A message content block, normalized for vLLM.
pub open spec fn normalize_block(b: JsonSpec) -> JsonSpec {
    match b {
        JsonSpec::Obj(f) => match member_str(b, "type"@) {
            Some(t) => if t == "server_tool_use"@ {
                JsonSpec::Obj(insert_member(f, "type"@, JsonSpec::Str("tool_use"@)))
            } else if t == "server_tool_result"@ {
                JsonSpec::Obj(insert_member(f, "type"@, JsonSpec::Str("tool_result"@)))
            } else if t == "tool_result"@ {
                match member(b, "content"@) {
                    Some(JsonSpec::Arr(bs)) => JsonSpec::Obj(
                        insert_member(f, "content"@, JsonSpec::Arr(normalize_inner_blocks(bs))),
                    ),
                    _ => b,
                }
            } else if !vllm_accepted(t) {
                text_block(b, t)
            } else {
                b
            },
            None => b,
        },
        _ => b,
    }
}

/// Whether normalization rewrites a message content block.
pub open spec fn block_changes(b: JsonSpec) -> bool {
    b is Obj && match member_str(b, "type"@) {
        Some(t) => t == "server_tool_use"@ || t == "server_tool_result"@ || (t == "tool_result"@
            && match member(b, "content"@) {
            Some(JsonSpec::Arr(bs)) => inner_blocks_change(bs),
            _ => false,
        }) || (t != "tool_result"@ && !vllm_accepted(t)),
        None => false,
    }
}

/// Content blocks of a message, normalized.
pub open spec fn normalize_blocks(bs: Seq<JsonSpec>) -> Seq<JsonSpec> {
    Seq::new(bs.len(), |i: int| normalize_block(bs[i]))
}

/// Whether any content block is rewritten.
pub open spec fn blocks_change(bs: Seq<JsonSpec>) -> bool {
    exists|i: int| 0 <= i < bs.len() && block_changes(#[trigger] bs[i])
}

/// A message with its `content` array normalized; other messages as they are.
pub open spec fn normalize_message(m: JsonSpec) -> JsonSpec {
    match m {
        JsonSpec::Obj(f) => match member(m, "content"@) {
            Some(JsonSpec::Arr(bs)) => JsonSpec::Obj(
                insert_member(f, "content"@, JsonSpec::Arr(normalize_blocks(bs))),
            ),
            _ => m,
        },
        _ => m,
    }
}

/// Whether normalization rewrites a message.
pub open spec fn message_changes(m: JsonSpec) -> bool {
    m is Obj && match member(m, "content"@) {
        Some(JsonSpec::Arr(bs)) => blocks_change(bs),
        _ => false,
    }
}

/// Messages, normalized.
pub open spec fn normalize_messages_spec(ms: Seq<JsonSpec>) -> Seq<JsonSpec> {
    Seq::new(ms.len(), |i: int| normalize_message(ms[i]))
}

/// Whether any message is rewritten.
pub open spec fn messages_change(ms: Seq<JsonSpec>) -> bool {
    exists|i: int| 0 <= i < ms.len() && message_changes(#[trigger] ms[i])
}

// -----------------------------------------------------------------------------
// The rewrite, executable
// -----------------------------------------------------------------------------

/// A string member of an object's members.
fn member_str_of<'a>(fields: &'a Vec<(String, JsonValue)>, key: &str) -> (r: Option<&'a String>)
    ensures
        match r {
            Some(s) => member_str(JsonSpec::Obj(fields_view(fields@)), key@) == Some(s@),
            None => member_str(JsonSpec::Obj(fields_view(fields@)), key@) is None,
        },
{
    match field_index(fields, key) {
        Some(i) => match &fields[i].1 {
            JsonValue::Str(s) => Some(s),
            _ => None,
        },
        None => None,
    }
}

/// `[{ty}: {name}]`.
fn labeled_text(ty: &str, name: &str) -> (r: String)
    ensures
        r@ == labeled(ty@, name@),
{
    let m = text::concat("[", ty);
    let m = text::concat(m.as_str(), ": ");
    let m = text::concat(m.as_str(), name);
    text::concat(m.as_str(), "]")
}

/// Best-effort text extraction from a content block being replaced.
pub fn extract_text_from_block(block: &Vec<(String, JsonValue)>, original_type: &str) -> (r: String)
    ensures
        r@ == replacement_text(JsonSpec::Obj(fields_view(block@)), original_type@),
{
    if let Some(t) = member_str_of(block, "text") {
        return t.clone();
    }
    if let Some(n) = member_str_of(block, "name") {
        return labeled_text(original_type, n.as_str());
    }
    if let Some(n) = member_str_of(block, "tool_name") {
        return labeled_text(original_type, n.as_str());
    }
    let m = text::concat("[", original_type);
    text::concat(m.as_str(), "]")
}

/// The `text` block replacing a block of type `ty`.
fn make_text_block(block: &Vec<(String, JsonValue)>, ty: &str) -> (r: JsonValue)
    ensures
        r@ == text_block(JsonSpec::Obj(fields_view(block@)), ty@),
{
    let t = extract_text_from_block(block, ty);
    let mut fields: Vec<(String, JsonValue)> = Vec::new();
    fields.push((text::owned("type"), JsonValue::Str(text::owned("text"))));
    fields.push((text::owned("text"), JsonValue::Str(t)));
    proof {
        lemma_obj_view(fields);
        assert(fields_view(fields@) =~= seq![
            ("type"@, JsonSpec::Str("text"@)),
            ("text"@, JsonSpec::Str(replacement_text(JsonSpec::Obj(fields_view(block@)), ty@))),
        ]);
    }
    JsonValue::Obj(fields)
}

/// Whether `t` is one of vLLM's accepted block types.
fn is_vllm_accepted(t: &str) -> (r: bool)
    ensures
        r == vllm_accepted(t@),
{
    text::str_eq(t, "text") || text::str_eq(t, "image") || text::str_eq(t, "tool_use")
        || text::str_eq(t, "tool_result") || text::str_eq(t, "tool_reference") || text::str_eq(
        t,
        "thinking",
    ) || text::str_eq(
        t,
        "redacted_thinking",
    )
}

/// Whether `t` is one of Qwen's accepted `tool_result` block types.
fn is_qwen_accepted(t: &str) -> (r: bool)
    ensures
        r == qwen_accepted(t@),
{
    text::str_eq(t, "text") || text::str_eq(t, "image")
}

/// Normalizes one block inside a `tool_result`.
fn normalize_inner_value(b: JsonValue) -> (r: (JsonValue, bool))
    ensures
        r.0@ == normalize_inner_block(b@),
        r.1 == inner_block_changes(b@),
{
    match b {
        JsonValue::Obj(fields) => {
            proof {
                lemma_obj_view(fields);
            }
            let ty = match member_str_of(&fields, "type") {
                Some(t) => Some(t.clone()),
                None => None,
            };
            match ty {
                Some(t) => {
                    if !is_qwen_accepted(t.as_str()) {
                        (make_text_block(&fields, t.as_str()), true)
                    } else {
                        (JsonValue::Obj(fields), false)
                    }
                },
                None => (JsonValue::Obj(fields), false),
            }
        },
        other => {
            assert(!(other@ is Obj)) by {
                if let JsonValue::Obj(f) = other {
                } else {
                }
            }
            (other, false)
        },
    }
}

/// Normalizes content blocks inside a `tool_result` for Qwen's template;
/// the flag says whether any block was rewritten.
pub fn normalize_tool_result_content(items: Vec<JsonValue>) -> (r: (Vec<JsonValue>, bool))
    ensures
        items_view(r.0@) == normalize_inner_blocks(items_view(items@)),
        r.1 == inner_blocks_change(items_view(items@)),
{
    let ghost orig = items_view(items@);
    let mut items = items;
    let mut mutated = false;
    let mut i: usize = 0;
    while i < items.len()
        invariant
            items.len() == orig.len(),
            i <= items.len(),
            forall|j: int| 0 <= j < i ==> items_view(items@)[j] == normalize_inner_block(orig[j]),
            forall|j: int| i <= j < items.len() ==> items_view(items@)[j] == orig[j],
            mutated == exists|j: int| 0 <= j < i && inner_block_changes(#[trigger] orig[j]),
        decreases items.len() - i,
    {
        let ghost before = items@;
        let mut b = JsonValue::Null;
        items.set_and_swap(i, &mut b);
        assert(b@ == orig[i as int]);
        let (nb, changed) = normalize_inner_value(b);
        items.set(i, nb);
        assert forall|j: int| 0 <= j < i + 1 implies items_view(items@)[j] == normalize_inner_block(
            orig[j],
        ) by {
            if j < i {
                assert(items@[j] == before[j]);
                assert(items_view(before)[j] == items_view(items@)[j]);
            } else {
                assert(items@[j] == items@[i as int]);
            }
        }
        assert forall|j: int| i + 1 <= j < items.len() implies items_view(items@)[j] == orig[j] by {
            assert(items@[j] == before[j]);
        }
        mutated = mutated || changed;
        i = i + 1;
    }
    assert(items_view(items@) =~= normalize_inner_blocks(orig));
    (items, mutated)
}

/// Normalizes one message content block.
fn normalize_block_value(b: JsonValue) -> (r: (JsonValue, bool))
    ensures
        r.0@ == normalize_block(b@),
        r.1 == block_changes(b@),
{
    let mut fields = match b {
        JsonValue::Obj(f) => f,
        other => {
            assert(!(other@ is Obj)) by {
                if let JsonValue::Obj(f) = other {
                } else {
                }
            }
            return (other, false);
        },
    };
    proof {
        lemma_obj_view(fields);
    }
    let ghost f0 = fields_view(fields@);
    let ty = match member_str_of(&fields, "type") {
        Some(t) => t.clone(),
        None => return (JsonValue::Obj(fields), false),
    };
    if text::str_eq(ty.as_str(), "server_tool_use") {
        insert_field(&mut fields, text::owned("type"), JsonValue::Str(text::owned("tool_use")));
        proof {
            lemma_obj_view(fields);
        }
        return (JsonValue::Obj(fields), true);
    }
    if text::str_eq(ty.as_str(), "server_tool_result") {
        insert_field(&mut fields, text::owned("type"), JsonValue::Str(text::owned("tool_result")));
        proof {
            lemma_obj_view(fields);
        }
        return (JsonValue::Obj(fields), true);
    }
    if text::str_eq(ty.as_str(), "tool_result") {
        match field_index(&fields, "content") {
            Some(i) => {
                proof {
                    lemma_first_key_bounds(f0, "content"@);
                }
                let mut entry = (String::new(), JsonValue::Null);
                fields.set_and_swap(i, &mut entry);
                let (key, content) = entry;
                match content {
                    JsonValue::Arr(items) => {
                        proof {
                            lemma_arr_view(items);
                        }
                        let (items2, changed) = normalize_tool_result_content(items);
                        let nc = JsonValue::Arr(items2);
                        proof {
                            lemma_arr_view(items2);
                        }
                        fields.set(i, (key, nc));
                        proof {
                            lemma_obj_view(fields);
                            assert(fields_view(fields@) =~= insert_member(
                                f0,
                                "content"@,
                                nc@,
                            ));
                        }
                        return (JsonValue::Obj(fields), changed);
                    },
                    other => {
                        let ghost ov = other@;
                        fields.set(i, (key, other));
                        proof {
                            lemma_obj_view(fields);
                            assert(fields_view(fields@) =~= f0);
                            assert(!(ov is Arr)) by {
                                if let JsonValue::Arr(a) = other {
                                } else {
                                }
                            }
                        }
                        return (JsonValue::Obj(fields), false);
                    },
                }
            },
            None => {
                return (JsonValue::Obj(fields), false);
            },
        }
    }
    if !is_vllm_accepted(ty.as_str()) {
        return (make_text_block(&fields, ty.as_str()), true);
    }
    (JsonValue::Obj(fields), false)
}

/// Normalizes the content blocks of one message.
fn normalize_block_list(items: Vec<JsonValue>) -> (r: (Vec<JsonValue>, bool))
    ensures
        items_view(r.0@) == normalize_blocks(items_view(items@)),
        r.1 == blocks_change(items_view(items@)),
{
    let ghost orig = items_view(items@);
    let mut items = items;
    let mut mutated = false;
    let mut i: usize = 0;
    while i < items.len()
        invariant
            items.len() == orig.len(),
            i <= items.len(),
            forall|j: int| 0 <= j < i ==> items_view(items@)[j] == normalize_block(orig[j]),
            forall|j: int| i <= j < items.len() ==> items_view(items@)[j] == orig[j],
            mutated == exists|j: int| 0 <= j < i && block_changes(#[trigger] orig[j]),
        decreases items.len() - i,
    {
        let ghost before = items@;
        let mut b = JsonValue::Null;
        items.set_and_swap(i, &mut b);
        assert(b@ == orig[i as int]);
        let (nb, changed) = normalize_block_value(b);
        items.set(i, nb);
        assert forall|j: int| 0 <= j < i + 1 implies items_view(items@)[j] == normalize_block(
            orig[j],
        ) by {
            if j < i {
                assert(items@[j] == before[j]);
                assert(items_view(before)[j] == items_view(items@)[j]);
            } else {
                assert(items@[j] == items@[i as int]);
            }
        }
        assert forall|j: int| i + 1 <= j < items.len() implies items_view(items@)[j] == orig[j] by {
            assert(items@[j] == before[j]);
        }
        mutated = mutated || changed;
        i = i + 1;
    }
    assert(items_view(items@) =~= normalize_blocks(orig));
    (items, mutated)
}

/// Normalizes one message.
fn normalize_message_value(m: JsonValue) -> (r: (JsonValue, bool))
    ensures
        r.0@ == normalize_message(m@),
        r.1 == message_changes(m@),
{
    let mut fields = match m {
        JsonValue::Obj(f) => f,
        other => {
            assert(!(other@ is Obj)) by {
                if let JsonValue::Obj(f) = other {
                } else {
                }
            }
            return (other, false);
        },
    };
    proof {
        lemma_obj_view(fields);
    }
    let ghost f0 = fields_view(fields@);
    match field_index(&fields, "content") {
        Some(i) => {
            proof {
                lemma_first_key_bounds(f0, "content"@);
            }
            let mut entry = (String::new(), JsonValue::Null);
            fields.set_and_swap(i, &mut entry);
            let (key, content) = entry;
            match content {
                JsonValue::Arr(items) => {
                    proof {
                        lemma_arr_view(items);
                    }
                    let (items2, changed) = normalize_block_list(items);
                    let nc = JsonValue::Arr(items2);
                    proof {
                        lemma_arr_view(items2);
                    }
                    fields.set(i, (key, nc));
                    proof {
                        lemma_obj_view(fields);
                        assert(fields_view(fields@) =~= insert_member(f0, "content"@, nc@));
                    }
                    (JsonValue::Obj(fields), changed)
                },
                other => {
                    let ghost ov = other@;
                    assert(!(ov is Arr)) by {
                        if let JsonValue::Arr(a) = other {
                        } else {
                        }
                    }
                    fields.set(i, (key, other));
                    proof {
                        lemma_obj_view(fields);
                        assert(fields_view(fields@) =~= f0);
                    }
                    (JsonValue::Obj(fields), false)
                },
            }
        },
        None => (JsonValue::Obj(fields), false),
    }
}

/// Walks all messages and normalizes unsupported content block types; the
/// flag says whether any block was rewritten.
pub fn normalize_messages(messages: Vec<JsonValue>) -> (r: (Vec<JsonValue>, bool))
    ensures
        items_view(r.0@) == normalize_messages_spec(items_view(messages@)),
        r.1 == messages_change(items_view(messages@)),
{
    let ghost orig = items_view(messages@);
    let mut items = messages;
    let mut mutated = false;
    let mut i: usize = 0;
    while i < items.len()
        invariant
            items.len() == orig.len(),
            i <= items.len(),
            forall|j: int| 0 <= j < i ==> items_view(items@)[j] == normalize_message(orig[j]),
            forall|j: int| i <= j < items.len() ==> items_view(items@)[j] == orig[j],
            mutated == exists|j: int| 0 <= j < i && message_changes(#[trigger] orig[j]),
        decreases items.len() - i,
    {
        let ghost before = items@;
        let mut m = JsonValue::Null;
        items.set_and_swap(i, &mut m);
        assert(m@ == orig[i as int]);
        let (nm, changed) = normalize_message_value(m);
        items.set(i, nm);
        assert forall|j: int| 0 <= j < i + 1 implies items_view(items@)[j] == normalize_message(
            orig[j],
        ) by {
            if j < i {
                assert(items@[j] == before[j]);
                assert(items_view(before)[j] == items_view(items@)[j]);
            } else {
                assert(items@[j] == items@[i as int]);
            }
        }
        assert forall|j: int| i + 1 <= j < items.len() implies items_view(items@)[j] == orig[j] by {
            assert(items@[j] == before[j]);
        }
        mutated = mutated || changed;
        i = i + 1;
    }
    assert(items_view(items@) =~= normalize_messages_spec(orig));
    (items, mutated)
}

// -----------------------------------------------------------------------------
// Laws
// -----------------------------------------------------------------------------

/// After normalization every typed content block has a type vLLM accepts.
pub proof fn lemma_normalized_block_type_accepted(b: JsonSpec)
    requires
        b is Obj,
        member_str(b, "type"@) is Some,
    ensures
        member_str(normalize_block(b), "type"@) matches Some(t) && vllm_accepted(t),
{
    let f = b->Obj_0;
    let t = member_str(b, "type"@)->0;
    reveal_strlit("type");
    reveal_strlit("content");
    reveal_strlit("text");
    assert("type"@.len() != "content"@.len());
    if t == "server_tool_use"@ {
        crate::json::lemma_member_after_insert(f, "type"@, JsonSpec::Str("tool_use"@), "type"@);
    } else if t == "server_tool_result"@ {
        crate::json::lemma_member_after_insert(f, "type"@, JsonSpec::Str("tool_result"@), "type"@);
    } else if t == "tool_result"@ {
        match member(b, "content"@) {
            Some(JsonSpec::Arr(bs)) => {
                crate::json::lemma_member_after_insert(
                    f,
                    "content"@,
                    JsonSpec::Arr(normalize_inner_blocks(bs)),
                    "type"@,
                );
            },
            _ => {},
        }
    } else if !vllm_accepted(t) {
        let tb = text_block(b, t);
        assert(crate::json::first_key(tb->Obj_0, "type"@) == Some(0int));
    }
}

/// Inside a normalized `tool_result`, every typed block has a type Qwen's
/// template accepts (`text` or `image`).
pub proof fn lemma_normalized_inner_type_accepted(b: JsonSpec)
    requires
        b is Obj,
        member_str(b, "type"@) is Some,
    ensures
        member_str(normalize_inner_block(b), "type"@) matches Some(t) && qwen_accepted(t),
{
    let t = member_str(b, "type"@)->0;
    reveal_strlit("type");
    if !qwen_accepted(t) {
        let tb = text_block(b, t);
        assert(crate::json::first_key(tb->Obj_0, "type"@) == Some(0int));
    }
}

/// Inside a `tool_result`, a block of type `text` or `image` (the types
/// Qwen's template renders) is kept exactly as it is and counts as no change.
pub proof fn lemma_inner_text_and_image_kept(b: JsonSpec)
    requires
        member_str(b, "type"@) == Some("text"@) || member_str(b, "type"@) == Some("image"@),
    ensures
        normalize_inner_block(b) == b,
        !inner_block_changes(b),
{
}

/// A message block of a type vLLM accepts (`text`, `image`, `tool_use`,
/// `tool_reference`, `thinking`, `redacted_thinking`) is kept exactly as it
/// is and counts as no change.
pub proof fn lemma_vllm_types_kept(b: JsonSpec, t: Seq<char>)
    requires
        member_str(b, "type"@) == Some(t),
        t == "text"@ || t == "image"@ || t == "tool_use"@ || t == "tool_reference"@ || t
            == "thinking"@ || t == "redacted_thinking"@,
    ensures
        normalize_block(b) == b,
        !block_changes(b),
{
    reveal_strlit("text");
    reveal_strlit("image");
    reveal_strlit("tool_use");
    reveal_strlit("tool_reference");
    reveal_strlit("thinking");
    reveal_strlit("redacted_thinking");
    reveal_strlit("tool_result");
    reveal_strlit("server_tool_use");
    reveal_strlit("server_tool_result");
    assert(t.len() != "server_tool_use"@.len() || t[0] != 's');
    assert(t.len() != "server_tool_result"@.len() || t[0] != 's');
    assert(t.len() != "tool_result"@.len() || t[5] != 'r');
}

/// A `tool_result` block whose content blocks are all `text` or `image` is
/// kept exactly as it is, and normalization reports no change for it.
pub proof fn lemma_tool_result_of_text_and_images_kept(b: JsonSpec)
    requires
        member_str(b, "type"@) == Some("tool_result"@),
        member(b, "content"@) matches Some(JsonSpec::Arr(bs)) && forall|i: int|
            0 <= i < bs.len() ==> (member_str(#[trigger] bs[i], "type"@) == Some("text"@)
                || member_str(bs[i], "type"@) == Some("image"@)),
    ensures
        normalize_block(b) == b,
        !block_changes(b),
{
    reveal_strlit("tool_result");
    reveal_strlit("server_tool_use");
    reveal_strlit("server_tool_result");
    let f = b->Obj_0;
    let bs = member(b, "content"@)->0->Arr_0;
    assert forall|i: int| 0 <= i < bs.len() implies normalize_inner_block(#[trigger] bs[i]) == bs[i]
        && !inner_block_changes(bs[i]) by {
        lemma_inner_text_and_image_kept(bs[i]);
    }
    assert(normalize_inner_blocks(bs) =~= bs);
    lemma_first_key_bounds(f, "content"@);
    let k = crate::json::first_key(f, "content"@)->0;
    assert(f.update(k, ("content"@, JsonSpec::Arr(bs))) =~= f);
    assert(!("tool_result"@ == "server_tool_use"@));
    assert(!("tool_result"@ == "server_tool_result"@));
}

// -----------------------------------------------------------------------------
// The filter
// -----------------------------------------------------------------------------

/// Configuration of the `content_normalize` filter.
pub struct ContentNormalizeConfig {
    /// Maximum request body bytes for `StreamBuffer` mode.
    pub max_body_bytes: usize,
}

/// Normalizes Anthropic content block types for vLLM/Qwen compatibility.
pub struct ContentNormalizeFilter {
    /// Maximum request body bytes for `StreamBuffer` mode.
    pub max_body_bytes: usize,
}

/// The document written back for a parsed request body: present only when
/// the body is an object whose `messages` array has a block to rewrite.
pub open spec fn normalized_document(doc: JsonSpec) -> Option<JsonSpec> {
    match doc {
        JsonSpec::Obj(f) => match member(doc, "messages"@) {
            Some(JsonSpec::Arr(ms)) => if messages_change(ms) {
                Some(
                    JsonSpec::Obj(
                        insert_member(f, "messages"@, JsonSpec::Arr(normalize_messages_spec(ms))),
                    ),
                )
            } else {
                None
            },
            _ => None,
        },
        _ => None,
    }
}

/// The document the filter writes back for a request body chunk: only at the
/// end of the body, for a body that parses and needs rewriting.
pub open spec fn normalize_target(body: Option<Seq<u8>>, end_of_stream: bool) -> Option<JsonSpec> {
    if end_of_stream {
        match body {
            Some(b) => match json_parse(b) {
                Some(v) => normalized_document(v@),
                None => None,
            },
            None => None,
        }
    } else {
        None
    }
}

impl ContentNormalizeFilter {
    /// Creates the filter from its configuration.
    pub fn from_config(cfg: ContentNormalizeConfig) -> (r: Result<ContentNormalizeFilter, FilterError>)
        ensures
            r matches Ok(f) && f.max_body_bytes == cfg.max_body_bytes,
    {
        Ok(ContentNormalizeFilter { max_body_bytes: cfg.max_body_bytes })
    }

    /// The filter's registered name.
    pub fn name(&self) -> (r: &'static str)
        ensures
            r@ == "content_normalize"@,
    {
        "content_normalize"
    }

    /// The filter rewrites request bodies.
    pub fn request_body_access(&self) -> (r: BodyAccess)
        ensures
            r == BodyAccess::ReadWrite,
    {
        BodyAccess::ReadWrite
    }

    /// Request bodies are buffered up to the configured limit.
    pub fn request_body_mode(&self) -> (r: BodyMode)
        ensures
            r == (BodyMode::StreamBuffer { max_bytes: Some(self.max_body_bytes) }),
    {
        BodyMode::StreamBuffer { max_bytes: Some(self.max_body_bytes) }
    }

    /// The request phase does nothing.
    pub fn on_request(&self) -> (r: FilterAction)
        ensures
            r is Continue,
    {
        FilterAction::Continue
    }

    /// At the end of the body, rewrites unsupported content block types in
    /// `messages` and writes the document back; every other body is left as
    /// it is.
    pub fn on_request_body(&self, body: &mut Option<Vec<u8>>, end_of_stream: bool) -> (r: Result<
        FilterAction,
        FilterError,
    >)
        ensures
            r matches Ok(a) ==> a is Continue,
            normalize_target(body_bytes(*old(body)), end_of_stream) is None ==> (r is Ok
                && *final(body) == *old(body)),
            normalize_target(body_bytes(*old(body)), end_of_stream) matches Some(doc) ==> ({
                &&& r is Err ==> *final(body) == *old(body)
                &&& r is Ok ==> (*final(body) matches Some(nb) && json_bytes(doc) == Some(nb@))
                &&& r is Err ==> json_bytes(doc) is None
            }),
            r matches Err(e) ==> e.message@ == "content_normalize: "@ + ("failed to serialize "@
                + "messages"@),
    {
        if !end_of_stream {
            return Ok(FilterAction::Continue);
        }
        let value = match body {
            Some(raw) => parse_json(raw.as_slice()),
            None => return Ok(FilterAction::Continue),
        };
        let value = match value {
            Some(v) => v,
            None => return Ok(FilterAction::Continue),
        };
        let mut fields = match value {
            JsonValue::Obj(fields) => fields,
            _ => return Ok(FilterAction::Continue),
        };
        proof {
            lemma_obj_view(fields);
        }
        let ghost f0 = fields_view(fields@);
        let i = match field_index(&fields, "messages") {
            Some(i) => i,
            None => return Ok(FilterAction::Continue),
        };
        proof {
            lemma_first_key_bounds(f0, "messages"@);
        }
        let mut entry = (String::new(), JsonValue::Null);
        fields.set_and_swap(i, &mut entry);
        let (key, messages) = entry;
        let ms = match messages {
            JsonValue::Arr(ms) => ms,
            _ => return Ok(FilterAction::Continue),
        };
        proof {
            lemma_arr_view(ms);
        }
        let ghost ms0 = items_view(ms@);
        let (nms, mutated) = normalize_messages(ms);
        if !mutated {
            return Ok(FilterAction::Continue);
        }
        proof {
            lemma_arr_view(nms);
        }
        fields.set(i, (key, JsonValue::Arr(nms)));
        let doc = JsonValue::Obj(fields);
        proof {
            lemma_obj_view(fields);
            assert(fields_view(fields@) =~= insert_member(
                f0,
                "messages"@,
                JsonSpec::Arr(normalize_messages_spec(ms0)),
            ));
        }
        match replace_json_body(body, &doc, "messages") {
            Ok(()) => Ok(FilterAction::Continue),
            Err(e) => {
                let m = text::concat("content_normalize: ", e.message.as_str());
                Err(FilterError::new(m))
            },
        }
    }
}

} // verus!
