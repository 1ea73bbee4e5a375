//! The `stream_usage_inject` filter: makes every streaming OpenAI Chat
//! Completions request carry `stream_options.include_usage = true`, so the
//! upstream reports token usage in its final SSE event.
//!
//! Non-streaming requests and bodies that already carry the opt-in pass
//! through untouched.
use vstd::prelude::*;
use vstd::pervasive::VecAdditionalExecFns;

use crate::filter::{body_bytes, BodyAccess, BodyMode, FilterAction, FilterError};
use crate::json::{
    fields_view, get, insert_field, insert_member, json_bytes, json_parse, lemma_obj_view, member,
    parse_json, replace_json_body, JsonSpec, JsonValue,
};
use crate::text;

verus! {

/// Default maximum request body bytes for `StreamBuffer` mode (1 MiB).
pub const DEFAULT_MAX_BODY_BYTES: usize = 1_048_576;

/// Returns the default max body bytes.
pub fn default_max_body_bytes() -> (r: usize)
    ensures
        r == DEFAULT_MAX_BODY_BYTES,
{
    DEFAULT_MAX_BODY_BYTES
}

/// Whether a request path is a Chat Completions endpoint (the only API that
/// takes `stream_options`).
pub open spec fn is_chat_completions_path(path: Seq<char>) -> bool {
    text::is_suffix("/chat/completions"@, path)
}

/// Whether a path is a Chat Completions endpoint.
pub fn is_chat_completions(path: &str) -> (r: bool)
    ensures
        r == is_chat_completions_path(path@),
{
    text::ends_with(path, "/chat/completions")
}

/// A streaming request (`stream: true`) without `stream_options.include_usage: true`.
pub open spec fn needs_injection_spec(v: JsonSpec) -> bool {
    member(v, "stream"@) == Some(JsonSpec::Bool(true)) && match member(v, "stream_options"@) {
        Some(so) => member(so, "include_usage"@) != Some(JsonSpec::Bool(true)),
        None => true,
    }
}

/// Whether a value is `true`.
fn is_true(v: Option<&JsonValue>) -> (r: bool)
    ensures
        r == (match v {
            Some(x) => x@ == JsonSpec::Bool(true),
            None => false,
        }),
{
    match v {
        Some(JsonValue::Bool(b)) => *b,
        _ => false,
    }
}

/// Returns `true` when the body is a streaming request without `include_usage`.
pub fn needs_injection(value: &JsonValue) -> (r: bool)
    ensures
        r == needs_injection_spec(value@),
{
    let stream = is_true(get(value, "stream"));
    let included = match get(value, "stream_options") {
        Some(so) => is_true(get(so, "include_usage")),
        None => false,
    };
    stream && !included
}

/// The body with `stream_options.include_usage` set to `true`, creating the
/// options object when absent; `None` when the body or its `stream_options`
/// is not an object.
pub open spec fn injected(v: JsonSpec) -> Option<JsonSpec> {
    match v {
        JsonSpec::Obj(f) => match member(v, "stream_options"@) {
            None => Some(
                JsonSpec::Obj(
                    insert_member(
                        f,
                        "stream_options"@,
                        JsonSpec::Obj(seq![("include_usage"@, JsonSpec::Bool(true))]),
                    ),
                ),
            ),
            Some(JsonSpec::Obj(so)) => Some(
                JsonSpec::Obj(
                    insert_member(
                        f,
                        "stream_options"@,
                        JsonSpec::Obj(insert_member(so, "include_usage"@, JsonSpec::Bool(true))),
                    ),
                ),
            ),
            Some(_) => None,
        },
        _ => None,
    }
}

/// The message when the body is not an object.
pub open spec fn not_object_message() -> Seq<char> {
    "stream_usage_inject: body is not a JSON object"@
}

/// The message when `stream_options` is not an object.
pub open spec fn options_not_object_message() -> Seq<char> {
    "stream_usage_inject: stream_options is not an object"@
}

/// Sets `stream_options.include_usage = true`, creating the object if needed.
pub fn inject_include_usage(value: JsonValue) -> (r: Result<JsonValue, FilterError>)
    ensures
        match r {
            Ok(v) => injected(value@) == Some(v@),
            Err(e) => injected(value@) is None && (e.message@ == not_object_message() || e.message@
                == options_not_object_message()),
        },
{
    let mut fields = match value {
        JsonValue::Obj(f) => f,
        _ => {
            return Err(
                FilterError::new(text::owned("stream_usage_inject: body is not a JSON object")),
            );
        },
    };
    proof {
        lemma_obj_view(fields);
    }
    let ghost f0 = fields_view(fields@);
    match crate::json::field_index(&fields, "stream_options") {
        None => {
            let mut so: Vec<(String, JsonValue)> = Vec::new();
            so.push((text::owned("include_usage"), JsonValue::Bool(true)));
            proof {
                lemma_obj_view(so);
                assert(fields_view(so@) =~= seq![("include_usage"@, JsonSpec::Bool(true))]);
            }
            insert_field(&mut fields, text::owned("stream_options"), JsonValue::Obj(so));
            proof {
                lemma_obj_view(fields);
            }
            Ok(JsonValue::Obj(fields))
        },
        Some(i) => {
            proof {
                crate::json::lemma_first_key_bounds(f0, "stream_options"@);
            }
            let mut entry = (String::new(), JsonValue::Null);
            fields.set_and_swap(i, &mut entry);
            let (key, so_val) = entry;
            match so_val {
                JsonValue::Obj(mut so) => {
                    proof {
                        lemma_obj_view(so);
                    }
                    let ghost so0 = fields_view(so@);
                    insert_field(&mut so, text::owned("include_usage"), JsonValue::Bool(true));
                    proof {
                        lemma_obj_view(so);
                    }
                    fields.set(i, (key, JsonValue::Obj(so)));
                    proof {
                        lemma_obj_view(fields);
                        assert(fields_view(fields@) =~= insert_member(
                            f0,
                            "stream_options"@,
                            JsonSpec::Obj(insert_member(so0, "include_usage"@, JsonSpec::Bool(true))),
                        ));
                    }
                    Ok(JsonValue::Obj(fields))
                },
                _ => Err(
                    FilterError::new(
                        text::owned("stream_usage_inject: stream_options is not an object"),
                    ),
                ),
            }
        },
    }
}

/// After injection the request asks for usage (`stream_options.include_usage`
/// is `true`), keeps `stream` as it was, and needs no second injection.
pub proof fn lemma_injection_sets_usage(v: JsonSpec)
    requires
        injected(v) is Some,
    ensures
        member(member(injected(v)->0, "stream_options"@)->0, "include_usage"@) == Some(
            JsonSpec::Bool(true),
        ),
        member(injected(v)->0, "stream"@) == member(v, "stream"@),
        !needs_injection_spec(injected(v)->0),
{
    let f = v->Obj_0;
    reveal_strlit("stream");
    reveal_strlit("stream_options");
    reveal_strlit("include_usage");
    assert("stream"@.len() != "stream_options"@.len());
    match member(v, "stream_options"@) {
        None => {
            let so = JsonSpec::Obj(seq![("include_usage"@, JsonSpec::Bool(true))]);
            crate::json::lemma_member_after_insert(f, "stream_options"@, so, "stream"@);
            assert(crate::json::first_key(so->Obj_0, "include_usage"@) == Some(0int));
        },
        Some(JsonSpec::Obj(so)) => {
            let nso = JsonSpec::Obj(insert_member(so, "include_usage"@, JsonSpec::Bool(true)));
            crate::json::lemma_member_after_insert(f, "stream_options"@, nso, "stream"@);
            crate::json::lemma_member_after_insert(
                so,
                "include_usage"@,
                JsonSpec::Bool(true),
                "include_usage"@,
            );
        },
        Some(_) => {},
    }
}

/// Configuration of the `stream_usage_inject` filter.
pub struct StreamUsageConfig {
    /// Maximum request body bytes for `StreamBuffer` mode.
    pub max_body_bytes: usize,
}

/// Injects `stream_options.include_usage = true` into streaming OpenAI
/// chat-completions requests so the upstream response contains token usage.
pub struct StreamUsageInjectFilter {
    /// Maximum request body bytes for `StreamBuffer` mode.
    pub max_body_bytes: usize,
}

/// The parsed body the filter rewrites, when every gate passes: the end of
/// the body, a Chat Completions path, a body that parses, and a streaming
/// request that lacks the opt-in.
pub open spec fn rewrite_target(path: Seq<char>, body: Option<Seq<u8>>, end_of_stream: bool) -> Option<
    JsonSpec,
> {
    if end_of_stream && is_chat_completions_path(path) {
        match body {
            Some(b) => match json_parse(b) {
                Some(v) => if needs_injection_spec(v@) {
                    Some(v@)
                } else {
                    None
                },
                None => None,
            },
            None => None,
        }
    } else {
        None
    }
}

impl StreamUsageInjectFilter {
    /// Creates the filter from its configuration.
    pub fn from_config(cfg: StreamUsageConfig) -> (r: Result<StreamUsageInjectFilter, FilterError>)
        ensures
            r matches Ok(f) && f.max_body_bytes == cfg.max_body_bytes,
    {
        Ok(StreamUsageInjectFilter { max_body_bytes: cfg.max_body_bytes })
    }

    /// The filter's registered name.
    pub fn name(&self) -> (r: &'static str)
        ensures
            r@ == "stream_usage_inject"@,
    {
        "stream_usage_inject"
    }

    /// The filter rewrites request bodies.
    pub fn request_body_access(&self) -> (r: BodyAccess)
        ensures
            r == BodyAccess::ReadWrite,
    {
        BodyAccess::ReadWrite
    }

    /// Request bodies are buffered up to the configured limit.
    pub fn request_body_mode(&self) -> (r: BodyMode)
        ensures
            r == (BodyMode::StreamBuffer { max_bytes: Some(self.max_body_bytes) }),
    {
        BodyMode::StreamBuffer { max_bytes: Some(self.max_body_bytes) }
    }

    /// The request phase does nothing.
    pub fn on_request(&self) -> (r: FilterAction)
        ensures
            r is Continue,
    {
        FilterAction::Continue
    }

    /// At the end of a Chat Completions request body, adds the usage opt-in
    /// to streaming requests that lack it; every other body is left as is.
    pub fn on_request_body(&self, path: &str, body: &mut Option<Vec<u8>>, end_of_stream: bool) -> (r:
        Result<FilterAction, FilterError>)
        ensures
            r matches Ok(a) ==> a is Continue,
            rewrite_target(path@, body_bytes(*old(body)), end_of_stream) is None ==> (r is Ok
                && *final(body) == *old(body)),
            rewrite_target(path@, body_bytes(*old(body)), end_of_stream) matches Some(doc) ==> ({
                &&& injected(doc) is None ==> r is Err
                &&& injected(doc) matches Some(d) ==> (r is Ok <==> json_bytes(d) is Some)
                &&& r is Err ==> *final(body) == *old(body)
                &&& r is Ok ==> (*final(body) matches Some(nb) && json_bytes(injected(doc)->0)
                    == Some(nb@))
            }),
    {
        if !end_of_stream {
            return Ok(FilterAction::Continue);
        }
        if !is_chat_completions(path) {
            return Ok(FilterAction::Continue);
        }
        let value = match body {
            Some(raw) => parse_json(raw.as_slice()),
            None => return Ok(FilterAction::Continue),
        };
        let value = match value {
            Some(v) => v,
            None => return Ok(FilterAction::Continue),
        };
        if needs_injection(&value) {
            let injected_value = inject_include_usage(value)?;
            match replace_json_body(body, &injected_value, "stream_options") {
                Ok(()) => {},
                Err(e) => {
                    return Err(FilterError::new(text::concat("stream_usage_inject: ", e.message.as_str())));
                },
            }
            assert(json_bytes(injected_value@) == Some(body->0@));
        }
        Ok(FilterAction::Continue)
    }
}

} // verus!
