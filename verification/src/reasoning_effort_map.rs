//! The `reasoning_effort_map` filter: rewrites reasoning effort values for
//! backends with a restricted effort vocabulary.
//!
//! Both wire shapes are rewritten through a configurable map (by default
//! `high -> xhigh`, `minimal -> low`): the chat-completions top-level
//! `reasoning_effort` string and the Responses `reasoning.effort` field.
//! Only bodies whose `model` names one of the configured models are
//! touched; the model list is mandatory and must not be empty.
use vstd::prelude::*;
use vstd::pervasive::VecAdditionalExecFns;

use crate::filter::{
    body_bytes, entries_view, lookup_entry, meta_get, BodyAccess, BodyMode, FilterAction,
    FilterError,
};
use crate::json::{
    field_index, fields_view, get, insert_member, json_bytes, json_parse, lemma_first_key_bounds,
    lemma_obj_view, member, member_str, parse_json, replace_json_body, JsonSpec, JsonValue,
};
use crate::text::{self, strings_view};

verus! {

/// Default maximum request body bytes (4 MiB: agentic sessions send large contexts).
pub const DEFAULT_MAX_BODY_BYTES: usize = 4_194_304;

/// Default for `max_body_bytes`.
pub fn default_max_body_bytes() -> (r: usize)
    ensures
        r == DEFAULT_MAX_BODY_BYTES,
{
    DEFAULT_MAX_BODY_BYTES
}

/// Whether no key occurs twice, as in a map.
pub open spec fn keys_distinct(m: Seq<(Seq<char>, Seq<char>)>) -> bool {
    forall|i: int, j: int| 0 <= i < j < m.len() ==> m[i].0 != m[j].0
}

/// The default effort rewrites, in key order: values the Qwen chat template
/// rejects, mapped to its nearest accepted neighbor.
pub open spec fn default_effort_map() -> Seq<(Seq<char>, Seq<char>)> {
    seq![("high"@, "xhigh"@), ("minimal"@, "low"@)]
}

/// Default effort rewrites (`high -> xhigh`, `minimal -> low`).
pub fn default_effort_values() -> (r: Vec<(String, String)>)
    ensures
        entries_view(r@) == default_effort_map(),
        keys_distinct(entries_view(r@)),
{
    let mut v: Vec<(String, String)> = Vec::new();
    v.push((text::owned("high"), text::owned("xhigh")));
    v.push((text::owned("minimal"), text::owned("low")));
    proof {
        reveal_strlit("high");
        reveal_strlit("minimal");
        assert(entries_view(v@) =~= default_effort_map());
        assert("high"@.len() != "minimal"@.len());
    }
    v
}

/// Configuration of the `reasoning_effort_map` filter.
pub struct ReasoningEffortMapConfig {
    /// Requested model names whose bodies this filter rewrites (exact match
    /// on the body `model` field).
    pub models: Vec<String>,
    /// Requested effort value to replacement value, one entry per key.
    pub values: Vec<(String, String)>,
    /// Maximum request body size accepted by the filter.
    pub max_body_bytes: usize,
}

/// Rewrites `reasoning_effort` / `reasoning.effort` for configured models.
pub struct ReasoningEffortMapFilter {
    models: Vec<String>,
    values: Vec<(String, String)>,
    max_body_bytes: usize,
}

/// The message for an empty model list.
pub open spec fn empty_models_message() -> Seq<char> {
    "reasoning_effort_map: `models` must list at least one model"@
}

/// `container[key]` rewritten through `values` where it is a mapped string
/// whose replacement differs; the flag says whether it changed.
pub open spec fn remap_spec(container: JsonSpec, key: Seq<char>, values: Seq<(Seq<char>, Seq<char>)>) -> (
    JsonSpec,
    bool,
) {
    match container {
        JsonSpec::Obj(f) => match member_str(container, key) {
            Some(cur) => match meta_get(values, cur) {
                Some(rep) => if rep != cur {
                    (JsonSpec::Obj(insert_member(f, key, JsonSpec::Str(rep))), true)
                } else {
                    (container, false)
                },
                None => (container, false),
            },
            None => (container, false),
        },
        _ => (container, false),
    }
}

/// Both rewrites applied to a document: first the top-level
/// `reasoning_effort`, then `effort` inside `reasoning` where the document
/// has a `reasoning` member.
pub open spec fn effort_rewrite(doc: JsonSpec, values: Seq<(Seq<char>, Seq<char>)>) -> (JsonSpec, bool) {
    let (d1, m1) = remap_spec(doc, "reasoning_effort"@, values);
    match d1 {
        JsonSpec::Obj(f1) => match member(d1, "reasoning"@) {
            Some(rv) => {
                let (r2, m2) = remap_spec(rv, "effort"@, values);
                (JsonSpec::Obj(insert_member(f1, "reasoning"@, r2)), m1 || m2)
            },
            None => (d1, m1),
        },
        _ => (d1, m1),
    }
}

/// Whether a document names one of `models` in its `model` member.
pub open spec fn model_selected(doc: JsonSpec, models: Seq<Seq<char>>) -> bool {
    match member_str(doc, "model"@) {
        Some(m) => models.contains(m),
        None => false,
    }
}

/// The document the filter writes back for a request body chunk: only at the
/// end of the body, for a body that parses, names a configured model and
/// has an effort to rewrite.
pub open spec fn effort_target(
    models: Seq<Seq<char>>,
    values: Seq<(Seq<char>, Seq<char>)>,
    body: Option<Seq<u8>>,
    end_of_stream: bool,
) -> Option<JsonSpec> {
    if end_of_stream {
        match body {
            Some(b) => match json_parse(b) {
                Some(v) => if model_selected(v@, models) && effort_rewrite(v@, values).1 {
                    Some(effort_rewrite(v@, values).0)
                } else {
                    None
                },
                None => None,
            },
            None => None,
        }
    } else {
        None
    }
}

/// Every configured model, at any place in the list, selects its body for
/// rewriting: at the end of a body that names it and asks for an effort the
/// values map to a different value, the written document asks for the
/// replacement.
pub proof fn lemma_any_configured_model_is_rewritten(
    models: Seq<Seq<char>>,
    values: Seq<(Seq<char>, Seq<char>)>,
    body: Seq<u8>,
    k: int,
    cur: Seq<char>,
    rep: Seq<char>,
)
    requires
        0 <= k < models.len(),
        json_parse(body) matches Some(v) && v@ is Obj && member_str(v@, "model"@) == Some(models[k])
            && member_str(v@, "reasoning_effort"@) == Some(cur),
        meta_get(values, cur) == Some(rep),
        rep != cur,
    ensures
        effort_target(models, values, Some(body), true) matches Some(d) && member(
            d,
            "reasoning_effort"@,
        ) == Some(JsonSpec::Str(rep)),
{
    let v = json_parse(body)->0;
    assert(models[k] == models[k]);
    assert(models.contains(models[k]));
    let f = v@->Obj_0;
    crate::json::lemma_member_after_insert(f, "reasoning_effort"@, JsonSpec::Str(rep), "reasoning"@);
    let d1 = JsonSpec::Obj(insert_member(f, "reasoning_effort"@, JsonSpec::Str(rep)));
    reveal_strlit("reasoning");
    reveal_strlit("reasoning_effort");
    assert("reasoning"@.len() != "reasoning_effort"@.len());
    match member(d1, "reasoning"@) {
        Some(rv) => {
            let r2 = remap_spec(rv, "effort"@, values).0;
            crate::json::lemma_member_after_insert(
                d1->Obj_0,
                "reasoning"@,
                r2,
                "reasoning_effort"@,
            );
        },
        None => {},
    }
}

/// Rewrites member `key` of an object's members through `values` when it is
/// a mapped string; returns whether it changed.
pub fn remap_field(fields: &mut Vec<(String, JsonValue)>, key: &str, values: &Vec<(String, String)>) -> (r:
    bool)
    ensures
        (JsonSpec::Obj(fields_view(final(fields)@)), r) == remap_spec(
            JsonSpec::Obj(fields_view(old(fields)@)),
            key@,
            entries_view(values@),
        ),
{
    let ghost f0 = fields_view(fields@);
    let i = match field_index(fields, key) {
        Some(i) => i,
        None => return false,
    };
    proof {
        lemma_first_key_bounds(f0, key@);
    }
    let rep = match &fields[i].1 {
        JsonValue::Str(cur) => {
            let rep = match lookup_entry(values, cur.as_str()) {
                Some(rep) => rep,
                None => return false,
            };
            if text::str_eq(rep.as_str(), cur.as_str()) {
                return false;
            }
            text::owned(rep.as_str())
        },
        _ => return false,
    };
    fields.set(i, (text::owned(key), JsonValue::Str(rep)));
    assert(fields_view(fields@) =~= insert_member(f0, key@, JsonSpec::Str(rep@)));
    true
}

impl ReasoningEffortMapFilter {
    /// The configured model names.
    pub closed spec fn models_view(&self) -> Seq<Seq<char>> {
        strings_view(self.models@)
    }

    /// The configured effort rewrites.
    pub closed spec fn values_view(&self) -> Seq<(Seq<char>, Seq<char>)> {
        entries_view(self.values@)
    }

    /// The configured body limit.
    pub closed spec fn body_limit(&self) -> usize {
        self.max_body_bytes
    }

    /// Creates the filter, refusing an empty model list: an unscoped rewrite
    /// would silently change effort for backends that accept it.
    pub fn from_config(cfg: ReasoningEffortMapConfig) -> (r: Result<ReasoningEffortMapFilter, FilterError>)
        requires
            keys_distinct(entries_view(cfg.values@)),
        ensures
            r is Err <==> cfg.models.len() == 0,
            r matches Err(e) ==> e.message@ == empty_models_message(),
            r matches Ok(f) ==> f.models_view() == strings_view(cfg.models@) && f.values_view()
                == entries_view(cfg.values@) && f.body_limit() == cfg.max_body_bytes,
    {
        if cfg.models.len() == 0 {
            return Err(
                FilterError::new(
                    text::owned("reasoning_effort_map: `models` must list at least one model"),
                ),
            );
        }
        Ok(
            ReasoningEffortMapFilter {
                models: cfg.models,
                values: cfg.values,
                max_body_bytes: cfg.max_body_bytes,
            },
        )
    }

    /// The filter's registered name.
    pub fn name(&self) -> (r: &'static str)
        ensures
            r@ == "reasoning_effort_map"@,
    {
        "reasoning_effort_map"
    }

    /// The filter rewrites request bodies.
    pub fn request_body_access(&self) -> (r: BodyAccess)
        ensures
            r == BodyAccess::ReadWrite,
    {
        BodyAccess::ReadWrite
    }

    /// Request bodies are buffered up to the configured limit.
    pub fn request_body_mode(&self) -> (r: BodyMode)
        ensures
            r == (BodyMode::StreamBuffer { max_bytes: Some(self.body_limit()) }),
    {
        BodyMode::StreamBuffer { max_bytes: Some(self.max_body_bytes) }
    }

    /// The request phase does nothing.
    pub fn on_request(&self) -> (r: FilterAction)
        ensures
            r is Continue,
    {
        FilterAction::Continue
    }

    /// At the end of the body, rewrites the effort values of a request for a
    /// configured model and writes the document back; every other body is
    /// left as it is.
    pub fn on_request_body(&self, body: &mut Option<Vec<u8>>, end_of_stream: bool) -> (r: Result<
        FilterAction,
        FilterError,
    >)
        ensures
            r matches Ok(a) ==> a is Continue,
            effort_target(
                self.models_view(),
                self.values_view(),
                body_bytes(*old(body)),
                end_of_stream,
            ) is None ==> (r is Ok && *final(body) == *old(body)),
            effort_target(
                self.models_view(),
                self.values_view(),
                body_bytes(*old(body)),
                end_of_stream,
            ) matches Some(doc) ==> ({
                &&& r is Err ==> *final(body) == *old(body)
                &&& r is Ok ==> (*final(body) matches Some(nb) && json_bytes(doc) == Some(nb@))
                &&& r is Err ==> json_bytes(doc) is None
            }),
            r matches Err(e) ==> e.message@ == "reasoning_effort_map: "@ + ("failed to serialize "@
                + "reasoning effort"@),
    {
        if !end_of_stream {
            return Ok(FilterAction::Continue);
        }
        let value = match body {
            Some(raw) => parse_json(raw.as_slice()),
            None => return Ok(FilterAction::Continue),
        };
        let value = match value {
            Some(v) => v,
            None => return Ok(FilterAction::Continue),
        };
        let selected = match get(&value, "model") {
            Some(JsonValue::Str(m)) => text::list_contains(&self.models, m.as_str()),
            _ => false,
        };
        if !selected {
            return Ok(FilterAction::Continue);
        }
        let mut fields = match value {
            JsonValue::Obj(fields) => fields,
            _ => return Ok(FilterAction::Continue),
        };
        proof {
            lemma_obj_view(fields);
        }
        let mut mutated = remap_field(&mut fields, "reasoning_effort", &self.values);
        let ghost f1 = fields_view(fields@);
        match field_index(&fields, "reasoning") {
            Some(i) => {
                proof {
                    lemma_first_key_bounds(f1, "reasoning"@);
                }
                let mut entry = (String::new(), JsonValue::Null);
                fields.set_and_swap(i, &mut entry);
                let (key, reasoning) = entry;
                let ghost r0 = reasoning@;
                let reasoning = match reasoning {
                    JsonValue::Obj(mut rf) => {
                        proof {
                            lemma_obj_view(rf);
                        }
                        let changed = remap_field(&mut rf, "effort", &self.values);
                        mutated = mutated || changed;
                        proof {
                            lemma_obj_view(rf);
                        }
                        JsonValue::Obj(rf)
                    },
                    other => other,
                };
                assert(reasoning@ == remap_spec(r0, "effort"@, self.values_view()).0);
                fields.set(i, (key, reasoning));
                assert(fields_view(fields@) =~= insert_member(f1, "reasoning"@, reasoning@));
            },
            None => {},
        }
        if !mutated {
            return Ok(FilterAction::Continue);
        }
        let doc = JsonValue::Obj(fields);
        proof {
            lemma_obj_view(fields);
        }
        match replace_json_body(body, &doc, "reasoning effort") {
            Ok(()) => Ok(FilterAction::Continue),
            Err(e) => {
                let m = text::concat("reasoning_effort_map: ", e.message.as_str());
                Err(FilterError::new(m))
            },
        }
    }
}

} // verus!
