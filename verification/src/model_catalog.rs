//! The `model_catalog` filter: answers `GET {path}` (by default
//! `/v1/models`) from static configuration instead of forwarding it, in the
//! OpenAI or the Anthropic list envelope.
//!
//! Discovery only: it advertises what the gateway exposes; deciding who may
//! call a model stays with `model_access`.
use vstd::prelude::*;

use crate::filter::{BodyAccess, FilterAction, FilterError, TerminalResponse};
use crate::json::{
    add_member, i64_text, json_bytes, lemma_arr_view, lemma_first_key, member, object, str_value, to_json_bytes, JsonNumber, JsonSpec,
    JsonValue,
};
use crate::text::{self, decimal};

verus! {

// -----------------------------------------------------------------------------
// Configuration
// -----------------------------------------------------------------------------

/// Response envelope dialect.
#[derive(Debug, Clone, Copy, PartialEq, Eq, Structural)]
pub enum CatalogFormat {
    /// OpenAI `GET /v1/models` list envelope (the default).
    Openai,
    /// Anthropic `GET /v1/models` list envelope.
    Anthropic,
}

/// A single advertised model, as configured.
pub struct ModelEntry {
    /// Model identifier returned to clients and used in requests.
    pub id: String,
    /// Owner shown in the OpenAI envelope's `owned_by` field.
    pub owned_by: String,
    /// Human-readable name for the Anthropic envelope; the id when absent.
    pub display_name: Option<String>,
    /// Creation time as Unix seconds.
    pub created: i64,
}

/// Configuration of the `model_catalog` filter.
pub struct ModelCatalogConfig {
    /// Response envelope dialect.
    pub format: CatalogFormat,
    /// Request path served, matched exactly on `GET`.
    pub path: String,
    /// Advertised models, in declaration order.
    pub models: Vec<ModelEntry>,
}

/// Default request path served by the catalog.
pub fn default_path() -> (r: String)
    ensures
        r@ == "/v1/models"@,
{
    text::owned("/v1/models")
}

/// Default owner label for a model with none configured.
pub fn default_owned_by() -> (r: String)
    ensures
        r@ == "praxis"@,
{
    text::owned("praxis")
}

/// The first model, from index `i` on, with an empty id.
pub open spec fn empty_id_from(models: Seq<ModelEntry>, i: int) -> Option<int>
    decreases models.len() - i,
{
    if i < 0 || i >= models.len() {
        None
    } else if models[i].id@.len() == 0 {
        Some(i)
    } else {
        empty_id_from(models, i + 1)
    }
}

/// What validation of a configuration gives: the first problem, if any.
pub open spec fn config_error(cfg: ModelCatalogConfig) -> Option<Seq<char>> {
    if cfg.models.len() == 0 {
        Some("models must not be empty"@)
    } else if !(cfg.path@.len() > 0 && cfg.path@[0] == '/') {
        Some("path must start with '/', got '"@ + cfg.path@ + "'"@)
    } else {
        match empty_id_from(cfg.models@, 0) {
            Some(i) => Some("models["@ + decimal(i as nat) + "]: id must not be empty"@),
            None => None,
        }
    }
}

/// Validates a configuration beyond what deserialization guarantees.
pub fn validate_config(cfg: &ModelCatalogConfig) -> (r: Result<(), String>)
    ensures
        match r {
            Ok(()) => config_error(*cfg) is None,
            Err(m) => config_error(*cfg) == Some(m@),
        },
{
    if cfg.models.len() == 0 {
        return Err(text::owned("models must not be empty"));
    }
    let path = text::chars_of(cfg.path.as_str());
    if !(path.len() > 0 && path[0] == '/') {
        let m = text::concat("path must start with '/', got '", cfg.path.as_str());
        return Err(text::concat(m.as_str(), "'"));
    }
    let mut i: usize = 0;
    while i < cfg.models.len()
        invariant
            i <= cfg.models.len(),
            cfg.models.len() > 0,
            cfg.path@.len() > 0 && cfg.path@[0] == '/',
            empty_id_from(cfg.models@, 0) == empty_id_from(cfg.models@, i as int),
        decreases cfg.models.len() - i,
    {
        if cfg.models[i].id.as_str().is_empty() {
            let m = text::concat("models[", crate::filter::usize_to_decimal(i).as_str());
            return Err(text::concat(m.as_str(), "]: id must not be empty"));
        }
        i = i + 1;
    }
    Ok(())
}

// -----------------------------------------------------------------------------
// Compiled entries and rendering
// -----------------------------------------------------------------------------

/// A compiled catalog entry ready to render.
pub struct CatalogModel {
    /// Model identifier returned to clients.
    pub id: String,
    /// Owner shown in the OpenAI envelope.
    pub owned_by: String,
    /// Human-readable name shown in the Anthropic envelope.
    pub display_name: String,
    /// Creation time as Unix seconds.
    pub created: i64,
}

impl CatalogModel {
    /// Compiles a configured entry, defaulting `display_name` to the id.
    pub fn compile(entry: ModelEntry) -> (r: CatalogModel)
        ensures
            r.id@ == entry.id@,
            r.owned_by@ == entry.owned_by@,
            r.display_name@ == (match entry.display_name {
                Some(d) => d@,
                None => entry.id@,
            }),
            r.created == entry.created,
    {
        let display_name = match entry.display_name {
            Some(d) => d,
            None => text::owned(entry.id.as_str()),
        };
        CatalogModel {
            id: entry.id,
            owned_by: entry.owned_by,
            display_name,
            created: entry.created,
        }
    }
}

/// The reading of an `i64` as a JSON number's `u64` view.
pub open spec fn i64_reading(n: i64) -> Option<u64> {
    if n >= 0 {
        Some(n as u64)
    } else {
        None
    }
}

/// The RFC 3339 text (`YYYY-MM-DDTHH:MM:SSZ`) that chrono writes for a Unix
/// time in seconds, where chrono can represent that time.
pub uninterp spec fn rfc3339_of(secs: i64) -> Option<Seq<char>>;

/// Formats Unix seconds as RFC 3339 UTC with whole seconds and a `Z`.
///
/// Calls `chrono::DateTime::from_timestamp(secs, 0)` and, where it gives a
/// time, `to_rfc3339_opts(SecondsFormat::Secs, true)`; the result is named
/// (`rfc3339_of`), nothing more is claimed of it.
#[verifier::external_body]
fn format_rfc3339(secs: i64) -> (r: Option<String>)
    ensures
        match r {
            Some(s) => rfc3339_of(secs) == Some(s@),
            None => rfc3339_of(secs) is None,
        },
{
    chrono::DateTime::from_timestamp(secs, 0).map(
        |d| d.to_rfc3339_opts(chrono::SecondsFormat::Secs, true),
    )
}

/// The `created_at` text of the Anthropic envelope: the RFC 3339 form of the
/// time, or the epoch where it is out of chrono's range.
pub open spec fn created_at_text(secs: i64) -> Seq<char> {
    match rfc3339_of(secs) {
        Some(s) => s,
        None => "1970-01-01T00:00:00Z"@,
    }
}

/// `created_at` for one model.
pub fn rfc3339(secs: i64) -> (r: String)
    ensures
        r@ == created_at_text(secs),
{
    match format_rfc3339(secs) {
        Some(s) => s,
        None => text::owned("1970-01-01T00:00:00Z"),
    }
}

/// One model in the OpenAI envelope.
pub open spec fn openai_model_doc(m: CatalogModel) -> JsonSpec {
    JsonSpec::Obj(
        seq![
            ("id"@, JsonSpec::Str(m.id@)),
            ("object"@, JsonSpec::Str("model"@)),
            ("created"@, JsonSpec::Num(i64_reading(m.created), i64_text(m.created))),
            ("owned_by"@, JsonSpec::Str(m.owned_by@)),
        ],
    )
}

/// The OpenAI `{"object":"list","data":[...]}` envelope.
pub open spec fn openai_catalog(models: Seq<CatalogModel>) -> JsonSpec {
    JsonSpec::Obj(
        seq![
            ("object"@, JsonSpec::Str("list"@)),
            ("data"@, JsonSpec::Arr(Seq::new(models.len(), |i: int| openai_model_doc(models[i])))),
        ],
    )
}

/// One model in the Anthropic envelope.
pub open spec fn anthropic_model_doc(m: CatalogModel) -> JsonSpec {
    JsonSpec::Obj(
        seq![
            ("type"@, JsonSpec::Str("model"@)),
            ("id"@, JsonSpec::Str(m.id@)),
            ("display_name"@, JsonSpec::Str(m.display_name@)),
            ("created_at"@, JsonSpec::Str(created_at_text(m.created))),
        ],
    )
}

/// The id of a model as a JSON string, or `null` where there is no model.
pub open spec fn id_or_null(m: Option<CatalogModel>) -> JsonSpec {
    match m {
        Some(m) => JsonSpec::Str(m.id@),
        None => JsonSpec::Null,
    }
}

/// The Anthropic `{"data":[...],"has_more":false,"first_id":..,"last_id":..}`
/// envelope.
pub open spec fn anthropic_catalog(models: Seq<CatalogModel>) -> JsonSpec {
    JsonSpec::Obj(
        seq![
            (
                "data"@,
                JsonSpec::Arr(Seq::new(models.len(), |i: int| anthropic_model_doc(models[i]))),
            ),
            ("has_more"@, JsonSpec::Bool(false)),
            (
                "first_id"@,
                id_or_null(
                    if models.len() > 0 {
                        Some(models[0])
                    } else {
                        None
                    },
                ),
            ),
            (
                "last_id"@,
                id_or_null(
                    if models.len() > 0 {
                        Some(models.last())
                    } else {
                        None
                    },
                ),
            ),
        ],
    )
}

/// The document served for a format.
pub open spec fn catalog_doc(format: CatalogFormat, models: Seq<CatalogModel>) -> JsonSpec {
    match format {
        CatalogFormat::Openai => openai_catalog(models),
        CatalogFormat::Anthropic => anthropic_catalog(models),
    }
}

/// Builds the OpenAI `{"object":"list","data":[...]}` envelope.
pub fn render_openai(models: &Vec<CatalogModel>) -> (r: JsonValue)
    ensures
        r@ == openai_catalog(models@),
{
    let mut data: Vec<JsonValue> = Vec::new();
    let mut i: usize = 0;
    while i < models.len()
        invariant
            i <= models.len(),
            data.len() == i,
            forall|j: int| 0 <= j < i ==> #[trigger] data@[j]@ == openai_model_doc(models@[j]),
        decreases models.len() - i,
    {
        let m = &models[i];
        let mut f: Vec<(String, JsonValue)> = Vec::new();
        add_member(&mut f, "id", str_value(m.id.as_str()));
        add_member(&mut f, "object", str_value("model"));
        add_member(&mut f, "created", JsonValue::Num(JsonNumber::from_i64(m.created)));
        add_member(&mut f, "owned_by", str_value(m.owned_by.as_str()));
        let doc = object(f);
        assert(doc@ == openai_model_doc(models@[i as int])) by {
            assert(crate::json::fields_view(f@) =~= openai_model_doc(models@[i as int])->Obj_0);
        }
        data.push(doc);
        i = i + 1;
    }
    proof {
        lemma_arr_view(data);
    }
    let data_doc = JsonValue::Arr(data);
    assert(data_doc@ == JsonSpec::Arr(Seq::new(models@.len(), |i: int| openai_model_doc(models@[i]))))
        by {
        assert forall|j: int| 0 <= j < data@.len() implies #[trigger] crate::json::items_view(
            data@,
        )[j] == openai_model_doc(models@[j]) by {
            assert(data@[j]@ == openai_model_doc(models@[j]));
        }
        assert(crate::json::items_view(data@) =~= Seq::new(
            models@.len(),
            |i: int| openai_model_doc(models@[i]),
        ));
    }
    let mut top: Vec<(String, JsonValue)> = Vec::new();
    add_member(&mut top, "object", str_value("list"));
    add_member(&mut top, "data", data_doc);
    let r = object(top);
    assert(crate::json::fields_view(top@) =~= openai_catalog(models@)->Obj_0);
    r
}

/// The id of a model as a JSON value, or `null`.
fn id_value(m: Option<&CatalogModel>) -> (r: JsonValue)
    ensures
        r@ == id_or_null(
            match m {
                Some(m) => Some(*m),
                None => None,
            },
        ),
{
    match m {
        Some(m) => str_value(m.id.as_str()),
        None => JsonValue::Null,
    }
}

/// Builds the Anthropic `{"data":[...],"has_more":false,...}` envelope.
pub fn render_anthropic(models: &Vec<CatalogModel>) -> (r: JsonValue)
    ensures
        r@ == anthropic_catalog(models@),
{
    let mut data: Vec<JsonValue> = Vec::new();
    let mut i: usize = 0;
    while i < models.len()
        invariant
            i <= models.len(),
            data.len() == i,
            forall|j: int| 0 <= j < i ==> #[trigger] data@[j]@ == anthropic_model_doc(models@[j]),
        decreases models.len() - i,
    {
        let m = &models[i];
        let mut f: Vec<(String, JsonValue)> = Vec::new();
        add_member(&mut f, "type", str_value("model"));
        add_member(&mut f, "id", str_value(m.id.as_str()));
        add_member(&mut f, "display_name", str_value(m.display_name.as_str()));
        add_member(&mut f, "created_at", JsonValue::Str(rfc3339(m.created)));
        let doc = object(f);
        assert(doc@ == anthropic_model_doc(models@[i as int])) by {
            assert(crate::json::fields_view(f@) =~= anthropic_model_doc(models@[i as int])->Obj_0);
        }
        data.push(doc);
        i = i + 1;
    }
    proof {
        lemma_arr_view(data);
    }
    let data_doc = JsonValue::Arr(data);
    assert(data_doc@ == JsonSpec::Arr(
        Seq::new(models@.len(), |i: int| anthropic_model_doc(models@[i])),
    )) by {
        assert forall|j: int| 0 <= j < data@.len() implies #[trigger] crate::json::items_view(
            data@,
        )[j] == anthropic_model_doc(models@[j]) by {
            assert(data@[j]@ == anthropic_model_doc(models@[j]));
        }
        assert(crate::json::items_view(data@) =~= Seq::new(
            models@.len(),
            |i: int| anthropic_model_doc(models@[i]),
        ));
    }
    let first = if models.len() > 0 {
        id_value(Some(&models[0]))
    } else {
        id_value(None)
    };
    let last = if models.len() > 0 {
        id_value(Some(&models[models.len() - 1]))
    } else {
        id_value(None)
    };
    let mut top: Vec<(String, JsonValue)> = Vec::new();
    add_member(&mut top, "data", data_doc);
    add_member(&mut top, "has_more", JsonValue::Bool(false));
    add_member(&mut top, "first_id", first);
    add_member(&mut top, "last_id", last);
    let r = object(top);
    assert(crate::json::fields_view(top@) =~= anthropic_catalog(models@)->Obj_0);
    r
}

/// In the Anthropic envelope of a non-empty model list, `data` lists every
/// model in order (each entry with that model's id), `first_id` is the id of
/// the first model and `last_id` the id of the last.
pub proof fn lemma_anthropic_catalog_ids(models: Seq<CatalogModel>)
    requires
        models.len() > 0,
    ensures
        member(anthropic_catalog(models), "data"@) matches Some(JsonSpec::Arr(items)) && items.len()
            == models.len() && forall|i: int|
            0 <= i < items.len() ==> member(#[trigger] items[i], "id"@) == Some(
                JsonSpec::Str(models[i].id@),
            ),
        member(anthropic_catalog(models), "first_id"@) == Some(JsonSpec::Str(models[0].id@)),
        member(anthropic_catalog(models), "last_id"@) == Some(
            JsonSpec::Str(models[models.len() - 1].id@),
        ),
{
    reveal_strlit("data");
    reveal_strlit("has_more");
    reveal_strlit("first_id");
    reveal_strlit("last_id");
    reveal_strlit("type");
    reveal_strlit("id");
    let f = anthropic_catalog(models)->Obj_0;
    lemma_first_key(f, "data"@, 0);
    assert("has_more"@[0] != "first_id"@[0]);
    assert("data"@.len() != "first_id"@.len() && "data"@.len() != "last_id"@.len());
    assert("has_more"@.len() != "last_id"@.len() && "first_id"@.len() != "last_id"@.len());
    lemma_first_key(f, "first_id"@, 2);
    lemma_first_key(f, "last_id"@, 3);
    let items = member(anthropic_catalog(models), "data"@)->0->Arr_0;
    assert forall|i: int| 0 <= i < items.len() implies member(#[trigger] items[i], "id"@) == Some(
        JsonSpec::Str(models[i].id@),
    ) by {
        assert(items[i] == anthropic_model_doc(models[i]));
        assert("type"@.len() != "id"@.len());
        lemma_first_key(items[i]->Obj_0, "id"@, 1);
    }
}

// -----------------------------------------------------------------------------
// The filter
// -----------------------------------------------------------------------------

/// Serves a configured model list as a terminal response to `GET {path}`.
pub struct ModelCatalogFilter {
    /// Response envelope dialect.
    pub format: CatalogFormat,
    /// Path served, matched exactly on `GET`.
    pub path: String,
    /// Advertised models, in declaration order.
    pub models: Vec<CatalogModel>,
}

/// The bytes of `{}`.
pub open spec fn empty_object_bytes() -> Seq<u8> {
    seq![123u8, 125u8]
}

/// The body served: the serialized envelope, or `{}` where serialization
/// fails, for some value whose content is the envelope.
pub open spec fn served_body(body: Seq<u8>, doc: JsonSpec) -> bool {
    match json_bytes(doc) {
        Some(b) => body == b,
        None => body == empty_object_bytes(),
    }
}

impl ModelCatalogFilter {
    /// Builds the filter from a validated configuration, compiling each
    /// entry in order.
    pub fn from_config(cfg: ModelCatalogConfig) -> (r: Result<ModelCatalogFilter, FilterError>)
        ensures
            match r {
                Err(e) => config_error(cfg) == Some(e.message@),
                Ok(f) => {
                    &&& config_error(cfg) is None
                    &&& f.format == cfg.format
                    &&& f.path@ == cfg.path@
                    &&& f.models.len() == cfg.models.len()
                    &&& forall|i: int|
                        0 <= i < cfg.models.len() ==> {
                            &&& (#[trigger] f.models@[i]).id@ == cfg.models@[i].id@
                            &&& f.models@[i].owned_by@ == cfg.models@[i].owned_by@
                            &&& f.models@[i].display_name@ == (match cfg.models@[i].display_name {
                                Some(d) => d@,
                                None => cfg.models@[i].id@,
                            })
                            &&& f.models@[i].created == cfg.models@[i].created
                        }
                },
            },
    {
        match validate_config(&cfg) {
            Ok(()) => {},
            Err(m) => return Err(FilterError::new(m)),
        }
        let ghost entries = cfg.models@;
        let mut models: Vec<CatalogModel> = Vec::new();
        let mut rest = cfg.models;
        let n = rest.len();
        let mut i: usize = 0;
        while i < n
            invariant
                i <= n,
                n == entries.len(),
                rest@ == entries.skip(i as int),
                models.len() == i,
                forall|k: int|
                    0 <= k < i ==> {
                        &&& (#[trigger] models@[k]).id@ == entries[k].id@
                        &&& models@[k].owned_by@ == entries[k].owned_by@
                        &&& models@[k].display_name@ == (match entries[k].display_name {
                            Some(d) => d@,
                            None => entries[k].id@,
                        })
                        &&& models@[k].created == entries[k].created
                    },
            decreases n - i,
        {
            let e = rest.remove(0);
            assert(e == entries[i as int]);
            models.push(CatalogModel::compile(e));
            assert(rest@ =~= entries.skip(i as int + 1));
            i = i + 1;
        }
        Ok(ModelCatalogFilter { format: cfg.format, path: cfg.path, models })
    }

    /// Renders the catalog body.
    pub fn render(&self) -> (r: Vec<u8>)
        ensures
            served_body(r@, catalog_doc(self.format, self.models@)),
    {
        let value = match self.format {
            CatalogFormat::Openai => render_openai(&self.models),
            CatalogFormat::Anthropic => render_anthropic(&self.models),
        };
        match to_json_bytes(&value) {
            Some(b) => b,
            None => {
                let mut b: Vec<u8> = Vec::new();
                b.push(123u8);
                b.push(125u8);
                assert(b@ =~= empty_object_bytes());
                b
            },
        }
    }

    /// The filter's registered name.
    pub fn name(&self) -> (r: &'static str)
        ensures
            r@ == "model_catalog"@,
    {
        "model_catalog"
    }

    /// The filter never reads request bodies.
    pub fn request_body_access(&self) -> (r: BodyAccess)
        ensures
            r == BodyAccess::NoAccess,
    {
        BodyAccess::NoAccess
    }

    /// Answers `GET {path}` with the catalog (status 200, JSON content type);
    /// every other request goes on.
    pub fn on_request(&self, method: &str, path: &str) -> (r: Result<FilterAction, FilterError>)
        ensures
            !(method@ == "GET"@ && path@ == self.path@) ==> (r matches Ok(a) && a is Continue),
            (method@ == "GET"@ && path@ == self.path@) ==> (r matches Ok(FilterAction::Terminal(t))
                && t.status == 200 && t.headers.len() == 1 && t.headers@[0].0@ == "content-type"@
                && t.headers@[0].1@ == "application/json"@ && served_body(
                t.body@,
                catalog_doc(self.format, self.models@),
            )),
    {
        if !text::str_eq(method, "GET") || !text::str_eq(path, self.path.as_str()) {
            return Ok(FilterAction::Continue);
        }
        let body = self.render();
        let mut headers: Vec<(String, String)> = Vec::new();
        headers.push((text::owned("content-type"), text::owned("application/json")));
        Ok(FilterAction::Terminal(TerminalResponse { status: 200, headers, body }))
    }
}

} // verus!
