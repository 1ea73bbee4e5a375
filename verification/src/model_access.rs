//! The `model_access` filter: enforces per-group allowlists or denylists of
//! model names, reading the `model` field of the JSON request body and the
//! user's group from the request metadata.
//!
//! A pattern `*` matches every model, a pattern ending in `*` matches the
//! models that start with what precedes the `*`, and any other pattern
//! matches one model exactly. Group overrides are checked in order and the
//! first one listing the user's group wins; otherwise the default rule
//! applies.
use vstd::prelude::*;
use vstd::utf8::encode_utf8;

use crate::filter::{
    entries_view, meta_get, BodyAccess, BodyMode, FilterAction, FilterError, Metadata, Rejection,
};
use crate::json::{get, json_parse, member, parse_json, JsonSpec, JsonValue};
use crate::text::{self, decimal, is_prefix, strings_view};

verus! {

/// Default for `max_body_bytes`.
pub fn default_max_body_bytes() -> (r: usize)
    ensures
        r == 65_536,
{
    65_536
}

/// Default metadata key holding the user's group.
pub fn default_group_metadata_key() -> (r: String)
    ensures
        r@ == "x-tenant-group"@,
{
    text::owned("x-tenant-group")
}

// -----------------------------------------------------------------------------
// Configuration
// -----------------------------------------------------------------------------

/// Access control mode.
#[derive(Debug, Clone, Copy, PartialEq, Eq, Structural)]
pub enum AccessMode {
    /// Only listed models are allowed.
    Allowlist,
    /// Listed models are denied; everything else is allowed.
    Denylist,
}

/// Per-group access override.
pub struct GroupOverride {
    /// Groups this override applies to.
    pub groups: Vec<String>,
    /// Access mode for these groups.
    pub mode: AccessMode,
    /// Model patterns for these groups.
    pub models: Vec<String>,
}

/// Configuration of the `model_access` filter.
pub struct ModelAccessConfig {
    /// Default access mode, applied when no group override matches.
    pub mode: AccessMode,
    /// Default model patterns.
    pub models: Vec<String>,
    /// Per-group overrides, checked in order.
    pub overrides: Vec<GroupOverride>,
    /// Maximum request body bytes to buffer for model extraction.
    pub max_body_bytes: usize,
    /// Metadata key for the user's group.
    pub group_metadata_key: String,
}

/// The message for a configuration with neither models nor overrides.
pub open spec fn nothing_configured_message() -> Seq<char> {
    "at least one of models or overrides must be non-empty"@
}

/// The first problem among the overrides from index `i` on: an override
/// without groups, or one without models.
pub open spec fn override_error_from(os: Seq<GroupOverride>, i: int) -> Option<Seq<char>>
    decreases os.len() - i,
{
    if i < 0 || i >= os.len() {
        None
    } else if os[i].groups.len() == 0 {
        Some("override["@ + decimal(i as nat) + "]: groups must not be empty"@)
    } else if os[i].models.len() == 0 {
        Some("override["@ + decimal(i as nat) + "]: models must not be empty"@)
    } else {
        override_error_from(os, i + 1)
    }
}

/// What validation of a configuration gives: the first problem, if any.
pub open spec fn config_error(cfg: ModelAccessConfig) -> Option<Seq<char>> {
    if cfg.models.len() == 0 && cfg.overrides.len() == 0 {
        Some(nothing_configured_message())
    } else {
        override_error_from(cfg.overrides@, 0)
    }
}

/// Validates a configuration.
pub fn validate_config(cfg: &ModelAccessConfig) -> (r: Result<(), String>)
    ensures
        match r {
            Ok(()) => config_error(*cfg) is None,
            Err(m) => config_error(*cfg) == Some(m@),
        },
{
    if cfg.models.len() == 0 && cfg.overrides.len() == 0 {
        return Err(text::owned("at least one of models or overrides must be non-empty"));
    }
    let mut i: usize = 0;
    while i < cfg.overrides.len()
        invariant
            i <= cfg.overrides.len(),
            override_error_from(cfg.overrides@, 0) == override_error_from(cfg.overrides@, i as int),
        decreases cfg.overrides.len() - i,
    {
        let o = &cfg.overrides[i];
        if o.groups.len() == 0 {
            let m = text::concat("override[", crate::filter::usize_to_decimal(i).as_str());
            return Err(text::concat(m.as_str(), "]: groups must not be empty"));
        }
        if o.models.len() == 0 {
            let m = text::concat("override[", crate::filter::usize_to_decimal(i).as_str());
            return Err(text::concat(m.as_str(), "]: models must not be empty"));
        }
        i = i + 1;
    }
    Ok(())
}

// -----------------------------------------------------------------------------
// Patterns and rules
// -----------------------------------------------------------------------------

/// What a configured pattern matches: `*` everything, a trailing `*` a
/// prefix, anything else one exact name.
pub open spec fn glob_matches(pattern: Seq<char>, model: Seq<char>) -> bool {
    if pattern == "*"@ {
        true
    } else if pattern.len() > 0 && pattern.last() == '*' {
        is_prefix(pattern.drop_last(), model)
    } else {
        model == pattern
    }
}

/// A compiled model pattern.
pub enum ModelPattern {
    /// Matches any model.
    Wildcard,
    /// Matches a specific model name exactly.
    Exact(String),
    /// Matches models starting with a prefix.
    Prefix(String),
}

impl ModelPattern {
    /// Whether the compiled pattern matches `model`.
    pub open spec fn matches_spec(&self, model: Seq<char>) -> bool {
        match self {
            ModelPattern::Wildcard => true,
            ModelPattern::Exact(name) => model == name@,
            ModelPattern::Prefix(prefix) => is_prefix(prefix@, model),
        }
    }

    /// Compiles a pattern: `*` is the wildcard, one trailing `*` makes a
    /// prefix, anything else is an exact name.
    pub fn from_str(s: &str) -> (r: ModelPattern)
        ensures
            s@ == "*"@ ==> r is Wildcard,
            s@ != "*"@ && s@.len() > 0 && s@.last() == '*' ==> (r matches ModelPattern::Prefix(p)
                && p@ == s@.drop_last()),
            s@ != "*"@ && !(s@.len() > 0 && s@.last() == '*') ==> (r matches ModelPattern::Exact(n)
                && n@ == s@),
            forall|m: Seq<char>| #[trigger] r.matches_spec(m) == glob_matches(s@, m),
    {
        let cs = text::chars_of(s);
        if text::str_eq(s, "*") {
            ModelPattern::Wildcard
        } else if cs.len() > 0 && cs[cs.len() - 1] == '*' {
            let p = text::copy_range(cs.as_slice(), 0, cs.len() - 1);
            let r = ModelPattern::Prefix(text::string_from_chars(p.as_slice()));
            assert(p@ =~= s@.drop_last());
            r
        } else {
            ModelPattern::Exact(text::owned(s))
        }
    }

    /// Whether the pattern matches `model`.
    pub fn matches(&self, model: &str) -> (r: bool)
        ensures
            r == self.matches_spec(model@),
    {
        match self {
            ModelPattern::Wildcard => true,
            ModelPattern::Exact(name) => text::str_eq(model, name.as_str()),
            ModelPattern::Prefix(prefix) => text::starts_with(model, prefix.as_str()),
        }
    }
}

/// Whether any of the patterns matches `model`.
pub open spec fn any_matches(patterns: Seq<ModelPattern>, model: Seq<char>) -> bool {
    exists|i: int| 0 <= i < patterns.len() && #[trigger] patterns[i].matches_spec(model)
}

/// What a rule decides for a model: an allowlist admits the matching models,
/// a denylist the others.
pub open spec fn rule_allows(mode: AccessMode, patterns: Seq<ModelPattern>, model: Seq<char>) -> bool {
    match mode {
        AccessMode::Allowlist => any_matches(patterns, model),
        AccessMode::Denylist => !any_matches(patterns, model),
    }
}

/// A compiled access rule (the default one or a group override's).
pub struct AccessRule {
    pub mode: AccessMode,
    pub patterns: Vec<ModelPattern>,
}

impl AccessRule {
    /// Whether the rule admits `model`.
    pub fn is_allowed(&self, model: &str) -> (r: bool)
        ensures
            r == rule_allows(self.mode, self.patterns@, model@),
    {
        let mut matched = false;
        let mut i: usize = 0;
        while i < self.patterns.len()
            invariant
                i <= self.patterns.len(),
                matched == exists|j: int| 0 <= j < i && #[trigger] self.patterns@[j].matches_spec(model@),
            decreases self.patterns.len() - i,
        {
            if self.patterns[i].matches(model) {
                matched = true;
            }
            i = i + 1;
        }
        match self.mode {
            AccessMode::Allowlist => matched,
            AccessMode::Denylist => !matched,
        }
    }
}

/// A compiled group override.
pub struct GroupRule {
    pub groups: Vec<String>,
    pub rule: AccessRule,
}

/// Compiles a list of patterns, one for one.
pub fn compile_patterns(models: &Vec<String>) -> (r: Vec<ModelPattern>)
    ensures
        r.len() == models.len(),
        forall|i: int, m: Seq<char>|
            0 <= i < r.len() ==> #[trigger] r@[i].matches_spec(m) == glob_matches(models@[i]@, m),
{
    let mut r: Vec<ModelPattern> = Vec::new();
    let mut i: usize = 0;
    while i < models.len()
        invariant
            i <= models.len(),
            r.len() == i,
            forall|j: int, m: Seq<char>|
                0 <= j < i ==> #[trigger] r@[j].matches_spec(m) == glob_matches(models@[j]@, m),
        decreases models.len() - i,
    {
        let p = ModelPattern::from_str(models[i].as_str());
        r.push(p);
        i = i + 1;
    }
    r
}

/// Whether `rule` is the compiled form of `mode` with the pattern list
/// `models`: same mode, and one pattern per entry, matching as the entry's
/// glob does.
pub open spec fn rule_compiled(rule: AccessRule, mode: AccessMode, models: Seq<String>) -> bool {
    &&& rule.mode == mode
    &&& rule.patterns.len() == models.len()
    &&& forall|i: int, m: Seq<char>|
        0 <= i < models.len() ==> #[trigger] rule.patterns@[i].matches_spec(m) == glob_matches(
            models[i]@,
            m,
        )
}

/// Whether `gr` is the compiled form of the override `o`.
pub open spec fn group_rule_compiled(gr: GroupRule, o: GroupOverride) -> bool {
    &&& strings_view(gr.groups@) == strings_view(o.groups@)
    &&& rule_compiled(gr.rule, o.mode, o.models@)
}

/// The first group rule, from index `i` on, that lists group `g`.
pub open spec fn rule_index_from(rules: Seq<GroupRule>, g: Seq<char>, i: int) -> Option<int>
    decreases rules.len() - i,
{
    if i < 0 || i >= rules.len() {
        None
    } else if strings_view(rules[i].groups@).contains(g) {
        Some(i)
    } else {
        rule_index_from(rules, g, i + 1)
    }
}

/// An allowlist and a denylist with the same patterns decide every model
/// oppositely.
pub proof fn lemma_allow_deny_complement(patterns: Seq<ModelPattern>, model: Seq<char>)
    ensures
        rule_allows(AccessMode::Allowlist, patterns, model) == !rule_allows(
            AccessMode::Denylist,
            patterns,
            model,
        ),
{
}

/// A pattern `{p}*` matches exactly the models that start with `p` (`*`
/// alone matching every model), and a pattern without `*` matches only
/// itself.
pub proof fn lemma_glob_semantics(p: Seq<char>, model: Seq<char>)
    ensures
        glob_matches(p.push('*'), model) == is_prefix(p, model),
        !(p.len() > 0 && p.last() == '*') ==> (glob_matches(p, model) == (model == p)),
{
    reveal_strlit("*");
    assert(p.push('*').drop_last() =~= p);
    if p.len() == 0 {
        assert(p.push('*') =~= "*"@);
        assert(model.subrange(0, 0) =~= p);
    } else {
        assert(p.push('*') != "*"@) by {
            assert(p.push('*').len() != "*"@.len());
        }
    }
    if !(p.len() > 0 && p.last() == '*') && p == "*"@ {
        assert(p.last() == '*');
    }
}

// -----------------------------------------------------------------------------
// The filter
// -----------------------------------------------------------------------------

/// Enforces model access control on the `model` field of JSON request bodies.
pub struct ModelAccessFilter {
    /// Default rule when no group override matches.
    pub default_rule: AccessRule,
    /// Per-group overrides, checked in order.
    pub group_rules: Vec<GroupRule>,
    /// Metadata key for the user's group.
    pub group_metadata_key: String,
    /// Maximum body bytes to buffer.
    pub max_body_bytes: usize,
}

/// The `model` field as serde's derived `Deserialize` reads a struct with
/// one `Option<String>` field: from an object, or from an array of exactly
/// one element; `None` where that fails.
pub open spec fn model_field(doc: JsonSpec) -> Option<Option<Seq<char>>> {
    match doc {
        JsonSpec::Obj(_) => match member(doc, "model"@) {
            None => Some(None),
            Some(JsonSpec::Null) => Some(None),
            Some(JsonSpec::Str(s)) => Some(Some(s)),
            _ => None,
        },
        JsonSpec::Arr(items) => if items.len() == 1 {
            match items[0] {
                JsonSpec::Null => Some(None),
                JsonSpec::Str(s) => Some(Some(s)),
                _ => None,
            }
        } else {
            None
        },
        _ => None,
    }
}

/// The requested model, where the buffered body names one.
pub open spec fn requested_model(body: Option<Seq<u8>>) -> Option<Seq<char>> {
    match body {
        Some(b) => match json_parse(b) {
            Some(v) => match model_field(v@) {
                Some(Some(m)) => Some(m),
                _ => None,
            },
            None => None,
        },
        None => None,
    }
}

/// The body of the 403 answer for a denied model.
pub open spec fn denial_message(model: Seq<char>) -> Seq<char> {
    "model '"@ + model + "' is not permitted by access policy"@
}

/// Reads the `model` field the way `ModelField` deserialization does.
fn read_model_field(v: &JsonValue) -> (r: Option<Option<String>>)
    ensures
        match r {
            None => model_field(v@) is None,
            Some(None) => model_field(v@) == Some(None::<Seq<char>>),
            Some(Some(s)) => model_field(v@) == Some(Some(s@)),
        },
{
    match v {
        JsonValue::Obj(f) => {
            proof {
                crate::json::lemma_obj_view(*f);
            }
            match get(v, "model") {
                None => Some(None),
                Some(JsonValue::Null) => Some(None),
                Some(JsonValue::Str(s)) => Some(Some(text::owned(s.as_str()))),
                _ => None,
            }
        },
        JsonValue::Arr(items) => {
            proof {
                crate::json::lemma_arr_view(*items);
            }
            if items.len() == 1 {
                match &items[0] {
                    JsonValue::Null => Some(None),
                    JsonValue::Str(s) => Some(Some(text::owned(s.as_str()))),
                    _ => None,
                }
            } else {
                None
            }
        },
        _ => None,
    }
}

impl ModelAccessFilter {
    /// Which rule applies to a user in group `g` (`None`: no group known).
    pub open spec fn rule_for(&self, g: Option<Seq<char>>) -> AccessRule {
        match g {
            Some(g) => match rule_index_from(self.group_rules@, g, 0) {
                Some(i) => self.group_rules@[i].rule,
                None => self.default_rule,
            },
            None => self.default_rule,
        }
    }

    /// Whether a user in group `g` may use `model`.
    pub open spec fn allows(&self, g: Option<Seq<char>>, model: Seq<char>) -> bool {
        let rule = self.rule_for(g);
        rule_allows(rule.mode, rule.patterns@, model)
    }

    /// Builds the filter from a validated configuration.
    pub fn from_config(cfg: ModelAccessConfig) -> (r: Result<ModelAccessFilter, FilterError>)
        ensures
            match r {
                Err(e) => config_error(cfg) == Some(e.message@),
                Ok(f) => {
                    &&& config_error(cfg) is None
                    &&& rule_compiled(f.default_rule, cfg.mode, cfg.models@)
                    &&& f.group_rules.len() == cfg.overrides.len()
                    &&& forall|k: int|
                        0 <= k < cfg.overrides.len() ==> group_rule_compiled(
                            #[trigger] f.group_rules@[k],
                            cfg.overrides@[k],
                        )
                    &&& f.group_metadata_key@ == cfg.group_metadata_key@
                    &&& f.max_body_bytes == cfg.max_body_bytes
                },
            },
    {
        match validate_config(&cfg) {
            Ok(()) => {},
            Err(m) => return Err(FilterError::new(m)),
        }
        let default_rule = AccessRule { mode: cfg.mode, patterns: compile_patterns(&cfg.models) };
        let ghost os = cfg.overrides@;
        let mut group_rules: Vec<GroupRule> = Vec::new();
        let mut overrides = cfg.overrides;
        let mut i: usize = 0;
        while i < overrides.len()
            invariant
                i <= overrides.len(),
                overrides@ == os,
                group_rules.len() == i,
                forall|k: int| 0 <= k < i ==> group_rule_compiled(#[trigger] group_rules@[k], os[k]),
            decreases overrides.len() - i,
        {
            let o = &overrides[i];
            let groups = copy_strings(&o.groups);
            let rule = AccessRule { mode: o.mode, patterns: compile_patterns(&o.models) };
            let ghost before = group_rules@;
            group_rules.push(GroupRule { groups, rule });
            assert(group_rule_compiled(group_rules@[i as int], os[i as int]));
            assert forall|k: int| 0 <= k < i + 1 implies group_rule_compiled(
                #[trigger] group_rules@[k],
                os[k],
            ) by {
                if k < i {
                    assert(group_rules@[k] == before[k]);
                }
            }
            i = i + 1;
        }
        Ok(
            ModelAccessFilter {
                default_rule,
                group_rules,
                group_metadata_key: cfg.group_metadata_key,
                max_body_bytes: cfg.max_body_bytes,
            },
        )
    }

    /// The rule that applies to a user in `group`: the first override listing
    /// the group, else the default rule.
    pub fn find_rule(&self, group: Option<&str>) -> (r: &AccessRule)
        ensures
            *r == self.rule_for(
                match group {
                    Some(g) => Some(g@),
                    None => None,
                },
            ),
    {
        match group {
            Some(g) => {
                let mut i: usize = 0;
                while i < self.group_rules.len()
                    invariant
                        i <= self.group_rules.len(),
                        group == Some(g),
                        rule_index_from(self.group_rules@, g@, 0) == rule_index_from(
                            self.group_rules@,
                            g@,
                            i as int,
                        ),
                    decreases self.group_rules.len() - i,
                {
                    if text::list_contains(&self.group_rules[i].groups, g) {
                        assert(rule_index_from(self.group_rules@, g@, i as int) == Some(i as int));
                        return &self.group_rules[i].rule;
                    }
                    i = i + 1;
                }
                &self.default_rule
            },
            None => &self.default_rule,
        }
    }

    /// The filter's registered name.
    pub fn name(&self) -> (r: &'static str)
        ensures
            r@ == "model_access"@,
    {
        "model_access"
    }

    /// The filter reads request bodies without changing them.
    pub fn request_body_access(&self) -> (r: BodyAccess)
        ensures
            r == BodyAccess::ReadOnly,
    {
        BodyAccess::ReadOnly
    }

    /// Request bodies are buffered up to the configured limit.
    pub fn request_body_mode(&self) -> (r: BodyMode)
        ensures
            r == (BodyMode::StreamBuffer { max_bytes: Some(self.max_body_bytes) }),
    {
        BodyMode::StreamBuffer { max_bytes: Some(self.max_body_bytes) }
    }

    /// Checks the requested model against the rule for the user's group:
    /// a request without a readable model goes on; an admitted one goes on;
    /// any other is rejected with 403.
    pub fn on_request(&self, buffered_body: Option<&[u8]>, metadata: &Metadata) -> (r: Result<
        FilterAction,
        FilterError,
    >)
        ensures
            r is Ok,
            requested_model(
                match buffered_body {
                    Some(b) => Some(b@),
                    None => None,
                },
            ) matches Some(m) ==> {
                let g = meta_get(metadata@, self.group_metadata_key@);
                &&& self.allows(g, m) ==> (r matches Ok(a) && a is Continue)
                &&& !self.allows(g, m) ==> (r matches Ok(FilterAction::Reject(rej)) && rej.status
                    == 403 && rej.headers.len() == 0 && crate::filter::body_bytes(rej.body)
                    == Some(encode_utf8(denial_message(m))))
            },
            requested_model(
                match buffered_body {
                    Some(b) => Some(b@),
                    None => None,
                },
            ) is None ==> (r matches Ok(a) && a is Continue),
    {
        let data = match buffered_body {
            Some(d) => d,
            None => return Ok(FilterAction::Continue),
        };
        let doc = match parse_json(data) {
            Some(v) => v,
            None => return Ok(FilterAction::Continue),
        };
        let model_name = match read_model_field(&doc) {
            Some(Some(m)) => m,
            _ => return Ok(FilterAction::Continue),
        };
        let group = metadata.get(self.group_metadata_key.as_str());
        let rule = match group {
            Some(g) => self.find_rule(Some(g.as_str())),
            None => self.find_rule(None),
        };
        if rule.is_allowed(model_name.as_str()) {
            Ok(FilterAction::Continue)
        } else {
            let msg = text::concat("model '", model_name.as_str());
            let msg = text::concat(msg.as_str(), "' is not permitted by access policy");
            Ok(
                FilterAction::Reject(
                    Rejection {
                        status: 403,
                        headers: Vec::new(),
                        body: Some(crate::filter::utf8_bytes(msg.as_str())),
                    },
                ),
            )
        }
    }
}

/// A copy of a list of strings.
pub fn copy_strings(v: &Vec<String>) -> (r: Vec<String>)
    ensures
        strings_view(r@) == strings_view(v@),
{
    let mut r: Vec<String> = Vec::new();
    let mut i: usize = 0;
    while i < v.len()
        invariant
            i <= v.len(),
            r.len() == i,
            forall|k: int| 0 <= k < i ==> #[trigger] r@[k]@ == v@[k]@,
        decreases v.len() - i,
    {
        r.push(text::owned(v[i].as_str()));
        i = i + 1;
    }
    assert(strings_view(r@) =~= strings_view(v@));
    r
}

} // verus!
