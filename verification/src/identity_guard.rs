//! The `identity_header_guard` filter: captures request headers whose name
//! starts with a configured prefix into the request metadata (under
//! `{namespace}.{name}`) and strips them from the upstream request.
//!
//! A client that sets `x-tenant-username: admin` itself is otherwise
//! indistinguishable from a gateway that set it legitimately; stripping
//! keeps identity headers from leaking upstream while downstream filters
//! (metering, audit) still read them from the metadata.
use vstd::prelude::*;

use crate::filter::{meta_insert, FilterAction, FilterError, Headers, Metadata};
use crate::text::{self, is_prefix, strings_view, unicode_lowercase};

verus! {

/// Configuration of the `identity_header_guard` filter.
pub struct IdentityHeaderGuardConfig {
    /// Case-insensitive header name prefix to capture and strip.
    pub prefix: String,
    /// Metadata namespace for captured headers.
    pub metadata_namespace: String,
}

/// Default metadata namespace.
pub fn default_namespace() -> (r: String)
    ensures
        r@ == "identity"@,
{
    text::owned("identity")
}

/// What validation of a configuration gives: the first problem, if any.
pub open spec fn config_error(cfg: IdentityHeaderGuardConfig) -> Option<Seq<char>> {
    if cfg.prefix@.len() == 0 {
        Some("identity_header_guard: prefix must not be empty"@)
    } else if cfg.metadata_namespace@.len() == 0 {
        Some("identity_header_guard: metadata_namespace must not be empty"@)
    } else {
        None
    }
}

/// Validates a configuration.
pub fn validate_config(cfg: &IdentityHeaderGuardConfig) -> (r: Result<(), String>)
    ensures
        match r {
            Ok(()) => config_error(*cfg) is None,
            Err(m) => config_error(*cfg) == Some(m@),
        },
{
    if cfg.prefix.as_str().is_empty() {
        return Err(text::owned("identity_header_guard: prefix must not be empty"));
    }
    if cfg.metadata_namespace.as_str().is_empty() {
        return Err(text::owned("identity_header_guard: metadata_namespace must not be empty"));
    }
    Ok(())
}

/// Captures and strips identity headers.
pub struct IdentityHeaderGuardFilter {
    /// Lowercase prefix matched against header names.
    pub prefix: String,
    /// Metadata key namespace for captured headers.
    pub namespace: String,
}

/// The metadata key of a captured header.
pub open spec fn capture_key(namespace: Seq<char>, name_lower: Seq<char>) -> Seq<char> {
    namespace + "."@ + name_lower
}

/// Whether the guard takes a header: its lowercased name starts with the
/// prefix.
pub open spec fn guarded(prefix: Seq<char>, name: Seq<char>) -> bool {
    is_prefix(prefix, unicode_lowercase(name))
}

/// The metadata after the guard has read the headers, in order: each
/// guarded header with a text value is stored under its key (a later value
/// replacing an earlier one).
pub open spec fn captured_meta(
    namespace: Seq<char>,
    prefix: Seq<char>,
    h: Seq<(String, Option<String>)>,
    m0: Seq<(Seq<char>, Seq<char>)>,
) -> Seq<(Seq<char>, Seq<char>)>
    decreases h.len(),
{
    if h.len() == 0 {
        m0
    } else {
        let m1 = captured_meta(namespace, prefix, h.drop_last(), m0);
        let e = h.last();
        if guarded(prefix, e.0@) && e.1 is Some {
            meta_insert(m1, capture_key(namespace, unicode_lowercase(e.0@)), e.1->0@)
        } else {
            m1
        }
    }
}

/// The names of the guarded headers, in order, one per header entry.
pub open spec fn stripped_names(prefix: Seq<char>, h: Seq<(String, Option<String>)>) -> Seq<
    Seq<char>,
>
    decreases h.len(),
{
    if h.len() == 0 {
        Seq::empty()
    } else {
        let rest = stripped_names(prefix, h.drop_last());
        if guarded(prefix, h.last().0@) {
            rest.push(h.last().0@)
        } else {
            rest
        }
    }
}

impl IdentityHeaderGuardFilter {
    /// Builds the filter from a configuration, lowercasing the prefix.
    pub fn from_config(cfg: IdentityHeaderGuardConfig) -> (r: Result<
        IdentityHeaderGuardFilter,
        FilterError,
    >)
        ensures
            match r {
                Err(e) => config_error(cfg) == Some(e.message@),
                Ok(f) => config_error(cfg) is None && f.prefix@ == unicode_lowercase(cfg.prefix@)
                    && f.namespace@ == cfg.metadata_namespace@,
            },
    {
        match validate_config(&cfg) {
            Ok(()) => {},
            Err(m) => return Err(FilterError::new(m)),
        }
        Ok(
            IdentityHeaderGuardFilter {
                prefix: text::to_lowercase(cfg.prefix.as_str()),
                namespace: cfg.metadata_namespace,
            },
        )
    }

    /// The filter's registered name.
    pub fn name(&self) -> (r: &'static str)
        ensures
            r@ == "identity_header_guard"@,
    {
        "identity_header_guard"
    }

    /// Stores every guarded header that has a text value in the metadata and
    /// lists every guarded header for removal from the upstream request.
    pub fn on_request(
        &self,
        headers: &Headers,
        metadata: &mut Metadata,
        to_remove: &mut Vec<String>,
    ) -> (r: Result<FilterAction, FilterError>)
        ensures
            r matches Ok(a) && a is Continue,
            final(metadata)@ == captured_meta(
                self.namespace@,
                self.prefix@,
                headers.entries@,
                old(metadata)@,
            ),
            strings_view(final(to_remove)@) == strings_view(old(to_remove)@) + stripped_names(
                self.prefix@,
                headers.entries@,
            ),
    {
        let ghost h = headers.entries@;
        let ghost m0 = metadata@;
        let ghost r0 = strings_view(to_remove@);
        let mut i: usize = 0;
        while i < headers.entries.len()
            invariant
                i <= headers.entries.len(),
                h == headers.entries@,
                metadata@ == captured_meta(self.namespace@, self.prefix@, h.take(i as int), m0),
                strings_view(to_remove@) == r0 + stripped_names(self.prefix@, h.take(i as int)),
            decreases headers.entries.len() - i,
        {
            let name = &headers.entries[i].0;
            let name_lower = text::to_lowercase(name.as_str());
            proof {
                assert(h.take(i as int + 1).drop_last() =~= h.take(i as int));
                assert(h.take(i as int + 1).last() == h[i as int]);
            }
            if text::starts_with(name_lower.as_str(), self.prefix.as_str()) {
                match &headers.entries[i].1 {
                    Some(val) => {
                        let key = text::concat(self.namespace.as_str(), ".");
                        let key = text::concat(key.as_str(), name_lower.as_str());
                        metadata.insert(key, text::owned(val.as_str()));
                    },
                    None => {},
                }
                let ghost before = to_remove@;
                to_remove.push(text::owned(name.as_str()));
                assert(strings_view(to_remove@) =~= strings_view(before).push(name@));
            }
            i = i + 1;
        }
        assert(h.take(h.len() as int) =~= h);
        Ok(FilterAction::Continue)
    }
}

} // verus!
