//! What a filter hands back to the proxy and the per-request string metadata
//! that filters share.
use vstd::prelude::*;
use vstd::pervasive::VecAdditionalExecFns;
use vstd::string::StringSliceAdditionalSpecFns;

use crate::text;

verus! {

// -----------------------------------------------------------------------------
// Errors and actions
// -----------------------------------------------------------------------------

/// A configuration or processing error, with its message.
pub struct FilterError {
    pub message: String,
}

impl FilterError {
    /// An error with the given message.
    pub fn new(message: String) -> (r: FilterError)
        ensures
            r.message@ == message@,
    {
        FilterError { message }
    }

    /// The error's message, as `to_string` renders it.
    pub fn to_string(&self) -> (r: String)
        ensures
            r@ == self.message@,
    {
        self.message.clone()
    }
}

/// A response that rejects the request before it reaches the upstream.
pub struct Rejection {
    pub status: u16,
    pub headers: Vec<(String, String)>,
    pub body: Option<Vec<u8>>,
}

/// A complete response produced by the filter itself.
pub struct TerminalResponse {
    pub status: u16,
    pub headers: Vec<(String, String)>,
    pub body: Vec<u8>,
}

/// What the proxy does after a filter hook.
pub enum FilterAction {
    /// Go on to the next filter.
    Continue,
    /// Release the buffered body and go on.
    Release,
    /// Answer with an error response.
    Reject(Rejection),
    /// Answer with a response the filter produced.
    Terminal(TerminalResponse),
}

/// How a filter accesses a body.
#[derive(Debug, Clone, Copy, PartialEq, Eq)]
pub enum BodyAccess {
    /// The filter never sees the body.
    NoAccess,
    ReadOnly,
    ReadWrite,
}

/// How the proxy delivers a body to a filter.
#[derive(Debug, Clone, Copy, PartialEq, Eq)]
pub enum BodyMode {
    /// Chunk by chunk, as it arrives.
    Stream,
    /// Buffered up to `max_bytes`, then delivered whole.
    StreamBuffer { max_bytes: Option<usize> },
}

/// The shared ceiling for body capture limits (64 MiB).
pub const MAX_JSON_BODY_BYTES: usize = 67_108_864;

/// Text of a `usize` in decimal.
pub fn usize_to_decimal(n: usize) -> (r: String)
    ensures
        r@ == text::decimal(n as nat),
{
    text::u64_to_decimal(n as u64)
}

/// The message for a zero `max_body_bytes`.
pub open spec fn zero_body_limit_message(filter: Seq<char>) -> Seq<char> {
    filter + ": 'max_body_bytes' must be greater than 0"@
}

/// The message for a `max_body_bytes` above the ceiling.
pub open spec fn body_limit_too_large_message(filter: Seq<char>, value: usize) -> Seq<char> {
    filter + ": max_body_bytes ("@ + text::decimal(value as nat) + ") exceeds maximum ("@
        + text::decimal(MAX_JSON_BODY_BYTES as nat) + ")"@
}

/// Rejects a `max_body_bytes` that is zero or above the 64 MiB ceiling.
pub fn validate_max_body_bytes(filter: &str, value: usize) -> (r: Result<(), FilterError>)
    ensures
        value == 0 ==> (r matches Err(e) && e.message@ == zero_body_limit_message(filter@)),
        value > MAX_JSON_BODY_BYTES ==> (r matches Err(e) && e.message@
            == body_limit_too_large_message(filter@, value)),
        0 < value <= MAX_JSON_BODY_BYTES ==> r is Ok,
{
    if value == 0 {
        let m = text::concat(filter, ": 'max_body_bytes' must be greater than 0");
        return Err(FilterError::new(m));
    }
    if value > MAX_JSON_BODY_BYTES {
        let m = text::concat(filter, ": max_body_bytes (");
        let m = text::concat(m.as_str(), usize_to_decimal(value).as_str());
        let m = text::concat(m.as_str(), ") exceeds maximum (");
        let m = text::concat(m.as_str(), usize_to_decimal(MAX_JSON_BODY_BYTES).as_str());
        let m = text::concat(m.as_str(), ")");
        return Err(FilterError::new(m));
    }
    Ok(())
}

/// Whether an HTTP status is a success (2xx).
pub open spec fn is_success(status: u16) -> bool {
    200 <= status && status <= 299
}

/// Request or response headers: lowercase names, with each value as text
/// where it is visible ASCII (`None` where `to_str` fails), in order.
pub struct Headers {
    pub entries: Vec<(String, Option<String>)>,
}

/// The first header entry named `name`.
pub open spec fn header_index(h: Seq<(String, Option<String>)>, name: Seq<char>) -> Option<int>
    decreases h.len(),
{
    if h.len() == 0 {
        None
    } else if h[0].0@ == name {
        Some(0)
    } else {
        match header_index(h.drop_first(), name) {
            Some(i) => Some(i + 1),
            None => None,
        }
    }
}

/// The text of the first header named `name` (`HeaderMap::get` then
/// `to_str`): `None` when absent or not text.
pub open spec fn header_text(h: Seq<(String, Option<String>)>, name: Seq<char>) -> Option<
    Seq<char>,
> {
    match header_index(h, name) {
        Some(i) => match h[i].1 {
            Some(v) => Some(v@),
            None => None,
        },
        None => None,
    }
}

pub proof fn lemma_header_index(h: Seq<(String, Option<String>)>, name: Seq<char>, i: int)
    requires
        0 <= i <= h.len(),
        forall|j: int| 0 <= j < i ==> h[j].0@ != name,
        i == h.len() || h[i].0@ == name,
    ensures
        header_index(h, name) == (if i == h.len() {
            None
        } else {
            Some(i)
        }),
    decreases i,
{
    if i > 0 {
        lemma_header_index(h.drop_first(), name, i - 1);
    }
}

impl Headers {
    /// The text of the first header named `name`.
    pub fn get_str(&self, name: &str) -> (r: Option<&String>)
        ensures
            match r {
                Some(v) => header_text(self.entries@, name@) == Some(v@),
                None => header_text(self.entries@, name@) is None,
            },
    {
        let mut i: usize = 0;
        while i < self.entries.len()
            invariant
                i <= self.entries.len(),
                forall|j: int| 0 <= j < i ==> self.entries@[j].0@ != name@,
            decreases self.entries.len() - i,
        {
            if text::str_eq(self.entries[i].0.as_str(), name) {
                proof {
                    lemma_header_index(self.entries@, name@, i as int);
                }
                return match &self.entries[i].1 {
                    Some(v) => Some(v),
                    None => None,
                };
            }
            i = i + 1;
        }
        proof {
            lemma_header_index(self.entries@, name@, i as int);
        }
        None
    }
}

/// Whether `http::HeaderName::from_bytes` accepts a name.
pub uninterp spec fn valid_header_name(name: Seq<char>) -> bool;

/// Whether a text is a valid HTTP header name.
///
/// Calls `http::HeaderName::from_bytes` on the UTF-8 bytes and reports
/// whether it succeeded; the contract names the answer (`valid_header_name`).
#[verifier::external_body]
pub fn is_valid_header_name(name: &str) -> (r: bool)
    ensures
        r == valid_header_name(name@),
{
    http::HeaderName::from_bytes(name.as_bytes()).is_ok()
}

/// The bytes of a buffered body, if any.
pub open spec fn body_bytes(b: Option<Vec<u8>>) -> Option<Seq<u8>> {
    match b {
        Some(v) => Some(v@),
        None => None,
    }
}

/// The UTF-8 bytes of a string.
pub fn utf8_bytes(s: &str) -> (r: Vec<u8>)
    ensures
        r@ == s.spec_bytes(),
{
    let b = s.as_bytes();
    let mut r: Vec<u8> = Vec::new();
    let mut i: usize = 0;
    while i < b.len()
        invariant
            b@ == s.spec_bytes(),
            i <= b.len(),
            r@ =~= b@.take(i as int),
        decreases b.len() - i,
    {
        r.push(b[i]);
        i = i + 1;
    }
    assert(b@.take(b.len() as int) =~= b@);
    r
}

// -----------------------------------------------------------------------------
// Metadata
// -----------------------------------------------------------------------------

/// Position of the first entry with key `k`.
pub open spec fn first_entry(m: Seq<(Seq<char>, Seq<char>)>, k: Seq<char>) -> Option<int>
    decreases m.len(),
{
    if m.len() == 0 {
        None
    } else if m[0].0 == k {
        Some(0)
    } else {
        match first_entry(m.drop_first(), k) {
            Some(i) => Some(i + 1),
            None => None,
        }
    }
}

/// The value stored under `k`.
pub open spec fn meta_get(m: Seq<(Seq<char>, Seq<char>)>, k: Seq<char>) -> Option<Seq<char>> {
    match first_entry(m, k) {
        Some(i) => Some(m[i].1),
        None => None,
    }
}

/// `m` with `k` set to `v`: replaced where present, appended otherwise.
pub open spec fn meta_insert(m: Seq<(Seq<char>, Seq<char>)>, k: Seq<char>, v: Seq<char>) -> Seq<
    (Seq<char>, Seq<char>),
> {
    match first_entry(m, k) {
        Some(i) => m.update(i, (k, v)),
        None => m.push((k, v)),
    }
}

/// `m` without the entries whose key satisfies `drop`.
pub open spec fn meta_remove_where(
    m: Seq<(Seq<char>, Seq<char>)>,
    drop: spec_fn(Seq<char>) -> bool,
) -> Seq<(Seq<char>, Seq<char>)> {
    m.filter(keep_entries(drop))
}

/// Entries whose key does not satisfy `drop`.
pub open spec fn keep_entries(drop: spec_fn(Seq<char>) -> bool) -> spec_fn(
    (Seq<char>, Seq<char>),
) -> bool {
    |e: (Seq<char>, Seq<char>)| !drop(e.0)
}

/// Keys equal to `pat`, or starting with it when `by_prefix`.
pub open spec fn key_matches(pat: Seq<char>, by_prefix: bool) -> spec_fn(Seq<char>) -> bool {
    |k: Seq<char>|
        if by_prefix {
            text::is_prefix(pat, k)
        } else {
            k == pat
        }
}

/// `m` without key `k`.
pub open spec fn meta_remove(m: Seq<(Seq<char>, Seq<char>)>, k: Seq<char>) -> Seq<
    (Seq<char>, Seq<char>),
> {
    meta_remove_where(m, key_matches(k, false))
}

/// `m` without the keys that start with `p`.
pub open spec fn meta_remove_prefixed(m: Seq<(Seq<char>, Seq<char>)>, p: Seq<char>) -> Seq<
    (Seq<char>, Seq<char>),
> {
    meta_remove_where(m, key_matches(p, true))
}

/// `first_entry` is the first index whose key matches.
pub proof fn lemma_first_entry(m: Seq<(Seq<char>, Seq<char>)>, k: Seq<char>, i: int)
    requires
        0 <= i <= m.len(),
        forall|j: int| 0 <= j < i ==> m[j].0 != k,
        i == m.len() || m[i].0 == k,
    ensures
        first_entry(m, k) == (if i == m.len() {
            None
        } else {
            Some(i)
        }),
    decreases i,
{
    if i > 0 {
        lemma_first_entry(m.drop_first(), k, i - 1);
    }
}

/// `first_entry` stays inside the bounds and points at a matching key.
pub proof fn lemma_first_entry_bounds(m: Seq<(Seq<char>, Seq<char>)>, k: Seq<char>)
    ensures
        first_entry(m, k) matches Some(i) ==> 0 <= i < m.len() && m[i].0 == k,
        first_entry(m, k) is None ==> forall|j: int| 0 <= j < m.len() ==> m[j].0 != k,
    decreases m.len(),
{
    if m.len() > 0 {
        lemma_first_entry_bounds(m.drop_first(), k);
        if m[0].0 != k && first_entry(m.drop_first(), k) is None {
            assert forall|j: int| 0 <= j < m.len() implies m[j].0 != k by {
                if j > 0 {
                    assert(m[j] == m.drop_first()[j - 1]);
                }
            }
        }
    }
}

/// Index of the first entry under `key` in a list of string pairs.
pub fn entry_index(entries: &Vec<(String, String)>, key: &str) -> (r: Option<usize>)
    ensures
        r matches Some(i) ==> i < entries.len() && first_entry(entries_view(entries@), key@)
            == Some(i as int),
        r is None ==> first_entry(entries_view(entries@), key@) is None,
{
    let ghost m = entries_view(entries@);
    let mut i: usize = 0;
    while i < entries.len()
        invariant
            i <= entries.len(),
            m == entries_view(entries@),
            forall|j: int| 0 <= j < i ==> m[j].0 != key@,
        decreases entries.len() - i,
    {
        if text::str_eq(entries[i].0.as_str(), key) {
            proof {
                lemma_first_entry(m, key@, i as int);
            }
            return Some(i);
        }
        i = i + 1;
    }
    proof {
        lemma_first_entry(m, key@, i as int);
    }
    None
}

/// The value of the first entry under `key` in a list of string pairs.
pub fn lookup_entry<'a>(entries: &'a Vec<(String, String)>, key: &str) -> (r: Option<&'a String>)
    ensures
        match r {
            Some(v) => meta_get(entries_view(entries@), key@) == Some(v@),
            None => meta_get(entries_view(entries@), key@) is None,
        },
{
    match entry_index(entries, key) {
        Some(i) => Some(&entries[i].1),
        None => None,
    }
}

/// No entry before the first match has the key.
pub proof fn lemma_first_entry_prefix(m: Seq<(Seq<char>, Seq<char>)>, k: Seq<char>, i: int, j: int)
    requires
        first_entry(m, k) == Some(i),
        0 <= j < i,
    ensures
        m[j].0 != k,
    decreases m.len(),
{
    lemma_first_entry_bounds(m, k);
    if j > 0 {
        assert(m[0].0 != k);
        assert(first_entry(m.drop_first(), k) == Some(i - 1));
        lemma_first_entry_prefix(m.drop_first(), k, i - 1, j - 1);
        assert(m[j] == m.drop_first()[j - 1]);
    }
}

/// Writing a key twice leaves the metadata as the second write alone would:
/// the entry keeps its place and holds the last value.
pub proof fn lemma_meta_insert_twice(
    m: Seq<(Seq<char>, Seq<char>)>,
    k: Seq<char>,
    x: Seq<char>,
    y: Seq<char>,
)
    ensures
        meta_insert(meta_insert(m, k, x), k, y) == meta_insert(m, k, y),
{
    lemma_first_entry_bounds(m, k);
    let nm = meta_insert(m, k, x);
    match first_entry(m, k) {
        Some(i) => {
            assert forall|j: int| 0 <= j < i implies nm[j].0 != k by {
                assert(nm[j] == m[j]);
                lemma_first_entry_prefix(m, k, i, j);
            }
            lemma_first_entry(nm, k, i);
            assert(nm.update(i, (k, y)) =~= m.update(i, (k, y)));
        },
        None => {
            assert forall|j: int| 0 <= j < m.len() implies nm[j].0 != k by {
                assert(nm[j] == m[j]);
            }
            lemma_first_entry(nm, k, m.len() as int);
            assert(nm.update(m.len() as int, (k, y)) =~= m.push((k, y)));
        },
    }
}

/// Reading metadata after a write: the written key reads as the value
/// written, and every other key reads as before.
pub proof fn lemma_meta_get_after_insert(
    m: Seq<(Seq<char>, Seq<char>)>,
    k: Seq<char>,
    v: Seq<char>,
    other: Seq<char>,
)
    ensures
        meta_get(meta_insert(m, k, v), k) == Some(v),
        other != k ==> meta_get(meta_insert(m, k, v), other) == meta_get(m, other),
{
    lemma_first_entry_bounds(m, k);
    lemma_first_entry_bounds(m, other);
    let nm = meta_insert(m, k, v);
    match first_entry(m, k) {
        Some(i) => {
            assert forall|j: int| 0 <= j < i implies nm[j].0 != k by {
                assert(nm[j] == m[j]);
                lemma_first_entry_prefix(m, k, i, j);
            }
            lemma_first_entry(nm, k, i);
        },
        None => {
            assert forall|j: int| 0 <= j < m.len() implies nm[j].0 != k by {
                assert(nm[j] == m[j]);
            }
            lemma_first_entry(nm, k, m.len() as int);
        },
    }
    if other != k {
        lemma_first_entry_bounds(nm, other);
        match first_entry(m, other) {
            Some(o) => {
                assert forall|j: int| 0 <= j < o implies nm[j].0 != other by {
                    lemma_first_entry_prefix(m, other, o, j);
                }
                lemma_first_entry(nm, other, o);
            },
            None => {
                lemma_first_entry(nm, other, nm.len() as int);
            },
        }
    }
}

/// Reading after appending an entry: an existing key reads as before; a
/// missing one reads as the appended value where the keys agree.
pub proof fn lemma_meta_get_push(m: Seq<(Seq<char>, Seq<char>)>, e: (Seq<char>, Seq<char>), k: Seq<char>)
    ensures
        meta_get(m.push(e), k) == (match meta_get(m, k) {
            Some(v) => Some(v),
            None => if e.0 == k {
                Some(e.1)
            } else {
                None
            },
        }),
{
    lemma_first_entry_bounds(m, k);
    let n = m.push(e);
    match first_entry(m, k) {
        Some(i) => {
            assert forall|j: int| 0 <= j < i implies n[j].0 != k by {
                lemma_first_entry_prefix(m, k, i, j);
            }
            lemma_first_entry(n, k, i);
        },
        None => {
            lemma_first_entry(n, k, if e.0 == k {
                m.len() as int
            } else {
                n.len() as int
            });
        },
    }
}

/// Removing entries by key leaves the keys it does not drop reading as
/// before.
pub proof fn lemma_meta_remove_where_keeps(
    m: Seq<(Seq<char>, Seq<char>)>,
    drop: spec_fn(Seq<char>) -> bool,
    k: Seq<char>,
)
    requires
        !drop(k),
    ensures
        meta_get(meta_remove_where(m, drop), k) == meta_get(m, k),
    decreases m.len(),
{
    if m.len() > 0 {
        let dl = m.drop_last();
        let last = m.last();
        assert(m =~= dl.push(last));
        let pred = keep_entries(drop);
        lemma_meta_remove_where_keeps(dl, drop, k);
        lemma_meta_get_push(dl, last, k);
        assert(meta_remove_where(m, drop) == m.filter(pred));
        assert(meta_remove_where(dl, drop) == dl.filter(pred));
        dl.lemma_filter_push(last, pred);
        if pred(last) {
            assert(m.filter(pred) == dl.filter(pred).push(last));
            lemma_meta_get_push(dl.filter(pred), last, k);
        } else {
            assert(m.filter(pred) == dl.filter(pred));
            assert(last.0 != k);
        }
    }
}

/// A removed key reads as absent.
pub proof fn lemma_meta_remove_absent(m: Seq<(Seq<char>, Seq<char>)>, k: Seq<char>)
    ensures
        meta_get(meta_remove(m, k), k) is None,
{
    broadcast use vstd::seq_lib::group_filter_ensures;

    let r = meta_remove(m, k);
    assert forall|j: int| 0 <= j < r.len() implies r[j].0 != k by {
        assert(keep_entries(key_matches(k, false))(r[j]));
    }
    lemma_first_entry(r, k, r.len() as int);
}

/// Removing a prefix leaves no key that starts with it, and keeps every
/// entry whose key does not.
pub proof fn lemma_remove_prefixed_clears(m: Seq<(Seq<char>, Seq<char>)>, p: Seq<char>)
    ensures
        forall|i: int|
            0 <= i < meta_remove_prefixed(m, p).len() ==> !text::is_prefix(
                p,
                #[trigger] meta_remove_prefixed(m, p)[i].0,
            ),
        forall|i: int|
            0 <= i < m.len() && !text::is_prefix(p, #[trigger] m[i].0) ==> meta_remove_prefixed(
                m,
                p,
            ).contains(m[i]),
{
    let pred = keep_entries(key_matches(p, true));
    broadcast use vstd::seq_lib::group_filter_ensures;
    assert forall|i: int| 0 <= i < m.filter(pred).len() implies !text::is_prefix(
        p,
        #[trigger] m.filter(pred)[i].0,
    ) by {
        assert(pred(m.filter(pred)[i]));
    }
    assert forall|i: int| 0 <= i < m.len() && !text::is_prefix(p, #[trigger] m[i].0) implies m.filter(
        pred,
    ).contains(m[i]) by {
        assert(pred(m[i]));
    }
}

/// Per-request string metadata shared between filters, in insertion order.
pub struct Metadata {
    entries: Vec<(String, String)>,
}

/// The content of metadata entries.
pub open spec fn entries_view(e: Seq<(String, String)>) -> Seq<(Seq<char>, Seq<char>)> {
    Seq::new(e.len(), |i: int| (e[i].0@, e[i].1@))
}

impl View for Metadata {
    type V = Seq<(Seq<char>, Seq<char>)>;

    closed spec fn view(&self) -> Seq<(Seq<char>, Seq<char>)> {
        entries_view(self.entries@)
    }
}

impl Metadata {
    /// Empty metadata.
    pub fn new() -> (r: Metadata)
        ensures
            r@ == Seq::<(Seq<char>, Seq<char>)>::empty(),
    {
        let r = Metadata { entries: Vec::new() };
        assert(r@ =~= Seq::<(Seq<char>, Seq<char>)>::empty());
        r
    }

    /// Metadata holding the given entries, in order.
    pub fn from_entries(entries: Vec<(String, String)>) -> (r: Metadata)
        ensures
            r@ == entries_view(entries@),
    {
        Metadata { entries }
    }

    /// The entries, in order.
    pub fn entries(&self) -> (r: &Vec<(String, String)>)
        ensures
            entries_view(r@) == self@,
    {
        &self.entries
    }

    /// Index of the first entry under `key`.
    fn index_of(&self, key: &str) -> (r: Option<usize>)
        ensures
            r matches Some(i) ==> i < self.entries.len() && first_entry(self@, key@) == Some(
                i as int,
            ),
            r is None ==> first_entry(self@, key@) is None,
    {
        entry_index(&self.entries, key)
    }

    /// The value under `key`.
    pub fn get(&self, key: &str) -> (r: Option<&String>)
        ensures
            match r {
                Some(v) => meta_get(self@, key@) == Some(v@),
                None => meta_get(self@, key@) is None,
            },
    {
        match self.index_of(key) {
            Some(i) => Some(&self.entries[i].1),
            None => None,
        }
    }

    /// Whether `key` has a value.
    pub fn contains_key(&self, key: &str) -> (r: bool)
        ensures
            r == (meta_get(self@, key@) is Some),
    {
        self.index_of(key).is_some()
    }

    /// Sets `key` to `value`.
    pub fn insert(&mut self, key: String, value: String)
        ensures
            final(self)@ == meta_insert(old(self)@, key@, value@),
    {
        match self.index_of(key.as_str()) {
            Some(i) => {
                self.entries.set(i, (key, value));
            },
            None => {
                self.entries.push((key, value));
            },
        }
        assert(self@ =~= meta_insert(old(self)@, key@, value@));
    }

    /// Sets `key`, given as a slice, to `value`.
    pub fn set(&mut self, key: &str, value: String)
        ensures
            final(self)@ == meta_insert(old(self)@, key@, value@),
    {
        self.insert(text::owned(key), value);
    }

    /// Removes `key`.
    pub fn remove(&mut self, key: &str)
        ensures
            final(self)@ == meta_remove(old(self)@, key@),
    {
        self.remove_matching(key, false);
    }

    /// Removes every entry whose key starts with `prefix`.
    pub fn remove_prefixed(&mut self, prefix: &str)
        ensures
            final(self)@ == meta_remove_prefixed(old(self)@, prefix@),
    {
        self.remove_matching(prefix, true);
    }

    /// Keeps the entries whose key does not match `pat` (by equality, or as
    /// a prefix when `by_prefix`).
    fn remove_matching(&mut self, pat: &str, by_prefix: bool)
        ensures
            final(self)@ == meta_remove_where(old(self)@, key_matches(pat@, by_prefix)),
    {
        let ghost drop = key_matches(pat@, by_prefix);
        let ghost keep = keep_entries(drop);
        let ghost orig = self@;
        let mut kept: Vec<(String, String)> = Vec::new();
        let mut old_entries: Vec<(String, String)> = Vec::new();
        std::mem::swap(&mut old_entries, &mut self.entries);
        let n = old_entries.len();
        assert(orig.take(0).filter(keep) =~= Seq::empty()) by {
            reveal_with_fuel(Seq::filter, 1);
        }
        assert(entries_view(kept@) =~= Seq::empty());
        let mut i: usize = 0;
        while i < n
            invariant
                n == old_entries.len(),
                n == orig.len(),
                i <= n,
                forall|j: int|
                    i <= j < n ==> (old_entries@[j].0@, old_entries@[j].1@) == #[trigger] orig[j],
                drop == key_matches(pat@, by_prefix),
                keep == keep_entries(drop),
                entries_view(kept@) == orig.take(i as int).filter(keep),
            decreases n - i,
        {
            let mut e = (String::new(), String::new());
            old_entries.set_and_swap(i, &mut e);
            assert(orig.take(i as int + 1).drop_last() =~= orig.take(i as int));
            let matched = if by_prefix {
                text::starts_with(e.0.as_str(), pat)
            } else {
                text::str_eq(e.0.as_str(), pat)
            };
            let ghost before = kept@;
            assert((e.0@, e.1@) == orig[i as int]);
            assert(matched == drop(orig[i as int].0));
            if !matched {
                kept.push(e);
                assert(entries_view(kept@) =~= entries_view(before).push(orig[i as int]));
            }
            proof {
                assert(orig.take(i as int + 1).last() == orig[i as int]);
                assert(orig.take(i as int + 1).filter(keep) == (if keep(orig[i as int]) {
                    orig.take(i as int).filter(keep).push(orig[i as int])
                } else {
                    orig.take(i as int).filter(keep)
                })) by {
                    reveal_with_fuel(Seq::filter, 1);
                }
            }
            i = i + 1;
        }
        assert(orig.take(n as int) =~= orig);
        self.entries = kept;
    }
}

} // verus!
