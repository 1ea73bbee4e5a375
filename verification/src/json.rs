//! JSON documents as the filters read and rewrite them.
//!
//! Parsing and serialization are done by `serde_json`; the tree itself is a
//! type of this library, so that every filter that inspects or rewrites a
//! body does so in verified code.
use vstd::prelude::*;
use vstd::pervasive::VecAdditionalExecFns;

verus! {

#[verifier::external_type_specification]
#[verifier::external_body]
pub struct ExJsonDocument(serde_json::Value);

/// A JSON number as written in a document: its text, and its `u64`
/// reading, which is what `serde_json::Number::as_u64` returns for it (the
/// number when it is an integer in `u64` range, `None` otherwise).
pub struct JsonNumber {
    value: Option<u64>,
    text: String,
}

/// The text of an `i64` in decimal, with a leading `-` when negative.
pub open spec fn i64_text(n: i64) -> Seq<char> {
    if n >= 0 {
        crate::text::decimal(n as nat)
    } else {
        "-"@ + crate::text::decimal((-n) as nat)
    }
}

impl JsonNumber {
    /// The number's `u64` reading, if it has one.
    pub closed spec fn value(self) -> Option<u64> {
        self.value
    }

    /// The number's text.
    pub closed spec fn text(self) -> Seq<char> {
        self.text@
    }

    /// The number's `u64` reading, if it has one.
    pub fn as_u64(&self) -> (r: Option<u64>)
        ensures
            r == self.value(),
    {
        self.value
    }

    /// The JSON number for a `u64`, written in decimal.
    pub fn from_u64(n: u64) -> (r: JsonNumber)
        ensures
            r.value() == Some(n),
            r.text() == crate::text::decimal(n as nat),
    {
        JsonNumber { value: Some(n), text: crate::text::u64_to_decimal(n) }
    }

    /// The JSON number for an `i64`, written in decimal; only a
    /// non-negative one reads as a `u64`.
    pub fn from_i64(n: i64) -> (r: JsonNumber)
        ensures
            r.value() == (if n >= 0 {
                Some(n as u64)
            } else {
                None
            }),
            r.text() == i64_text(n),
    {
        if n >= 0 {
            JsonNumber { value: Some(n as u64), text: crate::text::u64_to_decimal(n as u64) }
        } else {
            let m: u64 = if n == i64::MIN {
                9_223_372_036_854_775_808u64
            } else {
                (-n) as u64
            };
            let digits = crate::text::u64_to_decimal(m);
            JsonNumber { value: None, text: crate::text::concat("-", digits.as_str()) }
        }
    }
}

/// A JSON value. Object members keep their order; a key is looked up at its
/// first occurrence.
pub enum JsonValue {
    Null,
    Bool(bool),
    Num(JsonNumber),
    Str(String),
    Arr(Vec<JsonValue>),
    Obj(Vec<(String, JsonValue)>),
}

/// The mathematical content of a [`JsonValue`]: strings as characters,
/// numbers by their `u64` reading and their text.
pub enum JsonSpec {
    Null,
    Bool(bool),
    Num(Option<u64>, Seq<char>),
    Str(Seq<char>),
    Arr(Seq<JsonSpec>),
    Obj(Seq<(Seq<char>, JsonSpec)>),
}

/// The content of a JSON value.
pub open spec fn json_view(v: JsonValue) -> JsonSpec
    decreases v,
{
    match v {
        JsonValue::Null => JsonSpec::Null,
        JsonValue::Bool(b) => JsonSpec::Bool(b),
        JsonValue::Num(n) => JsonSpec::Num(n.value(), n.text()),
        JsonValue::Str(s) => JsonSpec::Str(s@),
        JsonValue::Arr(items) => JsonSpec::Arr(
            Seq::new(
                items@.len(),
                |i: int|
                    if 0 <= i < items@.len() {
                        json_view(items@[i])
                    } else {
                        JsonSpec::Null
                    },
            ),
        ),
        JsonValue::Obj(fields) => JsonSpec::Obj(
            Seq::new(
                fields@.len(),
                |i: int|
                    if 0 <= i < fields@.len() {
                        (fields@[i].0@, json_view(fields@[i].1))
                    } else {
                        (Seq::empty(), JsonSpec::Null)
                    },
            ),
        ),
    }
}

impl View for JsonValue {
    type V = JsonSpec;

    open spec fn view(&self) -> JsonSpec {
        json_view(*self)
    }
}

/// The content of an object's members.
pub open spec fn fields_view(fields: Seq<(String, JsonValue)>) -> Seq<(Seq<char>, JsonSpec)> {
    Seq::new(
        fields.len(),
        |i: int|
            if 0 <= i < fields.len() {
                (fields[i].0@, json_view(fields[i].1))
            } else {
                (Seq::empty(), JsonSpec::Null)
            },
    )
}

/// The content of an array's items.
pub open spec fn items_view(items: Seq<JsonValue>) -> Seq<JsonSpec> {
    Seq::new(
        items.len(),
        |i: int|
            if 0 <= i < items.len() {
                json_view(items[i])
            } else {
                JsonSpec::Null
            },
    )
}

/// An object's content is the content of its members.
pub broadcast proof fn lemma_obj_view(fields: Vec<(String, JsonValue)>)
    ensures
        #[trigger] json_view(JsonValue::Obj(fields)) == JsonSpec::Obj(fields_view(fields@)),
{
    assert(json_view(JsonValue::Obj(fields))->Obj_0 =~= fields_view(fields@));
}

/// An array's content is the content of its items.
pub broadcast proof fn lemma_arr_view(items: Vec<JsonValue>)
    ensures
        #[trigger] json_view(JsonValue::Arr(items)) == JsonSpec::Arr(items_view(items@)),
{
    assert(json_view(JsonValue::Arr(items))->Arr_0 =~= items_view(items@));
}

// -----------------------------------------------------------------------------
// Lookup
// -----------------------------------------------------------------------------

/// Position of the first member named `key`.
pub open spec fn first_key(fields: Seq<(Seq<char>, JsonSpec)>, key: Seq<char>) -> Option<int>
    decreases fields.len(),
{
    if fields.len() == 0 {
        None
    } else if fields[0].0 == key {
        Some(0)
    } else {
        match first_key(fields.drop_first(), key) {
            Some(i) => Some(i + 1),
            None => None,
        }
    }
}

/// The member named `key` of an object (`serde_json::Value::get`); `None`
/// for a missing member and for a value that is not an object.
pub open spec fn member(v: JsonSpec, key: Seq<char>) -> Option<JsonSpec> {
    match v {
        JsonSpec::Obj(fields) => match first_key(fields, key) {
            Some(i) => Some(fields[i].1),
            None => None,
        },
        _ => None,
    }
}

/// The member named `key` where it is a string (`get` then `as_str`).
pub open spec fn member_str(v: JsonSpec, key: Seq<char>) -> Option<Seq<char>> {
    match member(v, key) {
        Some(JsonSpec::Str(s)) => Some(s),
        _ => None,
    }
}

/// Object members with `key` set to `val`: replaced in place where the key
/// is present, appended otherwise (`serde_json::Map::insert`).
pub open spec fn insert_member(
    fields: Seq<(Seq<char>, JsonSpec)>,
    key: Seq<char>,
    val: JsonSpec,
) -> Seq<(Seq<char>, JsonSpec)> {
    match first_key(fields, key) {
        Some(i) => fields.update(i, (key, val)),
        None => fields.push((key, val)),
    }
}

/// `first_key` is the first index whose key matches.
pub proof fn lemma_first_key(fields: Seq<(Seq<char>, JsonSpec)>, key: Seq<char>, i: int)
    requires
        0 <= i <= fields.len(),
        forall|j: int| 0 <= j < i ==> fields[j].0 != key,
        i == fields.len() || fields[i].0 == key,
    ensures
        first_key(fields, key) == (if i == fields.len() {
            None
        } else {
            Some(i)
        }),
    decreases i,
{
    if i > 0 {
        lemma_first_key(fields.drop_first(), key, i - 1);
    }
}

/// `first_key` finds a matching key inside the bounds.
pub proof fn lemma_first_key_bounds(fields: Seq<(Seq<char>, JsonSpec)>, key: Seq<char>)
    ensures
        first_key(fields, key) matches Some(i) ==> 0 <= i < fields.len() && fields[i].0 == key,
        first_key(fields, key) is None ==> forall|j: int| 0 <= j < fields.len() ==> fields[j].0 != key,
    decreases fields.len(),
{
    if fields.len() > 0 {
        lemma_first_key_bounds(fields.drop_first(), key);
        if fields[0].0 != key && first_key(fields.drop_first(), key) is None {
            assert forall|j: int| 0 <= j < fields.len() implies fields[j].0 != key by {
                if j > 0 {
                    assert(fields[j] == fields.drop_first()[j - 1]);
                }
            }
        }
    }
}

/// Setting member `key` of an object makes `key` read as the value set, and
/// leaves every other member as it was.
pub proof fn lemma_member_after_insert(
    fields: Seq<(Seq<char>, JsonSpec)>,
    key: Seq<char>,
    val: JsonSpec,
    other: Seq<char>,
)
    ensures
        member(JsonSpec::Obj(insert_member(fields, key, val)), key) == Some(val),
        other != key ==> member(JsonSpec::Obj(insert_member(fields, key, val)), other) == member(
            JsonSpec::Obj(fields),
            other,
        ),
{
    lemma_first_key_bounds(fields, key);
    lemma_first_key_bounds(fields, other);
    let nf = insert_member(fields, key, val);
    match first_key(fields, key) {
        Some(i) => {
            assert forall|j: int| 0 <= j < i implies nf[j].0 != key by {
                assert(nf[j] == fields[j]);
                lemma_first_key_prefix(fields, key, i, j);
            }
            lemma_first_key(nf, key, i);
        },
        None => {
            assert forall|j: int| 0 <= j < fields.len() implies nf[j].0 != key by {
                assert(nf[j] == fields[j]);
            }
            lemma_first_key(nf, key, fields.len() as int);
        },
    }
    if other != key {
        lemma_first_key_bounds(nf, other);
        match first_key(fields, other) {
            Some(o) => {
                assert forall|j: int| 0 <= j < o implies nf[j].0 != other by {
                    if j < fields.len() {
                        assert(fields[j].0 != other) by {
                            lemma_first_key_prefix(fields, other, o, j);
                        }
                    }
                }
                lemma_first_key(nf, other, o);
            },
            None => {
                assert forall|j: int| 0 <= j < nf.len() implies nf[j].0 != other by {
                    if j < fields.len() {
                    }
                }
                lemma_first_key(nf, other, nf.len() as int);
            },
        }
    }
}

/// No member before the first match has the key.
pub proof fn lemma_first_key_prefix(fields: Seq<(Seq<char>, JsonSpec)>, key: Seq<char>, i: int, j: int)
    requires
        first_key(fields, key) == Some(i),
        0 <= j < i,
    ensures
        fields[j].0 != key,
    decreases fields.len(),
{
    lemma_first_key_bounds(fields, key);
    if j > 0 {
        assert(fields[0].0 != key);
        assert(first_key(fields.drop_first(), key) == Some(i - 1));
        lemma_first_key_prefix(fields.drop_first(), key, i - 1, j - 1);
        assert(fields[j] == fields.drop_first()[j - 1]);
    }
}

/// Index of the first member named `key`.
pub fn field_index(fields: &Vec<(String, JsonValue)>, key: &str) -> (r: Option<usize>)
    ensures
        r matches Some(i) ==> i < fields.len(),
        r matches Some(i) ==> first_key(fields_view(fields@), key@) == Some(i as int),
        r is None ==> first_key(fields_view(fields@), key@) is None,
{
    let mut i: usize = 0;
    while i < fields.len()
        invariant
            i <= fields.len(),
            forall|j: int| 0 <= j < i ==> fields_view(fields@)[j].0 != key@,
        decreases fields.len() - i,
    {
        if crate::text::str_eq(fields[i].0.as_str(), key) {
            proof {
                lemma_first_key(fields_view(fields@), key@, i as int);
            }
            return Some(i);
        }
        i = i + 1;
    }
    proof {
        lemma_first_key(fields_view(fields@), key@, i as int);
    }
    None
}

/// The member named `key` of an object value.
pub fn get<'a>(v: &'a JsonValue, key: &str) -> (r: Option<&'a JsonValue>)
    ensures
        match r {
            Some(x) => member(v@, key@) == Some(x@),
            None => member(v@, key@) is None,
        },
{
    match v {
        JsonValue::Obj(fields) => {
            proof {
                lemma_obj_view(*fields);
            }
            match field_index(fields, key) {
                Some(i) => Some(&fields[i].1),
                None => None,
            }
        },
        _ => None,
    }
}

/// Sets member `key` of an object's members (`serde_json::Map::insert`).
pub fn insert_field(fields: &mut Vec<(String, JsonValue)>, key: String, val: JsonValue)
    ensures
        fields_view(final(fields)@) == insert_member(fields_view(old(fields)@), key@, val@),
{
    match field_index(fields, key.as_str()) {
        Some(i) => {
            proof {
                lemma_first_key_bounds(fields_view(fields@), key@);
            }
            fields.set(i, (key, val));
        },
        None => {
            fields.push((key, val));
        },
    }
    assert(fields_view(fields@) =~= insert_member(fields_view(old(fields)@), key@, val@));
}

// -----------------------------------------------------------------------------
// Building values
// -----------------------------------------------------------------------------

/// A string value.
pub fn str_value(s: &str) -> (r: JsonValue)
    ensures
        r@ == JsonSpec::Str(s@),
{
    JsonValue::Str(crate::text::owned(s))
}

/// An object from its members, in order.
pub fn object(members: Vec<(String, JsonValue)>) -> (r: JsonValue)
    ensures
        r@ == JsonSpec::Obj(fields_view(members@)),
{
    proof {
        lemma_obj_view(members);
    }
    JsonValue::Obj(members)
}

/// Appends a member.
pub fn add_member(members: &mut Vec<(String, JsonValue)>, key: &str, val: JsonValue)
    ensures
        fields_view(final(members)@) == fields_view(old(members)@).push(
            (key@, val@),
        ),
{
    members.push((crate::text::owned(key), val));
    assert(fields_view(members@) =~= fields_view(old(members)@).push(
        (key@, val@),
    ));
}

// -----------------------------------------------------------------------------
// Typed members, read the way serde's derived `Deserialize` reads them
// -----------------------------------------------------------------------------
//
// Each reader returns `None` where deserialization of the enclosing struct
// fails, and `Some(x)` with the member's value otherwise.

/// A required `u64` member.
pub open spec fn member_u64(obj: JsonSpec, key: Seq<char>) -> Option<u64> {
    match member(obj, key) {
        Some(JsonSpec::Num(Some(n), _)) => Some(n),
        _ => None,
    }
}

/// An `Option<u64>` member: absent and `null` read as `None`.
pub open spec fn member_opt_u64(obj: JsonSpec, key: Seq<char>) -> Option<Option<u64>> {
    match member(obj, key) {
        None => Some(None),
        Some(JsonSpec::Null) => Some(None),
        Some(JsonSpec::Num(Some(n), _)) => Some(Some(n)),
        _ => None,
    }
}

/// An `Option<String>` member: absent and `null` read as `None`.
pub open spec fn member_opt_str(obj: JsonSpec, key: Seq<char>) -> Option<Option<Seq<char>>> {
    match member(obj, key) {
        None => Some(None),
        Some(JsonSpec::Null) => Some(None),
        Some(JsonSpec::Str(s)) => Some(Some(s)),
        _ => None,
    }
}

/// An `Option` of a struct: absent and `null` read as `None`, an object is
/// handed on for its own members to be read.
pub open spec fn member_opt_obj(obj: JsonSpec, key: Seq<char>) -> Option<Option<JsonSpec>> {
    match member(obj, key) {
        None => Some(None),
        Some(JsonSpec::Null) => Some(None),
        Some(JsonSpec::Obj(f)) => Some(Some(JsonSpec::Obj(f))),
        _ => None,
    }
}

/// A required `bool` member.
pub open spec fn member_bool(obj: JsonSpec, key: Seq<char>) -> Option<bool> {
    match member(obj, key) {
        Some(JsonSpec::Bool(b)) => Some(b),
        _ => None,
    }
}

/// Reads a required `u64` member.
pub fn read_u64(v: &JsonValue, key: &str) -> (r: Option<u64>)
    ensures
        r == member_u64(v@, key@),
{
    match get(v, key) {
        Some(JsonValue::Num(n)) => n.as_u64(),
        _ => None,
    }
}

/// Reads an `Option<u64>` member.
pub fn read_opt_u64(v: &JsonValue, key: &str) -> (r: Option<Option<u64>>)
    ensures
        r == member_opt_u64(v@, key@),
{
    match get(v, key) {
        None => Some(None),
        Some(JsonValue::Null) => Some(None),
        Some(JsonValue::Num(n)) => match n.as_u64() {
            Some(x) => Some(Some(x)),
            None => None,
        },
        _ => None,
    }
}

/// Reads an `Option<String>` member.
pub fn read_opt_str(v: &JsonValue, key: &str) -> (r: Option<Option<String>>)
    ensures
        match r {
            None => member_opt_str(v@, key@) is None,
            Some(None) => member_opt_str(v@, key@) == Some(None::<Seq<char>>),
            Some(Some(s)) => member_opt_str(v@, key@) == Some(Some(s@)),
        },
{
    match get(v, key) {
        None => Some(None),
        Some(JsonValue::Null) => Some(None),
        Some(JsonValue::Str(s)) => Some(Some(s.clone())),
        _ => None,
    }
}

/// Reads an `Option` of a struct, handing the object on.
pub fn read_opt_obj<'a>(v: &'a JsonValue, key: &str) -> (r: Option<Option<&'a JsonValue>>)
    ensures
        match r {
            None => member_opt_obj(v@, key@) is None,
            Some(None) => member_opt_obj(v@, key@) == Some(None::<JsonSpec>),
            Some(Some(x)) => member_opt_obj(v@, key@) == Some(Some(x@)) && x@ is Obj,
        },
{
    match get(v, key) {
        None => Some(None),
        Some(JsonValue::Null) => Some(None),
        Some(x) => {
            if let JsonValue::Obj(f) = x {
                proof {
                    lemma_obj_view(*f);
                }
                Some(Some(x))
            } else {
                None
            }
        },
    }
}

/// Reads a required `bool` member.
pub fn read_bool(v: &JsonValue, key: &str) -> (r: Option<bool>)
    ensures
        r == member_bool(v@, key@),
{
    match get(v, key) {
        Some(JsonValue::Bool(b)) => Some(*b),
        _ => None,
    }
}

/// Whether a value is an object.
pub fn is_object(v: &JsonValue) -> (r: bool)
    ensures
        r == v@ is Obj,
{
    match v {
        JsonValue::Obj(f) => {
            proof {
                lemma_obj_view(*f);
            }
            true
        },
        _ => false,
    }
}

// -----------------------------------------------------------------------------
// Parsing and serialization (serde_json)
// -----------------------------------------------------------------------------

/// The document `serde_json::from_slice::<serde_json::Value>` reads from
/// `bytes`, or `None` where it reports an error.
pub uninterp spec fn json_parse(bytes: Seq<u8>) -> Option<JsonValue>;

/// The bytes `serde_json::to_vec` writes for a document, or `None` where it
/// reports an error. The document is taken by its content, numbers by
/// their text.
pub uninterp spec fn json_bytes(v: JsonSpec) -> Option<Seq<u8>>;

/// The text `serde_json::Value`'s `Display` writes for a document.
pub uninterp spec fn json_text(v: JsonSpec) -> Seq<char>;

/// Parses one JSON document.
///
/// Calls `serde_json::from_slice::<serde_json::Value>` and converts the tree
/// member by member; the contract names the result (`json_parse`) and claims
/// nothing else of it.
#[verifier::external_body]
pub fn parse_json(bytes: &[u8]) -> (r: Option<JsonValue>)
    ensures
        r == json_parse(bytes@),
{
    serde_json::from_slice::<serde_json::Value>(bytes).ok().map(from_document)
}

/// Serializes a document to bytes.
///
/// Converts the tree to a `serde_json::Value` and calls `serde_json::to_vec`;
/// the contract names the result (`json_bytes`).
#[verifier::external_body]
pub fn to_json_bytes(v: &JsonValue) -> (r: Option<Vec<u8>>)
    ensures
        match r {
            Some(b) => json_bytes(v@) == Some(b@),
            None => json_bytes(v@) is None,
        },
{
    serde_json::to_vec(&to_document(v)).ok()
}

/// Compact JSON text of a document.
///
/// Converts the tree to a `serde_json::Value` and formats it with its
/// `Display` impl; the contract names the result (`json_text`).
#[verifier::external_body]
pub fn to_json_text(v: &JsonValue) -> (r: String)
    ensures
        r@ == json_text(v@),
{
    to_document(v).to_string()
}

/// Writes a rewritten document back as the body, failing with
/// `"failed to serialize {what}"` (and leaving the body as it was) where
/// serialization fails; the calling filter prefixes its own name.
pub fn replace_json_body(
    body: &mut Option<Vec<u8>>,
    value: &JsonValue,
    what: &str,
) -> (r: Result<(), crate::filter::FilterError>)
    ensures
        r is Ok <==> json_bytes(value@) is Some,
        r is Ok ==> (*final(body) matches Some(b) && json_bytes(value@) == Some(b@)),
        r is Err ==> *final(body) == *old(body),
        r matches Err(e) ==> e.message@ == "failed to serialize "@ + what@,
{
    match to_json_bytes(value) {
        Some(b) => {
            *body = Some(b);
            Ok(())
        },
        None => {
            Err(crate::filter::FilterError::new(crate::text::concat("failed to serialize ", what)))
        },
    }
}

/// Converts a `serde_json::Value` tree into this library's tree, one node for
/// one node, keeping each number's text (its `Display`) beside its `as_u64`
/// reading.
#[verifier::external_body]
pub(crate) fn from_document(v: serde_json::Value) -> JsonValue {
    match v {
        serde_json::Value::Null => JsonValue::Null,
        serde_json::Value::Bool(b) => JsonValue::Bool(b),
        serde_json::Value::Number(n) => JsonValue::Num(JsonNumber { value: n.as_u64(), text: n.to_string() }),
        serde_json::Value::String(s) => JsonValue::Str(s),
        serde_json::Value::Array(a) => JsonValue::Arr(a.into_iter().map(from_document).collect()),
        serde_json::Value::Object(m) => JsonValue::Obj(
            m.into_iter().map(|(k, x)| (k, from_document(x))).collect(),
        ),
    }
}

/// Converts this library's tree into a `serde_json::Value`, one node for one
/// node, each number read back from its text.
#[verifier::external_body]
fn to_document(v: &JsonValue) -> serde_json::Value {
    match v {
        JsonValue::Null => serde_json::Value::Null,
        JsonValue::Bool(b) => serde_json::Value::Bool(*b),
        JsonValue::Num(n) => serde_json::from_str(&n.text).unwrap_or(serde_json::Value::Null),
        JsonValue::Str(s) => serde_json::Value::String(s.clone()),
        JsonValue::Arr(a) => serde_json::Value::Array(a.iter().map(to_document).collect()),
        JsonValue::Obj(m) => serde_json::Value::Object(
            m.iter().map(|(k, x)| (k.clone(), to_document(x))).collect(),
        ),
    }
}

} // verus!
