//! CBOR serialization variants, through `ciborium`'s value tree.
//!
//! 1. Schemaless: a map keyed by the field names, binary fields as byte strings.
//! 2. Packed: the seven fields as an array, tag values that are hex text stored
//!    as byte strings.
//! 3. Integer-keyed: the fields of the packed variant under keys 0 to 6.

pub mod intkey;
pub mod packed;
pub mod schemaless;

use vstd::prelude::*;
use ciborium::value::Value;
use crate::event::{clone_tags, NostrEvent};
use crate::hexstr::{hex_bytes, hex_decode, hex_encode, hex_text, is_hex_text};

verus! {

#[verifier::external_type_specification]
#[verifier::external_body]
pub struct ExCborValue(ciborium::value::Value);

#[verifier::external_type_specification]
#[verifier::external_body]
#[verifier::reject_recursive_types(T)]
pub struct ExCborReadError<T>(ciborium::de::Error<T>);

#[verifier::external_type_specification]
#[verifier::external_body]
pub struct ExIoError(std::io::Error);

/// Errors of the CBOR adapter.
#[derive(Debug)]
pub enum CborError {
    /// ciborium rejected the bytes.
    Ciborium(ciborium::de::Error<std::io::Error>),
    ExpectedArray,
    ExpectedMap,
    /// The named field is not a byte string.
    ExpectedBytes(&'static str),
    /// The named field is not an integer in range.
    ExpectedInteger(&'static str),
    /// The named field is not a text string.
    ExpectedString(&'static str),
    /// The named field has the wrong size.
    InvalidLength(&'static str),
    /// The named field is absent.
    MissingField(&'static str),
}

/// Relies on `ciborium::value::Value::Bytes`: a byte string.
#[verifier::external_body]
pub(crate) fn bytes_value(b: Vec<u8>) -> Value {
    Value::Bytes(b)
}

/// Relies on `ciborium::value::Value::Text`: a text string.
#[verifier::external_body]
pub(crate) fn text_value(s: String) -> Value {
    Value::Text(s)
}

/// Relies on `ciborium::value::Value::Integer`: an integer.
#[verifier::external_body]
pub(crate) fn int_value(i: i64) -> Value {
    Value::Integer(i.into())
}

/// Relies on `ciborium::value::Value::Array`: an array.
#[verifier::external_body]
pub(crate) fn array_value(items: Vec<Value>) -> Value {
    Value::Array(items)
}

/// Relies on `ciborium::value::Value::Map`: a map, entries in the given order.
#[verifier::external_body]
pub(crate) fn map_value(entries: Vec<(Value, Value)>) -> Value {
    Value::Map(entries)
}

/// Relies on `ciborium::into_writer` into a `Vec`: writing into memory does not fail.
#[verifier::external_body]
pub(crate) fn write_value(v: &Value) -> Vec<u8> {
    let mut buf = Vec::new();
    ciborium::into_writer(v, &mut buf).unwrap();
    buf
}

/// Relies on `ciborium::from_reader` into a `Value`.
#[verifier::external_body]
pub(crate) fn read_value(data: &[u8]) -> Result<Value, ciborium::de::Error<std::io::Error>> {
    ciborium::from_reader(data)
}

pub assume_specification<'a>[ Value::as_array ](v: &'a Value) -> Option<&'a Vec<Value>>;

pub assume_specification<'a>[ Value::as_map ](v: &'a Value) -> Option<&'a Vec<(Value, Value)>>;

pub assume_specification<'a>[ Value::as_bytes ](v: &'a Value) -> Option<&'a Vec<u8>>;

pub assume_specification<'a>[ Value::as_text ](v: &'a Value) -> Option<&'a str>;

/// Relies on `ciborium::value::Value::as_integer`, widened to `i128`, which holds every CBOR integer.
#[verifier::external_body]
pub(crate) fn integer_of(v: &Value) -> Option<i128> {
    v.as_integer().map(i128::from)
}

/// Whether every character of `s` is an ASCII hex digit, in either case.
pub fn is_hex_string(s: &str) -> (r: bool)
    ensures
        r == forall|i: int| 0 <= i < s@.len() ==> crate::hexstr::is_hex_char(#[trigger] s@[i]),
{
    crate::capnp::is_hex_string(s)
}

/// A tag value: hex text (either case, even length) as the bytes it spells,
/// any other text as text.
fn encode_tag_value_cbor(value: &String) -> Value {
    if is_hex_string(value.as_str()) && value.as_str().unicode_len() % 2 == 0 {
        match hex_decode(value.as_str()) {
            Ok(bytes) => return bytes_value(bytes),
            Err(_) => {},
        }
    }
    text_value(value.clone())
}

/// The text a tag value stands for: the lowercase hex of a byte string, or the text.
fn decode_tag_value_cbor(value: &Value) -> (r: Result<String, CborError>)
    ensures
        r is Err ==> r->Err_0 is ExpectedString,
{
    match value.as_bytes() {
        Some(b) => return Ok(hex_encode(b.as_slice())),
        None => {},
    }
    match value.as_text() {
        Some(t) => Ok(t.to_string()),
        None => Err(CborError::ExpectedString("tag value")),
    }
}

/// The array of tag arrays; `hex_opt` stores hex text as byte strings.
pub(crate) fn tags_to_value(tags: &Vec<Vec<String>>, hex_opt: bool) -> Value {
    let mut outer: Vec<Value> = Vec::new();
    let mut i: usize = 0;
    while i < tags.len()
        invariant
            i <= tags@.len(),
        decreases tags@.len() - i,
    {
        let tag = &tags[i];
        let mut inner: Vec<Value> = Vec::new();
        let mut j: usize = 0;
        while j < tag.len()
            invariant
                j <= tag@.len(),
            decreases tag@.len() - j,
        {
            if hex_opt {
                inner.push(encode_tag_value_cbor(&tag[j]));
            } else {
                inner.push(text_value(tag[j].clone()));
            }
            j = j + 1;
        }
        outer.push(array_value(inner));
        i = i + 1;
    }
    array_value(outer)
}

pub(crate) fn extract_bytes(value: &Value, field: &'static str) -> (r: Result<Vec<u8>, CborError>) {
    match value.as_bytes() {
        Some(b) => Ok(b.clone()),
        None => Err(CborError::ExpectedBytes(field)),
    }
}

pub(crate) fn extract_i64(value: &Value, field: &'static str) -> (r: Result<i64, CborError>) {
    match integer_of(value) {
        Some(i) => {
            if i < i64::MIN as i128 || i > i64::MAX as i128 {
                Err(CborError::ExpectedInteger(field))
            } else {
                Ok(i as i64)
            }
        },
        None => Err(CborError::ExpectedInteger(field)),
    }
}

pub(crate) fn extract_u16(value: &Value, field: &'static str) -> (r: Result<u16, CborError>) {
    match integer_of(value) {
        Some(i) => {
            if i < 0 || i > u16::MAX as i128 {
                Err(CborError::ExpectedInteger(field))
            } else {
                Ok(i as u16)
            }
        },
        None => Err(CborError::ExpectedInteger(field)),
    }
}

pub(crate) fn extract_string(value: &Value, field: &'static str) -> (r: Result<String, CborError>) {
    match value.as_text() {
        Some(t) => Ok(t.to_string()),
        None => Err(CborError::ExpectedString(field)),
    }
}

/// Reads the array of tag arrays.
pub(crate) fn extract_tags(value: &Value) -> (r: Result<Vec<Vec<String>>, CborError>) {
    let arr = match value.as_array() {
        Some(a) => a,
        None => return Err(CborError::ExpectedArray),
    };
    let mut tags: Vec<Vec<String>> = Vec::new();
    let mut i: usize = 0;
    while i < arr.len()
        invariant
            i <= arr@.len(),
        decreases arr@.len() - i,
    {
        let inner = match arr[i].as_array() {
            Some(a) => a,
            None => return Err(CborError::ExpectedArray),
        };
        let mut vals: Vec<String> = Vec::new();
        let mut j: usize = 0;
        while j < inner.len()
            invariant
                j <= inner@.len(),
            decreases inner@.len() - j,
        {
            match decode_tag_value_cbor(&inner[j]) {
                Ok(s) => vals.push(s),
                Err(e) => return Err(e),
            }
            j = j + 1;
        }
        tags.push(vals);
        i = i + 1;
    }
    Ok(tags)
}

/// Copies a byte vector of exactly `N` bytes into an array, or names the field.
pub(crate) fn fixed_bytes<const N: usize>(v: &Vec<u8>, field: &'static str) -> (r: Result<[u8; N], CborError>)
    ensures
        r is Ok <==> v@.len() == N,
        r is Ok ==> r->Ok_0@ == v@,
{
    if v.len() != N {
        return Err(CborError::InvalidLength(field));
    }
    let mut a = [0u8; N];
    let mut i: usize = 0;
    while i < N
        invariant
            v@.len() == N,
            i <= N,
            a@.len() == N,
            forall|k: int| 0 <= k < i ==> a@[k] == v@[k],
        decreases N - i,
    {
        a[i] = v[i];
        i = i + 1;
    }
    assert(a@ =~= v@);
    Ok(a)
}

/// A copy of an array's bytes.
pub(crate) fn bytes_of(a: &[u8]) -> (r: Vec<u8>)
    ensures
        r@ == a@,
{
    let mut v: Vec<u8> = Vec::new();
    v.extend_from_slice(a);
    assert(v@ =~= a@);
    v
}

/// The event with these fields, the binary ones checked for their sizes.
pub(crate) fn event_of(
    id: Vec<u8>,
    pubkey: Vec<u8>,
    created_at: i64,
    kind: u16,
    tags: Vec<Vec<String>>,
    content: String,
    sig: Vec<u8>,
) -> (r: Result<NostrEvent, CborError>)
    ensures
        r is Ok <==> id@.len() == 32 && pubkey@.len() == 32 && sig@.len() == 64,
        r is Ok ==> r->Ok_0.id@ == id@ && r->Ok_0.pubkey@ == pubkey@ && r->Ok_0.sig@ == sig@
            && r->Ok_0.created_at == created_at && r->Ok_0.kind == kind && r->Ok_0.tags == tags
            && r->Ok_0.content == content,
{
    let id: [u8; 32] = match fixed_bytes(&id, "id") {
        Ok(a) => a,
        Err(e) => return Err(e),
    };
    let pubkey: [u8; 32] = match fixed_bytes(&pubkey, "pubkey") {
        Ok(a) => a,
        Err(e) => return Err(e),
    };
    let sig: [u8; 64] = match fixed_bytes(&sig, "sig") {
        Ok(a) => a,
        Err(e) => return Err(e),
    };
    Ok(NostrEvent { id, pubkey, created_at, kind, tags, content, sig })
}

/// The schemaless shape of an event: binary fields as byte vectors.
#[derive(Debug, Clone)]
pub struct CborSchemaless {
    pub id: Vec<u8>,
    pub pubkey: Vec<u8>,
    pub created_at: i64,
    pub kind: u16,
    pub tags: Vec<Vec<String>>,
    pub content: String,
    pub sig: Vec<u8>,
}

impl CborSchemaless {
    /// The schemaless shape of `event`.
    pub fn from_event(event: &NostrEvent) -> (r: Self)
        ensures
            r.id@ == event.id@,
            r.pubkey@ == event.pubkey@,
            r.sig@ == event.sig@,
            r.created_at == event.created_at,
            r.kind == event.kind,
            r.tags.deep_view() == event.tags.deep_view(),
            r.content@ == event.content@,
    {
        CborSchemaless {
            id: bytes_of(event.id.as_slice()),
            pubkey: bytes_of(event.pubkey.as_slice()),
            created_at: event.created_at,
            kind: event.kind,
            tags: clone_tags(&event.tags),
            content: event.content.clone(),
            sig: bytes_of(event.sig.as_slice()),
        }
    }

    /// The event this shape describes, when its binary fields have their sizes.
    pub fn into_event(self) -> (r: Result<NostrEvent, CborError>)
        ensures
            r is Ok <==> self.id@.len() == 32 && self.pubkey@.len() == 32 && self.sig@.len() == 64,
            r is Ok ==> r->Ok_0.id@ == self.id@ && r->Ok_0.pubkey@ == self.pubkey@
                && r->Ok_0.sig@ == self.sig@ && r->Ok_0.created_at == self.created_at
                && r->Ok_0.kind == self.kind && r->Ok_0.tags == self.tags
                && r->Ok_0.content == self.content,
    {
        event_of(self.id, self.pubkey, self.created_at, self.kind, self.tags, self.content, self.sig)
    }
}

impl<'a> From<&'a NostrEvent> for CborSchemaless {
    fn from(event: &'a NostrEvent) -> (r: Self) {
        CborSchemaless::from_event(event)
    }
}

impl<'a> vstd::std_specs::convert::FromSpecImpl<&'a NostrEvent> for CborSchemaless {
    open spec fn obeys_from_spec() -> bool {
        false
    }

    open spec fn from_spec(v: &'a NostrEvent) -> Self {
        vstd::pervasive::arbitrary()
    }
}

impl TryFrom<CborSchemaless> for NostrEvent {
    type Error = CborError;

    fn try_from(shape: CborSchemaless) -> (r: Result<Self, CborError>) {
        shape.into_event()
    }
}

impl vstd::std_specs::convert::TryFromSpecImpl<CborSchemaless> for NostrEvent {
    open spec fn obeys_try_from_spec() -> bool {
        false
    }

    open spec fn try_from_spec(v: CborSchemaless) -> Result<Self, CborError> {
        vstd::pervasive::arbitrary()
    }
}

/// Field names of the schemaless map, by field number.
pub(crate) fn field_name(i: usize) -> &'static str {
    if i == 0 {
        "id"
    } else if i == 1 {
        "pubkey"
    } else if i == 2 {
        "created_at"
    } else if i == 3 {
        "kind"
    } else if i == 4 {
        "tags"
    } else if i == 5 {
        "content"
    } else {
        "sig"
    }
}

/// The field number a map key names: integers 0 to 6, or the field names;
/// `None` for a key of no field (skipped).
fn field_number(key: &Value, by_name: bool) -> (r: Result<Option<usize>, CborError>)
    ensures
        r is Ok && r->Ok_0 is Some ==> r->Ok_0->Some_0 < 7,
{
    if by_name {
        match key.as_text() {
            Some(t) => {
                let mut i: usize = 0;
                while i < 7
                    invariant
                        i <= 7,
                    decreases 7 - i,
                {
                    if str_eq(t, field_name(i)) {
                        return Ok(Some(i));
                    }
                    i = i + 1;
                }
                Ok(None)
            },
            None => Err(CborError::ExpectedString("key")),
        }
    } else {
        match integer_of(key) {
            Some(k) => {
                if 0 <= k && k < 7 {
                    Ok(Some(k as usize))
                } else {
                    Ok(None)
                }
            },
            None => Err(CborError::ExpectedInteger("key")),
        }
    }
}

/// Relies on `str`'s `==`: equal exactly when the characters are.
#[verifier::external_body]
fn str_eq(a: &str, b: &str) -> (r: bool)
    ensures
        r == (a@ == b@),
{
    a == b
}

/// The event of a map of its fields, keyed by number or by name; unknown keys are skipped.
pub(crate) fn event_from_map(value: &Value, by_name: bool) -> (r: Result<NostrEvent, CborError>) {
    let map = match value.as_map() {
        Some(m) => m,
        None => return Err(CborError::ExpectedMap),
    };
    let mut id: Option<Vec<u8>> = None;
    let mut pubkey: Option<Vec<u8>> = None;
    let mut created_at: Option<i64> = None;
    let mut kind: Option<u16> = None;
    let mut tags: Option<Vec<Vec<String>>> = None;
    let mut content: Option<String> = None;
    let mut sig: Option<Vec<u8>> = None;
    let mut i: usize = 0;
    while i < map.len()
        invariant
            i <= map@.len(),
        decreases map@.len() - i,
    {
        let (k, v) = &map[i];
        let n = match field_number(k, by_name) {
            Ok(Some(n)) => n,
            Ok(None) => {
                i = i + 1;
                continue;
            },
            Err(e) => return Err(e),
        };
        let name = field_name(n);
        if n == 0 {
            id = match extract_bytes(v, name) {
                Ok(x) => Some(x),
                Err(e) => return Err(e),
            };
        } else if n == 1 {
            pubkey = match extract_bytes(v, name) {
                Ok(x) => Some(x),
                Err(e) => return Err(e),
            };
        } else if n == 2 {
            created_at = match extract_i64(v, name) {
                Ok(x) => Some(x),
                Err(e) => return Err(e),
            };
        } else if n == 3 {
            kind = match extract_u16(v, name) {
                Ok(x) => Some(x),
                Err(e) => return Err(e),
            };
        } else if n == 4 {
            tags = match extract_tags(v) {
                Ok(x) => Some(x),
                Err(e) => return Err(e),
            };
        } else if n == 5 {
            content = match extract_string(v, name) {
                Ok(x) => Some(x),
                Err(e) => return Err(e),
            };
        } else {
            sig = match extract_bytes(v, name) {
                Ok(x) => Some(x),
                Err(e) => return Err(e),
            };
        }
        i = i + 1;
    }
    let id = match id {
        Some(x) => x,
        None => return Err(CborError::MissingField("id")),
    };
    let pubkey = match pubkey {
        Some(x) => x,
        None => return Err(CborError::MissingField("pubkey")),
    };
    let created_at = match created_at {
        Some(x) => x,
        None => return Err(CborError::MissingField("created_at")),
    };
    let kind = match kind {
        Some(x) => x,
        None => return Err(CborError::MissingField("kind")),
    };
    let tags = match tags {
        Some(x) => x,
        None => return Err(CborError::MissingField("tags")),
    };
    let content = match content {
        Some(x) => x,
        None => return Err(CborError::MissingField("content")),
    };
    let sig = match sig {
        Some(x) => x,
        None => return Err(CborError::MissingField("sig")),
    };
    event_of(id, pubkey, created_at, kind, tags, content, sig)
}

/// The map of an event's fields, keyed by number or by name; `hex_opt`
/// stores hex tag values as byte strings.
pub(crate) fn map_of_event(event: &NostrEvent, by_name: bool, hex_opt: bool) -> Value {
    let mut values: Vec<Value> = Vec::new();
    values.push(bytes_value(bytes_of(event.id.as_slice())));
    values.push(bytes_value(bytes_of(event.pubkey.as_slice())));
    values.push(int_value(event.created_at));
    values.push(int_value(event.kind as i64));
    values.push(tags_to_value(&event.tags, hex_opt));
    values.push(text_value(event.content.clone()));
    values.push(bytes_value(bytes_of(event.sig.as_slice())));
    let mut entries: Vec<(Value, Value)> = Vec::new();
    let mut i: usize = 0;
    while values.len() > 0
        invariant
            i + values@.len() == 7,
        decreases values@.len(),
    {
        let v = values.remove(0);
        let key = if by_name {
            text_value(field_name(i).to_string())
        } else {
            int_value(i as i64)
        };
        entries.push((key, v));
        i = i + 1;
    }
    map_value(entries)
}

} // verus!
