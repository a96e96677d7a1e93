//! Response-side decoding: the exchange's JSON envelope `{code, msg, data}`
//! and the field converters applied to each data element.
//!
//! Parsing the raw bytes is done by serde_json; everything the library then
//! does with the parsed document — envelope shape checks, error mapping,
//! field extraction and conversion — is verified against a model of the
//! document.
use vstd::prelude::*;
use crate::convert::{parse_decimal, parse_u64_digits, spec_parse_dec, spec_parse_u64, Dec};
use crate::errors::ClientError;

verus! {

/// The model of a parsed JSON document.
pub enum JsonModel {
    Null,
    Boolean(bool),
    Number(Seq<char>),
    Text(Seq<char>),
    Items(Seq<JsonModel>),
    Entries(Seq<(Seq<char>, JsonModel)>),
}

#[verifier::external_type_specification]
#[verifier::external_body]
pub struct ExValue(serde_json::Value);

#[verifier::external_type_specification]
#[verifier::external_body]
#[verifier::reject_recursive_types(K)]
#[verifier::reject_recursive_types(V)]
pub struct ExJsonMap<K, V>(serde_json::Map<K, V>);

/// The document a `serde_json::Value` holds.
pub uninterp spec fn val_model(v: serde_json::Value) -> JsonModel;

/// The entries a `serde_json::Map` holds, in its iteration order; the map is
/// BTreeMap-backed, so keys are unique.
pub uninterp spec fn map_model(m: serde_json::Map<String, serde_json::Value>) -> Seq<
    (Seq<char>, JsonModel),
>;

/// What serde_json's parser yields on the given bytes, when they are one
/// well-formed JSON document.
pub uninterp spec fn json_parse_of(s: Seq<u8>) -> Option<JsonModel>;

/// The documents a vector of values holds, element by element.
pub open spec fn models_of(vs: Seq<serde_json::Value>) -> Seq<JsonModel> {
    vs.map_values(|x: serde_json::Value| val_model(x))
}

/// The first entry with the given key, if any.
pub open spec fn lookup(entries: Seq<(Seq<char>, JsonModel)>, key: Seq<char>) -> Option<JsonModel>
    decreases entries.len(),
{
    if entries.len() == 0 {
        None
    } else if entries[0].0 == key {
        Some(entries[0].1)
    } else {
        lookup(entries.drop_first(), key)
    }
}

/// Relies on `serde_json::from_slice`: parses the bytes as one JSON document,
/// or fails when they are not one.
#[verifier::external_body]
pub(crate) fn parse_json(body: &[u8]) -> (r: Option<serde_json::Value>)
    ensures
        r matches Some(v) ==> json_parse_of(body@) == Some(val_model(v)),
        r is None ==> json_parse_of(body@) is None,
{
    serde_json::from_slice::<serde_json::Value>(body).ok()
}

/// Relies on `serde_json::Value::as_str`: the borrowed text when the value is
/// a JSON string, nothing otherwise.
pub assume_specification<'a>[ serde_json::Value::as_str ](v: &'a serde_json::Value) -> (r: Option<
    &'a str,
>)
    ensures
        (r is Some) == (val_model(*v) is Text),
        r matches Some(s) ==> val_model(*v) == JsonModel::Text(s@),
;

/// Relies on `serde_json::Value::as_array`: the borrowed element vector when
/// the value is a JSON array, nothing otherwise.
pub assume_specification<'a>[ serde_json::Value::as_array ](v: &'a serde_json::Value) -> (r: Option<
    &'a Vec<serde_json::Value>,
>)
    ensures
        (r is Some) == (val_model(*v) is Items),
        r matches Some(a) ==> val_model(*v) == JsonModel::Items(models_of(a@)),
;

/// Relies on `serde_json::Value::as_object`: the borrowed entry map when the
/// value is a JSON object, nothing otherwise.
pub assume_specification<'a>[ serde_json::Value::as_object ](v: &'a serde_json::Value) -> (r:
    Option<&'a serde_json::Map<String, serde_json::Value>>)
    ensures
        (r is Some) == (val_model(*v) is Entries),
        r matches Some(m) ==> val_model(*v) == JsonModel::Entries(map_model(*m)),
;

/// Relies on `serde_json::Value::is_null`: whether the value is JSON null.
pub assume_specification[ serde_json::Value::is_null ](v: &serde_json::Value) -> (r: bool)
    ensures
        r == (val_model(*v) is Null),
;

/// Relies on `serde_json::Map::get`: the entry with the given key, if any;
/// keys are unique, so this is the first match.
#[verifier::external_body]
pub(crate) fn obj_get<'a>(
    m: &'a serde_json::Map<String, serde_json::Value>,
    key: &str,
) -> (r: Option<&'a serde_json::Value>)
    ensures
        (r is Some) == (lookup(map_model(*m), key@) is Some),
        r matches Some(v) ==> Some(val_model(*v)) == lookup(map_model(*m), key@),
{
    m.get(key)
}

/// Relies on `serde_json::Value`'s `Clone`: an equal document.
#[verifier::external_body]
pub(crate) fn clone_value(v: &serde_json::Value) -> (r: serde_json::Value)
    ensures
        val_model(r) == val_model(*v),
{
    v.clone()
}

/// Field `name` of a JSON object document, if the document is an object that
/// has it.
pub open spec fn field_of(j: JsonModel, name: Seq<char>) -> Option<JsonModel> {
    match j {
        JsonModel::Entries(es) => lookup(es, name),
        _ => None,
    }
}

/// Fetch field `name` of a JSON object value.
pub fn get_field<'a>(v: &'a serde_json::Value, name: &str) -> (r: Option<&'a serde_json::Value>)
    ensures
        (r is Some) == (field_of(val_model(*v), name@) is Some),
        r matches Some(x) ==> Some(val_model(*x)) == field_of(val_model(*v), name@),
{
    match v.as_object() {
        Some(m) => obj_get(m, name),
        None => None,
    }
}

/// The model of a decoded envelope: the exchange's `code`, `msg` and `data`.
pub struct EnvelopeModel {
    pub code: Seq<char>,
    pub msg: Seq<char>,
    pub data: Seq<JsonModel>,
}

/// The envelope a JSON document holds, when it is an object with string
/// fields `code` and `msg` and an array field `data`.
pub open spec fn envelope_shape(j: JsonModel) -> Option<EnvelopeModel> {
    match j {
        JsonModel::Entries(es) => match (lookup(es, "code"@), lookup(es, "msg"@), lookup(
            es,
            "data"@,
        )) {
            (
                Some(JsonModel::Text(c)),
                Some(JsonModel::Text(m)),
                Some(JsonModel::Items(d)),
            ) => Some(EnvelopeModel { code: c, msg: m, data: d }),
            _ => None,
        },
        _ => None,
    }
}

/// The envelope the given response bytes hold, if any.
pub open spec fn envelope_of(bytes: Seq<u8>) -> Option<EnvelopeModel> {
    match json_parse_of(bytes) {
        Some(j) => envelope_shape(j),
        None => None,
    }
}

/// The exchange's outer response wrapper.
pub struct RawEnvelope {
    pub code: String,
    pub msg: String,
    pub data: Vec<serde_json::Value>,
}

fn copy_bytes(v: &Vec<u8>) -> (r: Vec<u8>)
    ensures
        r@ == v@,
{
    let mut r: Vec<u8> = Vec::new();
    let mut i: usize = 0;
    while i < v.len()
        invariant
            i <= v@.len(),
            r@ == v@.take(i as int),
        decreases v@.len() - i,
    {
        r.push(v[i]);
        proof {
            assert(r@ =~= v@.take(i + 1));
        }
        i = i + 1;
    }
    proof {
        assert(v@.take(v@.len() as int) =~= v@);
    }
    r
}

/// Step 1 of decoding: parse the outer envelope. Returns the envelope exactly
/// when the body is a JSON object with string `code`, string `msg` and array
/// `data`; otherwise a `MalformedResponse` carrying the raw body.
pub fn decode_envelope(body: &Vec<u8>) -> (r: Result<RawEnvelope, ClientError>)
    ensures
        match r {
            Ok(env) => envelope_of(body@) matches Some(em) && env.code@ == em.code && env.msg@
                == em.msg && models_of(env.data@) == em.data,
            Err(e) => envelope_of(body@) is None && (e matches ClientError::MalformedResponse {
                body: bb,
            } && bb@ == body@),
        },
{
    let v = match parse_json(body.as_slice()) {
        Some(v) => v,
        None => {
            return Err(ClientError::MalformedResponse { body: copy_bytes(body) });
        },
    };
    let obj = match v.as_object() {
        Some(m) => m,
        None => {
            return Err(ClientError::MalformedResponse { body: copy_bytes(body) });
        },
    };
    let code_s = match obj_get(obj, "code") {
        Some(x) => match x.as_str() {
            Some(s) => s,
            None => {
                return Err(ClientError::MalformedResponse { body: copy_bytes(body) });
            },
        },
        None => {
            return Err(ClientError::MalformedResponse { body: copy_bytes(body) });
        },
    };
    let msg_s = match obj_get(obj, "msg") {
        Some(x) => match x.as_str() {
            Some(s) => s,
            None => {
                return Err(ClientError::MalformedResponse { body: copy_bytes(body) });
            },
        },
        None => {
            return Err(ClientError::MalformedResponse { body: copy_bytes(body) });
        },
    };
    let arr = match obj_get(obj, "data") {
        Some(x) => match x.as_array() {
            Some(a) => a,
            None => {
                return Err(ClientError::MalformedResponse { body: copy_bytes(body) });
            },
        },
        None => {
            return Err(ClientError::MalformedResponse { body: copy_bytes(body) });
        },
    };
    let ghost em = envelope_of(body@)->Some_0;
    let mut data: Vec<serde_json::Value> = Vec::new();
    let mut i: usize = 0;
    while i < arr.len()
        invariant
            i <= arr@.len(),
            em.data == models_of(arr@),
            models_of(data@) == em.data.take(i as int),
        decreases arr@.len() - i,
    {
        let cv = clone_value(&arr[i]);
        let ghost prev = data@;
        data.push(cv);
        proof {
            assert(data@ == prev.push(cv));
            assert(models_of(arr@).len() == arr@.len());
            assert(em.data.len() == arr@.len());
            assert(models_of(prev).len() == prev.len());
            assert(prev.len() == i as int);
            assert forall|j: int| 0 <= j < i + 1 implies #[trigger] models_of(data@)[j]
                == em.data.take(i + 1)[j] by {
                assert(models_of(prev).len() == prev.len());
                assert(prev.len() == i as int);
                if j < i {
                    assert(prev.push(cv)[j] == prev[j]);
                    assert(data@[j] == prev[j]);
                    assert(models_of(prev)[j] == val_model(prev[j]));
                    assert(em.data.take(i as int)[j] == em.data[j]);
                } else {
                    assert(prev.push(cv)[j] == cv);
                    assert(data@[j] == cv);
                    assert(val_model(cv) == val_model(arr@[i as int]));
                    assert(models_of(arr@)[i as int] == val_model(arr@[i as int]));
                }
            }
            assert(models_of(data@).len() == data@.len());
            assert(data@.len() == i + 1);
            assert(em.data.len() == arr@.len());
            assert(models_of(data@) =~= em.data.take(i + 1));
        }
        i = i + 1;
    }
    proof {
        assert(em.data.take(arr@.len() as int) =~= em.data);
    }
    Ok(RawEnvelope { code: code_s.to_owned(), msg: msg_s.to_owned(), data })
}

/// Step 2 of decoding: `code == "0"` means success and yields the data
/// elements in their source order; any other code is the exchange's own
/// error, its code and message preserved verbatim.
pub fn check_envelope(env: RawEnvelope) -> (r: Result<Vec<serde_json::Value>, ClientError>)
    ensures
        env.code@ == "0"@ ==> (r matches Ok(d) && d@ == env.data@),
        env.code@ != "0"@ ==> (r matches Err(e) && (e matches ClientError::Api { code, msg }
            && code@ == env.code@ && msg@ == env.msg@)),
{
    let zero: String = "0".to_owned();
    if env.code == zero {
        Ok(env.data)
    } else {
        Err(ClientError::Api { code: env.code, msg: env.msg })
    }
}

/// What an optional decimal field decodes to: absent keys, JSON null and the
/// empty string mean "no value"; a decimal string is parsed; anything else —
/// including a malformed number — is a field error (the outer `None`).
pub open spec fn spec_opt_dec_field(f: Option<JsonModel>) -> Option<Option<Dec>> {
    match f {
        None => Some(None),
        Some(JsonModel::Null) => Some(None),
        Some(JsonModel::Text(s)) => if s.len() == 0 {
            Some(None)
        } else {
            match spec_parse_dec(s) {
                Some(d) => Some(Some(d)),
                None => None,
            }
        },
        Some(_) => None,
    }
}

/// Decode an optional decimal field of a JSON object value, tolerating absent
/// keys, null and the empty string as "no value".
pub fn decode_opt_dec_field(v: &serde_json::Value, name: &str) -> (r: Result<
    Option<Dec>,
    ClientError,
>)
    ensures
        match spec_opt_dec_field(field_of(val_model(*v), name@)) {
            Some(od) => r matches Ok(x) && x == od,
            None => r matches Err(e) && (e matches ClientError::FieldDecode { field } && field@
                == name@),
        },
{
    match get_field(v, name) {
        None => Ok(None),
        Some(f) => {
            if f.is_null() {
                return Ok(None);
            }
            match f.as_str() {
                None => Err(ClientError::FieldDecode { field: name.to_owned() }),
                Some(s) => {
                    if s.is_empty() {
                        Ok(None)
                    } else {
                        match parse_decimal(s) {
                            Some(d) => Ok(Some(d)),
                            None => Err(ClientError::FieldDecode { field: name.to_owned() }),
                        }
                    }
                },
            }
        },
    }
}

/// What a required decimal field decodes to: a non-empty decimal string.
pub open spec fn spec_dec_field(f: Option<JsonModel>) -> Option<Dec> {
    match f {
        Some(JsonModel::Text(s)) => spec_parse_dec(s),
        _ => None,
    }
}

/// Decode a required decimal field of a JSON object value.
pub fn decode_dec_field(v: &serde_json::Value, name: &str) -> (r: Result<Dec, ClientError>)
    ensures
        match spec_dec_field(field_of(val_model(*v), name@)) {
            Some(d) => r matches Ok(x) && x == d,
            None => r matches Err(e) && (e matches ClientError::FieldDecode { field } && field@
                == name@),
        },
{
    match get_field(v, name) {
        None => Err(ClientError::FieldDecode { field: name.to_owned() }),
        Some(f) => match f.as_str() {
            None => Err(ClientError::FieldDecode { field: name.to_owned() }),
            Some(s) => match parse_decimal(s) {
                Some(d) => Ok(d),
                None => Err(ClientError::FieldDecode { field: name.to_owned() }),
            },
        },
    }
}

/// What a required string field decodes to.
pub open spec fn spec_str_field(f: Option<JsonModel>) -> Option<Seq<char>> {
    match f {
        Some(JsonModel::Text(s)) => Some(s),
        _ => None,
    }
}

/// Decode a required string field of a JSON object value.
pub fn decode_str_field(v: &serde_json::Value, name: &str) -> (r: Result<String, ClientError>)
    ensures
        match spec_str_field(field_of(val_model(*v), name@)) {
            Some(s) => r matches Ok(x) && x@ == s,
            None => r matches Err(e) && (e matches ClientError::FieldDecode { field } && field@
                == name@),
        },
{
    match get_field(v, name) {
        None => Err(ClientError::FieldDecode { field: name.to_owned() }),
        Some(f) => match f.as_str() {
            None => Err(ClientError::FieldDecode { field: name.to_owned() }),
            Some(s) => Ok(s.to_owned()),
        },
    }
}

/// What an optional string field decodes to: absent keys and null mean "no
/// value" (this also serves fields kept only for backward compatibility,
/// which the exchange may omit).
pub open spec fn spec_opt_str_field(f: Option<JsonModel>) -> Option<Option<Seq<char>>> {
    match f {
        None => Some(None),
        Some(JsonModel::Null) => Some(None),
        Some(JsonModel::Text(s)) => Some(Some(s)),
        Some(_) => None,
    }
}

/// Decode an optional string field of a JSON object value.
pub fn decode_opt_str_field(v: &serde_json::Value, name: &str) -> (r: Result<
    Option<String>,
    ClientError,
>)
    ensures
        match spec_opt_str_field(field_of(val_model(*v), name@)) {
            Some(os) => r matches Ok(x) && (match (x, os) {
                (Some(xs), Some(ss)) => xs@ == ss,
                (None, None) => true,
                _ => false,
            }),
            None => r matches Err(e) && (e matches ClientError::FieldDecode { field } && field@
                == name@),
        },
{
    match get_field(v, name) {
        None => Ok(None),
        Some(f) => {
            if f.is_null() {
                return Ok(None);
            }
            match f.as_str() {
                None => Err(ClientError::FieldDecode { field: name.to_owned() }),
                Some(s) => Ok(Some(s.to_owned())),
            }
        },
    }
}

/// What a timestamp field decodes to: a string of milliseconds since the
/// Unix epoch.
pub open spec fn spec_ts_field(f: Option<JsonModel>) -> Option<u64> {
    match f {
        Some(JsonModel::Text(s)) => spec_parse_u64(s),
        _ => None,
    }
}

/// Decode a timestamp field of a JSON object value: the field's string of
/// milliseconds since the Unix epoch, as an integer instant.
pub fn decode_ts_field(v: &serde_json::Value, name: &str) -> (r: Result<u64, ClientError>)
    ensures
        match spec_ts_field(field_of(val_model(*v), name@)) {
            Some(t) => r matches Ok(x) && x == t,
            None => r matches Err(e) && (e matches ClientError::FieldDecode { field } && field@
                == name@),
        },
{
    match get_field(v, name) {
        None => Err(ClientError::FieldDecode { field: name.to_owned() }),
        Some(f) => match f.as_str() {
            None => Err(ClientError::FieldDecode { field: name.to_owned() }),
            Some(s) => match parse_u64_digits(s) {
                Some(t) => Ok(t),
                None => Err(ClientError::FieldDecode { field: name.to_owned() }),
            },
        },
    }
}

} // verus!
