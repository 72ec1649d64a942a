//! The OVSDB column type model: constrained base types, base types,
//! column types and the `min`/`max` cardinality bounds.
//!
//! Every decoder is specified by a spec function over the view of the
//! input value, so which variant, which default and which error comes out
//! of every input is pinned down exactly.

use vstd::prelude::*;

use crate::common::{
    opt_set_model, spec_decode_set, AtomicType, JsonCodec, RealValue, SetValue, SetView,
};
use crate::common::{deserialize_set, lemma_set_round_trip, serialize_set, spec_encode_set};
use crate::json::{assoc_get, json_obj_get, obj_model, str_eq, Json, JsonV};
use crate::json::{lemma_obj_model_index, lemma_obj_model_len};
use crate::Error;

verus! {

/// Whether a uuid reference keeps the referenced row alive.
#[derive(Clone, Copy, Debug, PartialEq, Eq, Structural)]
pub enum RefType {
    Strong,
    Weak,
}

/// The default reference kind, applied when `refType` is absent.
pub fn ref_type_strong() -> (r: RefType)
    ensures
        r == RefType::Strong,
{
    RefType::Strong
}

/// What a present `refType` value decodes to: exactly the strings
/// `"strong"` and `"weak"`; any other string is an invalid reference
/// kind, any non-string is a mismatched field.
pub open spec fn spec_decode_ref_type(j: JsonV) -> Result<RefType, Error> {
    match j {
        JsonV::Str(s) => {
            if s == "strong"@ {
                Ok(RefType::Strong)
            } else if s == "weak"@ {
                Ok(RefType::Weak)
            } else {
                Err(Error::InvalidReferenceKind)
            }
        },
        _ => Err(Error::TypeMismatch),
    }
}

/// Decodes a present `refType` value.
pub fn deserialize_ref_type(j: &Json) -> (r: Result<RefType, Error>)
    ensures
        match r {
            Ok(v) => spec_decode_ref_type(j@) == Ok::<RefType, Error>(v),
            Err(e) => spec_decode_ref_type(j@) == Err::<RefType, Error>(e),
        },
{
    match j {
        Json::Str(s) => {
            if str_eq(s.as_str(), "strong") {
                Ok(RefType::Strong)
            } else if str_eq(s.as_str(), "weak") {
                Ok(RefType::Weak)
            } else {
                Err(Error::InvalidReferenceKind)
            }
        },
        _ => Err(Error::TypeMismatch),
    }
}

/// A column cardinality upper bound: an integer, or unlimited.
#[derive(Clone, Copy, Debug, PartialEq, Eq, Structural)]
pub enum MaxOrUnlimited {
    Max(i64),
    Unlimited,
}

impl Default for MaxOrUnlimited {
    /// The default upper bound, applied when `max` is absent.
    fn default() -> (r: Self)
        ensures
            r == MaxOrUnlimited::Max(1i64),
    {
        MaxOrUnlimited::Max(1)
    }
}

/// What a present `max` value decodes to: an integral number, or the
/// exact string `"unlimited"`; anything else is an invalid bound.
pub open spec fn spec_decode_max(j: JsonV) -> Result<MaxOrUnlimited, Error> {
    match j {
        JsonV::Int(i) => Ok(MaxOrUnlimited::Max(i)),
        JsonV::Str(s) => {
            if s == "unlimited"@ {
                Ok(MaxOrUnlimited::Unlimited)
            } else {
                Err(Error::InvalidCardinalityBound)
            }
        },
        _ => Err(Error::InvalidCardinalityBound),
    }
}

/// Decodes a present `max` value.
pub fn deserialize_max_or_unlimited(j: &Json) -> (r: Result<MaxOrUnlimited, Error>)
    ensures
        match r {
            Ok(v) => spec_decode_max(j@) == Ok::<MaxOrUnlimited, Error>(v),
            Err(e) => spec_decode_max(j@) == Err::<MaxOrUnlimited, Error>(e),
        },
{
    match j {
        Json::Int(i) => Ok(MaxOrUnlimited::Max(*i)),
        Json::Str(s) => {
            if str_eq(s.as_str(), "unlimited") {
                Ok(MaxOrUnlimited::Unlimited)
            } else {
                Err(Error::InvalidCardinalityBound)
            }
        },
        _ => Err(Error::InvalidCardinalityBound),
    }
}

/// The default for the `min` cardinality field.
pub fn default_to_one() -> (r: i64)
    ensures
        r == 1i64,
{
    1
}

// ---------------------------------------------------------------------
// Optional and required fields of an object
// ---------------------------------------------------------------------

/// An optional integer field: absent or `null` is absence, an integral
/// number is its value, anything else is a mismatch.
pub open spec fn opt_int_field(fs: Seq<(Seq<char>, JsonV)>, key: Seq<char>) -> Result<
    Option<i64>,
    Error,
> {
    match assoc_get(fs, key) {
        None => Ok(None),
        Some(JsonV::Null) => Ok(None),
        Some(JsonV::Int(i)) => Ok(Some(i)),
        Some(_) => Err(Error::TypeMismatch),
    }
}

pub fn get_opt_int_field(fields: &Vec<(String, Json)>, key: &str) -> (r: Result<
    Option<i64>,
    Error,
>)
    ensures
        match r {
            Ok(v) => opt_int_field(obj_model(fields@), key@) == Ok::<Option<i64>, Error>(v),
            Err(e) => opt_int_field(obj_model(fields@), key@) == Err::<Option<i64>, Error>(e),
        },
{
    match json_obj_get(fields, key) {
        None => Ok(None),
        Some(Json::Null) => Ok(None),
        Some(Json::Int(i)) => Ok(Some(*i)),
        Some(_) => Err(Error::TypeMismatch),
    }
}

/// An optional real-typed field: absent or `null` is absence, any number
/// is kept as it appeared, anything else is a mismatch.
pub open spec fn opt_real_field(fs: Seq<(Seq<char>, JsonV)>, key: Seq<char>) -> Result<
    Option<RealValue>,
    Error,
> {
    match assoc_get(fs, key) {
        None => Ok(None),
        Some(JsonV::Null) => Ok(None),
        Some(JsonV::Int(i)) => Ok(Some(RealValue::Int(i))),
        Some(JsonV::Real(b)) => Ok(Some(RealValue::Bits(b))),
        Some(_) => Err(Error::TypeMismatch),
    }
}

pub fn get_opt_real_field(fields: &Vec<(String, Json)>, key: &str) -> (r: Result<
    Option<RealValue>,
    Error,
>)
    ensures
        match r {
            Ok(v) => opt_real_field(obj_model(fields@), key@) == Ok::<Option<RealValue>, Error>(v),
            Err(e) => opt_real_field(obj_model(fields@), key@) == Err::<
                Option<RealValue>,
                Error,
            >(e),
        },
{
    match json_obj_get(fields, key) {
        None => Ok(None),
        Some(Json::Null) => Ok(None),
        Some(Json::Int(i)) => Ok(Some(RealValue::Int(*i))),
        Some(Json::Real(b)) => Ok(Some(RealValue::Bits(*b))),
        Some(_) => Err(Error::TypeMismatch),
    }
}

/// The view of an optional string.
pub open spec fn opt_str_model(s: Option<String>) -> Option<Seq<char>> {
    match s {
        None => None,
        Some(x) => Some(x@),
    }
}

/// An optional string field: absent or `null` is absence.
pub open spec fn opt_str_field(fs: Seq<(Seq<char>, JsonV)>, key: Seq<char>) -> Result<
    Option<Seq<char>>,
    Error,
> {
    match assoc_get(fs, key) {
        None => Ok(None),
        Some(JsonV::Null) => Ok(None),
        Some(JsonV::Str(s)) => Ok(Some(s)),
        Some(_) => Err(Error::TypeMismatch),
    }
}

pub fn get_opt_str_field(fields: &Vec<(String, Json)>, key: &str) -> (r: Result<
    Option<String>,
    Error,
>)
    ensures
        match r {
            Ok(v) => opt_str_field(obj_model(fields@), key@) == Ok::<Option<Seq<char>>, Error>(
                opt_str_model(v),
            ),
            Err(e) => opt_str_field(obj_model(fields@), key@) == Err::<Option<Seq<char>>, Error>(
                e,
            ),
        },
{
    match json_obj_get(fields, key) {
        None => Ok(None),
        Some(Json::Null) => Ok(None),
        Some(Json::Str(s)) => Ok(Some(s.clone())),
        Some(_) => Err(Error::TypeMismatch),
    }
}

/// A required string field: its absence is a missing required field.
pub open spec fn req_str_field(fs: Seq<(Seq<char>, JsonV)>, key: Seq<char>) -> Result<
    Seq<char>,
    Error,
> {
    match assoc_get(fs, key) {
        None => Err(Error::MissingRequiredField),
        Some(JsonV::Str(s)) => Ok(s),
        Some(_) => Err(Error::TypeMismatch),
    }
}

pub fn get_req_str_field(fields: &Vec<(String, Json)>, key: &str) -> (r: Result<String, Error>)
    ensures
        match r {
            Ok(v) => req_str_field(obj_model(fields@), key@) == Ok::<Seq<char>, Error>(v@),
            Err(e) => req_str_field(obj_model(fields@), key@) == Err::<Seq<char>, Error>(e),
        },
{
    match json_obj_get(fields, key) {
        None => Err(Error::MissingRequiredField),
        Some(Json::Str(s)) => Ok(s.clone()),
        Some(_) => Err(Error::TypeMismatch),
    }
}

/// A boolean field with a default: absent is the default, a boolean is
/// its value, anything else (including `null`) is a mismatch.
pub open spec fn bool_field(fs: Seq<(Seq<char>, JsonV)>, key: Seq<char>, dflt: bool) -> Result<
    bool,
    Error,
> {
    match assoc_get(fs, key) {
        None => Ok(dflt),
        Some(JsonV::Bool(b)) => Ok(b),
        Some(_) => Err(Error::TypeMismatch),
    }
}

pub fn get_bool_field(fields: &Vec<(String, Json)>, key: &str, dflt: bool) -> (r: Result<
    bool,
    Error,
>)
    ensures
        match r {
            Ok(v) => bool_field(obj_model(fields@), key@, dflt) == Ok::<bool, Error>(v),
            Err(e) => bool_field(obj_model(fields@), key@, dflt) == Err::<bool, Error>(e),
        },
{
    match json_obj_get(fields, key) {
        None => Ok(dflt),
        Some(Json::Bool(b)) => Ok(*b),
        Some(_) => Err(Error::TypeMismatch),
    }
}

/// The `enum` field of a constrained base type: absent is absence, a
/// present value goes through the set codec.
pub open spec fn enum_field<T: JsonCodec>(fs: Seq<(Seq<char>, JsonV)>) -> Result<
    Option<SetView<T::M>>,
    Error,
> {
    match assoc_get(fs, "enum"@) {
        None => Ok(None),
        Some(v) => spec_decode_set::<T>(v),
    }
}

pub fn get_enum_field<T: JsonCodec>(fields: &Vec<(String, Json)>) -> (r: Result<
    Option<SetValue<T>>,
    Error,
>)
    ensures
        match r {
            Ok(v) => enum_field::<T>(obj_model(fields@)) == Ok::<Option<SetView<T::M>>, Error>(
                opt_set_model::<T>(v),
            ),
            Err(e) => enum_field::<T>(obj_model(fields@)) == Err::<Option<SetView<T::M>>, Error>(
                e,
            ),
        },
{
    match json_obj_get(fields, "enum") {
        None => Ok(None),
        Some(v) => deserialize_set::<T>(v),
    }
}

// ---------------------------------------------------------------------
// Constrained base types
// ---------------------------------------------------------------------

/// An atomic type refined with bounds and/or an enumerated value set;
/// the uuid variant instead carries a table reference.
#[derive(Debug, PartialEq)]
pub enum ConstrainedBaseType {
    BaseTypeInt {
        min_integer: Option<i64>,
        max_integer: Option<i64>,
        enum_: Option<SetValue<i64>>,
    },
    BaseTypeReal {
        min_real: Option<RealValue>,
        max_real: Option<RealValue>,
        enum_: Option<SetValue<RealValue>>,
    },
    BaseTypeString {
        min_length: Option<i64>,
        max_length: Option<i64>,
        enum_: Option<SetValue<String>>,
    },
    BaseTypeUUID { ref_table: String, ref_type: RefType },
}

/// The mathematical view of a [`ConstrainedBaseType`].
pub enum ConstrainedBaseTypeView {
    Int {
        min_integer: Option<i64>,
        max_integer: Option<i64>,
        enum_: Option<SetView<i64>>,
    },
    Real {
        min_real: Option<RealValue>,
        max_real: Option<RealValue>,
        enum_: Option<SetView<RealValue>>,
    },
    Str {
        min_length: Option<i64>,
        max_length: Option<i64>,
        enum_: Option<SetView<Seq<char>>>,
    },
    Uuid { ref_table: Seq<char>, ref_type: RefType },
}

impl View for ConstrainedBaseType {
    type V = ConstrainedBaseTypeView;

    open spec fn view(&self) -> ConstrainedBaseTypeView {
        match *self {
            ConstrainedBaseType::BaseTypeInt { min_integer, max_integer, enum_ } =>
                ConstrainedBaseTypeView::Int {
                min_integer,
                max_integer,
                enum_: opt_set_model::<i64>(enum_),
            },
            ConstrainedBaseType::BaseTypeReal { min_real, max_real, enum_ } =>
                ConstrainedBaseTypeView::Real {
                min_real,
                max_real,
                enum_: opt_set_model::<RealValue>(enum_),
            },
            ConstrainedBaseType::BaseTypeString { min_length, max_length, enum_ } =>
                ConstrainedBaseTypeView::Str {
                min_length,
                max_length,
                enum_: opt_set_model::<String>(enum_),
            },
            ConstrainedBaseType::BaseTypeUUID { ref_table, ref_type } =>
                ConstrainedBaseTypeView::Uuid { ref_table: ref_table@, ref_type },
        }
    }
}

pub open spec fn spec_decode_cbt_int(fs: Seq<(Seq<char>, JsonV)>) -> Result<
    ConstrainedBaseTypeView,
    Error,
> {
    match opt_int_field(fs, "minInteger"@) {
        Err(e) => Err(e),
        Ok(min_integer) => match opt_int_field(fs, "maxInteger"@) {
            Err(e) => Err(e),
            Ok(max_integer) => match enum_field::<i64>(fs) {
                Err(e) => Err(e),
                Ok(enum_) => Ok(ConstrainedBaseTypeView::Int { min_integer, max_integer, enum_ }),
            },
        },
    }
}

pub open spec fn spec_decode_cbt_real(fs: Seq<(Seq<char>, JsonV)>) -> Result<
    ConstrainedBaseTypeView,
    Error,
> {
    match opt_real_field(fs, "minReal"@) {
        Err(e) => Err(e),
        Ok(min_real) => match opt_real_field(fs, "maxReal"@) {
            Err(e) => Err(e),
            Ok(max_real) => match enum_field::<RealValue>(fs) {
                Err(e) => Err(e),
                Ok(enum_) => Ok(ConstrainedBaseTypeView::Real { min_real, max_real, enum_ }),
            },
        },
    }
}

pub open spec fn spec_decode_cbt_string(fs: Seq<(Seq<char>, JsonV)>) -> Result<
    ConstrainedBaseTypeView,
    Error,
> {
    match opt_int_field(fs, "minLength"@) {
        Err(e) => Err(e),
        Ok(min_length) => match opt_int_field(fs, "maxLength"@) {
            Err(e) => Err(e),
            Ok(max_length) => match enum_field::<String>(fs) {
                Err(e) => Err(e),
                Ok(enum_) => Ok(ConstrainedBaseTypeView::Str { min_length, max_length, enum_ }),
            },
        },
    }
}

pub open spec fn spec_decode_cbt_uuid(fs: Seq<(Seq<char>, JsonV)>) -> Result<
    ConstrainedBaseTypeView,
    Error,
> {
    match req_str_field(fs, "refTable"@) {
        Err(e) => Err(e),
        Ok(ref_table) => match assoc_get(fs, "refType"@) {
            None => Ok(ConstrainedBaseTypeView::Uuid { ref_table, ref_type: RefType::Strong }),
            Some(v) => match spec_decode_ref_type(v) {
                Err(e) => Err(e),
                Ok(ref_type) => Ok(ConstrainedBaseTypeView::Uuid { ref_table, ref_type }),
            },
        },
    }
}

/// What a constrained base type object decodes to: dispatch on the
/// `type` field into one of the four variants; a missing tag, an unknown
/// tag and a non-object input each fail with their own error.
pub open spec fn spec_decode_cbt(j: JsonV) -> Result<ConstrainedBaseTypeView, Error> {
    match j {
        JsonV::Obj(fs) => match assoc_get(fs, "type"@) {
            None => Err(Error::MissingRequiredField),
            Some(JsonV::Str(t)) => {
                if t == "integer"@ {
                    spec_decode_cbt_int(fs)
                } else if t == "real"@ {
                    spec_decode_cbt_real(fs)
                } else if t == "string"@ {
                    spec_decode_cbt_string(fs)
                } else if t == "uuid"@ {
                    spec_decode_cbt_uuid(fs)
                } else {
                    Err(Error::UnknownVariant)
                }
            },
            Some(_) => Err(Error::TypeMismatch),
        },
        _ => Err(Error::TypeMismatch),
    }
}

impl ConstrainedBaseType {
    /// Decodes a constrained base type object.
    pub fn decode(j: &Json) -> (r: Result<ConstrainedBaseType, Error>)
        ensures
            match r {
                Ok(v) => spec_decode_cbt(j@) == Ok::<ConstrainedBaseTypeView, Error>(v@),
                Err(e) => spec_decode_cbt(j@) == Err::<ConstrainedBaseTypeView, Error>(e),
            },
    {
        let fields = match j {
            Json::Obj(fields) => fields,
            _ => {
                return Err(Error::TypeMismatch);
            },
        };
        let t = match json_obj_get(fields, "type") {
            None => {
                return Err(Error::MissingRequiredField);
            },
            Some(Json::Str(t)) => t,
            Some(_) => {
                return Err(Error::TypeMismatch);
            },
        };
        if str_eq(t.as_str(), "integer") {
            let min_integer = match get_opt_int_field(fields, "minInteger") {
                Ok(v) => v,
                Err(e) => {
                    return Err(e);
                },
            };
            let max_integer = match get_opt_int_field(fields, "maxInteger") {
                Ok(v) => v,
                Err(e) => {
                    return Err(e);
                },
            };
            let enum_ = match get_enum_field::<i64>(fields) {
                Ok(v) => v,
                Err(e) => {
                    return Err(e);
                },
            };
            Ok(ConstrainedBaseType::BaseTypeInt { min_integer, max_integer, enum_ })
        } else if str_eq(t.as_str(), "real") {
            let min_real = match get_opt_real_field(fields, "minReal") {
                Ok(v) => v,
                Err(e) => {
                    return Err(e);
                },
            };
            let max_real = match get_opt_real_field(fields, "maxReal") {
                Ok(v) => v,
                Err(e) => {
                    return Err(e);
                },
            };
            let enum_ = match get_enum_field::<RealValue>(fields) {
                Ok(v) => v,
                Err(e) => {
                    return Err(e);
                },
            };
            Ok(ConstrainedBaseType::BaseTypeReal { min_real, max_real, enum_ })
        } else if str_eq(t.as_str(), "string") {
            let min_length = match get_opt_int_field(fields, "minLength") {
                Ok(v) => v,
                Err(e) => {
                    return Err(e);
                },
            };
            let max_length = match get_opt_int_field(fields, "maxLength") {
                Ok(v) => v,
                Err(e) => {
                    return Err(e);
                },
            };
            let enum_ = match get_enum_field::<String>(fields) {
                Ok(v) => v,
                Err(e) => {
                    return Err(e);
                },
            };
            Ok(ConstrainedBaseType::BaseTypeString { min_length, max_length, enum_ })
        } else if str_eq(t.as_str(), "uuid") {
            let ref_table = match get_req_str_field(fields, "refTable") {
                Ok(v) => v,
                Err(e) => {
                    return Err(e);
                },
            };
            let ref_type = match json_obj_get(fields, "refType") {
                None => ref_type_strong(),
                Some(v) => match deserialize_ref_type(v) {
                    Ok(rt) => rt,
                    Err(e) => {
                        return Err(e);
                    },
                },
            };
            Ok(ConstrainedBaseType::BaseTypeUUID { ref_table, ref_type })
        } else {
            Err(Error::UnknownVariant)
        }
    }
}

/// An optional integer field re-encoded: absence as `null`.
pub open spec fn opt_int_json(m: Option<i64>) -> JsonV {
    match m {
        None => JsonV::Null,
        Some(i) => JsonV::Int(i),
    }
}

/// An optional real-typed field re-encoded: each number exactly as it
/// was kept.
pub open spec fn opt_real_json(m: Option<RealValue>) -> JsonV {
    match m {
        None => JsonV::Null,
        Some(RealValue::Int(i)) => JsonV::Int(i),
        Some(RealValue::Bits(b)) => JsonV::Real(b),
    }
}

/// The wire name of a reference kind.
pub open spec fn ref_type_name(rt: RefType) -> Seq<char> {
    match rt {
        RefType::Strong => "strong"@,
        RefType::Weak => "weak"@,
    }
}

/// The JSON object a constrained base type encodes to: the `type` tag
/// first, then the variant's camelCase fields in order, absent options
/// as `null`.
pub open spec fn spec_encode_cbt(v: ConstrainedBaseTypeView) -> JsonV {
    match v {
        ConstrainedBaseTypeView::Int { min_integer, max_integer, enum_ } => JsonV::Obj(
            seq![
                ("type"@, JsonV::Str("integer"@)),
                ("minInteger"@, opt_int_json(min_integer)),
                ("maxInteger"@, opt_int_json(max_integer)),
                ("enum"@, spec_encode_set::<i64>(enum_)),
            ],
        ),
        ConstrainedBaseTypeView::Real { min_real, max_real, enum_ } => JsonV::Obj(
            seq![
                ("type"@, JsonV::Str("real"@)),
                ("minReal"@, opt_real_json(min_real)),
                ("maxReal"@, opt_real_json(max_real)),
                ("enum"@, spec_encode_set::<RealValue>(enum_)),
            ],
        ),
        ConstrainedBaseTypeView::Str { min_length, max_length, enum_ } => JsonV::Obj(
            seq![
                ("type"@, JsonV::Str("string"@)),
                ("minLength"@, opt_int_json(min_length)),
                ("maxLength"@, opt_int_json(max_length)),
                ("enum"@, spec_encode_set::<String>(enum_)),
            ],
        ),
        ConstrainedBaseTypeView::Uuid { ref_table, ref_type } => JsonV::Obj(
            seq![
                ("type"@, JsonV::Str("uuid"@)),
                ("refTable"@, JsonV::Str(ref_table)),
                ("refType"@, JsonV::Str(ref_type_name(ref_type))),
            ],
        ),
    }
}

fn encode_opt_int(m: &Option<i64>) -> (r: Json)
    ensures
        r@ == opt_int_json(*m),
{
    match m {
        None => Json::Null,
        Some(i) => Json::Int(*i),
    }
}

fn encode_opt_real(m: &Option<RealValue>) -> (r: Json)
    ensures
        r@ == opt_real_json(*m),
{
    match m {
        None => Json::Null,
        Some(RealValue::Int(i)) => Json::Int(*i),
        Some(RealValue::Bits(b)) => Json::Real(*b),
    }
}

impl ConstrainedBaseType {
    /// Re-encodes a constrained base type to the documented JSON shape.
    pub fn encode(&self) -> (r: Json)
        ensures
            r@ == spec_encode_cbt(self@),
    {
        let mut fields: Vec<(String, Json)> = Vec::new();
        match self {
            ConstrainedBaseType::BaseTypeInt { min_integer, max_integer, enum_ } => {
                fields.push(("type".to_owned(), Json::Str("integer".to_owned())));
                fields.push(("minInteger".to_owned(), encode_opt_int(min_integer)));
                fields.push(("maxInteger".to_owned(), encode_opt_int(max_integer)));
                fields.push(("enum".to_owned(), serialize_set::<i64>(enum_)));
            },
            ConstrainedBaseType::BaseTypeReal { min_real, max_real, enum_ } => {
                fields.push(("type".to_owned(), Json::Str("real".to_owned())));
                fields.push(("minReal".to_owned(), encode_opt_real(min_real)));
                fields.push(("maxReal".to_owned(), encode_opt_real(max_real)));
                fields.push(("enum".to_owned(), serialize_set::<RealValue>(enum_)));
            },
            ConstrainedBaseType::BaseTypeString { min_length, max_length, enum_ } => {
                fields.push(("type".to_owned(), Json::Str("string".to_owned())));
                fields.push(("minLength".to_owned(), encode_opt_int(min_length)));
                fields.push(("maxLength".to_owned(), encode_opt_int(max_length)));
                fields.push(("enum".to_owned(), serialize_set::<String>(enum_)));
            },
            ConstrainedBaseType::BaseTypeUUID { ref_table, ref_type } => {
                fields.push(("type".to_owned(), Json::Str("uuid".to_owned())));
                fields.push(("refTable".to_owned(), Json::Str(ref_table.clone())));
                let rt = match ref_type {
                    RefType::Strong => "strong",
                    RefType::Weak => "weak",
                };
                fields.push(("refType".to_owned(), Json::Str(rt.to_owned())));
            },
        }
        let ghost fv = fields@;
        proof {
            lemma_obj_model_len(fv);
            lemma_obj_model_index(fv, 0);
            lemma_obj_model_index(fv, 1);
            lemma_obj_model_index(fv, 2);
            if fv.len() == 4 {
                lemma_obj_model_index(fv, 3);
            }
            assert(obj_model(fv) =~= spec_encode_cbt(self@)->Obj_0);
        }
        Json::Obj(fields)
    }
}

/// Law: decoding a re-encoded constrained base type yields the value
/// back, for every value of every variant: re-encoding is lossless.
pub proof fn lemma_cbt_round_trip(v: ConstrainedBaseTypeView)
    ensures
        spec_decode_cbt(spec_encode_cbt(v)) == Ok::<ConstrainedBaseTypeView, Error>(v),
{
    reveal_strlit("type");
    reveal_strlit("minInteger");
    reveal_strlit("maxInteger");
    reveal_strlit("minReal");
    reveal_strlit("maxReal");
    reveal_strlit("minLength");
    reveal_strlit("maxLength");
    reveal_strlit("enum");
    reveal_strlit("refTable");
    reveal_strlit("refType");
    reveal_strlit("integer");
    reveal_strlit("real");
    reveal_strlit("string");
    reveal_strlit("uuid");
    reveal_strlit("strong");
    reveal_strlit("weak");
    assert("type"@.len() == 4 && "enum"@.len() == 4 && "minInteger"@.len() == 10
        && "maxInteger"@.len() == 10 && "minReal"@.len() == 7 && "maxReal"@.len() == 7
        && "minLength"@.len() == 9 && "maxLength"@.len() == 9 && "refTable"@.len() == 8
        && "refType"@.len() == 7);
    assert("type"@ != "enum"@) by {
        assert("type"@[0] == 't' && "enum"@[0] == 'e');
    }
    assert("minInteger"@ != "maxInteger"@) by {
        assert("minInteger"@[1] == 'i' && "maxInteger"@[1] == 'a');
    }
    assert("minReal"@ != "maxReal"@) by {
        assert("minReal"@[1] == 'i' && "maxReal"@[1] == 'a');
    }
    assert("minReal"@ != "refType"@) by {
        assert("minReal"@[0] == 'm' && "refType"@[0] == 'r');
    }
    assert("maxReal"@ != "refType"@) by {
        assert("maxReal"@[0] == 'm' && "refType"@[0] == 'r');
    }
    assert("minLength"@ != "maxLength"@) by {
        assert("minLength"@[1] == 'i' && "maxLength"@[1] == 'a');
    }
    assert("real"@ != "integer"@) by {
        assert("real"@.len() == 4 && "integer"@.len() == 7);
    }
    assert("string"@ != "integer"@) by {
        assert("string"@.len() == 6 && "integer"@.len() == 7);
    }
    assert("string"@ != "real"@) by {
        assert("string"@.len() == 6 && "real"@.len() == 4);
    }
    assert("uuid"@ != "real"@) by {
        assert("uuid"@[0] == 'u' && "real"@[0] == 'r');
    }
    assert("uuid"@ != "integer"@) by {
        assert("uuid"@.len() == 4 && "integer"@.len() == 7);
    }
    assert("uuid"@ != "string"@) by {
        assert("uuid"@.len() == 4 && "string"@.len() == 6);
    }
    assert("weak"@ != "strong"@) by {
        assert("weak"@.len() == 4 && "strong"@.len() == 6);
    }
    match v {
        ConstrainedBaseTypeView::Int { min_integer, max_integer, enum_ } => {
            lemma_set_round_trip::<i64>(enum_);
            let j_min = opt_int_json(min_integer);
            let j_max = opt_int_json(max_integer);
            let j_en = spec_encode_set::<i64>(enum_);
            let fs = seq![
                ("type"@, JsonV::Str("integer"@)),
                ("minInteger"@, j_min),
                ("maxInteger"@, j_max),
                ("enum"@, j_en),
            ];
            let t1 = seq![("minInteger"@, j_min), ("maxInteger"@, j_max), ("enum"@, j_en)];
            let t2 = seq![("maxInteger"@, j_max), ("enum"@, j_en)];
            let t3 = seq![("enum"@, j_en)];
            assert(fs.drop_first() =~= t1);
            assert(t1.drop_first() =~= t2);
            assert(t2.drop_first() =~= t3);
            assert(assoc_get(fs, "type"@) == Some(JsonV::Str("integer"@)));
            assert(assoc_get(t1, "minInteger"@) == Some(j_min));
            assert(assoc_get(fs, "minInteger"@) == Some(j_min));
            assert(assoc_get(t2, "maxInteger"@) == Some(j_max));
            assert(assoc_get(t1, "maxInteger"@) == Some(j_max));
            assert(assoc_get(fs, "maxInteger"@) == Some(j_max));
            assert(assoc_get(t3, "enum"@) == Some(j_en));
            assert(assoc_get(t2, "enum"@) == Some(j_en));
            assert(assoc_get(t1, "enum"@) == Some(j_en));
            assert(assoc_get(fs, "enum"@) == Some(j_en));
            assert(spec_encode_cbt(v) == JsonV::Obj(fs));
            assert(opt_int_field(fs, "minInteger"@) == Ok::<Option<i64>, Error>(min_integer));
            assert(opt_int_field(fs, "maxInteger"@) == Ok::<Option<i64>, Error>(max_integer));
            assert(enum_field::<i64>(fs) == Ok::<Option<SetView<i64>>, Error>(enum_));
            assert(spec_decode_cbt_int(fs) == Ok::<ConstrainedBaseTypeView, Error>(v));
            assert(spec_decode_cbt(JsonV::Obj(fs)) == Ok::<ConstrainedBaseTypeView, Error>(v));
        },
        ConstrainedBaseTypeView::Real { min_real, max_real, enum_ } => {
            lemma_set_round_trip::<RealValue>(enum_);
            let j_min = opt_real_json(min_real);
            let j_max = opt_real_json(max_real);
            let j_en = spec_encode_set::<RealValue>(enum_);
            let fs = seq![
                ("type"@, JsonV::Str("real"@)),
                ("minReal"@, j_min),
                ("maxReal"@, j_max),
                ("enum"@, j_en),
            ];
            let t1 = seq![("minReal"@, j_min), ("maxReal"@, j_max), ("enum"@, j_en)];
            let t2 = seq![("maxReal"@, j_max), ("enum"@, j_en)];
            let t3 = seq![("enum"@, j_en)];
            assert(fs.drop_first() =~= t1);
            assert(t1.drop_first() =~= t2);
            assert(t2.drop_first() =~= t3);
            assert(assoc_get(fs, "type"@) == Some(JsonV::Str("real"@)));
            assert(assoc_get(t1, "minReal"@) == Some(j_min));
            assert(assoc_get(fs, "minReal"@) == Some(j_min));
            assert(assoc_get(t2, "maxReal"@) == Some(j_max));
            assert(assoc_get(t1, "maxReal"@) == Some(j_max));
            assert(assoc_get(fs, "maxReal"@) == Some(j_max));
            assert(assoc_get(t3, "enum"@) == Some(j_en));
            assert(assoc_get(t2, "enum"@) == Some(j_en));
            assert(assoc_get(t1, "enum"@) == Some(j_en));
            assert(assoc_get(fs, "enum"@) == Some(j_en));
            assert(spec_encode_cbt(v) == JsonV::Obj(fs));
            assert(opt_real_field(fs, "minReal"@) == Ok::<Option<RealValue>, Error>(min_real));
            assert(opt_real_field(fs, "maxReal"@) == Ok::<Option<RealValue>, Error>(max_real));
            assert(enum_field::<RealValue>(fs) == Ok::<Option<SetView<RealValue>>, Error>(enum_));
            assert(spec_decode_cbt_real(fs) == Ok::<ConstrainedBaseTypeView, Error>(v));
            assert(spec_decode_cbt(JsonV::Obj(fs)) == Ok::<ConstrainedBaseTypeView, Error>(v));
            assert(spec_decode_cbt(spec_encode_cbt(v)) == Ok::<ConstrainedBaseTypeView, Error>(v));
        },
        ConstrainedBaseTypeView::Str { min_length, max_length, enum_ } => {
            lemma_set_round_trip::<String>(enum_);
            let j_min = opt_int_json(min_length);
            let j_max = opt_int_json(max_length);
            let j_en = spec_encode_set::<String>(enum_);
            let fs = seq![
                ("type"@, JsonV::Str("string"@)),
                ("minLength"@, j_min),
                ("maxLength"@, j_max),
                ("enum"@, j_en),
            ];
            let t1 = seq![("minLength"@, j_min), ("maxLength"@, j_max), ("enum"@, j_en)];
            let t2 = seq![("maxLength"@, j_max), ("enum"@, j_en)];
            let t3 = seq![("enum"@, j_en)];
            assert(fs.drop_first() =~= t1);
            assert(t1.drop_first() =~= t2);
            assert(t2.drop_first() =~= t3);
            assert(assoc_get(fs, "type"@) == Some(JsonV::Str("string"@)));
            assert(assoc_get(t1, "minLength"@) == Some(j_min));
            assert(assoc_get(fs, "minLength"@) == Some(j_min));
            assert(assoc_get(t2, "maxLength"@) == Some(j_max));
            assert(assoc_get(t1, "maxLength"@) == Some(j_max));
            assert(assoc_get(fs, "maxLength"@) == Some(j_max));
            assert(assoc_get(t3, "enum"@) == Some(j_en));
            assert(assoc_get(t2, "enum"@) == Some(j_en));
            assert(assoc_get(t1, "enum"@) == Some(j_en));
            assert(assoc_get(fs, "enum"@) == Some(j_en));
            assert(spec_encode_cbt(v) == JsonV::Obj(fs));
            assert(opt_int_field(fs, "minLength"@) == Ok::<Option<i64>, Error>(min_length));
            assert(opt_int_field(fs, "maxLength"@) == Ok::<Option<i64>, Error>(max_length));
            assert(enum_field::<String>(fs) == Ok::<Option<SetView<Seq<char>>>, Error>(enum_));
            assert(spec_decode_cbt_string(fs) == Ok::<ConstrainedBaseTypeView, Error>(v));
            assert(spec_decode_cbt(JsonV::Obj(fs)) == Ok::<ConstrainedBaseTypeView, Error>(v));
            assert(spec_decode_cbt(spec_encode_cbt(v)) == Ok::<ConstrainedBaseTypeView, Error>(v));
        },
        ConstrainedBaseTypeView::Uuid { ref_table, ref_type } => {
            let j_rt = JsonV::Str(ref_table);
            let j_rk = JsonV::Str(ref_type_name(ref_type));
            let fs = seq![("type"@, JsonV::Str("uuid"@)), ("refTable"@, j_rt), ("refType"@, j_rk)];
            let t1 = seq![("refTable"@, j_rt), ("refType"@, j_rk)];
            let t2 = seq![("refType"@, j_rk)];
            assert(fs.drop_first() =~= t1);
            assert(t1.drop_first() =~= t2);
            assert(assoc_get(fs, "type"@) == Some(JsonV::Str("uuid"@)));
            assert(assoc_get(t1, "refTable"@) == Some(j_rt));
            assert(assoc_get(fs, "refTable"@) == Some(j_rt));
            assert(assoc_get(t2, "refType"@) == Some(j_rk));
            assert(assoc_get(t1, "refType"@) == Some(j_rk));
            assert(assoc_get(fs, "refType"@) == Some(j_rk));
            assert(spec_encode_cbt(v) == JsonV::Obj(fs));
            assert(req_str_field(fs, "refTable"@) == Ok::<Seq<char>, Error>(ref_table));
            assert(spec_decode_ref_type(j_rk) == Ok::<RefType, Error>(ref_type));
            assert(spec_decode_cbt_uuid(fs) == Ok::<ConstrainedBaseTypeView, Error>(v));
            assert(spec_decode_cbt(JsonV::Obj(fs)) == Ok::<ConstrainedBaseTypeView, Error>(v));
            assert(spec_decode_cbt(spec_encode_cbt(v)) == Ok::<ConstrainedBaseTypeView, Error>(v));
        },
    }
}

// ---------------------------------------------------------------------
// Base types and column types
// ---------------------------------------------------------------------

/// A `key`/`value` slot: a bare atomic type name, or a constrained base
/// type object.
#[derive(Debug, PartialEq)]
pub enum BaseType {
    Atomic(AtomicType),
    Constrained(ConstrainedBaseType),
}

/// The mathematical view of a [`BaseType`].
pub enum BaseTypeView {
    Atomic(AtomicType),
    Constrained(ConstrainedBaseTypeView),
}

impl View for BaseType {
    type V = BaseTypeView;

    open spec fn view(&self) -> BaseTypeView {
        match *self {
            BaseType::Atomic(a) => BaseTypeView::Atomic(a),
            BaseType::Constrained(c) => BaseTypeView::Constrained(c@),
        }
    }
}

/// What a base type position decodes to: a bare string must name an
/// atomic type, an object must be a constrained base type; the atomic
/// reading is tried first, and a string that names no atomic type is an
/// unknown variant.
pub open spec fn spec_decode_base(j: JsonV) -> Result<BaseTypeView, Error> {
    match j {
        JsonV::Str(_) => match crate::common::spec_decode_atomic(j) {
            Some(a) => Ok(BaseTypeView::Atomic(a)),
            None => Err(Error::UnknownVariant),
        },
        JsonV::Obj(_) => match spec_decode_cbt(j) {
            Ok(c) => Ok(BaseTypeView::Constrained(c)),
            Err(e) => Err(e),
        },
        _ => Err(Error::TypeMismatch),
    }
}

impl BaseType {
    /// Decodes a `key`/`value` slot, trying the atomic reading first.
    pub fn decode(j: &Json) -> (r: Result<BaseType, Error>)
        ensures
            match r {
                Ok(v) => spec_decode_base(j@) == Ok::<BaseTypeView, Error>(v@),
                Err(e) => spec_decode_base(j@) == Err::<BaseTypeView, Error>(e),
            },
    {
        match j {
            Json::Str(_) => match AtomicType::decode(j) {
                Some(a) => Ok(BaseType::Atomic(a)),
                None => Err(Error::UnknownVariant),
            },
            Json::Obj(_) => match ConstrainedBaseType::decode(j) {
                Ok(c) => Ok(BaseType::Constrained(c)),
                Err(e) => Err(e),
            },
            _ => Err(Error::TypeMismatch),
        }
    }
}

/// The semantic shape a column's complex type derives from its
/// cardinality and value slot.
#[derive(Clone, Copy, Debug, PartialEq, Eq, Structural)]
pub enum ColumnShape {
    Scalar,
    SetType,
    MapType,
}

/// A composite column type: key type, optional value type and the
/// min/max cardinality.
#[derive(Debug, PartialEq)]
pub struct ColumnComplexType {
    pub key: BaseType,
    pub value: Option<BaseType>,
    pub min: i64,
    pub max: MaxOrUnlimited,
}

/// The mathematical view of a [`ColumnComplexType`].
pub struct ColumnComplexTypeView {
    pub key: BaseTypeView,
    pub value: Option<BaseTypeView>,
    pub min: i64,
    pub max: MaxOrUnlimited,
}

impl View for ColumnComplexType {
    type V = ColumnComplexTypeView;

    open spec fn view(&self) -> ColumnComplexTypeView {
        ColumnComplexTypeView {
            key: self.key@,
            value: match self.value {
                None => None,
                Some(b) => Some(b@),
            },
            min: self.min,
            max: self.max,
        }
    }
}

impl ColumnComplexTypeView {
    /// The shape a complex type derives: a value slot makes it a map;
    /// otherwise cardinality exactly one makes it a scalar, anything
    /// else a set.
    pub open spec fn spec_shape(&self) -> ColumnShape {
        if self.value is Some {
            ColumnShape::MapType
        } else if self.min == 1i64 && self.max == MaxOrUnlimited::Max(1i64) {
            ColumnShape::Scalar
        } else {
            ColumnShape::SetType
        }
    }
}

impl ColumnComplexType {
    /// Derives the semantic shape of the column: scalar, set or map.
    pub fn shape(&self) -> (r: ColumnShape)
        ensures
            r == self@.spec_shape(),
    {
        if self.value.is_some() {
            ColumnShape::MapType
        } else {
            let max_is_one: bool = match self.max {
                MaxOrUnlimited::Max(m) => m == 1,
                MaxOrUnlimited::Unlimited => false,
            };
            if self.min == 1 && max_is_one {
                ColumnShape::Scalar
            } else {
                ColumnShape::SetType
            }
        }
    }
}

/// A column's `type` field: a bare atomic type, or a composite type.
#[derive(Debug, PartialEq)]
pub enum ColumnType {
    Atomic(AtomicType),
    Complex(ColumnComplexType),
}

/// The mathematical view of a [`ColumnType`].
pub enum ColumnTypeView {
    Atomic(AtomicType),
    Complex(ColumnComplexTypeView),
}

impl View for ColumnType {
    type V = ColumnTypeView;

    open spec fn view(&self) -> ColumnTypeView {
        match *self {
            ColumnType::Atomic(a) => ColumnTypeView::Atomic(a),
            ColumnType::Complex(c) => ColumnTypeView::Complex(c@),
        }
    }
}

pub open spec fn spec_decode_complex(fs: Seq<(Seq<char>, JsonV)>) -> Result<
    ColumnComplexTypeView,
    Error,
> {
    match assoc_get(fs, "key"@) {
        None => Err(Error::MissingRequiredField),
        Some(kj) => match spec_decode_base(kj) {
            Err(e) => Err(e),
            Ok(key) => match (match assoc_get(fs, "value"@) {
                None => Ok(None),
                Some(JsonV::Null) => Ok(None),
                Some(vj) => match spec_decode_base(vj) {
                    Err(e) => Err(e),
                    Ok(value) => Ok(Some(value)),
                },
            }) {
                Err(e) => Err(e),
                Ok(value) => match (match assoc_get(fs, "min"@) {
                    None => Ok(1i64),
                    Some(JsonV::Int(i)) => Ok(i),
                    Some(_) => Err(Error::TypeMismatch),
                }) {
                    Err(e) => Err(e),
                    Ok(min) => match (match assoc_get(fs, "max"@) {
                        None => Ok(MaxOrUnlimited::Max(1i64)),
                        Some(mj) => spec_decode_max(mj),
                    }) {
                        Err(e) => Err(e),
                        Ok(max) => Ok(ColumnComplexTypeView { key, value, min, max }),
                    },
                },
            },
        },
    }
}

/// What a column's `type` field decodes to: a bare string must name an
/// atomic type, an object is a composite type with its field defaults.
pub open spec fn spec_decode_column_type(j: JsonV) -> Result<ColumnTypeView, Error> {
    match j {
        JsonV::Str(_) => match crate::common::spec_decode_atomic(j) {
            Some(a) => Ok(ColumnTypeView::Atomic(a)),
            None => Err(Error::UnknownVariant),
        },
        JsonV::Obj(fs) => match spec_decode_complex(fs) {
            Ok(c) => Ok(ColumnTypeView::Complex(c)),
            Err(e) => Err(e),
        },
        _ => Err(Error::TypeMismatch),
    }
}

impl ColumnComplexType {
    /// Decodes a composite column type object.
    pub fn decode_fields(fields: &Vec<(String, Json)>) -> (r: Result<ColumnComplexType, Error>)
        ensures
            match r {
                Ok(v) => spec_decode_complex(obj_model(fields@)) == Ok::<
                    ColumnComplexTypeView,
                    Error,
                >(v@),
                Err(e) => spec_decode_complex(obj_model(fields@)) == Err::<
                    ColumnComplexTypeView,
                    Error,
                >(e),
            },
    {
        let key = match json_obj_get(fields, "key") {
            None => {
                return Err(Error::MissingRequiredField);
            },
            Some(kj) => match BaseType::decode(kj) {
                Ok(k) => k,
                Err(e) => {
                    return Err(e);
                },
            },
        };
        let value = match json_obj_get(fields, "value") {
            None => None,
            Some(Json::Null) => None,
            Some(vj) => match BaseType::decode(vj) {
                Ok(v) => Some(v),
                Err(e) => {
                    return Err(e);
                },
            },
        };
        let min = match json_obj_get(fields, "min") {
            None => default_to_one(),
            Some(Json::Int(i)) => *i,
            Some(_) => {
                return Err(Error::TypeMismatch);
            },
        };
        let max = match json_obj_get(fields, "max") {
            None => MaxOrUnlimited::default(),
            Some(mj) => match deserialize_max_or_unlimited(mj) {
                Ok(m) => m,
                Err(e) => {
                    return Err(e);
                },
            },
        };
        Ok(ColumnComplexType { key, value, min, max })
    }
}

impl ColumnType {
    /// Decodes a column's `type` field, trying the atomic reading first.
    pub fn decode(j: &Json) -> (r: Result<ColumnType, Error>)
        ensures
            match r {
                Ok(v) => spec_decode_column_type(j@) == Ok::<ColumnTypeView, Error>(v@),
                Err(e) => spec_decode_column_type(j@) == Err::<ColumnTypeView, Error>(e),
            },
    {
        match j {
            Json::Str(_) => match AtomicType::decode(j) {
                Some(a) => Ok(ColumnType::Atomic(a)),
                None => Err(Error::UnknownVariant),
            },
            Json::Obj(fields) => match ColumnComplexType::decode_fields(fields) {
                Ok(c) => Ok(ColumnType::Complex(c)),
                Err(e) => Err(e),
            },
            _ => Err(Error::TypeMismatch),
        }
    }
}

} // verus!
