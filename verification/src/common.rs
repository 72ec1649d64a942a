//! The OVSDB atomic type names and the set encoding.
//!
//! An `enum` field of a constrained base type holds either a single scalar,
//! written bare, or several, written as the two-element tagged array
//! `["set", [v1, v2, ...]]`. The codec here decodes and encodes both shapes
//! and is proved to round-trip.

use vstd::prelude::*;

use crate::json::{arr_model, Json, JsonV};
use crate::json::{lemma_arr_model_index, lemma_arr_model_len, str_eq};
use crate::Error;

verus! {

/// The five OVSDB primitive column kinds.
#[derive(Clone, Copy, Debug, PartialEq, Eq, Structural)]
pub enum AtomicType {
    Integer,
    String,
    Real,
    Boolean,
    Uuid,
}

/// What a bare atomic-type name decodes to: exactly one of the five
/// lower-case names, anything else is no atomic type.
pub open spec fn spec_decode_atomic(j: JsonV) -> Option<AtomicType> {
    match j {
        JsonV::Str(s) => {
            if s == "integer"@ {
                Some(AtomicType::Integer)
            } else if s == "string"@ {
                Some(AtomicType::String)
            } else if s == "real"@ {
                Some(AtomicType::Real)
            } else if s == "boolean"@ {
                Some(AtomicType::Boolean)
            } else if s == "uuid"@ {
                Some(AtomicType::Uuid)
            } else {
                None
            }
        },
        _ => None,
    }
}

impl AtomicType {
    /// Decodes a bare atomic-type name.
    pub fn decode(j: &Json) -> (r: Option<AtomicType>)
        ensures
            r == spec_decode_atomic(j@),
    {
        match j {
            Json::Str(s) => {
                if str_eq(s.as_str(), "integer") {
                    Some(AtomicType::Integer)
                } else if str_eq(s.as_str(), "string") {
                    Some(AtomicType::String)
                } else if str_eq(s.as_str(), "real") {
                    Some(AtomicType::Real)
                } else if str_eq(s.as_str(), "boolean") {
                    Some(AtomicType::Boolean)
                } else if str_eq(s.as_str(), "uuid") {
                    Some(AtomicType::Uuid)
                } else {
                    None
                }
            },
            _ => None,
        }
    }
}

/// A JSON number kept exactly as it appeared on the wire: either an
/// integral number, or the bit pattern of its double representation.
/// The decoders store real-typed bounds and enumerations as given and
/// never compute with them.
#[derive(Clone, Copy, Debug, PartialEq, Eq, Structural)]
pub enum RealValue {
    /// A number the document wrote as an integer.
    Int(i64),
    /// Any other number, as the bit pattern of its double value.
    Bits(u64),
}

/// An element type of the set encoding: how one scalar of the element's
/// kind is read from and written to a JSON value, together with the proofs
/// that the two directions invert each other.
pub trait JsonCodec: Sized {
    /// The mathematical model of an element.
    type M;

    spec fn model(&self) -> Self::M;

    /// What a bare JSON value decodes to, if anything.
    spec fn spec_decode(j: JsonV) -> Option<Self::M>;

    /// The JSON value an element encodes to.
    spec fn spec_encode(m: Self::M) -> JsonV;

    /// Encoding never produces `null` or an array, so an encoded scalar is
    /// always read back as a bare value, and decoding it yields the value.
    proof fn lemma_decode_encode(m: Self::M)
        ensures
            Self::spec_decode(Self::spec_encode(m)) == Some(m),
            !(Self::spec_encode(m) matches JsonV::Arr(_)),
            !(Self::spec_encode(m) matches JsonV::Null),
    ;

    /// Re-encoding a decoded value reproduces the input.
    proof fn lemma_encode_decode(j: JsonV)
        ensures
            Self::spec_decode(j) matches Some(m) ==> Self::spec_encode(m) == j,
    ;

    fn decode(j: &Json) -> (r: Option<Self>)
        ensures
            match r {
                Some(v) => Self::spec_decode(j@) == Some(v.model()),
                None => Self::spec_decode(j@) is None,
            },
    ;

    fn encode(&self) -> (r: Json)
        ensures
            r@ == Self::spec_encode(self.model()),
    ;
}

impl JsonCodec for i64 {
    type M = i64;

    open spec fn model(&self) -> i64 {
        *self
    }

    open spec fn spec_decode(j: JsonV) -> Option<i64> {
        match j {
            JsonV::Int(i) => Some(i),
            _ => None,
        }
    }

    open spec fn spec_encode(m: i64) -> JsonV {
        JsonV::Int(m)
    }

    proof fn lemma_decode_encode(m: i64) {
    }

    proof fn lemma_encode_decode(j: JsonV) {
    }

    fn decode(j: &Json) -> (r: Option<i64>) {
        match j {
            Json::Int(i) => Some(*i),
            _ => None,
        }
    }

    fn encode(&self) -> (r: Json) {
        Json::Int(*self)
    }
}

impl JsonCodec for RealValue {
    type M = RealValue;

    open spec fn model(&self) -> RealValue {
        *self
    }

    open spec fn spec_decode(j: JsonV) -> Option<RealValue> {
        match j {
            JsonV::Int(i) => Some(RealValue::Int(i)),
            JsonV::Real(b) => Some(RealValue::Bits(b)),
            _ => None,
        }
    }

    open spec fn spec_encode(m: RealValue) -> JsonV {
        match m {
            RealValue::Int(i) => JsonV::Int(i),
            RealValue::Bits(b) => JsonV::Real(b),
        }
    }

    proof fn lemma_decode_encode(m: RealValue) {
    }

    proof fn lemma_encode_decode(j: JsonV) {
    }

    fn decode(j: &Json) -> (r: Option<RealValue>) {
        match j {
            Json::Int(i) => Some(RealValue::Int(*i)),
            Json::Real(b) => Some(RealValue::Bits(*b)),
            _ => None,
        }
    }

    fn encode(&self) -> (r: Json) {
        match self {
            RealValue::Int(i) => Json::Int(*i),
            RealValue::Bits(b) => Json::Real(*b),
        }
    }
}

impl JsonCodec for String {
    type M = Seq<char>;

    open spec fn model(&self) -> Seq<char> {
        self@
    }

    open spec fn spec_decode(j: JsonV) -> Option<Seq<char>> {
        match j {
            JsonV::Str(s) => Some(s),
            _ => None,
        }
    }

    open spec fn spec_encode(m: Seq<char>) -> JsonV {
        JsonV::Str(m)
    }

    proof fn lemma_decode_encode(m: Seq<char>) {
    }

    proof fn lemma_encode_decode(j: JsonV) {
    }

    fn decode(j: &Json) -> (r: Option<String>) {
        match j {
            Json::Str(s) => Some(s.clone()),
            _ => None,
        }
    }

    fn encode(&self) -> (r: Json) {
        Json::Str(self.clone())
    }
}

/// A value of the set encoding: a single scalar, or several.
#[derive(Debug, PartialEq)]
pub enum SetValue<T> {
    One(T),
    Many(Vec<T>),
}

/// The mathematical view of a [`SetValue`].
pub enum SetView<M> {
    One(M),
    Many(Seq<M>),
}

/// The models of a sequence of elements, in order.
pub open spec fn seq_models<T: JsonCodec>(s: Seq<T>) -> Seq<T::M>
    decreases s.len(),
{
    if s.len() == 0 {
        Seq::empty()
    } else {
        seq_models::<T>(s.drop_last()).push(s.last().model())
    }
}

pub broadcast proof fn lemma_seq_models_len<T: JsonCodec>(s: Seq<T>)
    ensures
        #[trigger] seq_models::<T>(s).len() == s.len(),
    decreases s.len(),
{
    if s.len() > 0 {
        lemma_seq_models_len::<T>(s.drop_last());
    }
}

pub broadcast proof fn lemma_seq_models_index<T: JsonCodec>(s: Seq<T>, i: int)
    requires
        0 <= i < s.len(),
    ensures
        #[trigger] seq_models::<T>(s)[i] == s[i].model(),
    decreases s.len(),
{
    lemma_seq_models_len::<T>(s);
    lemma_seq_models_len::<T>(s.drop_last());
    if i < s.len() - 1 {
        lemma_seq_models_index::<T>(s.drop_last(), i);
    }
}

impl<T: JsonCodec> SetValue<T> {
    pub open spec fn model(&self) -> SetView<T::M> {
        match self {
            SetValue::One(v) => SetView::One(v.model()),
            SetValue::Many(vs) => SetView::Many(seq_models::<T>(vs@)),
        }
    }
}

pub open spec fn opt_set_model<T: JsonCodec>(s: Option<SetValue<T>>) -> Option<SetView<T::M>> {
    match s {
        None => None,
        Some(sv) => Some(sv.model()),
    }
}

/// Elementwise decode of the inner array of a `["set", [...]]` form:
/// all elements must decode, else the whole array fails.
pub open spec fn spec_decode_elems<T: JsonCodec>(elems: Seq<JsonV>) -> Option<Seq<T::M>>
    decreases elems.len(),
{
    if elems.len() == 0 {
        Some(Seq::empty())
    } else {
        match (spec_decode_elems::<T>(elems.drop_last()), T::spec_decode(elems.last())) {
            (Some(ms), Some(m)) => Some(ms.push(m)),
            _ => None,
        }
    }
}

pub open spec fn spec_encode_elems<T: JsonCodec>(ms: Seq<T::M>) -> Seq<JsonV>
    decreases ms.len(),
{
    if ms.len() == 0 {
        Seq::empty()
    } else {
        spec_encode_elems::<T>(ms.drop_last()).push(T::spec_encode(ms.last()))
    }
}

pub broadcast proof fn lemma_encode_elems_len<T: JsonCodec>(ms: Seq<T::M>)
    ensures
        #[trigger] spec_encode_elems::<T>(ms).len() == ms.len(),
    decreases ms.len(),
{
    if ms.len() > 0 {
        lemma_encode_elems_len::<T>(ms.drop_last());
    }
}

pub broadcast proof fn lemma_encode_elems_index<T: JsonCodec>(ms: Seq<T::M>, i: int)
    requires
        0 <= i < ms.len(),
    ensures
        #[trigger] spec_encode_elems::<T>(ms)[i] == T::spec_encode(ms[i]),
    decreases ms.len(),
{
    lemma_encode_elems_len::<T>(ms);
    lemma_encode_elems_len::<T>(ms.drop_last());
    if i < ms.len() - 1 {
        lemma_encode_elems_index::<T>(ms.drop_last(), i);
    }
}

/// A successful elementwise decode determines each element, and failure
/// of any element fails the whole array.
pub proof fn lemma_decode_elems_some<T: JsonCodec>(elems: Seq<JsonV>)
    ensures
        spec_decode_elems::<T>(elems) matches Some(ms) ==> {
            &&& ms.len() == elems.len()
            &&& forall|i: int| 0 <= i < elems.len()
                ==> #[trigger] T::spec_decode(elems[i]) == Some(ms[i])
        },
        (forall|i: int| 0 <= i < elems.len() ==> (#[trigger] T::spec_decode(elems[i])) is Some)
            ==> spec_decode_elems::<T>(elems) is Some,
    decreases elems.len(),
{
    if elems.len() > 0 {
        lemma_decode_elems_some::<T>(elems.drop_last());
        assert(forall|i: int| 0 <= i < elems.len() - 1 ==> elems.drop_last()[i] == elems[i]);
    }
}

/// One element that does not decode fails the whole array.
pub proof fn lemma_decode_elems_none<T: JsonCodec>(elems: Seq<JsonV>, i: int)
    requires
        0 <= i < elems.len(),
        T::spec_decode(elems[i]) is None,
    ensures
        spec_decode_elems::<T>(elems) is None,
    decreases elems.len(),
{
    if i < elems.len() - 1 {
        assert(elems.drop_last()[i] == elems[i]);
        lemma_decode_elems_none::<T>(elems.drop_last(), i);
    }
}

/// What the `enum` field of a constrained base type decodes to:
/// `null` is absence, a two-element `["set", [...]]` array is the
/// multi-valued form, and any other value is a single bare scalar.
pub open spec fn spec_decode_set<T: JsonCodec>(j: JsonV) -> Result<Option<SetView<T::M>>, Error> {
    match j {
        JsonV::Null => Ok(None),
        JsonV::Arr(items) => {
            if items.len() != 2 {
                Err(Error::MalformedSet)
            } else {
                match items[0] {
                    JsonV::Str(h) => {
                        if h == "set"@ {
                            match items[1] {
                                JsonV::Arr(elems) => match spec_decode_elems::<T>(elems) {
                                    Some(ms) => Ok(Some(SetView::Many(ms))),
                                    None => Err(Error::TypeMismatch),
                                },
                                _ => Err(Error::TypeMismatch),
                            }
                        } else {
                            Err(Error::MalformedSet)
                        }
                    },
                    _ => Err(Error::MalformedSet),
                }
            }
        },
        _ => match T::spec_decode(j) {
            Some(m) => Ok(Some(SetView::One(m))),
            None => Err(Error::TypeMismatch),
        },
    }
}

pub open spec fn spec_encode_set<T: JsonCodec>(s: Option<SetView<T::M>>) -> JsonV {
    match s {
        None => JsonV::Null,
        Some(SetView::One(m)) => T::spec_encode(m),
        Some(SetView::Many(ms)) => JsonV::Arr(
            seq![JsonV::Str("set"@), JsonV::Arr(spec_encode_elems::<T>(ms))],
        ),
    }
}

/// Decodes an `enum`-style field.
pub fn deserialize_set<T: JsonCodec>(j: &Json) -> (r: Result<Option<SetValue<T>>, Error>)
    ensures
        match r {
            Ok(s) => spec_decode_set::<T>(j@) == Ok::<Option<SetView<T::M>>, Error>(
                opt_set_model::<T>(s),
            ),
            Err(e) => spec_decode_set::<T>(j@) == Err::<Option<SetView<T::M>>, Error>(e),
        },
{
    match j {
        Json::Null => Ok(None),
        Json::Arr(items) => {
            proof {
                lemma_arr_model_len(items@);
            }
            if items.len() != 2 {
                return Err(Error::MalformedSet);
            }
            proof {
                lemma_arr_model_index(items@, 0);
                lemma_arr_model_index(items@, 1);
            }
            let head_ok: bool = match &items[0] {
                Json::Str(h) => str_eq(h.as_str(), "set"),
                _ => false,
            };
            if !head_ok {
                return Err(Error::MalformedSet);
            }
            match &items[1] {
                Json::Arr(elems) => {
                    proof {
                        lemma_arr_model_len(elems@);
                    }
                    let ghost em = arr_model(elems@);
                    proof {
                        assert(spec_decode_set::<T>(j@) == (match spec_decode_elems::<T>(em) {
                            Some(ms) => Ok::<Option<SetView<T::M>>, Error>(
                                Some(SetView::Many(ms)),
                            ),
                            None => Err::<Option<SetView<T::M>>, Error>(Error::TypeMismatch),
                        }));
                    }
                    let mut out: Vec<T> = Vec::new();
                    let mut i: usize = 0;
                    while i < elems.len()
                        invariant
                            i <= elems.len(),
                            em == arr_model(elems@),
                            em.len() == elems@.len(),
                            out@.len() == i,
                            forall|k: int| 0 <= k < i
                                ==> #[trigger] T::spec_decode(em[k]) == Some(out@[k].model()),
                            (spec_decode_set::<T>(j@) == (match spec_decode_elems::<T>(em) {
                                Some(ms) => Ok::<Option<SetView<T::M>>, Error>(
                                    Some(SetView::Many(ms)),
                                ),
                                None => Err::<Option<SetView<T::M>>, Error>(Error::TypeMismatch),
                            })),
                        decreases elems.len() - i,
                    {
                        proof {
                            lemma_arr_model_index(elems@, i as int);
                        }
                        match T::decode(&elems[i]) {
                            Some(v) => out.push(v),
                            None => {
                                proof {
                                    lemma_decode_elems_none::<T>(em, i as int);
                                }
                                return Err(Error::TypeMismatch);
                            },
                        }
                        i += 1;
                    }
                    proof {
                        lemma_decode_elems_some::<T>(em);
                        lemma_seq_models_len::<T>(out@);
                        assert forall|k: int| 0 <= k < em.len()
                            implies T::spec_decode(em[k]) is Some by {}
                        let ms = spec_decode_elems::<T>(em)->Some_0;
                        assert(ms.len() == em.len());
                        assert forall|k: int| 0 <= k < em.len()
                            implies ms[k] == seq_models::<T>(out@)[k] by {
                            assert(T::spec_decode(em[k]) == Some(ms[k]));
                            assert(T::spec_decode(em[k]) == Some(out@[k].model()));
                            lemma_seq_models_index::<T>(out@, k);
                        }
                        assert(ms =~= seq_models::<T>(out@));
                    }
                    Ok(Some(SetValue::Many(out)))
                },
                _ => Err(Error::TypeMismatch),
            }
        },
        _ => {
            match T::decode(j) {
                Some(v) => Ok(Some(SetValue::One(v))),
                None => Err(Error::TypeMismatch),
            }
        },
    }
}

/// Encodes an `enum`-style field: absence as `null`, a single value bare,
/// several values in the tagged-array form.
pub fn serialize_set<T: JsonCodec>(set: &Option<SetValue<T>>) -> (r: Json)
    ensures
        r@ == spec_encode_set::<T>(opt_set_model::<T>(*set)),
{
    match set {
        None => Json::Null,
        Some(SetValue::One(v)) => v.encode(),
        Some(SetValue::Many(vs)) => {
            let ghost ms = seq_models::<T>(vs@);
            proof {
                lemma_seq_models_len::<T>(vs@);
            }
            let mut out: Vec<Json> = Vec::new();
            let mut i: usize = 0;
            while i < vs.len()
                invariant
                    i <= vs.len(),
                    ms == seq_models::<T>(vs@),
                    ms.len() == vs@.len(),
                    out@.len() == i,
                    forall|k: int| 0 <= k < i
                        ==> (#[trigger] out@[k])@ == T::spec_encode(ms[k]),
                decreases vs.len() - i,
            {
                proof {
                    lemma_seq_models_index::<T>(vs@, i as int);
                }
                out.push(vs[i].encode());
                i += 1;
            }
            proof {
                lemma_encode_elems_len::<T>(ms);
                lemma_arr_model_len(out@);
                assert forall|k: int| 0 <= k < ms.len()
                    implies arr_model(out@)[k] == spec_encode_elems::<T>(ms)[k] by {
                    lemma_arr_model_index(out@, k);
                    lemma_encode_elems_index::<T>(ms, k);
                }
                assert(arr_model(out@) =~= spec_encode_elems::<T>(ms));
            }
            let mut arr: Vec<Json> = Vec::new();
            arr.push(Json::Str("set".to_owned()));
            arr.push(Json::Arr(out));
            let r = Json::Arr(arr);
            proof {
                lemma_arr_model_len(arr@);
                lemma_arr_model_index(arr@, 0);
                lemma_arr_model_index(arr@, 1);
                assert(arr_model(arr@) =~= seq![
                    JsonV::Str("set"@),
                    JsonV::Arr(spec_encode_elems::<T>(ms)),
                ]);
            }
            r
        },
    }
}

proof fn lemma_elems_round_trip<T: JsonCodec>(ms: Seq<T::M>)
    ensures
        spec_decode_elems::<T>(spec_encode_elems::<T>(ms)) == Some(ms),
    decreases ms.len(),
{
    if ms.len() == 0 {
    } else {
        lemma_elems_round_trip::<T>(ms.drop_last());
        T::lemma_decode_encode(ms.last());
        let es = spec_encode_elems::<T>(ms);
        lemma_encode_elems_len::<T>(ms);
        lemma_encode_elems_len::<T>(ms.drop_last());
        assert(es.drop_last() =~= spec_encode_elems::<T>(ms.drop_last()));
        assert(es.last() == T::spec_encode(ms.last()));
        assert(ms.drop_last().push(ms.last()) =~= ms);
    }
}

/// Law: decoding an encoded set yields the value back, for every value of
/// the set encoding, absence included.
pub proof fn lemma_set_round_trip<T: JsonCodec>(s: Option<SetView<T::M>>)
    ensures
        spec_decode_set::<T>(spec_encode_set::<T>(s)) == Ok::<Option<SetView<T::M>>, Error>(s),
{
    match s {
        None => {},
        Some(SetView::One(m)) => {
            T::lemma_decode_encode(m);
        },
        Some(SetView::Many(ms)) => {
            lemma_elems_round_trip::<T>(ms);
            let j = spec_encode_set::<T>(s);
            let items = seq![JsonV::Str("set"@), JsonV::Arr(spec_encode_elems::<T>(ms))];
            assert(j == JsonV::Arr(items));
            assert(items.len() == 2);
            assert(items[0] == JsonV::Str("set"@));
            assert(items[1] == JsonV::Arr(spec_encode_elems::<T>(ms)));
        },
    }
}

proof fn lemma_elems_encode_decode<T: JsonCodec>(elems: Seq<JsonV>)
    ensures
        spec_decode_elems::<T>(elems) matches Some(ms)
            ==> spec_encode_elems::<T>(ms) == elems,
    decreases elems.len(),
{
    if elems.len() > 0 {
        lemma_elems_encode_decode::<T>(elems.drop_last());
        T::lemma_encode_decode(elems.last());
        if spec_decode_elems::<T>(elems) is Some {
            let ms = spec_decode_elems::<T>(elems)->Some_0;
            let ms0 = spec_decode_elems::<T>(elems.drop_last())->Some_0;
            assert(ms == ms0.push(T::spec_decode(elems.last())->Some_0));
            lemma_decode_elems_some::<T>(elems.drop_last());
            assert(ms.drop_last() =~= ms0);
            assert(spec_encode_elems::<T>(ms)
                == spec_encode_elems::<T>(ms0).push(T::spec_encode(ms.last())));
            assert(elems.drop_last().push(elems.last()) =~= elems);
        }
    }
}

/// Law: re-encoding a successfully decoded `enum` field reproduces the
/// JSON value it was decoded from, for each of the three accepted shapes.
pub proof fn lemma_set_encode_decode<T: JsonCodec>(j: JsonV)
    ensures
        spec_decode_set::<T>(j) matches Ok(s) ==> spec_encode_set::<T>(s) == j,
{
    match j {
        JsonV::Null => {},
        JsonV::Arr(items) => {
            if spec_decode_set::<T>(j) is Ok {
                let elems = items[1]->Arr_0;
                lemma_elems_encode_decode::<T>(elems);
                let ms = spec_decode_elems::<T>(elems)->Some_0;
                let h = items[0]->Str_0;
                assert(h == "set"@);
                assert(seq![JsonV::Str("set"@), JsonV::Arr(spec_encode_elems::<T>(ms))]
                    =~= items);
            }
        },
        _ => {
            T::lemma_encode_decode(j);
        },
    }
}

} // verus!
