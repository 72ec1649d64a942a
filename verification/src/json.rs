//! The library's own model of a parsed JSON document.
//!
//! A schema document arrives as text; whatever reads that text hands the
//! library a [`Json`] tree of plain values. Numbers keep the distinction the
//! wire format makes between integers and other numbers: an integral number
//! is carried as an `i64`, any other number as the bit pattern of its
//! IEEE-754 double representation, which the decoders store but never
//! interpret arithmetically.

use vstd::prelude::*;

use crate::Error;

verus! {

/// A JSON value, as handed to the decoders.
#[derive(Debug, PartialEq)]
pub enum Json {
    Null,
    Bool(bool),
    /// A number representable as a signed 64-bit integer.
    Int(i64),
    /// Any other number, carried as the bit pattern of its double value.
    Real(u64),
    Str(String),
    Arr(Vec<Json>),
    /// An object, as the ordered sequence of its fields.
    Obj(Vec<(String, Json)>),
}

/// The mathematical view of a [`Json`] value.
pub enum JsonV {
    Null,
    Bool(bool),
    Int(i64),
    Real(u64),
    Str(Seq<char>),
    Arr(Seq<JsonV>),
    Obj(Seq<(Seq<char>, JsonV)>),
}

pub open spec fn json_model(j: Json) -> JsonV
    decreases j,
{
    match j {
        Json::Null => JsonV::Null,
        Json::Bool(b) => JsonV::Bool(b),
        Json::Int(i) => JsonV::Int(i),
        Json::Real(b) => JsonV::Real(b),
        Json::Str(s) => JsonV::Str(s@),
        Json::Arr(v) => JsonV::Arr(arr_model(v@)),
        Json::Obj(v) => JsonV::Obj(obj_model(v@)),
    }
}

pub open spec fn arr_model(s: Seq<Json>) -> Seq<JsonV>
    decreases s,
{
    if s.len() == 0 {
        Seq::empty()
    } else {
        arr_model(s.drop_last()).push(json_model(s.last()))
    }
}

pub open spec fn obj_model(s: Seq<(String, Json)>) -> Seq<(Seq<char>, JsonV)>
    decreases s,
{
    if s.len() == 0 {
        Seq::empty()
    } else {
        obj_model(s.drop_last()).push((s.last().0@, json_model(s.last().1)))
    }
}

impl View for Json {
    type V = JsonV;

    open spec fn view(&self) -> JsonV {
        json_model(*self)
    }
}

pub broadcast proof fn lemma_arr_model_len(s: Seq<Json>)
    ensures
        #[trigger] arr_model(s).len() == s.len(),
    decreases s,
{
    if s.len() > 0 {
        lemma_arr_model_len(s.drop_last());
    }
}

pub broadcast proof fn lemma_arr_model_index(s: Seq<Json>, i: int)
    requires
        0 <= i < s.len(),
    ensures
        #[trigger] arr_model(s)[i] == json_model(s[i]),
    decreases s,
{
    lemma_arr_model_len(s);
    lemma_arr_model_len(s.drop_last());
    if i < s.len() - 1 {
        lemma_arr_model_index(s.drop_last(), i);
    }
}

pub broadcast proof fn lemma_obj_model_len(s: Seq<(String, Json)>)
    ensures
        #[trigger] obj_model(s).len() == s.len(),
    decreases s,
{
    if s.len() > 0 {
        lemma_obj_model_len(s.drop_last());
    }
}

pub broadcast proof fn lemma_obj_model_index(s: Seq<(String, Json)>, i: int)
    requires
        0 <= i < s.len(),
    ensures
        #[trigger] obj_model(s)[i] == (s[i].0@, json_model(s[i].1)),
    decreases s,
{
    lemma_obj_model_len(s);
    lemma_obj_model_len(s.drop_last());
    if i < s.len() - 1 {
        lemma_obj_model_index(s.drop_last(), i);
    }
}

/// First binding of `key` in an ordered field sequence, if any.
pub open spec fn assoc_get<V>(fields: Seq<(Seq<char>, V)>, key: Seq<char>) -> Option<V>
    decreases fields,
{
    if fields.len() == 0 {
        None
    } else if fields[0].0 == key {
        Some(fields[0].1)
    } else {
        assoc_get(fields.drop_first(), key)
    }
}

pub proof fn lemma_assoc_get_skip<V>(fields: Seq<(Seq<char>, V)>, key: Seq<char>, i: int)
    requires
        0 <= i <= fields.len(),
        forall|k: int| 0 <= k < i ==> fields[k].0 != key,
    ensures
        assoc_get(fields, key) == assoc_get(fields.skip(i), key),
    decreases i,
{
    if i > 0 {
        lemma_assoc_get_skip(fields, key, i - 1);
        assert(fields.skip(i - 1).drop_first() =~= fields.skip(i));
        assert(fields.skip(i - 1)[0] == fields[i - 1]);
    } else {
        assert(fields.skip(0) =~= fields);
    }
}

/// Law: a lookup succeeds exactly when some entry bears the key.
pub proof fn lemma_assoc_get_present<V>(fields: Seq<(Seq<char>, V)>, key: Seq<char>)
    ensures
        (assoc_get(fields, key) is Some) <==> (exists|i: int|
            0 <= i < fields.len() && (#[trigger] fields[i]).0 == key),
    decreases fields.len(),
{
    if fields.len() > 0 {
        let tail = fields.drop_first();
        lemma_assoc_get_present::<V>(tail, key);
        if fields[0].0 == key {
        } else {
            if assoc_get(fields, key) is Some {
                let i = choose|i: int| 0 <= i < tail.len() && (#[trigger] tail[i]).0 == key;
                assert(fields[i + 1].0 == key);
            }
            if exists|i: int| 0 <= i < fields.len() && (#[trigger] fields[i]).0 == key {
                let i = choose|i: int| 0 <= i < fields.len() && (#[trigger] fields[i]).0 == key;
                assert(i > 0);
                assert(tail[i - 1].0 == key);
            }
        }
    }
}

/// Decodes every named entry of an object with `f`, keeping names and
/// order; the first failing entry, in document order, fails the whole
/// object.
pub open spec fn entries_decode<V>(
    fs: Seq<(Seq<char>, JsonV)>,
    f: spec_fn(JsonV) -> Result<V, Error>,
) -> Result<Seq<(Seq<char>, V)>, Error>
    decreases fs.len(),
{
    if fs.len() == 0 {
        Ok(Seq::empty())
    } else {
        match entries_decode(fs.drop_last(), f) {
            Err(e) => Err(e),
            Ok(out) => match f(fs.last().1) {
                Err(e) => Err(e),
                Ok(v) => Ok(out.push((fs.last().0, v))),
            },
        }
    }
}

/// One failing entry, with everything before it good, fails the whole
/// object with that entry's error.
pub proof fn lemma_entries_decode_err<V>(
    fs: Seq<(Seq<char>, JsonV)>,
    f: spec_fn(JsonV) -> Result<V, Error>,
    i: int,
)
    requires
        0 <= i < fs.len(),
        entries_decode(fs.take(i), f) is Ok,
        f(fs[i].1) is Err,
    ensures
        entries_decode(fs, f) == Err::<Seq<(Seq<char>, V)>, Error>(f(fs[i].1)->Err_0),
    decreases fs.len(),
{
    if i == fs.len() - 1 {
        assert(fs.take(i) =~= fs.drop_last());
    } else {
        assert(fs.drop_last().take(i) =~= fs.take(i));
        assert(fs.drop_last()[i] == fs[i]);
        lemma_entries_decode_err(fs.drop_last(), f, i);
    }
}

/// Decodes every element of an array with `f`; the first failing
/// element fails the whole array.
pub open spec fn elems_decode<V>(s: Seq<JsonV>, f: spec_fn(JsonV) -> Result<V, Error>) -> Result<
    Seq<V>,
    Error,
>
    decreases s.len(),
{
    if s.len() == 0 {
        Ok(Seq::empty())
    } else {
        match elems_decode(s.drop_last(), f) {
            Err(e) => Err(e),
            Ok(out) => match f(s.last()) {
                Err(e) => Err(e),
                Ok(v) => Ok(out.push(v)),
            },
        }
    }
}

/// One failing element, with everything before it good, fails the whole
/// array with that element's error.
pub proof fn lemma_elems_decode_err<V>(s: Seq<JsonV>, f: spec_fn(JsonV) -> Result<V, Error>, i: int)
    requires
        0 <= i < s.len(),
        elems_decode(s.take(i), f) is Ok,
        f(s[i]) is Err,
    ensures
        elems_decode(s, f) == Err::<Seq<V>, Error>(f(s[i])->Err_0),
    decreases s.len(),
{
    if i == s.len() - 1 {
        assert(s.take(i) =~= s.drop_last());
    } else {
        assert(s.drop_last().take(i) =~= s.take(i));
        assert(s.drop_last()[i] == s[i]);
        lemma_elems_decode_err(s.drop_last(), f, i);
    }
}

/// String equality, stated over the character sequences.
pub fn str_eq(a: &str, b: &str) -> (r: bool)
    ensures
        r == (a@ == b@),
{
    let sa: String = a.to_owned();
    let sb: String = b.to_owned();
    sa == sb
}

/// Looks a key up among an object's fields; the first binding wins.
pub fn json_obj_get<'a>(fields: &'a Vec<(String, Json)>, key: &str) -> (r: Option<&'a Json>)
    ensures
        match r {
            Some(j) => assoc_get(obj_model(fields@), key@) == Some(j@),
            None => assoc_get(obj_model(fields@), key@) is None,
        },
{
    proof {
        lemma_obj_model_len(fields@);
    }
    let ghost m = obj_model(fields@);
    let mut i: usize = 0;
    while i < fields.len()
        invariant
            0 <= i <= fields.len(),
            m == obj_model(fields@),
            m.len() == fields@.len(),
            forall|k: int| 0 <= k < i ==> m[k].0 != key@,
        decreases fields.len() - i,
    {
        proof {
            lemma_obj_model_index(fields@, i as int);
        }
        if str_eq(fields[i].0.as_str(), key) {
            proof {
                lemma_assoc_get_skip(m, key@, i as int);
                assert(m.skip(i as int)[0] == m[i as int]);
            }
            return Some(&fields[i].1);
        }
        i += 1;
    }
    proof {
        lemma_assoc_get_skip(m, key@, fields@.len() as int);
        assert(m.skip(m.len() as int) =~= Seq::<(Seq<char>, JsonV)>::empty());
    }
    None
}

} // verus!
