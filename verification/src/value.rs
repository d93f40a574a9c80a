//! The structured-text primitives that notebook documents are layered on:
//! a tree of objects, arrays, strings, integers, booleans and null, together
//! with its mathematical model and the object-member lookup used by decoding.
use vstd::prelude::*;

verus! {

/// A structured-text value. Object members keep their insertion order;
/// lookup takes the first member with a matching key.
#[derive(Debug, PartialEq)]
pub enum JsonValue {
    Null,
    Bool(bool),
    Int(i64),
    Str(String),
    Arr(Vec<JsonValue>),
    Obj(Vec<(String, JsonValue)>),
}

/// The mathematical model of a `JsonValue`.
pub enum JsonModel {
    Null,
    Bool(bool),
    Int(i64),
    Str(Seq<char>),
    Arr(Seq<JsonModel>),
    Obj(Seq<(Seq<char>, JsonModel)>),
}

/// The shape of a structured-text value, as named by mismatch errors.
#[derive(Debug, Clone, Copy, PartialEq, Eq, Structural)]
pub enum Shape {
    Null,
    Bool,
    Int,
    Str,
    Arr,
    Obj,
}

pub open spec fn shape_of(m: JsonModel) -> Shape {
    match m {
        JsonModel::Null => Shape::Null,
        JsonModel::Bool(_) => Shape::Bool,
        JsonModel::Int(_) => Shape::Int,
        JsonModel::Str(_) => Shape::Str,
        JsonModel::Arr(_) => Shape::Arr,
        JsonModel::Obj(_) => Shape::Obj,
    }
}

pub open spec fn json_model(v: JsonValue) -> JsonModel
    decreases v,
{
    match v {
        JsonValue::Null => JsonModel::Null,
        JsonValue::Bool(b) => JsonModel::Bool(b),
        JsonValue::Int(i) => JsonModel::Int(i),
        JsonValue::Str(s) => JsonModel::Str(s@),
        JsonValue::Arr(items) => JsonModel::Arr(seq_model(items@)),
        JsonValue::Obj(pairs) => JsonModel::Obj(obj_model(pairs@)),
    }
}

pub open spec fn seq_model(s: Seq<JsonValue>) -> Seq<JsonModel>
    decreases s,
{
    if s.len() == 0 {
        Seq::empty()
    } else {
        seq_model(s.drop_last()).push(json_model(s.last()))
    }
}

pub open spec fn obj_model(s: Seq<(String, JsonValue)>) -> Seq<(Seq<char>, JsonModel)>
    decreases s,
{
    if s.len() == 0 {
        Seq::empty()
    } else {
        obj_model(s.drop_last()).push((s.last().0@, json_model(s.last().1)))
    }
}

impl View for JsonValue {
    type V = JsonModel;

    open spec fn view(&self) -> JsonModel {
        json_model(*self)
    }
}

pub proof fn lemma_seq_model_len(s: Seq<JsonValue>)
    ensures
        seq_model(s).len() == s.len(),
    decreases s.len(),
{
    if s.len() > 0 {
        lemma_seq_model_len(s.drop_last());
    }
}

pub proof fn lemma_seq_model_index(s: Seq<JsonValue>, i: int)
    requires
        0 <= i < s.len(),
    ensures
        seq_model(s).len() == s.len(),
        seq_model(s)[i] == json_model(s[i]),
    decreases s.len(),
{
    lemma_seq_model_len(s);
    lemma_seq_model_len(s.drop_last());
    if i < s.len() - 1 {
        lemma_seq_model_index(s.drop_last(), i);
    }
}

/// Extending a decoded prefix by one element.
pub proof fn lemma_seq_model_snoc(s: Seq<JsonValue>, i: int)
    requires
        0 <= i < s.len(),
    ensures
        seq_model(s.subrange(0, i + 1)) == seq_model(s.subrange(0, i)).push(json_model(s[i])),
{
    let a = s.subrange(0, i + 1);
    assert(a.drop_last() =~= s.subrange(0, i));
    assert(a.last() == s[i]);
}

pub proof fn lemma_obj_model_len(s: Seq<(String, JsonValue)>)
    ensures
        obj_model(s).len() == s.len(),
    decreases s.len(),
{
    if s.len() > 0 {
        lemma_obj_model_len(s.drop_last());
    }
}

pub proof fn lemma_obj_model_index(s: Seq<(String, JsonValue)>, i: int)
    requires
        0 <= i < s.len(),
    ensures
        obj_model(s).len() == s.len(),
        obj_model(s)[i] == (s[i].0@, json_model(s[i].1)),
    decreases s.len(),
{
    lemma_obj_model_len(s);
    lemma_obj_model_len(s.drop_last());
    if i < s.len() - 1 {
        lemma_obj_model_index(s.drop_last(), i);
    }
}

pub proof fn lemma_obj_model_snoc(s: Seq<(String, JsonValue)>, i: int)
    requires
        0 <= i < s.len(),
    ensures
        obj_model(s.subrange(0, i + 1)) == obj_model(s.subrange(0, i)).push(
            (s[i].0@, json_model(s[i].1)),
        ),
{
    let a = s.subrange(0, i + 1);
    assert(a.drop_last() =~= s.subrange(0, i));
    assert(a.last() == s[i]);
}

/// Modelling commutes with appending one element.
pub proof fn lemma_seq_model_push(s: Seq<JsonValue>, v: JsonValue)
    ensures
        seq_model(s.push(v)) == seq_model(s).push(json_model(v)),
{
    assert(s.push(v).drop_last() =~= s);
    assert(s.push(v).last() == v);
}

pub proof fn lemma_obj_model_push(s: Seq<(String, JsonValue)>, p: (String, JsonValue))
    ensures
        obj_model(s.push(p)) == obj_model(s).push((p.0@, json_model(p.1))),
{
    assert(s.push(p).drop_last() =~= s);
    assert(s.push(p).last() == p);
}

/// Modelling commutes with taking a prefix.
pub proof fn lemma_seq_model_subrange(s: Seq<JsonValue>, i: int)
    requires
        0 <= i <= s.len(),
    ensures
        seq_model(s).subrange(0, i) == seq_model(s.subrange(0, i)),
{
    lemma_seq_model_len(s);
    lemma_seq_model_len(s.subrange(0, i));
    let a = seq_model(s).subrange(0, i);
    let b = seq_model(s.subrange(0, i));
    assert forall|j: int| 0 <= j < i implies a[j] == b[j] by {
        lemma_seq_model_index(s, j);
        lemma_seq_model_index(s.subrange(0, i), j);
    }
    assert(a =~= b);
}

pub proof fn lemma_obj_model_subrange(s: Seq<(String, JsonValue)>, i: int)
    requires
        0 <= i <= s.len(),
    ensures
        obj_model(s).subrange(0, i) == obj_model(s.subrange(0, i)),
{
    lemma_obj_model_len(s);
    lemma_obj_model_len(s.subrange(0, i));
    let a = obj_model(s).subrange(0, i);
    let b = obj_model(s.subrange(0, i));
    assert forall|j: int| 0 <= j < i implies a[j] == b[j] by {
        lemma_obj_model_index(s, j);
        lemma_obj_model_index(s.subrange(0, i), j);
    }
    assert(a =~= b);
}

/// The first member of `o` whose key is `key`, if any.
pub open spec fn obj_lookup(o: Seq<(Seq<char>, JsonModel)>, key: Seq<char>) -> Option<JsonModel>
    decreases o.len(),
{
    if o.len() == 0 {
        None
    } else if o[0].0 == key {
        Some(o[0].1)
    } else {
        obj_lookup(o.drop_first(), key)
    }
}

pub proof fn lemma_obj_lookup_skip(o: Seq<(Seq<char>, JsonModel)>, key: Seq<char>, i: int)
    requires
        0 <= i <= o.len(),
        forall|j: int| 0 <= j < i ==> o[j].0 != key,
    ensures
        obj_lookup(o, key) == obj_lookup(o.skip(i), key),
    decreases i,
{
    if i > 0 {
        lemma_obj_lookup_skip(o.drop_first(), key, i - 1);
        assert(o.drop_first().skip(i - 1) =~= o.skip(i));
    } else {
        assert(o.skip(0) =~= o);
    }
}

pub proof fn lemma_obj_lookup_absent(o: Seq<(Seq<char>, JsonModel)>, key: Seq<char>)
    requires
        forall|j: int| 0 <= j < o.len() ==> o[j].0 != key,
    ensures
        obj_lookup(o, key) is None,
{
    lemma_obj_lookup_skip(o, key, o.len() as int);
    assert(o.skip(o.len() as int) =~= Seq::<(Seq<char>, JsonModel)>::empty());
}

/// Equality of two string slices, by their character sequences.
pub fn str_eq(a: &str, b: &str) -> (r: bool)
    ensures
        r == (a@ == b@),
{
    a.to_owned() == b.to_owned()
}

impl JsonValue {
    /// The first member of this object with the given key, if this value is
    /// an object and such a member exists.
    pub fn get_member<'a>(&'a self, key: &str) -> (r: Option<&'a JsonValue>)
        requires
            self@ is Obj,
        ensures
            match r {
                Some(w) => obj_lookup(self@->Obj_0, key@) == Some(w@),
                None => obj_lookup(self@->Obj_0, key@) is None,
            },
    {
        match self {
            JsonValue::Obj(pairs) => obj_get(pairs, key),
            _ => None,
        }
    }
}

/// The first member of `pairs` with the given key, if any.
pub fn obj_get<'a>(pairs: &'a Vec<(String, JsonValue)>, key: &str) -> (r: Option<&'a JsonValue>)
    ensures
        match r {
            Some(w) => obj_lookup(obj_model(pairs@), key@) == Some(w@),
            None => obj_lookup(obj_model(pairs@), key@) is None,
        },
{
    proof {
        lemma_obj_model_len(pairs@);
    }
    let ghost o = obj_model(pairs@);
    let mut i: usize = 0;
    while i < pairs.len()
        invariant
            0 <= i <= pairs.len(),
            o == obj_model(pairs@),
            o.len() == pairs@.len(),
            forall|j: int| 0 <= j < i ==> o[j].0 != key@,
        decreases pairs.len() - i,
    {
        proof {
            lemma_obj_model_index(pairs@, i as int);
        }
        if str_eq(pairs[i].0.as_str(), key) {
            proof {
                lemma_obj_lookup_skip(o, key@, i as int);
                assert(o.skip(i as int)[0] == o[i as int]);
            }
            return Some(&pairs[i].1);
        }
        i = i + 1;
    }
    proof {
        lemma_obj_lookup_skip(o, key@, i as int);
        assert(o.skip(i as int) =~= Seq::<(Seq<char>, JsonModel)>::empty());
    }
    None
}

} // verus!
