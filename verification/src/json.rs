//! A JSON document model with exact contracts, used for every request body and
//! every reply that this crate builds.

use vstd::prelude::*;

verus! {

/// `serde_json::Value`: JSON that comes from outside the crate (query parameters,
/// cells of result rows) and is carried through unread.
#[verifier::external_type_specification]
#[verifier::external_body]
pub struct ExOutsideJson(serde_json::Value);

/// A JSON value as the replies and requests of this crate build it.
///
/// Objects are lists of fields; a later field overrides an earlier one with the
/// same key, as inserting the fields in order into a JSON map would.
pub enum Json {
    Null,
    Bool(bool),
    UInt(u64),
    Str(String),
    Arr(Vec<Json>),
    Obj(Vec<(String, Json)>),
    /// A value produced outside the crate, kept as it is.
    Ext(serde_json::Value),
}

/// The mathematical model of a [`Json`] value.
pub enum Jv {
    Null,
    Bool(bool),
    UInt(nat),
    Str(Seq<char>),
    Arr(Seq<Jv>),
    Obj(Seq<(Seq<char>, Jv)>),
    Ext(serde_json::Value),
}

pub open spec fn jv_of(j: Json) -> Jv
    decreases j,
{
    match j {
        Json::Null => Jv::Null,
        Json::Bool(b) => Jv::Bool(b),
        Json::UInt(n) => Jv::UInt(n as nat),
        Json::Str(s) => Jv::Str(s@),
        Json::Arr(v) => Jv::Arr(
            Seq::new(v.len() as nat, |i: int| if 0 <= i < v.len() { jv_of(v[i]) } else { Jv::Null }),
        ),
        Json::Obj(v) => Jv::Obj(
            Seq::new(
                v.len() as nat,
                |i: int|
                    if 0 <= i < v.len() {
                        (v[i].0@, jv_of(v[i].1))
                    } else {
                        (Seq::empty(), Jv::Null)
                    },
            ),
        ),
        Json::Ext(x) => Jv::Ext(x),
    }
}

impl View for Json {
    type V = Jv;

    open spec fn view(&self) -> Jv {
        jv_of(*self)
    }
}

/// The map that a list of object fields denotes: the last field with a key wins.
pub open spec fn fields_map(fields: Seq<(Seq<char>, Jv)>) -> Map<Seq<char>, Jv>
    decreases fields.len(),
{
    if fields.len() == 0 {
        Map::empty()
    } else {
        fields_map(fields.drop_last()).insert(fields.last().0, fields.last().1)
    }
}

/// `j` is a JSON object whose fields denote the map `m`.
pub open spec fn is_obj(j: Jv, m: Map<Seq<char>, Jv>) -> bool {
    j is Obj && fields_map(j->Obj_0) == m
}

/// The map of fields of `j`, empty when `j` is not an object.
pub open spec fn obj_of(j: Jv) -> Map<Seq<char>, Jv> {
    match j {
        Jv::Obj(f) => fields_map(f),
        _ => Map::empty(),
    }
}

/// The field `k` of `j`, when `j` is an object that has it.
pub open spec fn field(j: Jv, k: Seq<char>) -> Option<Jv> {
    if j is Obj && obj_of(j).dom().contains(k) {
        Some(obj_of(j)[k])
    } else {
        None
    }
}

/// The array of JSON strings for a sequence of texts.
pub open spec fn str_arr(s: Seq<Seq<char>>) -> Jv {
    Jv::Arr(s.map_values(|t: Seq<char>| Jv::Str(t)))
}

proof fn lemma_fields_push(f: Seq<(Seq<char>, Jv)>, k: Seq<char>, v: Jv)
    ensures
        fields_map(f.push((k, v))) == fields_map(f).insert(k, v),
{
    assert(f.push((k, v)).drop_last() =~= f);
}

proof fn lemma_obj_view_push(
    old_fields: Vec<(String, Json)>,
    new_fields: Vec<(String, Json)>,
    k: String,
    v: Json,
)
    requires
        new_fields@ == old_fields@.push((k, v)),
    ensures
        jv_of(Json::Obj(new_fields))->Obj_0 =~= (jv_of(Json::Obj(old_fields))->Obj_0).push(
            (k@, jv_of(v)),
        ),
{
}

impl Json {
    /// The empty JSON object `{}`.
    pub fn empty_obj() -> (res: Json)
        ensures
            is_obj(res@, Map::empty()),
            res@ == Jv::Obj(Seq::empty()),
    {
        let res = Json::Obj(Vec::new());
        assert(res@->Obj_0 =~= Seq::empty());
        res
    }

    /// The JSON string holding `s`.
    pub fn text(s: &str) -> (res: Json)
        ensures
            res@ == Jv::Str(s@),
    {
        Json::Str(String::from_str(s))
    }

    /// Sets field `k` of the object `self` to `v`, as `self[k] = v` does on a JSON map.
    pub fn set(&mut self, k: &str, v: Json)
        requires
            old(self)@ is Obj,
        ensures
            final(self)@ is Obj,
            obj_of(final(self)@) == obj_of(old(self)@).insert(k@, v@),
            final(self)@ == Jv::Obj(old(self)@->Obj_0.push((k@, v@))),
    {
        let key = String::from_str(k);
        match self {
            Json::Obj(fields) => {
                let ghost old_fields = *fields;
                let ghost kv = (key, v);
                fields.push((key, v));
                proof {
                    lemma_obj_view_push(old_fields, *fields, kv.0, kv.1);
                    lemma_fields_push(jv_of(Json::Obj(old_fields))->Obj_0, k@, kv.1@);
                }
            },
            _ => {},
        }
    }
}

/// What `serde_json::Value::from(o)` returns for an optional boolean: `null`
/// for `None`, the boolean for `Some`.
pub uninterp spec fn opt_bool_value(o: Option<bool>) -> serde_json::Value;

/// What `serde_json::Value::from(n)` returns for an unsigned number.
pub uninterp spec fn u64_value(n: u64) -> serde_json::Value;

/// What `serde_json::Value::String(s)` is.
pub uninterp spec fn string_value(s: Seq<char>) -> serde_json::Value;

/// What `serde_json::Value::Array(items)` is.
pub uninterp spec fn array_value(items: Seq<serde_json::Value>) -> serde_json::Value;

/// What `serde_json::Value::Object` of the fields collected in order into a
/// `serde_json::Map` is.
pub uninterp spec fn object_value(fields: Seq<(Seq<char>, serde_json::Value)>) -> serde_json::Value;

/// `serde_json::Value::from(o)` for an optional boolean (`Value::Null` for
/// `None`, `Value::Bool(b)` for `Some(b)`): the value named
/// [`opt_bool_value`] of `o`.
#[verifier::external_body]
fn outside_opt_bool(o: Option<bool>) -> (res: serde_json::Value)
    ensures
        res == opt_bool_value(o),
{
    serde_json::Value::from(o)
}

/// `serde_json::Value::from(n)`: the JSON number `n`.
#[verifier::external_body]
fn outside_u64(n: u64) -> (res: serde_json::Value)
    ensures
        res == u64_value(n),
{
    serde_json::Value::from(n)
}

/// `serde_json::Value::String(s)`.
#[verifier::external_body]
fn outside_string(s: String) -> (res: serde_json::Value)
    ensures
        res == string_value(s@),
{
    serde_json::Value::String(s)
}

/// `serde_json::Value::Array(items)`.
#[verifier::external_body]
fn outside_array(items: Vec<serde_json::Value>) -> (res: serde_json::Value)
    ensures
        res == array_value(items@),
{
    serde_json::Value::Array(items)
}

/// `serde_json::Value::Object` of the fields inserted in order into a
/// `serde_json::Map` (a later field with the same key replaces an earlier one).
#[verifier::external_body]
fn outside_object(fields: Vec<(String, serde_json::Value)>) -> (res: serde_json::Value)
    ensures
        res == object_value(fields@.map_values(|p: (String, serde_json::Value)| (p.0@, p.1))),
{
    serde_json::Value::Object(fields.into_iter().collect())
}

/// The `serde_json::Value` that a JSON value of this crate is written as:
/// built with the `serde_json` constructor of each kind of value, arrays and
/// objects from the values of their items in order, and outside values as they
/// are.
pub open spec fn value_of(j: Jv) -> serde_json::Value
    decreases j, 1int,
{
    match j {
        Jv::Null => opt_bool_value(None),
        Jv::Bool(b) => opt_bool_value(Some(b)),
        Jv::UInt(n) => u64_value(n as u64),
        Jv::Str(s) => string_value(s),
        Jv::Arr(items) => array_value(values_of(items)),
        Jv::Obj(fields) => object_value(field_values_of(fields)),
        Jv::Ext(x) => x,
    }
}

/// The values of the items of an array, in order.
pub open spec fn values_of(items: Seq<Jv>) -> Seq<serde_json::Value>
    decreases items, 0int,
{
    Seq::new(items.len(), |i: int| if 0 <= i < items.len() { value_of(items[i]) } else { opt_bool_value(None) })
}

/// The fields of an object with their values, in order.
pub open spec fn field_values_of(fields: Seq<(Seq<char>, Jv)>) -> Seq<(Seq<char>, serde_json::Value)>
    decreases fields, 0int,
{
    Seq::new(
        fields.len(),
        |i: int|
            if 0 <= i < fields.len() {
                (fields[i].0, value_of(fields[i].1))
            } else {
                (Seq::empty(), opt_bool_value(None))
            },
    )
}

/// `serde_json::Value::clone`: an equal value.
#[verifier::external_body]
pub(crate) fn outside_clone(v: &serde_json::Value) -> (res: serde_json::Value)
    ensures
        res == *v,
{
    v.clone()
}

impl Json {
    /// A copy of the value.
    pub fn duplicate(&self) -> (res: Json)
        ensures
            res@ == self@,
        decreases self,
    {
        match self {
            Json::Null => Json::Null,
            Json::Bool(b) => Json::Bool(*b),
            Json::UInt(n) => Json::UInt(*n),
            Json::Str(s) => Json::Str(s.clone()),
            Json::Arr(v) => {
                let mut items: Vec<Json> = Vec::new();
                let mut i: usize = 0;
                while i < v.len()
                    invariant
                        *self == Json::Arr(*v),
                        i <= v@.len(),
                        items@.len() == i,
                        forall|k: int| 0 <= k < i ==> (#[trigger] items@[k])@ == v@[k]@,
                    decreases v@.len() - i,
                {
                    proof {
                        vstd::std_specs::vec::axiom_vec_index_decreases(*v, i as int);
                        assert(decreases_to!(*self => (*self)->Arr_0));
                    }
                    items.push(v[i].duplicate());
                    i = i + 1;
                }
                let res = Json::Arr(items);
                assert(res@->Arr_0 =~= self@->Arr_0);
                res
            },
            Json::Obj(v) => {
                let mut fields: Vec<(String, Json)> = Vec::new();
                let mut i: usize = 0;
                while i < v.len()
                    invariant
                        *self == Json::Obj(*v),
                        i <= v@.len(),
                        fields@.len() == i,
                        forall|k: int| 0 <= k < i ==> (#[trigger] fields@[k]).0@ == v@[k].0@ && fields@[k].1@ == v@[k].1@,
                    decreases v@.len() - i,
                {
                    proof {
                        vstd::std_specs::vec::axiom_vec_index_decreases(*v, i as int);
                        assert(decreases_to!(*self => (*self)->Obj_0));
                        assert(decreases_to!(v[i as int] => v[i as int].1));
                    }
                    fields.push((v[i].0.clone(), v[i].1.duplicate()));
                    i = i + 1;
                }
                let res = Json::Obj(fields);
                assert(res@->Obj_0 =~= self@->Obj_0);
                res
            },
            Json::Ext(x) => Json::Ext(outside_clone(x)),
        }
    }

    /// The same JSON as a `serde_json::Value`, to be written out as text: the
    /// value that [`value_of`] describes.
    pub fn to_outside(&self) -> (res: serde_json::Value)
        ensures
            res == value_of(self@),
        decreases self,
    {
        match self {
            Json::Null => outside_opt_bool(None),
            Json::Bool(b) => outside_opt_bool(Some(*b)),
            Json::UInt(n) => outside_u64(*n),
            Json::Str(s) => outside_string(s.clone()),
            Json::Arr(v) => {
                let ghost a = self@->Arr_0;
                let mut items: Vec<serde_json::Value> = Vec::new();
                let mut i: usize = 0;
                while i < v.len()
                    invariant
                        *self == Json::Arr(*v),
                        a == self@->Arr_0,
                        a.len() == v@.len(),
                        i <= v@.len(),
                        items@.len() == i,
                        forall|k: int| 0 <= k < i ==> #[trigger] items@[k] == value_of(a[k]),
                    decreases v@.len() - i,
                {
                    proof {
                        vstd::std_specs::vec::axiom_vec_index_decreases(*v, i as int);
                        assert(decreases_to!(*self => (*self)->Arr_0));
                        assert(a[i as int] == v@[i as int]@);
                    }
                    items.push(v[i].to_outside());
                    i = i + 1;
                }
                assert(items@ =~= values_of(a));
                outside_array(items)
            },
            Json::Obj(v) => {
                let ghost o = self@->Obj_0;
                let mut fields: Vec<(String, serde_json::Value)> = Vec::new();
                let mut i: usize = 0;
                while i < v.len()
                    invariant
                        *self == Json::Obj(*v),
                        o == self@->Obj_0,
                        o.len() == v@.len(),
                        i <= v@.len(),
                        fields@.len() == i,
                        forall|k: int| 0 <= k < i ==> (#[trigger] fields@[k]).0@ == o[k].0 && fields@[k].1 == value_of(o[k].1),
                    decreases v@.len() - i,
                {
                    proof {
                        vstd::std_specs::vec::axiom_vec_index_decreases(*v, i as int);
                        assert(decreases_to!(*self => (*self)->Obj_0));
                        assert(decreases_to!(v[i as int] => v[i as int].1));
                        assert(o[i as int] == (v@[i as int].0@, v@[i as int].1@));
                    }
                    fields.push((v[i].0.clone(), v[i].1.to_outside()));
                    i = i + 1;
                }
                assert(fields@.map_values(|p: (String, serde_json::Value)| (p.0@, p.1)) =~= field_values_of(o));
                outside_object(fields)
            },
            Json::Ext(x) => outside_clone(x),
        }
    }
}

/// Law: after `o[k] = v`, reading field `k` gives back `v`, and every other field
/// reads as before.
pub proof fn law_set_then_read(o: Jv, o2: Jv, k: Seq<char>, v: Jv, k2: Seq<char>)
    requires
        o is Obj,
        o2 is Obj,
        obj_of(o2) == obj_of(o).insert(k, v),
    ensures
        field(o2, k) == Some(v),
        k2 != k ==> field(o2, k2) == field(o, k2),
{
}

} // verus!
