use vstd::prelude::*;

verus! {

broadcast use
    vstd::std_specs::vec::axiom_vec_index_decreases,
    vstd::std_specs::vec::axiom_vec_decreases_to_view,
    vstd::seq::axiom_seq_index_decreases;

/// The mathematical shape of a JSON document.  Numbers appear in two forms,
/// as the wire protocol distinguishes them: `Int` for numbers that are whole
/// and fit a signed 64-bit integer, `Num` for any other numeric literal,
/// carried as its textual form.
#[verifier::ext_equal]
pub enum Jv {
    Null,
    Bool(bool),
    Int(int),
    Num(Seq<char>),
    Str(Seq<char>),
    Arr(Seq<Jv>),
    Obj(Seq<(Seq<char>, Jv)>),
}

/// A JSON document, as the dispatcher and the codec handle it.  Its view is
/// the corresponding `Jv`.
pub enum JsonValue {
    Null,
    Bool(bool),
    Int(i64),
    Num(String),
    Str(String),
    Arr(Vec<JsonValue>),
    Obj(Vec<(String, JsonValue)>),
}

/// The `Jv` that a `JsonValue` denotes.
pub open spec fn jv_of(v: JsonValue) -> Jv
    decreases v,
    via jv_of_decreases
{
    match v {
        JsonValue::Null => Jv::Null,
        JsonValue::Bool(b) => Jv::Bool(b),
        JsonValue::Int(i) => Jv::Int(i as int),
        JsonValue::Num(s) => Jv::Num(s@),
        JsonValue::Str(s) => Jv::Str(s@),
        JsonValue::Arr(a) => Jv::Arr(jv_of_seq(a@)),
        JsonValue::Obj(o) => Jv::Obj(jv_of_fields(o@)),
    }
}

/// The views of a sequence of JSON documents, element by element.
pub open spec fn jv_of_seq(s: Seq<JsonValue>) -> Seq<Jv>
    decreases s,
{
    if s.len() == 0 {
        Seq::empty()
    } else {
        jv_of_seq(s.subrange(0, s.len() - 1)).push(jv_of(s[s.len() - 1]))
    }
}

/// The views of an object's fields, pair by pair.
pub open spec fn jv_of_fields(s: Seq<(String, JsonValue)>) -> Seq<(Seq<char>, Jv)>
    decreases s,
    via jv_of_fields_decreases
{
    if s.len() == 0 {
        Seq::empty()
    } else {
        jv_of_fields(s.subrange(0, s.len() - 1)).push(
            (s[s.len() - 1].0@, jv_of(s[s.len() - 1].1)),
        )
    }
}

#[via_fn]
proof fn jv_of_decreases(v: JsonValue) {
    if v is Arr {
        assert(decreases_to!(v => v->Arr_0));
        assert(decreases_to!(v->Arr_0 => v->Arr_0@));
    }
    if v is Obj {
        assert(decreases_to!(v => v->Obj_0));
        assert(decreases_to!(v->Obj_0 => v->Obj_0@));
    }
}

#[via_fn]
proof fn jv_of_fields_decreases(s: Seq<(String, JsonValue)>) {
    if s.len() > 0 {
        assert(decreases_to!(s => s[s.len() - 1]));
        assert(decreases_to!(s[s.len() - 1] => s[s.len() - 1].1));
    }
}

impl View for JsonValue {
    type V = Jv;

    open spec fn view(&self) -> Jv {
        jv_of(*self)
    }
}

/// `jv_of_seq` maps the view over the elements.
pub proof fn lemma_jv_of_seq(s: Seq<JsonValue>)
    ensures
        jv_of_seq(s).len() == s.len(),
        forall|i: int| 0 <= i < s.len() ==> jv_of_seq(s)[i] == jv_of(#[trigger] s[i]),
    decreases s.len(),
{
    if s.len() > 0 {
        let sub = s.subrange(0, s.len() - 1);
        lemma_jv_of_seq(sub);
        assert forall|i: int| 0 <= i < s.len() implies jv_of_seq(s)[i] == jv_of(
            #[trigger] s[i],
        ) by {
            if i < s.len() - 1 {
                assert(sub[i] == s[i]);
                assert(jv_of_seq(s)[i] == jv_of_seq(sub)[i]);
            }
        }
    }
}

/// `jv_of_fields` maps the views over the pairs.
pub proof fn lemma_jv_of_fields(s: Seq<(String, JsonValue)>)
    ensures
        jv_of_fields(s).len() == s.len(),
        forall|i: int|
            0 <= i < s.len() ==> jv_of_fields(s)[i] == ((#[trigger] s[i]).0@, jv_of(s[i].1)),
    decreases s.len(),
{
    if s.len() > 0 {
        let sub = s.subrange(0, s.len() - 1);
        lemma_jv_of_fields(sub);
        assert forall|i: int| 0 <= i < s.len() implies jv_of_fields(s)[i] == ((
        #[trigger] s[i]).0@, jv_of(s[i].1)) by {
            if i < s.len() - 1 {
                assert(sub[i] == s[i]);
                assert(jv_of_fields(s)[i] == jv_of_fields(sub)[i]);
            }
        }
    }
}

/// The value under the first occurrence of `key` in an object's fields,
/// searching from position `i`.
pub open spec fn obj_get_from(fields: Seq<(Seq<char>, Jv)>, key: Seq<char>, i: int) -> Option<Jv>
    decreases fields.len() - i,
{
    if i < 0 || i >= fields.len() {
        None
    } else if fields[i].0 == key {
        Some(fields[i].1)
    } else {
        obj_get_from(fields, key, i + 1)
    }
}

/// The value under the first occurrence of `key`, or `None` when the key is
/// absent.
pub open spec fn obj_get(fields: Seq<(Seq<char>, Jv)>, key: Seq<char>) -> Option<Jv> {
    obj_get_from(fields, key, 0)
}

/// A hit at position `i`, with no hit before it, settles the lookup.
pub proof fn lemma_obj_get_hit(fields: Seq<(Seq<char>, Jv)>, key: Seq<char>, i: int)
    requires
        0 <= i < fields.len(),
        fields[i].0 == key,
        forall|j: int| 0 <= j < i ==> fields[j].0 != key,
    ensures
        obj_get(fields, key) == Some(fields[i].1),
{
    lemma_obj_get_from_hit(fields, key, 0, i);
}

proof fn lemma_obj_get_from_hit(fields: Seq<(Seq<char>, Jv)>, key: Seq<char>, lo: int, i: int)
    requires
        0 <= lo <= i < fields.len(),
        fields[i].0 == key,
        forall|j: int| lo <= j < i ==> fields[j].0 != key,
    ensures
        obj_get_from(fields, key, lo) == Some(fields[i].1),
    decreases i - lo,
{
    if lo < i {
        lemma_obj_get_from_hit(fields, key, lo + 1, i);
    }
}

/// When no field carries `key`, the lookup misses.
pub proof fn lemma_obj_get_miss(fields: Seq<(Seq<char>, Jv)>, key: Seq<char>)
    requires
        forall|j: int| 0 <= j < fields.len() ==> fields[j].0 != key,
    ensures
        obj_get(fields, key) is None,
{
    lemma_obj_get_from_miss(fields, key, 0);
}

proof fn lemma_obj_get_from_miss(fields: Seq<(Seq<char>, Jv)>, key: Seq<char>, lo: int)
    requires
        0 <= lo,
        forall|j: int| lo <= j < fields.len() ==> fields[j].0 != key,
    ensures
        obj_get_from(fields, key, lo) is None,
    decreases fields.len() - lo,
{
    if lo < fields.len() {
        lemma_obj_get_from_miss(fields, key, lo + 1);
    }
}

/// Finds the first field whose key is `key`, if any.
pub fn obj_find(fields: &Vec<(String, JsonValue)>, key: &String) -> (r: Option<usize>)
    ensures
        match r {
            Some(i) => 0 <= i < fields@.len() && fields@[i as int].0@ == key@ && (forall|j: int|
                0 <= j < i ==> fields@[j].0@ != key@),
            None => forall|j: int| 0 <= j < fields@.len() ==> fields@[j].0@ != key@,
        },
{
    let mut i: usize = 0;
    while i < fields.len()
        invariant
            0 <= i <= fields@.len(),
            forall|j: int| 0 <= j < i ==> fields@[j].0@ != key@,
        decreases fields@.len() - i,
    {
        if fields[i].0.eq(key) {
            return Some(i);
        }
        i = i + 1;
    }
    None
}

/// Looks `key` up among an object's fields, as `obj_get` does on the view.
pub fn obj_lookup<'a>(fields: &'a Vec<(String, JsonValue)>, key: &String) -> (r: Option<
    &'a JsonValue,
>)
    ensures
        match r {
            Some(v) => obj_get(jv_of_fields(fields@), key@) == Some(v@),
            None => obj_get(jv_of_fields(fields@), key@) is None,
        },
{
    proof {
        lemma_jv_of_fields(fields@);
    }
    match obj_find(fields, key) {
        Some(i) => {
            proof {
                let vf = jv_of_fields(fields@);
                assert forall|j: int| 0 <= j < i implies vf[j].0 != key@ by {
                    assert(fields@[j].0@ != key@);
                }
                assert(vf[i as int].0 == key@);
                lemma_obj_get_hit(vf, key@, i as int);
            }
            Some(&fields[i].1)
        },
        None => {
            proof {
                let vf = jv_of_fields(fields@);
                assert forall|j: int| 0 <= j < vf.len() implies vf[j].0 != key@ by {
                    assert(fields@[j].0@ != key@);
                }
                lemma_obj_get_miss(vf, key@);
            }
            None
        },
    }
}

/// An exact structural copy; the original and the copy denote the same `Jv`.
pub fn deep_copy(v: &JsonValue) -> (r: JsonValue)
    ensures
        r@ == v@,
    decreases *v,
{
    match v {
        JsonValue::Null => JsonValue::Null,
        JsonValue::Bool(b) => JsonValue::Bool(*b),
        JsonValue::Int(i) => JsonValue::Int(*i),
        JsonValue::Num(s) => JsonValue::Num(s.clone()),
        JsonValue::Str(s) => JsonValue::Str(s.clone()),
        JsonValue::Arr(a) => {
            proof {
                assert(decreases_to!(*v => (*v)->Arr_0));
                assert(decreases_to!((*v)->Arr_0 => (*v)->Arr_0@));
            }
            let mut out: Vec<JsonValue> = Vec::new();
            let mut i: usize = 0;
            while i < a.len()
                invariant
                    0 <= i <= a@.len(),
                    out@.len() == i,
                    decreases_to!(*v => a@),
                    forall|j: int| 0 <= j < i ==> jv_of(out@[j]) == jv_of(#[trigger] a@[j]),
                decreases a@.len() - i,
            {
                proof {
                    assert(decreases_to!(a@ => a@[i as int]));
                }
                let c = deep_copy(&a[i]);
                out.push(c);
                i = i + 1;
            }
            let r = JsonValue::Arr(out);
            proof {
                lemma_jv_of_seq(out@);
                lemma_jv_of_seq(a@);
                assert forall|j: int| 0 <= j < out@.len() implies jv_of_seq(out@)[j] == jv_of_seq(
                    a@,
                )[j] by {
                    assert(jv_of(out@[j]) == jv_of(a@[j]));
                }
                assert(jv_of_seq(out@) =~= jv_of_seq(a@));
            }
            r
        },
        JsonValue::Obj(o) => {
            proof {
                assert(decreases_to!(*v => (*v)->Obj_0));
                assert(decreases_to!((*v)->Obj_0 => (*v)->Obj_0@));
            }
            let mut out: Vec<(String, JsonValue)> = Vec::new();
            let mut i: usize = 0;
            while i < o.len()
                invariant
                    0 <= i <= o@.len(),
                    out@.len() == i,
                    decreases_to!(*v => o@),
                    forall|j: int|
                        0 <= j < i ==> out@[j].0@ == (#[trigger] o@[j]).0@ && jv_of(out@[j].1)
                            == jv_of(o@[j].1),
                decreases o@.len() - i,
            {
                proof {
                    assert(decreases_to!(o@ => o@[i as int]));
                    assert(decreases_to!(o@[i as int] => o@[i as int].1));
                }
                let k = o[i].0.clone();
                let c = deep_copy(&o[i].1);
                out.push((k, c));
                i = i + 1;
            }
            let r = JsonValue::Obj(out);
            proof {
                lemma_jv_of_fields(out@);
                lemma_jv_of_fields(o@);
                assert forall|j: int|
                    0 <= j < out@.len() implies jv_of_fields(out@)[j] == jv_of_fields(o@)[j] by {
                    assert(out@[j].0@ == o@[j].0@ && jv_of(out@[j].1) == jv_of(o@[j].1));
                }
                assert(jv_of_fields(out@) =~= jv_of_fields(o@));
            }
            r
        },
    }
}

} // verus!
