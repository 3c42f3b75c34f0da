//! A JSON document model: the values that the stream of an agent session and
//! the plans written by the conductor are made of.
use crate::text::chars_of;
use vstd::prelude::*;

verus! {

/// A JSON number. Integers keep their exact value; a number with a fraction
/// is held as its integral part (rounded toward zero) and the nanoseconds of
/// its fractional part, which is as much of it as this crate reads.
#[derive(Clone, Copy, Debug, PartialEq, Eq, Structural)]
pub enum JsonNumber {
    PosInt(u64),
    NegInt(i64),
    Float { whole: i64, nanos: u32 },
}

/// A JSON value. Object members keep the order in which they were read.
#[derive(Debug)]
pub enum JsonValue {
    Null,
    Bool(bool),
    Number(JsonNumber),
    Str(String),
    Array(Vec<JsonValue>),
    Object(Vec<(String, JsonValue)>),
}

/// A JSON value as plain mathematical values.
pub ghost enum JsonView {
    Null,
    Bool(bool),
    Number(JsonNumber),
    Str(Seq<char>),
    Array(Seq<JsonView>),
    Object(Seq<(Seq<char>, JsonView)>),
}

/// The plain view of a JSON value.
pub open spec fn json_view(v: JsonValue) -> JsonView
    decreases v,
{
    match v {
        JsonValue::Null => JsonView::Null,
        JsonValue::Bool(b) => JsonView::Bool(b),
        JsonValue::Number(n) => JsonView::Number(n),
        JsonValue::Str(s) => JsonView::Str(s@),
        JsonValue::Array(a) => JsonView::Array(
            Seq::new(
                a@.len(),
                |i: int|
                    if 0 <= i < a@.len() {
                        json_view(a@[i])
                    } else {
                        JsonView::Null
                    },
            ),
        ),
        JsonValue::Object(m) => JsonView::Object(
            Seq::new(
                m@.len(),
                |i: int|
                    if 0 <= i < m@.len() {
                        (m@[i].0@, json_view(m@[i].1))
                    } else {
                        (Seq::empty(), JsonView::Null)
                    },
            ),
        ),
    }
}

impl View for JsonValue {
    type V = JsonView;

    open spec fn view(&self) -> JsonView {
        json_view(*self)
    }
}

/// Position of the first member of `fields` named `key`, or -1.
pub open spec fn member_pos(fields: Seq<(Seq<char>, JsonView)>, key: Seq<char>, n: int) -> int
    decreases n,
{
    if n <= 0 {
        -1
    } else if member_pos(fields, key, n - 1) >= 0 {
        member_pos(fields, key, n - 1)
    } else if fields[n - 1].0 == key {
        n - 1
    } else {
        -1
    }
}

/// The member `key` of an object, as `serde_json::Value::get` finds it.
pub open spec fn get(v: JsonView, key: Seq<char>) -> Option<JsonView> {
    match v {
        JsonView::Object(fields) => {
            let p = member_pos(fields, key, fields.len() as int);
            if p >= 0 {
                Some(fields[p].1)
            } else {
                None
            }
        },
        _ => None,
    }
}

/// The string inside `v`, if it is one.
pub open spec fn as_str(v: Option<JsonView>) -> Option<Seq<char>> {
    match v {
        Some(JsonView::Str(s)) => Some(s),
        _ => None,
    }
}

/// The boolean inside `v`, if it is one.
pub open spec fn as_bool(v: Option<JsonView>) -> Option<bool> {
    match v {
        Some(JsonView::Bool(b)) => Some(b),
        _ => None,
    }
}

/// The unsigned integer inside `v`, if it is one.
pub open spec fn as_u64(v: Option<JsonView>) -> Option<u64> {
    match v {
        Some(JsonView::Number(JsonNumber::PosInt(n))) => Some(n),
        _ => None,
    }
}

/// The elements of `v`, if it is an array.
pub open spec fn as_array(v: Option<JsonView>) -> Option<Seq<JsonView>> {
    match v {
        Some(JsonView::Array(a)) => Some(a),
        _ => None,
    }
}

/// Whether two strings are equal.
pub fn str_eq(a: &str, b: &str) -> (r: bool)
    ensures
        r == (a@ == b@),
{
    let ac = chars_of(a);
    let bc = chars_of(b);
    if ac.len() != bc.len() {
        return false;
    }
    let mut i: usize = 0;
    while i < ac.len()
        invariant
            i <= ac.len(),
            ac.len() == bc.len(),
            ac@ == a@,
            bc@ == b@,
            forall|k: int| 0 <= k < i ==> ac@[k] == bc@[k],
        decreases ac.len() - i,
    {
        if ac[i] != bc[i] {
            assert(ac@[i as int] != bc@[i as int]);
            return false;
        }
        i = i + 1;
    }
    assert(ac@ =~= bc@);
    true
}

impl JsonValue {
    /// The string inside this value, if it is one.
    pub fn as_str(&self) -> (r: Option<&str>)
        ensures
            match r {
                Some(s) => as_str(Some(self@)) == Some(s@),
                None => as_str(Some(self@)) is None,
            },
    {
        match self {
            JsonValue::Str(s) => Some(s.as_str()),
            _ => None,
        }
    }

    /// The boolean inside this value, if it is one.
    pub fn as_bool(&self) -> (r: Option<bool>)
        ensures
            r == as_bool(Some(self@)),
    {
        match self {
            JsonValue::Bool(b) => Some(*b),
            _ => None,
        }
    }

    /// The unsigned integer inside this value, if it is one.
    pub fn as_u64(&self) -> (r: Option<u64>)
        ensures
            r == as_u64(Some(self@)),
    {
        match self {
            JsonValue::Number(JsonNumber::PosInt(n)) => Some(*n),
            _ => None,
        }
    }

}


/// A copy of a JSON value.
pub fn copy_json(v: &JsonValue) -> (r: JsonValue)
    ensures
        r@ == v@,
    decreases v,
{
    match v {
        JsonValue::Null => JsonValue::Null,
        JsonValue::Bool(b) => JsonValue::Bool(*b),
        JsonValue::Number(n) => JsonValue::Number(*n),
        JsonValue::Str(s) => JsonValue::Str(s.clone()),
        JsonValue::Array(a) => {
            assert(forall|k: int| 0 <= k < a@.len() ==> decreases_to!(v => #[trigger] a@[k]));
            let mut out: Vec<JsonValue> = Vec::new();
            let mut i: usize = 0;
            while i < a.len()
                invariant
                    *v == JsonValue::Array(*a),
                    forall|k: int| 0 <= k < a@.len() ==> decreases_to!(v => #[trigger] a@[k]),
                    i <= a.len(),
                    out.len() == i,
                    forall|k: int| 0 <= k < i ==> (#[trigger] out@[k])@ == a@[k]@,
                decreases a.len() - i,
            {
                proof {
                    assert(decreases_to!(v => a@[i as int]));
                }
                out.push(copy_json(&a[i]));
                i = i + 1;
            }
            let r = JsonValue::Array(out);
            assert(r@->Array_0.len() == v@->Array_0.len());
            assert forall|k: int| 0 <= k < a@.len() implies r@->Array_0[k] == v@->Array_0[k] by {
                assert(out@[k]@ == a@[k]@);
            }
            assert(r@->Array_0 =~= v@->Array_0);
            r
        },
        JsonValue::Object(m) => {
            assert(forall|k: int| 0 <= k < m@.len() ==> decreases_to!(v => #[trigger] m@[k].1));
            let mut out: Vec<(String, JsonValue)> = Vec::new();
            let mut i: usize = 0;
            while i < m.len()
                invariant
                    *v == JsonValue::Object(*m),
                    forall|k: int| 0 <= k < m@.len() ==> decreases_to!(v => #[trigger] m@[k].1),
                    i <= m.len(),
                    out.len() == i,
                    forall|k: int|
                        0 <= k < i ==> (#[trigger] out@[k]).0@ == m@[k].0@ && out@[k].1@ == m@[k].1@,
                decreases m.len() - i,
            {
                proof {
                    assert(decreases_to!(v => m@[i as int].1));
                }
                let key = m[i].0.clone();
                let val = copy_json(&m[i].1);
                out.push((key, val));
                i = i + 1;
            }
            let r = JsonValue::Object(out);
            assert(r@->Object_0.len() == v@->Object_0.len());
            assert forall|k: int| 0 <= k < m@.len() implies r@->Object_0[k] == v@->Object_0[k] by {
                assert(out@[k].0@ == m@[k].0@ && out@[k].1@ == m@[k].1@);
            }
            assert(r@->Object_0 =~= v@->Object_0);
            r
        },
    }
}

/// The member `key` of this value, if it is an object that has one.
pub fn json_get<'a>(v: &'a JsonValue, key: &str) -> (r: Option<&'a JsonValue>)
    ensures
        match r {
            Some(x) => get(v@, key@) == Some(x@),
            None => get(v@, key@) is None,
        },
{
    match v {
        JsonValue::Object(fields) => {
            let ghost fv = Seq::new(
                fields@.len(),
                |i: int|
                    if 0 <= i < fields@.len() {
                        (fields@[i].0@, fields@[i].1@)
                    } else {
                        (Seq::<char>::empty(), JsonView::Null)
                    },
            );
            assert(v@->Object_0 =~= fv);
            let mut i: usize = 0;
            while i < fields.len()
                invariant
                    v@->Object_0 == fv,
                    v@ is Object,
                    i <= fields.len(),
                    fv.len() == fields@.len(),
                    forall|k: int| 0 <= k < fields@.len() ==> #[trigger] fv[k] == (fields@[k].0@, fields@[k].1@),
                    member_pos(fv, key@, i as int) == -1,
                decreases fields.len() - i,
            {
                if str_eq(fields[i].0.as_str(), key) {
                    assert(fv[i as int] == (fields@[i as int].0@, fields@[i as int].1@));
                    assert(member_pos(fv, key@, i + 1) == i);
                    proof {
                        lemma_member_pos_stable(fv, key@, i + 1, fv.len() as int);
                    }
                    return Some(&fields[i].1);
                }
                i = i + 1;
            }
            None
        },
        _ => None,
    }
}

proof fn lemma_member_pos_stable(fields: Seq<(Seq<char>, JsonView)>, key: Seq<char>, a: int, b: int)
    requires
        0 <= a <= b,
        member_pos(fields, key, a) >= 0,
    ensures
        member_pos(fields, key, b) == member_pos(fields, key, a),
    decreases b - a,
{
    if b > a {
        lemma_member_pos_stable(fields, key, a, b - 1);
    }
}

} // verus!
