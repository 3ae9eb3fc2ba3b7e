use vstd::prelude::*;
use crate::text::{chars_of, string_of};

verus! {

/// Mathematical model of a JSON document.
#[verifier::ext_equal]
pub enum Json {
    Null,
    Bool(bool),
    Int(int),
    Float(Seq<char>),
    Str(Seq<char>),
    Array(Seq<Json>),
    Object(Seq<(Seq<char>, Json)>),
}

/// A JSON document held in memory.
#[derive(Debug)]
pub enum JsonValue {
    Null,
    Bool(bool),
    Int(i128),
    Float(String),
    Str(String),
    Array(Vec<JsonValue>),
    Object(Vec<(String, JsonValue)>),
}

pub open spec fn json_view(v: JsonValue) -> Json
    decreases v,
{
    match v {
        JsonValue::Null => Json::Null,
        JsonValue::Bool(b) => Json::Bool(b),
        JsonValue::Int(i) => Json::Int(i as int),
        JsonValue::Float(s) => Json::Float(s@),
        JsonValue::Str(s) => Json::Str(s@),
        JsonValue::Array(items) => Json::Array(items_view(items@)),
        JsonValue::Object(members) => Json::Object(members_view(members@)),
    }
}

pub open spec fn items_view(s: Seq<JsonValue>) -> Seq<Json>
    decreases s,
{
    if s.len() == 0 {
        Seq::empty()
    } else {
        items_view(s.drop_last()).push(json_view(s.last()))
    }
}

pub open spec fn members_view(s: Seq<(String, JsonValue)>) -> Seq<(Seq<char>, Json)>
    decreases s,
{
    if s.len() == 0 {
        Seq::empty()
    } else {
        members_view(s.drop_last()).push((s.last().0@, json_view(s.last().1)))
    }
}


pub proof fn lemma_items_view(s: Seq<JsonValue>)
    ensures
        items_view(s).len() == s.len(),
        forall|i: int| 0 <= i < s.len() ==> #[trigger] items_view(s)[i] == json_view(s[i]),
    decreases s.len(),
{
    if s.len() > 0 {
        lemma_items_view(s.drop_last());
    }
}

pub proof fn lemma_members_view(s: Seq<(String, JsonValue)>)
    ensures
        members_view(s).len() == s.len(),
        forall|i: int|
            0 <= i < s.len() ==> #[trigger] members_view(s)[i] == (s[i].0@, json_view(s[i].1)),
    decreases s.len(),
{
    if s.len() > 0 {
        lemma_members_view(s.drop_last());
    }
}

impl View for JsonValue {
    type V = Json;

    open spec fn view(&self) -> Json {
        json_view(*self)
    }
}

impl JsonValue {
    /// Returns a copy of this document.
    #[verifier::loop_isolation(false)]
    pub fn duplicate(&self) -> (r: JsonValue)
        ensures
            r@ == self@,
        decreases self,
    {
        match self {
            JsonValue::Null => JsonValue::Null,
            JsonValue::Bool(b) => JsonValue::Bool(*b),
            JsonValue::Int(i) => JsonValue::Int(*i),
            JsonValue::Float(s) => JsonValue::Float(s.clone()),
            JsonValue::Str(s) => JsonValue::Str(s.clone()),
            JsonValue::Array(items) => {
                let mut out: Vec<JsonValue> = Vec::new();
                let mut i: usize = 0;
                while i < items.len()
                    invariant
                        i <= items.len(),
                        items_view(out@) == items_view(items@.take(i as int)),
                    decreases items.len() - i,
                {
                    proof {
                        assert(decreases_to!(*self => items@[i as int]));
                    }
                    let c = items[i].duplicate();
                    proof {
                        assert(out@.push(c).drop_last() =~= out@);
                        assert(items@.take(i + 1).drop_last() =~= items@.take(i as int));
                    }
                    out.push(c);
                    i = i + 1;
                }
                proof {
                    assert(items@.take(items.len() as int) =~= items@);
                }
                JsonValue::Array(out)
            },
            JsonValue::Object(members) => {
                let mut out: Vec<(String, JsonValue)> = Vec::new();
                let mut i: usize = 0;
                while i < members.len()
                    invariant
                        i <= members.len(),
                        members_view(out@) == members_view(members@.take(i as int)),
                    decreases members.len() - i,
                {
                    let k = members[i].0.clone();
                    proof {
                        assert(decreases_to!(*self => members@[i as int].1));
                    }
                    let c = members[i].1.duplicate();
                    proof {
                        assert(out@.push((k, c)).drop_last() =~= out@);
                        assert(members@.take(i + 1).drop_last() =~= members@.take(i as int));
                    }
                    out.push((k, c));
                    i = i + 1;
                }
                proof {
                    assert(members@.take(members.len() as int) =~= members@);
                }
                JsonValue::Object(out)
            },
        }
    }
}


/// The model of an optional document.
pub open spec fn opt_json(o: Option<JsonValue>) -> Option<Json> {
    match o {
        Some(v) => Some(json_view(v)),
        None => None,
    }
}

/// The model of an optional borrowed document.
pub open spec fn opt_ref(o: Option<&JsonValue>) -> Option<Json> {
    match o {
        Some(v) => Some(json_view(*v)),
        None => None,
    }
}

/// Position of the first member named `k`, or `m.len()` when there is none.
pub open spec fn key_pos(m: Seq<(Seq<char>, Json)>, k: Seq<char>) -> nat
    decreases m.len(),
{
    if m.len() == 0 {
        0
    } else if m[0].0 == k {
        0
    } else {
        1 + key_pos(m.drop_first(), k)
    }
}

/// The value of member `k` of an object, if it has one.
pub open spec fn obj_get(m: Seq<(Seq<char>, Json)>, k: Seq<char>) -> Option<Json> {
    if key_pos(m, k) < m.len() {
        Some(m[key_pos(m, k) as int].1)
    } else {
        None
    }
}

/// The object `m` with member `k` set to `v`: an existing member keeps its place, a new one
/// goes last.
pub open spec fn obj_insert(m: Seq<(Seq<char>, Json)>, k: Seq<char>, v: Json) -> Seq<
    (Seq<char>, Json),
> {
    if key_pos(m, k) < m.len() {
        m.update(key_pos(m, k) as int, (k, v))
    } else {
        m.push((k, v))
    }
}

pub proof fn lemma_key_pos(m: Seq<(Seq<char>, Json)>, k: Seq<char>)
    ensures
        key_pos(m, k) <= m.len(),
        key_pos(m, k) < m.len() ==> m[key_pos(m, k) as int].0 == k,
        forall|j: int| 0 <= j < key_pos(m, k) ==> #[trigger] m[j].0 != k,
    decreases m.len(),
{
    if m.len() > 0 && m[0].0 != k {
        lemma_key_pos(m.drop_first(), k);
        assert forall|j: int| 0 <= j < key_pos(m, k) implies #[trigger] m[j].0 != k by {
            if j > 0 {
                assert(m[j] == m.drop_first()[j - 1]);
            }
        }
    }
}

pub proof fn lemma_key_pos_char(m: Seq<(Seq<char>, Json)>, k: Seq<char>, p: int)
    requires
        0 <= p <= m.len(),
        p < m.len() ==> m[p].0 == k,
        forall|j: int| 0 <= j < p ==> #[trigger] m[j].0 != k,
    ensures
        key_pos(m, k) == p,
    decreases m.len(),
{
    lemma_key_pos(m, k);
    if key_pos(m, k) < p {
        assert(m[key_pos(m, k) as int].0 == k);
    }
}

/// Member `k` of `j` when `j` is an object that has one.
pub open spec fn field(j: Json, k: Seq<char>) -> Option<Json> {
    match j {
        Json::Object(m) => obj_get(m, k),
        _ => None,
    }
}

/// Item `i` of `j` when `j` is an array that long.
pub open spec fn element(j: Json, i: int) -> Option<Json> {
    match j {
        Json::Array(items) => if 0 <= i < items.len() {
            Some(items[i])
        } else {
            None
        },
        _ => None,
    }
}

/// Looking a key up finds the first member that carries it.
pub proof fn lemma_obj_get_at(m: Seq<(Seq<char>, Json)>, k: Seq<char>, p: int)
    requires
        0 <= p < m.len(),
        m[p].0 == k,
        forall|j: int| 0 <= j < p ==> #[trigger] m[j].0 != k,
    ensures
        obj_get(m, k) == Some(m[p].1),
{
    lemma_key_pos_char(m, k, p);
}

/// Setting member `k` of an object makes `k` read back the new value and leaves every other
/// key reading as before.
pub proof fn lemma_obj_insert_get(m: Seq<(Seq<char>, Json)>, k: Seq<char>, v: Json, k2: Seq<char>)
    ensures
        obj_get(obj_insert(m, k, v), k2) == if k2 == k {
            Some(v)
        } else {
            obj_get(m, k2)
        },
{
    lemma_key_pos(m, k);
    lemma_key_pos(m, k2);
    let p = key_pos(m, k);
    let q = key_pos(m, k2);
    let m2 = obj_insert(m, k, v);
    if p < m.len() {
        assert(m2 == m.update(p as int, (k, v)));
        if k2 == k {
            lemma_key_pos_char(m2, k, p as int);
        } else {
            assert forall|j: int| 0 <= j < q implies #[trigger] m2[j].0 != k2 by {
                if j != p {
                    assert(m2[j] == m[j]);
                }
            }
            if q < m.len() {
                assert(q != p);
                assert(m2[q as int] == m[q as int]);
            }
            lemma_key_pos_char(m2, k2, q as int);
        }
    } else {
        assert(m2 == m.push((k, v)));
        if k2 == k {
            assert forall|j: int| 0 <= j < m.len() implies #[trigger] m2[j].0 != k by {
                assert(m2[j] == m[j]);
            }
            lemma_key_pos_char(m2, k, m.len() as int);
        } else if q < m.len() {
            assert forall|j: int| 0 <= j < q implies #[trigger] m2[j].0 != k2 by {
                assert(m2[j] == m[j]);
            }
            assert(m2[q as int] == m[q as int]);
            lemma_key_pos_char(m2, k2, q as int);
        } else {
            assert forall|j: int| 0 <= j < m2.len() implies #[trigger] m2[j].0 != k2 by {
                if j < m.len() {
                    assert(m2[j] == m[j]);
                }
            }
            lemma_key_pos_char(m2, k2, m2.len() as int);
        }
    }
}

/// Whether two strings hold the same characters.
pub fn same_text(a: &str, b: &str) -> (r: bool)
    ensures
        r == (a@ == b@),
{
    let x = chars_of(a);
    let y = chars_of(b);
    if x.len() != y.len() {
        return false;
    }
    let mut i: usize = 0;
    while i < x.len()
        invariant
            x@ == a@,
            y@ == b@,
            x.len() == y.len(),
            i <= x.len(),
            forall|j: int| 0 <= j < i ==> x@[j] == y@[j],
        decreases x.len() - i,
    {
        if x[i] != y[i] {
            return false;
        }
        i = i + 1;
    }
    proof {
        assert(x@ =~= y@);
    }
    true
}

/// Position of the first member named `key`, or the number of members.
pub fn find_member(members: &Vec<(String, JsonValue)>, key: &str) -> (i: usize)
    ensures
        i == key_pos(members_view(members@), key@),
{
    proof {
        lemma_members_view(members@);
    }
    let mut i: usize = 0;
    while i < members.len()
        invariant
            i <= members.len(),
            members_view(members@).len() == members.len(),
            forall|j: int|
                0 <= j < members.len() ==> #[trigger] members_view(members@)[j] == (
                    members@[j].0@,
                    json_view(members@[j].1),
                ),
            forall|j: int| 0 <= j < i ==> #[trigger] members_view(members@)[j].0 != key@,
        decreases members.len() - i,
    {
        if same_text(members[i].0.as_str(), key) {
            proof {
                lemma_key_pos_char(members_view(members@), key@, i as int);
            }
            return i;
        }
        i = i + 1;
    }
    proof {
        lemma_key_pos_char(members_view(members@), key@, i as int);
    }
    i
}

/// Sets member `key` of an object to `value`, as a map insert does.
pub fn object_insert(members: &mut Vec<(String, JsonValue)>, key: &str, value: JsonValue)
    ensures
        members_view(final(members)@) == obj_insert(members_view(old(members)@), key@, value@),
{
    let i = find_member(members, key);
    let k = String::from_str(key);
    proof {
        lemma_members_view(members@);
    }
    if i < members.len() {
        let ghost vv = value@;
        members.set(i, (k, value));
        proof {
            lemma_members_view(members@);
            assert(members_view(members@) =~= members_view(old(members)@).update(
                i as int,
                (key@, vv),
            ));
        }
    } else {
        members.push((k, value));
        proof {
            assert(members@.drop_last() =~= old(members)@);
        }
    }
}

/// A copy of an optional document.
pub fn copy_opt(o: &Option<JsonValue>) -> (r: Option<JsonValue>)
    ensures
        opt_json(r) == opt_json(*o),
{
    match o {
        Some(v) => Some(v.duplicate()),
        None => None,
    }
}

/// An optional string as an optional string document.
pub open spec fn opt_str(o: Option<String>) -> Option<Json> {
    match o {
        Some(s) => Some(Json::Str(s@)),
        None => None,
    }
}

/// A member `k: v` when there is a value, nothing otherwise.
pub open spec fn opt_member(k: Seq<char>, v: Option<Json>) -> Seq<(Seq<char>, Json)> {
    match v {
        Some(j) => seq![(k, j)],
        None => Seq::empty(),
    }
}

/// The members of an optional object; none when absent or not an object.
pub open spec fn object_members_or_empty(o: Option<Json>) -> Seq<(Seq<char>, Json)> {
    match o {
        Some(Json::Object(m)) => m,
        _ => Seq::empty(),
    }
}

/// Appends member `key: value`.
pub fn push_member(members: &mut Vec<(String, JsonValue)>, key: &str, value: JsonValue)
    ensures
        members_view(final(members)@) == members_view(old(members)@).push((key@, value@)),
{
    members.push((String::from_str(key), value));
    proof {
        assert(members@.drop_last() =~= old(members)@);
    }
}

/// Appends member `key: value` when there is a value.
pub fn push_opt_member(members: &mut Vec<(String, JsonValue)>, key: &str, value: Option<JsonValue>)
    ensures
        members_view(final(members)@) == members_view(old(members)@) + opt_member(key@, opt_json(value)),
{
    match value {
        Some(v) => {
            push_member(members, key, v);
            proof {
                assert(members_view(members@) =~= members_view(old(members)@) + opt_member(key@, opt_json(value)));
            }
        },
        None => {
            proof {
                assert(members_view(members@) =~= members_view(old(members)@) + opt_member(key@, opt_json(value)));
            }
        },
    }
}

/// A one-element array.
pub fn json_array1(v: JsonValue) -> (r: JsonValue)
    ensures
        r@ == Json::Array(seq![v@]),
{
    let mut items: Vec<JsonValue> = Vec::new();
    items.push(v);
    proof {
        assert(items@.drop_last() =~= Seq::<JsonValue>::empty());
        assert(items_view(Seq::<JsonValue>::empty()) =~= Seq::<Json>::empty());
        assert(items_view(items@) == items_view(items@.drop_last()).push(json_view(items@.last())));
        assert(items_view(items@) =~= seq![json_view(items@[0])]);
    }
    JsonValue::Array(items)
}

/// An optional string as a string document.
pub fn opt_json_str(o: &Option<String>) -> (r: Option<JsonValue>)
    ensures
        opt_json(r) == opt_str(*o),
{
    match o {
        Some(s) => Some(JsonValue::Str(s.clone())),
        None => None,
    }
}

/// A copy of the members of an optional object; none when absent or not an object.
pub fn copy_object_members(o: &Option<JsonValue>) -> (r: Vec<(String, JsonValue)>)
    ensures
        members_view(r@) == object_members_or_empty(opt_json(*o)),
{
    match o {
        Some(v) => {
            if let JsonValue::Object(_) = v {
                let c = v.duplicate();
                match c {
                    JsonValue::Object(m) => m,
                    _ => Vec::new(),
                }
            } else {
                let r: Vec<(String, JsonValue)> = Vec::new();
                proof {
                    assert(members_view(r@) =~= Seq::empty());
                }
                r
            }
        },
        None => {
            let r: Vec<(String, JsonValue)> = Vec::new();
            proof {
                assert(members_view(r@) =~= Seq::empty());
            }
            r
        },
    }
}

impl JsonValue {
    /// The value of member `key` when this is an object that has one.
    pub fn get(&self, key: &str) -> (r: Option<&JsonValue>)
        ensures
            opt_ref(r) == (match self@ {
                Json::Object(m) => obj_get(m, key@),
                _ => None,
            }),
    {
        match self {
            JsonValue::Object(members) => {
                let i = find_member(members, key);
                proof {
                    lemma_members_view(members@);
                }
                if i < members.len() {
                    Some(&members[i].1)
                } else {
                    None
                }
            },
            _ => None,
        }
    }

    /// Element `i` when this is an array that long.
    pub fn at(&self, i: usize) -> (r: Option<&JsonValue>)
        ensures
            opt_ref(r) == (match self@ {
                Json::Array(items) => if i < items.len() {
                    Some(items[i as int])
                } else {
                    None
                },
                _ => None,
            }),
    {
        match self {
            JsonValue::Array(items) => {
                proof {
                    lemma_items_view(items@);
                }
                if i < items.len() {
                    Some(&items[i])
                } else {
                    None
                }
            },
            _ => None,
        }
    }

    /// The text when this is a string document.
    pub fn as_str(&self) -> (r: Option<&str>)
        ensures
            match self@ {
                Json::Str(s) => r is Some && r->0@ == s,
                _ => r is None,
            },
    {
        match self {
            JsonValue::Str(s) => Some(s.as_str()),
            _ => None,
        }
    }
}

} // verus!
