//! JSON documents as the library handles them.
//!
//! `JsonValue` mirrors `serde_json::Value` with plain fields: numbers keep
//! the integer interpretations that serde_json distinguishes and, for
//! non-integral numbers, the text serde_json renders for them. Objects keep
//! their members in order. `JsonModel` is the ghost view used in contracts.

use vstd::prelude::*;

verus! {

/// A JSON number: a non-negative integer, a negative integer, or another
/// number given by its JSON text.
pub enum JsonNumber {
    PosInt(u64),
    NegInt(i64),
    Float(String),
}

/// A JSON value.
pub enum JsonValue {
    Null,
    Bool(bool),
    Number(JsonNumber),
    String(String),
    Array(Vec<JsonValue>),
    Object(Vec<(String, JsonValue)>),
}

/// The view of a `JsonNumber`.
pub enum NumberModel {
    PosInt(u64),
    NegInt(i64),
    Float(Seq<char>),
}

/// The view of a `JsonValue`.
pub enum JsonModel {
    Null,
    Bool(bool),
    Number(NumberModel),
    String(Seq<char>),
    Array(Seq<JsonModel>),
    Object(Seq<(Seq<char>, JsonModel)>),
}

impl JsonNumber {
    pub open spec fn model(self) -> NumberModel {
        match self {
            JsonNumber::PosInt(u) => NumberModel::PosInt(u),
            JsonNumber::NegInt(i) => NumberModel::NegInt(i),
            JsonNumber::Float(s) => NumberModel::Float(s@),
        }
    }
}

impl JsonValue {
    pub open spec fn model(self) -> JsonModel
        decreases self,
    {
        match self {
            JsonValue::Null => JsonModel::Null,
            JsonValue::Bool(b) => JsonModel::Bool(b),
            JsonValue::Number(n) => JsonModel::Number(n.model()),
            JsonValue::String(s) => JsonModel::String(s@),
            JsonValue::Array(v) => JsonModel::Array(
                Seq::new(
                    v@.len(),
                    |i: int|
                        if 0 <= i < v@.len() {
                            v@[i].model()
                        } else {
                            JsonModel::Null
                        },
                ),
            ),
            JsonValue::Object(e) => JsonModel::Object(
                Seq::new(
                    e@.len(),
                    |i: int|
                        if 0 <= i < e@.len() {
                            (e@[i].0@, e@[i].1.model())
                        } else {
                            (Seq::<char>::empty(), JsonModel::Null)
                        },
                ),
            ),
        }
    }
}

/// The value stored under `key` among object members: the first member
/// with that key.
pub open spec fn lookup(entries: Seq<(Seq<char>, JsonModel)>, key: Seq<char>) -> Option<JsonModel>
    decreases entries.len(),
{
    if entries.len() == 0 {
        None
    } else if entries[0].0 == key {
        Some(entries[0].1)
    } else {
        lookup(entries.drop_first(), key)
    }
}

/// `value[key]` for an object, nothing for any other value.
pub open spec fn model_get(m: JsonModel, key: Seq<char>) -> Option<JsonModel> {
    match m {
        JsonModel::Object(entries) => lookup(entries, key),
        _ => None,
    }
}

/// `model_get` on an optional value.
pub open spec fn opt_get(m: Option<JsonModel>, key: Seq<char>) -> Option<JsonModel> {
    match m {
        Some(v) => model_get(v, key),
        None => None,
    }
}

/// The text of a JSON string.
pub open spec fn model_as_str(m: JsonModel) -> Option<Seq<char>> {
    match m {
        JsonModel::String(s) => Some(s),
        _ => None,
    }
}

/// `model_as_str` on an optional value.
pub open spec fn opt_str(m: Option<JsonModel>) -> Option<Seq<char>> {
    match m {
        Some(v) => model_as_str(v),
        None => None,
    }
}

/// The text of a JSON string, or `default` for anything else.
pub open spec fn str_or(m: Option<JsonModel>, default: Seq<char>) -> Seq<char> {
    match opt_str(m) {
        Some(s) => s,
        None => default,
    }
}

/// A number read as `u64`, as serde_json's `as_u64` does.
pub open spec fn model_as_u64(m: JsonModel) -> Option<u64> {
    match m {
        JsonModel::Number(NumberModel::PosInt(u)) => Some(u),
        _ => None,
    }
}

/// `model_as_u64` on an optional value.
pub open spec fn opt_u64(m: Option<JsonModel>) -> Option<u64> {
    match m {
        Some(v) => model_as_u64(v),
        None => None,
    }
}

/// A number read as `i64`, as serde_json's `as_i64` does.
pub open spec fn model_as_i64(m: JsonModel) -> Option<i64> {
    match m {
        JsonModel::Number(NumberModel::PosInt(u)) => if u <= i64::MAX {
            Some(u as i64)
        } else {
            None
        },
        JsonModel::Number(NumberModel::NegInt(i)) => Some(i),
        _ => None,
    }
}

/// `model_as_i64` on an optional value.
pub open spec fn opt_i64(m: Option<JsonModel>) -> Option<i64> {
    match m {
        Some(v) => model_as_i64(v),
        None => None,
    }
}

/// The value of a JSON boolean.
pub open spec fn model_as_bool(m: JsonModel) -> Option<bool> {
    match m {
        JsonModel::Bool(b) => Some(b),
        _ => None,
    }
}

/// The elements of a JSON array.
pub open spec fn model_as_array(m: JsonModel) -> Option<Seq<JsonModel>> {
    match m {
        JsonModel::Array(a) => Some(a),
        _ => None,
    }
}

/// `model_as_array` on an optional value.
pub open spec fn opt_array(m: Option<JsonModel>) -> Option<Seq<JsonModel>> {
    match m {
        Some(v) => model_as_array(v),
        None => None,
    }
}

/// Whether the value is a JSON object.
pub open spec fn model_is_object(m: JsonModel) -> bool {
    m is Object
}

/// Object members after `value[key] = val`: the first member with that key
/// gets the new value, or the member is appended.
pub open spec fn set_member(entries: Seq<(Seq<char>, JsonModel)>, key: Seq<char>, val: JsonModel)
    -> Seq<(Seq<char>, JsonModel)>
    decreases entries.len(),
{
    if entries.len() == 0 {
        seq![(key, val)]
    } else if entries[0].0 == key {
        entries.update(0, (key, val))
    } else {
        seq![entries[0]] + set_member(entries.drop_first(), key, val)
    }
}

/// After `value[key] = val`, the key reads back `val` and every other key
/// reads what it read before.
pub proof fn law_set_then_get(
    entries: Seq<(Seq<char>, JsonModel)>,
    key: Seq<char>,
    val: JsonModel,
    other: Seq<char>,
)
    ensures
        lookup(set_member(entries, key, val), key) == Some(val),
        other != key ==> lookup(set_member(entries, key, val), other) == lookup(entries, other),
    decreases entries.len(),
{
    if entries.len() > 0 && entries[0].0 != key {
        law_set_then_get(entries.drop_first(), key, val, other);
        let r = set_member(entries, key, val);
        assert(r[0] == entries[0]);
        assert(r.drop_first() =~= set_member(entries.drop_first(), key, val));
        if other != key {
            if entries[0].0 == other {
                assert(lookup(r, other) == Some(entries[0].1));
            } else {
                assert(lookup(r, other) == lookup(r.drop_first(), other));
                assert(lookup(entries, other) == lookup(entries.drop_first(), other));
            }
        }
    } else if entries.len() > 0 {
        let r = set_member(entries, key, val);
        assert(r[0] == (key, val));
        assert(r.drop_first() =~= entries.drop_first());
        if other != key {
            assert(lookup(r, other) == lookup(r.drop_first(), other));
        }
    } else {
        let r = set_member(entries, key, val);
        assert(r =~= seq![(key, val)]);
        assert(r.drop_first() =~= Seq::<(Seq<char>, JsonModel)>::empty());
    }
}

impl JsonNumber {
    /// A copy of the number.
    pub fn duplicate(&self) -> (r: JsonNumber)
        ensures
            r.model() == self.model(),
    {
        match self {
            JsonNumber::PosInt(u) => JsonNumber::PosInt(*u),
            JsonNumber::NegInt(i) => JsonNumber::NegInt(*i),
            JsonNumber::Float(s) => JsonNumber::Float(s.clone()),
        }
    }
}

impl JsonValue {
    /// A JSON string value.
    pub fn string(s: String) -> (r: JsonValue)
        ensures
            r.model() == JsonModel::String(s@),
    {
        JsonValue::String(s)
    }

    /// A deep copy of the value.
    #[verifier::loop_isolation(false)]
    pub fn duplicate(&self) -> (r: JsonValue)
        ensures
            r.model() == self.model(),
        decreases self,
    {
        match self {
            JsonValue::Null => JsonValue::Null,
            JsonValue::Bool(b) => JsonValue::Bool(*b),
            JsonValue::Number(n) => JsonValue::Number(n.duplicate()),
            JsonValue::String(s) => JsonValue::String(s.clone()),
            JsonValue::Array(v) => {
                let mut out: Vec<JsonValue> = Vec::new();
                let mut i: usize = 0;
                while i < v.len()
                    invariant
                        i <= v@.len(),
                        out@.len() == i,
                        forall|k: int| 0 <= k < i ==> #[trigger] out@[k].model() == v@[k].model(),
                    decreases v@.len() - i,
                {
                    assert(decreases_to!(*v => v[i as int]));
                    let c = v[i].duplicate();
                    out.push(c);
                    i = i + 1;
                }
                let r = JsonValue::Array(out);
                assert forall|k: int| 0 <= k < v@.len() implies r.model()->Array_0[k]
                    == self.model()->Array_0[k] by {
                    assert(out@[k].model() == v@[k].model());
                }
                assert(r.model()->Array_0 =~= self.model()->Array_0);
                r
            },
            JsonValue::Object(e) => {
                let mut out: Vec<(String, JsonValue)> = Vec::new();
                let mut i: usize = 0;
                while i < e.len()
                    invariant
                        i <= e@.len(),
                        out@.len() == i,
                        forall|k: int| #![trigger out@[k]]
                            0 <= k < i ==> out@[k].0@ == e@[k].0@ && out@[k].1.model()
                                == e@[k].1.model(),
                    decreases e@.len() - i,
                {
                    assert(decreases_to!(*e => e[i as int]));
                    let c = e[i].1.duplicate();
                    let name = e[i].0.clone();
                    out.push((name, c));
                    assert(out@[i as int].0@ == e@[i as int].0@);
                    i = i + 1;
                }
                let r = JsonValue::Object(out);
                assert forall|k: int| 0 <= k < e@.len() implies r.model()->Object_0[k]
                    == self.model()->Object_0[k] by {
                    assert(out@[k].0@ == e@[k].0@ && out@[k].1.model() == e@[k].1.model());
                }
                assert(r.model()->Object_0 =~= self.model()->Object_0);
                r
            },
        }
    }

    /// `self[key]`: the member of an object with that key.
    #[verifier::loop_isolation(false)]
    pub fn get(&self, key: &str) -> (r: Option<&JsonValue>)
        ensures
            match r {
                Some(v) => model_get(self.model(), key@) == Some(v.model()),
                None => model_get(self.model(), key@) is None,
            },
    {
        match self {
            JsonValue::Object(e) => {
                let ghost entries = self.model()->Object_0;
                assert(entries.subrange(0, entries.len() as int) =~= entries);
                let mut i: usize = 0;
                while i < e.len()
                    invariant
                        i <= e@.len(),
                        entries.len() == e@.len(),
                        forall|k: int|
                            0 <= k < e@.len() ==> #[trigger] entries[k] == (
                                e@[k].0@,
                                e@[k].1.model(),
                            ),
                        lookup(entries, key@) == lookup(entries.subrange(i as int, entries.len() as int), key@),
                    decreases e@.len() - i,
                {
                    let ghost rest = entries.subrange(i as int, entries.len() as int);
                    assert(rest[0] == entries[i as int]);
                    assert(rest.drop_first() =~= entries.subrange(i + 1, entries.len() as int));
                    if crate::text::str_eq(e[i].0.as_str(), key) {
                        return Some(&e[i].1);
                    }
                    i = i + 1;
                }
                None
            },
            _ => None,
        }
    }

    /// The text of a JSON string.
    pub fn as_str(&self) -> (r: Option<&str>)
        ensures
            match r {
                Some(s) => model_as_str(self.model()) == Some(s@),
                None => model_as_str(self.model()) is None,
            },
    {
        match self {
            JsonValue::String(s) => Some(s.as_str()),
            _ => None,
        }
    }

    /// The number as `u64` (non-negative integers only).
    pub fn as_u64(&self) -> (r: Option<u64>)
        ensures
            r == model_as_u64(self.model()),
    {
        match self {
            JsonValue::Number(JsonNumber::PosInt(u)) => Some(*u),
            _ => None,
        }
    }

    /// The number as `i64` (integers within range only).
    pub fn as_i64(&self) -> (r: Option<i64>)
        ensures
            r == model_as_i64(self.model()),
    {
        match self {
            JsonValue::Number(JsonNumber::PosInt(u)) => {
                if *u <= 9223372036854775807u64 {
                    Some(*u as i64)
                } else {
                    None
                }
            },
            JsonValue::Number(JsonNumber::NegInt(i)) => Some(*i),
            _ => None,
        }
    }

    /// The value of a JSON boolean.
    pub fn as_bool(&self) -> (r: Option<bool>)
        ensures
            r == model_as_bool(self.model()),
    {
        match self {
            JsonValue::Bool(b) => Some(*b),
            _ => None,
        }
    }

    /// The elements of a JSON array.
    pub fn as_array(&self) -> (r: Option<&Vec<JsonValue>>)
        ensures
            match r {
                Some(v) => model_as_array(self.model()) == Some(
                    Seq::new(v@.len(), |i: int| v@[i].model()),
                ),
                None => model_as_array(self.model()) is None,
            },
    {
        match self {
            JsonValue::Array(v) => {
                assert(self.model()->Array_0 =~= Seq::new(v@.len(), |i: int| v@[i].model()));
                Some(v)
            },
            _ => None,
        }
    }

    /// Whether the value is a JSON object.
    pub fn is_object(&self) -> (r: bool)
        ensures
            r == model_is_object(self.model()),
    {
        match self {
            JsonValue::Object(_) => true,
            _ => false,
        }
    }

    /// `self[key] = val` on an object; any other value first becomes an empty
    /// object, as serde_json's index assignment on `null` does.
    #[verifier::loop_isolation(false)]
    #[verifier::rlimit(40)]
    pub fn set(&mut self, key: String, val: JsonValue)
        requires
            old(self).model() is Object || old(self).model() is Null,
        ensures
            final(self).model() == JsonModel::Object(
                set_member(
                    match old(self).model() {
                        JsonModel::Object(e) => e,
                        _ => Seq::empty(),
                    },
                    key@,
                    val.model(),
                ),
            ),
    {
        let ghost before = match self.model() {
            JsonModel::Object(e) => e,
            _ => Seq::<(Seq<char>, JsonModel)>::empty(),
        };
        let mut taken = JsonValue::Null;
        std::mem::swap(&mut taken, self);
        let mut entries: Vec<(String, JsonValue)> = match taken {
            JsonValue::Object(e) => e,
            _ => Vec::new(),
        };
        proof {
            assert(before.len() == entries@.len());
            assert(forall|k: int| 0 <= k < entries@.len() ==> #[trigger] before[k] == (entries@[k].0@, entries@[k].1.model()));
        }
        let ghost target = set_member(before, key@, val.model());
        assert(before.subrange(0, before.len() as int) =~= before);
        assert(before.subrange(0, 0) + target =~= target);
        let mut i: usize = 0;
        while i < entries.len()
            invariant
                i <= entries@.len(),
                before.len() == entries@.len(),
                forall|k: int| 0 <= k < entries@.len() ==> #[trigger] before[k] == (entries@[k].0@, entries@[k].1.model()),
                forall|k: int| 0 <= k < i ==> #[trigger] before[k].0 != key@,
                target == before.subrange(0, i as int) + set_member(before.subrange(i as int, before.len() as int), key@, val.model()),
            decreases entries@.len() - i,
        {
            let ghost rest = before.subrange(i as int, before.len() as int);
            assert(rest[0] == before[i as int]);
            assert(rest.drop_first() =~= before.subrange(i + 1, before.len() as int));
            if crate::text::str_eq(entries[i].0.as_str(), key.as_str()) {
                let ghost vm = val.model();
                let ghost k2 = key@;
                entries.set(i, (key, val));
                let r = JsonValue::Object(entries);
                assert(target =~= before.update(i as int, (k2, vm)));
                assert forall|k: int| 0 <= k < before.len() implies r.model()->Object_0[k] == target[k] by {
                    if k != i {
                        assert(before[k] == (entries@[k].0@, entries@[k].1.model()));
                    }
                }
                assert(r.model()->Object_0 =~= target);
                *self = r;
                return;
            }
            assert(before.subrange(0, i + 1) =~= before.subrange(0, i as int).push(before[i as int]));
            i = i + 1;
        }
        let ghost vm = val.model();
        let ghost k2 = key@;
        assert(before.subrange(i as int, before.len() as int) =~= Seq::<(Seq<char>, JsonModel)>::empty());
        assert(target =~= before.push((k2, vm)));
        entries.push((key, val));
        let r = JsonValue::Object(entries);
        assert forall|k: int| 0 <= k < target.len() implies r.model()->Object_0[k] == target[k] by {
            if k < before.len() {
                assert(before[k] == (entries@[k].0@, entries@[k].1.model()));
            }
        }
        assert(r.model()->Object_0 =~= target);
        *self = r;
    }
}


/// The number under an optional value read as `u64`, or 0.
pub open spec fn u64_or_zero(m: Option<JsonModel>) -> u64 {
    match opt_u64(m) {
        Some(n) => n,
        None => 0,
    }
}

impl JsonValue {
    /// `self[key]` as a string, or `default` where it is missing or not a
    /// string.
    pub fn get_str_or(&self, key: &str, default: &str) -> (r: String)
        ensures
            r@ == str_or(model_get(self.model(), key@), default@),
    {
        match self.get(key) {
            Some(v) => match v.as_str() {
                Some(s) => crate::text::owned(s),
                None => crate::text::owned(default),
            },
            None => crate::text::owned(default),
        }
    }

    /// `self[key]` as `u64`, or 0 where it is missing or not such a number.
    pub fn get_u64_or_zero(&self, key: &str) -> (r: u64)
        ensures
            r == u64_or_zero(model_get(self.model(), key@)),
    {
        match self.get(key) {
            Some(v) => match v.as_u64() {
                Some(n) => n,
                None => 0,
            },
            None => 0,
        }
    }
}

/// The JSON number for a signed integer, as serde_json makes it: negative
/// integers are `NegInt`, the others `PosInt`.
pub open spec fn int_model(i: i64) -> JsonModel {
    if i < 0 {
        JsonModel::Number(NumberModel::NegInt(i))
    } else {
        JsonModel::Number(NumberModel::PosInt(i as u64))
    }
}

/// The models of a list of object members.
pub open spec fn members_model(v: Seq<(String, JsonValue)>) -> Seq<(Seq<char>, JsonModel)> {
    v.map_values(|e: (String, JsonValue)| (e.0@, e.1.model()))
}

impl JsonValue {
    /// The JSON number for a signed integer.
    pub fn from_i64(i: i64) -> (r: JsonValue)
        ensures
            r.model() == int_model(i),
    {
        if i < 0 {
            JsonValue::Number(JsonNumber::NegInt(i))
        } else {
            JsonValue::Number(JsonNumber::PosInt(i as u64))
        }
    }

    /// The JSON number for an unsigned integer.
    pub fn from_u64(u: u64) -> (r: JsonValue)
        ensures
            r.model() == JsonModel::Number(NumberModel::PosInt(u)),
    {
        JsonValue::Number(JsonNumber::PosInt(u))
    }

    /// A JSON string holding a copy of `s`.
    pub fn from_str(s: &str) -> (r: JsonValue)
        ensures
            r.model() == JsonModel::String(s@),
    {
        JsonValue::String(crate::text::owned(s))
    }

    /// A JSON object with the given members, in order.
    pub fn object(members: Vec<(String, JsonValue)>) -> (r: JsonValue)
        ensures
            r.model() == JsonModel::Object(members_model(members@)),
    {
        let r = JsonValue::Object(members);
        assert(r.model()->Object_0 =~= members_model(members@));
        r
    }

    /// `self[key]` copied out, or `null` where it is missing.
    pub fn get_or_null(&self, key: &str) -> (r: JsonValue)
        ensures
            r.model() == match model_get(self.model(), key@) {
                Some(v) => v,
                None => JsonModel::Null,
            },
    {
        match self.get(key) {
            Some(v) => v.duplicate(),
            None => JsonValue::Null,
        }
    }
}

} // verus!
