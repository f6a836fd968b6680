//! The structured wire value: what a record becomes before a transport writes
//! it out, and what a transport hands back for decoding. A value is a string,
//! an unsigned integer, a decimal number, a boolean, an array, or an object of
//! key-value members. Optional record fields that are absent put no member in
//! the object at all.

use crate::decimal::Decimal;
use vstd::prelude::*;

verus! {

broadcast use vstd::std_specs::vec::axiom_vec_index_decreases;

/// The mathematical face of a wire value.
pub enum JVal {
    Str(Seq<char>),
    UInt(u64),
    Dec(Decimal),
    Bool(bool),
    Arr(Seq<JVal>),
    Obj(Seq<(Seq<char>, JVal)>),
}

/// One key-value member of a wire object.
pub struct JsonMember {
    pub key: String,
    pub value: JsonValue,
}

/// A structured wire value.
pub enum JsonValue {
    Str(String),
    UInt(u64),
    Dec(Decimal),
    Bool(bool),
    Arr(Vec<JsonValue>),
    Obj(Vec<JsonMember>),
}

/// The mathematical value of a wire value.
pub open spec fn jval_of(v: JsonValue) -> JVal
    decreases v,
{
    match v {
        JsonValue::Str(s) => JVal::Str(s@),
        JsonValue::UInt(n) => JVal::UInt(n),
        JsonValue::Dec(d) => JVal::Dec(d),
        JsonValue::Bool(b) => JVal::Bool(b),
        JsonValue::Arr(vs) => JVal::Arr(
            Seq::new(
                vs@.len(),
                |i: int|
                    if 0 <= i < vs@.len() {
                        jval_of(vs[i])
                    } else {
                        arbitrary()
                    },
            ),
        ),
        JsonValue::Obj(ms) => JVal::Obj(
            Seq::new(
                ms@.len(),
                |i: int|
                    if 0 <= i < ms@.len() {
                        (ms[i].key@, jval_of(ms[i].value))
                    } else {
                        arbitrary()
                    },
            ),
        ),
    }
}

impl View for JsonValue {
    type V = JVal;

    open spec fn view(&self) -> JVal {
        jval_of(*self)
    }
}

/// The first value standing under a key in a member list, front to back.
pub open spec fn lookup(ps: Seq<(Seq<char>, JVal)>, key: Seq<char>) -> Option<JVal>
    decreases ps.len(),
{
    if ps.len() == 0 {
        None
    } else if ps[0].0 == key {
        Some(ps[0].1)
    } else {
        lookup(ps.skip(1), key)
    }
}

/// Character-for-character string equality.
pub fn str_eq(a: &str, b: &str) -> (r: bool)
    ensures
        r == (a@ == b@),
{
    let n = a.unicode_len();
    let m = b.unicode_len();
    if n != m {
        return false;
    }
    let mut i: usize = 0;
    while i < n
        invariant
            0 <= i <= n,
            n == a@.len(),
            n == b@.len(),
            forall|j: int| 0 <= j < i ==> a@[j] == b@[j],
        decreases n - i,
    {
        if a.get_char(i) != b.get_char(i) {
            return false;
        }
        i = i + 1;
    }
    proof {
        assert(a@ =~= b@);
    }
    true
}

/// Finds the first member under a key; `None` exactly when no member carries it.
pub fn obj_get<'a>(ms: &'a Vec<JsonMember>, key: &str) -> (r: Option<&'a JsonValue>)
    ensures
        match r {
            Some(v) => lookup(members_view(ms@), key@) == Some(v@),
            None => lookup(members_view(ms@), key@) is None,
        },
{
    let n = ms.len();
    proof {
        assert(members_view(ms@).skip(0) =~= members_view(ms@));
    }
    let mut i: usize = 0;
    while i < n
        invariant
            0 <= i <= n,
            n == ms@.len(),
            lookup(members_view(ms@), key@) == lookup(members_view(ms@).skip(i as int), key@),
        decreases n - i,
    {
        let hit = str_eq(ms[i].key.as_str(), key);
        proof {
            let mv = members_view(ms@);
            assert(mv.skip(i as int)[0] == mv[i as int]);
            assert(mv.skip(i as int).skip(1) =~= mv.skip(i + 1));
        }
        if hit {
            return Some(&ms[i].value);
        }
        i = i + 1;
    }
    proof {
        assert(members_view(ms@).skip(n as int) =~= Seq::<(Seq<char>, JVal)>::empty());
    }
    None
}

/// The member list of an object, viewed as key-value pairs.
pub open spec fn members_view(ms: Seq<JsonMember>) -> Seq<(Seq<char>, JVal)> {
    Seq::new(ms.len(), |i: int| (ms[i].key@, ms[i].value@))
}

/// The elements of an array, viewed.
pub open spec fn elems_view(vs: Seq<JsonValue>) -> Seq<JVal> {
    Seq::new(vs.len(), |i: int| vs[i]@)
}

/// Unfolds the view of an object or array value over the plainer maps above.
pub proof fn lemma_view_unfold(v: &JsonValue)
    ensures
        v matches JsonValue::Obj(ms) ==> v@ == JVal::Obj(members_view(ms@)),
        v matches JsonValue::Arr(vs) ==> v@ == JVal::Arr(elems_view(vs@)),
{
    reveal_with_fuel(jval_of, 2);
    match v {
        JsonValue::Obj(ms) => {
            assert(v@ is Obj);
            assert(v@->Obj_0 =~= members_view(ms@));
        },
        JsonValue::Arr(vs) => {
            assert(v@ is Arr);
            let s = v@->Arr_0;
            assert forall|i: int| 0 <= i < vs@.len() implies s[i] == #[trigger] elems_view(vs@)[i] by {
                assert(s[i] == vs@[i]@);
            }
            assert(s =~= elems_view(vs@));
        },
        _ => {},
    }
}

} // verus!
