//! Field-level codecs over wire objects: finding a key, reading a mandatory
//! or optional field in its wire shape, and the failure that each malformed
//! or absent field produces. Every helper has an exact contract: it returns
//! `Ok` on precisely the shapes it names, and the stated error otherwise.

use crate::decimal::Decimal;
use crate::decimal::spec_parse_decimal;
use crate::digits::all_digits;
use crate::digits::dec_of;
use crate::digits::dec_val;
use crate::digits::parse_u64_digits;
use crate::digits::u64_to_dec;
use crate::errors::DecodeError;
use crate::errors::ErrView;
use crate::json::JVal;
use crate::json::JsonMember;
use crate::json::JsonValue;
use crate::json::lookup;
use crate::json::members_view;
use crate::json::obj_get;
use crate::pubkey::Pubkey;
use crate::pubkey::PubkeyV;
use crate::pubkey::base58_dec;
use vstd::prelude::*;

verus! {

/// Whether some member of the list carries the key.
pub open spec fn has_key(ps: Seq<(Seq<char>, JVal)>, key: Seq<char>) -> bool {
    exists|i: int| 0 <= i < ps.len() && ps[i].0 == key
}

/// A list without the key yields nothing on lookup.
pub proof fn lemma_lookup_absent(ps: Seq<(Seq<char>, JVal)>, key: Seq<char>)
    requires
        !has_key(ps, key),
    ensures
        lookup(ps, key) is None,
    decreases ps.len(),
{
    if ps.len() > 0 {
        assert(ps[0].0 != key);
        assert(!has_key(ps.skip(1), key)) by {
            if has_key(ps.skip(1), key) {
                let i = choose|i: int| 0 <= i < ps.skip(1).len() && ps.skip(1)[i].0 == key;
                assert(ps[i + 1].0 == key);
            }
        }
        lemma_lookup_absent(ps.skip(1), key);
    }
}

/// Lookup over a concatenation reads the left part first.
pub proof fn lemma_lookup_split(a: Seq<(Seq<char>, JVal)>, b: Seq<(Seq<char>, JVal)>, key: Seq<char>)
    ensures
        lookup(a + b, key) == if has_key(a, key) {
            lookup(a, key)
        } else {
            lookup(b, key)
        },
        has_key(a + b, key) == (has_key(a, key) || has_key(b, key)),
    decreases a.len(),
{
    if a.len() == 0 {
        assert(a + b =~= b);
        assert(!has_key(a, key));
        assert(has_key(a + b, key) == has_key(b, key)) by {
            if has_key(b, key) {
                let i = choose|i: int| 0 <= i < b.len() && b[i].0 == key;
                assert((a + b)[i].0 == key);
            }
            if has_key(a + b, key) {
                let i = choose|i: int| 0 <= i < (a + b).len() && (a + b)[i].0 == key;
                assert(b[i].0 == key);
            }
        }
    } else {
        assert((a + b)[0] == a[0]);
        assert((a + b).skip(1) =~= a.skip(1) + b);
        lemma_lookup_split(a.skip(1), b, key);
        if a[0].0 == key {
            assert(has_key(a, key));
        } else {
            assert(has_key(a, key) == has_key(a.skip(1), key)) by {
                if has_key(a, key) {
                    let i = choose|i: int| 0 <= i < a.len() && a[i].0 == key;
                    assert(a.skip(1)[i - 1].0 == key);
                }
                if has_key(a.skip(1), key) {
                    let i = choose|i: int| 0 <= i < a.skip(1).len() && a.skip(1)[i].0 == key;
                    assert(a[i + 1].0 == key);
                }
            }
        }
    }
}

/// The member a field contributes: one pair when the value is there, nothing
/// when it is absent.
pub open spec fn opt_member(key: Seq<char>, v: Option<JVal>) -> Seq<(Seq<char>, JVal)> {
    match v {
        Some(x) => seq![(key, x)],
        None => Seq::empty(),
    }
}

/// What lookup sees of one field's contribution.
pub proof fn lemma_opt_member(key: Seq<char>, other: Seq<char>, v: Option<JVal>)
    ensures
        key != other ==> !has_key(opt_member(key, v), other),
        has_key(opt_member(key, v), key) == (v is Some),
        v matches Some(x) ==> lookup(opt_member(key, v), key) == Some(x),
        v is None ==> !has_key(opt_member(key, v), other),
{
    match v {
        Some(x) => {
            assert(opt_member(key, v)[0] == (key, x));
            if key != other && has_key(opt_member(key, v), other) {
                let i = choose|i: int|
                    0 <= i < opt_member(key, v).len() && opt_member(key, v)[i].0 == other;
                assert(i == 0);
            }
        },
        None => {},
    }
}

/// A mandatory field carrying a decimal-string 64-bit amount.
pub open spec fn spec_field_u64_str(ps: Seq<(Seq<char>, JVal)>, key: Seq<char>) -> Result<
    u64,
    ErrView,
> {
    match lookup(ps, key) {
        None => Err(ErrView::MissingField { field: key }),
        Some(JVal::Str(s)) => if s.len() > 0 && all_digits(s) && dec_val(s) <= u64::MAX {
            Ok(dec_val(s) as u64)
        } else {
            Err(ErrView::Format { field: key, raw: s })
        },
        Some(_) => Err(ErrView::WrongType { field: key }),
    }
}

/// Reads a mandatory decimal-string 64-bit amount.
pub fn field_u64_str(ms: &Vec<JsonMember>, key: &str) -> (r: Result<u64, DecodeError>)
    ensures
        match r {
            Ok(v) => spec_field_u64_str(members_view(ms@), key@) == Ok::<_, ErrView>(v),
            Err(e) => spec_field_u64_str(members_view(ms@), key@) == Err::<u64, ErrView>(e@),
        },
{
    match obj_get(ms, key) {
        None => Err(DecodeError::MissingField { field: key.to_owned() }),
        Some(JsonValue::Str(s)) => match parse_u64_digits(s.as_str()) {
            Some(v) => Ok(v),
            None => Err(DecodeError::Format { field: key.to_owned(), raw: s.clone() }),
        },
        Some(_) => Err(DecodeError::WrongType { field: key.to_owned() }),
    }
}

/// An optional field carrying a decimal-string 64-bit amount.
pub open spec fn spec_field_opt_u64_str(ps: Seq<(Seq<char>, JVal)>, key: Seq<char>) -> Result<
    Option<u64>,
    ErrView,
> {
    match lookup(ps, key) {
        None => Ok(None),
        Some(JVal::Str(s)) => if s.len() > 0 && all_digits(s) && dec_val(s) <= u64::MAX {
            Ok(Some(dec_val(s) as u64))
        } else {
            Err(ErrView::Format { field: key, raw: s })
        },
        Some(_) => Err(ErrView::WrongType { field: key }),
    }
}

/// Reads an optional decimal-string 64-bit amount; absence is `None`.
pub fn field_opt_u64_str(ms: &Vec<JsonMember>, key: &str) -> (r: Result<Option<u64>, DecodeError>)
    ensures
        match r {
            Ok(v) => spec_field_opt_u64_str(members_view(ms@), key@) == Ok::<_, ErrView>(v),
            Err(e) => spec_field_opt_u64_str(members_view(ms@), key@) == Err::<Option<u64>, ErrView>(e@),
        },
{
    match obj_get(ms, key) {
        None => Ok(None),
        Some(JsonValue::Str(s)) => match parse_u64_digits(s.as_str()) {
            Some(v) => Ok(Some(v)),
            None => Err(DecodeError::Format { field: key.to_owned(), raw: s.clone() }),
        },
        Some(_) => Err(DecodeError::WrongType { field: key.to_owned() }),
    }
}

/// A mandatory field carrying a base58 identifier string.
pub open spec fn spec_field_pubkey(ps: Seq<(Seq<char>, JVal)>, key: Seq<char>) -> Result<
    PubkeyV,
    ErrView,
> {
    match lookup(ps, key) {
        None => Err(ErrView::MissingField { field: key }),
        Some(JVal::Str(s)) => match base58_dec(s) {
            Some(b) => Ok(PubkeyV { bytes: b, text: s }),
            None => Err(ErrView::Format { field: key, raw: s }),
        },
        Some(_) => Err(ErrView::WrongType { field: key }),
    }
}

/// Reads a mandatory base58 identifier.
pub fn field_pubkey(ms: &Vec<JsonMember>, key: &str) -> (r: Result<Pubkey, DecodeError>)
    ensures
        match r {
            Ok(p) => spec_field_pubkey(members_view(ms@), key@) == Ok::<_, ErrView>(p@) && p@.wf(),
            Err(e) => spec_field_pubkey(members_view(ms@), key@) == Err::<PubkeyV, ErrView>(e@),
        },
{
    match obj_get(ms, key) {
        None => Err(DecodeError::MissingField { field: key.to_owned() }),
        Some(JsonValue::Str(s)) => match Pubkey::from_base58(s.as_str()) {
            Some(p) => Ok(p),
            None => Err(DecodeError::Format { field: key.to_owned(), raw: s.clone() }),
        },
        Some(_) => Err(DecodeError::WrongType { field: key.to_owned() }),
    }
}

/// An optional field carrying a base58 identifier string.
pub open spec fn spec_field_opt_pubkey(ps: Seq<(Seq<char>, JVal)>, key: Seq<char>) -> Result<
    Option<PubkeyV>,
    ErrView,
> {
    match lookup(ps, key) {
        None => Ok(None),
        Some(JVal::Str(s)) => match base58_dec(s) {
            Some(b) => Ok(Some(PubkeyV { bytes: b, text: s })),
            None => Err(ErrView::Format { field: key, raw: s }),
        },
        Some(_) => Err(ErrView::WrongType { field: key }),
    }
}

/// Reads an optional base58 identifier; absence is `None`.
pub fn field_opt_pubkey(ms: &Vec<JsonMember>, key: &str) -> (r: Result<Option<Pubkey>, DecodeError>)
    ensures
        match r {
            Ok(Some(p)) => spec_field_opt_pubkey(members_view(ms@), key@) == Ok::<_, ErrView>(Some(p@))
                && p@.wf(),
            Ok(None) => spec_field_opt_pubkey(members_view(ms@), key@) == Ok::<_, ErrView>(
                None::<PubkeyV>,
            ),
            Err(e) => spec_field_opt_pubkey(members_view(ms@), key@) == Err::<Option<PubkeyV>, ErrView>(e@),
        },
{
    match obj_get(ms, key) {
        None => Ok(None),
        Some(JsonValue::Str(s)) => match Pubkey::from_base58(s.as_str()) {
            Some(p) => Ok(Some(p)),
            None => Err(DecodeError::Format { field: key.to_owned(), raw: s.clone() }),
        },
        Some(_) => Err(DecodeError::WrongType { field: key.to_owned() }),
    }
}

/// A mandatory field carrying a plain unsigned integer within a bound.
pub open spec fn spec_field_uint(ps: Seq<(Seq<char>, JVal)>, key: Seq<char>, bound: u64) -> Result<
    u64,
    ErrView,
> {
    match lookup(ps, key) {
        None => Err(ErrView::MissingField { field: key }),
        Some(JVal::UInt(v)) => if v <= bound {
            Ok(v)
        } else {
            Err(ErrView::Format { field: key, raw: dec_of(v as nat) })
        },
        Some(_) => Err(ErrView::WrongType { field: key }),
    }
}

/// Reads a mandatory plain unsigned integer, held to a bound.
pub fn field_uint(ms: &Vec<JsonMember>, key: &str, bound: u64) -> (r: Result<u64, DecodeError>)
    ensures
        match r {
            Ok(v) => spec_field_uint(members_view(ms@), key@, bound) == Ok::<_, ErrView>(v) && v <= bound,
            Err(e) => spec_field_uint(members_view(ms@), key@, bound) == Err::<u64, ErrView>(e@),
        },
{
    match obj_get(ms, key) {
        None => Err(DecodeError::MissingField { field: key.to_owned() }),
        Some(JsonValue::UInt(v)) => if *v <= bound {
            Ok(*v)
        } else {
            Err(DecodeError::Format { field: key.to_owned(), raw: u64_to_dec(*v) })
        },
        Some(_) => Err(DecodeError::WrongType { field: key.to_owned() }),
    }
}

/// An optional field carrying a plain unsigned integer within a bound.
pub open spec fn spec_field_opt_uint(
    ps: Seq<(Seq<char>, JVal)>,
    key: Seq<char>,
    bound: u64,
) -> Result<Option<u64>, ErrView> {
    match lookup(ps, key) {
        None => Ok(None),
        Some(JVal::UInt(v)) => if v <= bound {
            Ok(Some(v))
        } else {
            Err(ErrView::Format { field: key, raw: dec_of(v as nat) })
        },
        Some(_) => Err(ErrView::WrongType { field: key }),
    }
}

/// Reads an optional plain unsigned integer, held to a bound; absence is `None`.
pub fn field_opt_uint(ms: &Vec<JsonMember>, key: &str, bound: u64) -> (r: Result<
    Option<u64>,
    DecodeError,
>)
    ensures
        match r {
            Ok(Some(v)) => spec_field_opt_uint(members_view(ms@), key@, bound) == Ok::<_, ErrView>(Some(v)) && v
                <= bound,
            Ok(None) => spec_field_opt_uint(members_view(ms@), key@, bound) == Ok::<_, ErrView>(None::<u64>),
            Err(e) => spec_field_opt_uint(members_view(ms@), key@, bound) == Err::<Option<u64>, ErrView>(e@),
        },
{
    match obj_get(ms, key) {
        None => Ok(None),
        Some(JsonValue::UInt(v)) => if *v <= bound {
            Ok(Some(*v))
        } else {
            Err(DecodeError::Format { field: key.to_owned(), raw: u64_to_dec(*v) })
        },
        Some(_) => Err(DecodeError::WrongType { field: key.to_owned() }),
    }
}

/// An integer field that falls back to zero when absent.
pub open spec fn spec_field_u64_default(ps: Seq<(Seq<char>, JVal)>, key: Seq<char>) -> Result<
    u64,
    ErrView,
> {
    match lookup(ps, key) {
        None => Ok(0u64),
        Some(JVal::UInt(v)) => Ok(v),
        Some(_) => Err(ErrView::WrongType { field: key }),
    }
}

/// Reads an integer field that defaults to zero when absent — absence only,
/// never a malformed value.
pub fn field_u64_default(ms: &Vec<JsonMember>, key: &str) -> (r: Result<u64, DecodeError>)
    ensures
        match r {
            Ok(v) => spec_field_u64_default(members_view(ms@), key@) == Ok::<_, ErrView>(v),
            Err(e) => spec_field_u64_default(members_view(ms@), key@) == Err::<u64, ErrView>(e@),
        },
{
    match obj_get(ms, key) {
        None => Ok(0),
        Some(JsonValue::UInt(v)) => Ok(*v),
        Some(_) => Err(DecodeError::WrongType { field: key.to_owned() }),
    }
}

/// A decimal-number field that falls back to zero when absent.
pub open spec fn spec_field_decimal_default(ps: Seq<(Seq<char>, JVal)>, key: Seq<char>) -> Result<
    Decimal,
    ErrView,
> {
    match lookup(ps, key) {
        None => Ok(Decimal { negative: false, mantissa: 0, scale: 0 }),
        Some(JVal::Dec(d)) => Ok(d),
        Some(JVal::UInt(v)) => Ok(Decimal { negative: false, mantissa: v as u128, scale: 0 }),
        Some(_) => Err(ErrView::WrongType { field: key }),
    }
}

/// Reads a decimal-number field that defaults to zero when absent.
pub fn field_decimal_default(ms: &Vec<JsonMember>, key: &str) -> (r: Result<Decimal, DecodeError>)
    ensures
        match r {
            Ok(d) => spec_field_decimal_default(members_view(ms@), key@) == Ok::<_, ErrView>(d),
            Err(e) => spec_field_decimal_default(members_view(ms@), key@) == Err::<Decimal, ErrView>(e@),
        },
{
    match obj_get(ms, key) {
        None => Ok(Decimal::zero()),
        Some(JsonValue::Dec(d)) => Ok(*d),
        Some(JsonValue::UInt(v)) => Ok(Decimal { negative: false, mantissa: *v as u128, scale: 0 }),
        Some(_) => Err(DecodeError::WrongType { field: key.to_owned() }),
    }
}

/// A mandatory decimal field, accepted as a decimal string, a decimal number,
/// or a plain integer.
pub open spec fn spec_field_decimal(ps: Seq<(Seq<char>, JVal)>, key: Seq<char>) -> Result<
    Decimal,
    ErrView,
> {
    match lookup(ps, key) {
        None => Err(ErrView::MissingField { field: key }),
        Some(JVal::Str(s)) => match spec_parse_decimal(s) {
            Some(d) => Ok(d),
            None => Err(ErrView::Format { field: key, raw: s }),
        },
        Some(JVal::Dec(d)) => Ok(d),
        Some(JVal::UInt(v)) => Ok(Decimal { negative: false, mantissa: v as u128, scale: 0 }),
        Some(_) => Err(ErrView::WrongType { field: key }),
    }
}

/// Reads a mandatory decimal field.
pub fn field_decimal(ms: &Vec<JsonMember>, key: &str) -> (r: Result<Decimal, DecodeError>)
    ensures
        match r {
            Ok(d) => spec_field_decimal(members_view(ms@), key@) == Ok::<_, ErrView>(d),
            Err(e) => spec_field_decimal(members_view(ms@), key@) == Err::<Decimal, ErrView>(e@),
        },
{
    match obj_get(ms, key) {
        None => Err(DecodeError::MissingField { field: key.to_owned() }),
        Some(JsonValue::Str(s)) => match Decimal::from_wire(s.as_str()) {
            Some(d) => Ok(d),
            None => Err(DecodeError::Format { field: key.to_owned(), raw: s.clone() }),
        },
        Some(JsonValue::Dec(d)) => Ok(*d),
        Some(JsonValue::UInt(v)) => Ok(Decimal { negative: false, mantissa: *v as u128, scale: 0 }),
        Some(_) => Err(DecodeError::WrongType { field: key.to_owned() }),
    }
}

/// An optional field carrying free text.
pub open spec fn spec_field_opt_str(ps: Seq<(Seq<char>, JVal)>, key: Seq<char>) -> Result<
    Option<Seq<char>>,
    ErrView,
> {
    match lookup(ps, key) {
        None => Ok(None),
        Some(JVal::Str(s)) => Ok(Some(s)),
        Some(_) => Err(ErrView::WrongType { field: key }),
    }
}

/// Reads an optional free-text field; absence is `None`.
pub fn field_opt_str(ms: &Vec<JsonMember>, key: &str) -> (r: Result<Option<String>, DecodeError>)
    ensures
        match r {
            Ok(Some(s)) => spec_field_opt_str(members_view(ms@), key@) == Ok::<_, ErrView>(Some(s@)),
            Ok(None) => spec_field_opt_str(members_view(ms@), key@) == Ok::<_, ErrView>(None::<Seq<char>>),
            Err(e) => spec_field_opt_str(members_view(ms@), key@) == Err::<Option<Seq<char>>, ErrView>(e@),
        },
{
    match obj_get(ms, key) {
        None => Ok(None),
        Some(JsonValue::Str(s)) => Ok(Some(s.clone())),
        Some(_) => Err(DecodeError::WrongType { field: key.to_owned() }),
    }
}

/// A mandatory field carrying free text.
pub open spec fn spec_field_str(ps: Seq<(Seq<char>, JVal)>, key: Seq<char>) -> Result<
    Seq<char>,
    ErrView,
> {
    match lookup(ps, key) {
        None => Err(ErrView::MissingField { field: key }),
        Some(JVal::Str(s)) => Ok(s),
        Some(_) => Err(ErrView::WrongType { field: key }),
    }
}

/// Reads a mandatory free-text field.
pub fn field_str(ms: &Vec<JsonMember>, key: &str) -> (r: Result<String, DecodeError>)
    ensures
        match r {
            Ok(s) => spec_field_str(members_view(ms@), key@) == Ok::<_, ErrView>(s@),
            Err(e) => spec_field_str(members_view(ms@), key@) == Err::<Seq<char>, ErrView>(e@),
        },
{
    match obj_get(ms, key) {
        None => Err(DecodeError::MissingField { field: key.to_owned() }),
        Some(JsonValue::Str(s)) => Ok(s.clone()),
        Some(_) => Err(DecodeError::WrongType { field: key.to_owned() }),
    }
}

/// An optional field carrying a boolean.
pub open spec fn spec_field_opt_bool(ps: Seq<(Seq<char>, JVal)>, key: Seq<char>) -> Result<
    Option<bool>,
    ErrView,
> {
    match lookup(ps, key) {
        None => Ok(None),
        Some(JVal::Bool(b)) => Ok(Some(b)),
        Some(_) => Err(ErrView::WrongType { field: key }),
    }
}

/// Reads an optional boolean field; absence is `None`.
pub fn field_opt_bool(ms: &Vec<JsonMember>, key: &str) -> (r: Result<Option<bool>, DecodeError>)
    ensures
        match r {
            Ok(v) => spec_field_opt_bool(members_view(ms@), key@) == Ok::<_, ErrView>(v),
            Err(e) => spec_field_opt_bool(members_view(ms@), key@) == Err::<Option<bool>, ErrView>(e@),
        },
{
    match obj_get(ms, key) {
        None => Ok(None),
        Some(JsonValue::Bool(b)) => Ok(Some(*b)),
        Some(_) => Err(DecodeError::WrongType { field: key.to_owned() }),
    }
}

/// Appends one member; the viewed list grows by exactly that pair.
pub fn push_member(ms: &mut Vec<JsonMember>, key: &str, value: JsonValue)
    ensures
        members_view(final(ms)@) == members_view(old(ms)@) + opt_member(key@, Some(value@)),
{
    let ghost vv = value@;
    ms.push(JsonMember { key: key.to_owned(), value });
    proof {
        assert(members_view(ms@) =~= members_view(old(ms)@) + opt_member(key@, Some(vv)));
    }
}

/// An absent field leaves the member list as it stands.
pub proof fn lemma_concat_opt_none(a: Seq<(Seq<char>, JVal)>, key: Seq<char>)
    ensures
        a + opt_member(key, None::<JVal>) == a,
{
    assert(a + opt_member(key, None::<JVal>) =~= a);
}

} // verus!
