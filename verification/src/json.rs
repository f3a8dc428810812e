//! The JSON value model the codec works on, and the trusted boundary to
//! `serde_json` that turns wire text into values and back.
//!
//! Floating-point literals are carried as their decimal text: the codec
//! never computes with them, it only routes them, so the text form keeps
//! them exact and keeps floating point out of the verified model.

use vstd::prelude::*;

verus! {

/// A parsed JSON value.
///
/// Numbers are split by literal shape: a bare non-negative integer literal
/// is `U64`, a bare negative integer literal is `I64`, and a literal with a
/// fractional part or exponent is `F64`, carried as its decimal text.
#[derive(Debug)]
pub enum JsonValue {
    /// `null`.
    Null,
    /// `true` or `false`.
    Bool(bool),
    /// A non-negative integer literal.
    U64(u64),
    /// A negative integer literal.
    I64(i64),
    /// A fractional or exponent literal, as its decimal text.
    F64(String),
    /// A string.
    Str(String),
    /// An array.
    Arr(Vec<JsonValue>),
    /// An object, as its entries in wire order.
    Obj(Vec<(String, JsonValue)>),
}

/// The mathematical shape of a JSON value.
#[verifier::ext_equal]
pub ghost enum JsonV {
    /// `null`.
    Null,
    /// `true` or `false`.
    Bool(bool),
    /// A non-negative integer literal.
    U64(u64),
    /// A negative integer literal.
    I64(i64),
    /// A fractional or exponent literal, as its decimal text.
    F64(Seq<char>),
    /// A string.
    Str(Seq<char>),
    /// An array.
    Arr(Seq<JsonV>),
    /// An object, as its entries in wire order.
    Obj(Seq<(Seq<char>, JsonV)>),
}

impl JsonValue {
    /// The mathematical shape of this value.
    pub open spec fn dv(self) -> JsonV
        decreases self,
    {
        match self {
            JsonValue::Null => JsonV::Null,
            JsonValue::Bool(b) => JsonV::Bool(b),
            JsonValue::U64(u) => JsonV::U64(u),
            JsonValue::I64(i) => JsonV::I64(i),
            JsonValue::F64(t) => JsonV::F64(t@),
            JsonValue::Str(s) => JsonV::Str(s@),
            JsonValue::Arr(a) => JsonV::Arr(elems_dv(a@)),
            JsonValue::Obj(es) => JsonV::Obj(entries_dv(es@)),
        }
    }
}

/// The mathematical shape of an array's element list.
pub open spec fn elems_dv(a: Seq<JsonValue>) -> Seq<JsonV>
    decreases a,
{
    if a.len() == 0 {
        Seq::empty()
    } else {
        elems_dv(a.drop_last()).push(a.last().dv())
    }
}

/// The mathematical shape of an object's entry list.
pub open spec fn entries_dv(es: Seq<(String, JsonValue)>) -> Seq<(Seq<char>, JsonV)>
    decreases es,
{
    if es.len() == 0 {
        Seq::empty()
    } else {
        entries_dv(es.drop_last()).push((es.last().0@, es.last().1.dv()))
    }
}

/// `elems_dv` maps the element list pointwise.
pub proof fn lemma_elems_dv(a: Seq<JsonValue>)
    ensures
        elems_dv(a).len() == a.len(),
        forall|i: int| 0 <= i < a.len() ==> elems_dv(a)[i] == #[trigger] a[i].dv(),
    decreases a,
{
    if a.len() > 0 {
        lemma_elems_dv(a.drop_last());
        assert forall|i: int| 0 <= i < a.len() implies elems_dv(a)[i] == #[trigger] a[i].dv() by {
            if i < a.len() - 1 {
                assert(a.drop_last()[i] == a[i]);
                assert(elems_dv(a)[i] == elems_dv(a.drop_last())[i]);
            } else {
                assert(elems_dv(a)[i] == a.last().dv());
            }
        }
    }
}

/// `entries_dv` maps the entry list pointwise.
pub proof fn lemma_entries_dv(es: Seq<(String, JsonValue)>)
    ensures
        entries_dv(es).len() == es.len(),
        forall|i: int|
            0 <= i < es.len() ==> entries_dv(es)[i] == (#[trigger] es[i].0@, es[i].1.dv()),
    decreases es,
{
    if es.len() > 0 {
        lemma_entries_dv(es.drop_last());
        assert forall|i: int|
            0 <= i < es.len() implies entries_dv(es)[i] == (#[trigger] es[i].0@, es[i].1.dv()) by {
            if i < es.len() - 1 {
                assert(es.drop_last()[i] == es[i]);
                assert(entries_dv(es)[i] == entries_dv(es.drop_last())[i]);
            } else {
                assert(entries_dv(es)[i] == (es.last().0@, es.last().1.dv()));
            }
        }
    }
}

/// A JSON number held in a task record: the wire shapes a task carries
/// opaquely (urgency scores, recurrence masks).
#[derive(Clone, Debug, PartialEq)]
pub enum Num {
    /// A non-negative integer literal.
    U64(u64),
    /// A negative integer literal.
    I64(i64),
    /// A fractional or exponent literal, as its decimal text.
    F64(String),
}

/// The mathematical shape of a [`Num`].
#[verifier::ext_equal]
pub ghost enum NumV {
    /// A non-negative integer literal.
    U64(u64),
    /// A negative integer literal.
    I64(i64),
    /// A fractional or exponent literal, as its decimal text.
    F64(Seq<char>),
}

impl View for Num {
    type V = NumV;

    open spec fn view(&self) -> NumV {
        match self {
            Num::U64(u) => NumV::U64(*u),
            Num::I64(i) => NumV::I64(*i),
            Num::F64(t) => NumV::F64(t@),
        }
    }
}

/// Whether a value carries no float literal, in which case serialization
/// cannot fail.
pub open spec fn no_floats(v: JsonV) -> bool
    decreases v,
{
    match v {
        JsonV::F64(_) => false,
        JsonV::Arr(a) => forall|i: int| 0 <= i < a.len() ==> no_floats(#[trigger] a[i]),
        JsonV::Obj(es) => forall|i: int| 0 <= i < es.len() ==> no_floats(#[trigger] es[i].1),
        _ => true,
    }
}

/// The value that JSON wire text parses to, when it parses.
pub uninterp spec fn parse_of(s: Seq<char>) -> Option<JsonV>;

/// The wire text that a value serializes to, when it serializes.
pub uninterp spec fn print_of(v: JsonV) -> Seq<char>;

/// Whether a value serializes at all; only a float literal whose text does
/// not name a finite JSON number can fail.
pub uninterp spec fn printable(v: JsonV) -> bool;

#[verifier::external_type_specification]
#[verifier::external_body]
/// `serde_json`'s parsed value, carried opaquely between the wrappers below.
pub struct ExSerdeValue(serde_json::Value);

#[verifier::external_type_specification]
#[verifier::external_body]
/// `serde_json`'s number, carried opaquely between the wrappers below.
pub struct ExSerdeNumber(serde_json::Number);

#[verifier::external_type_specification]
#[verifier::external_body]
/// `serde_json`'s error, returned by the parse wrapper and mapped to the
/// library's own error by verified code.
pub struct ExSerdeError(serde_json::Error);

/// Relies on `serde_json::Value` and `serde_json::Number`: each variant of
/// the parsed value maps to the matching [`JsonValue`] form, one arm per
/// variant. A number is read by literal shape — `as_u64`, then `as_i64`,
/// then the number's own text — and a float is carried as its shortest
/// decimal text.
#[verifier::external_body]
fn conv_number(n: serde_json::Number) -> JsonValue {
    if let Some(u) = n.as_u64() {
        JsonValue::U64(u)
    } else if let Some(i) = n.as_i64() {
        JsonValue::I64(i)
    } else {
        JsonValue::F64(format!("{}", n))
    }
}

/// Relies on `serde_json::Value`: each variant maps to the matching
/// [`JsonValue`] form, one arm per variant, recursing into arrays and
/// objects; object entries come out in `serde_json`'s key order.
#[verifier::external_body]
fn conv_value(v: serde_json::Value) -> JsonValue {
    match v {
        serde_json::Value::Null => JsonValue::Null,
        serde_json::Value::Bool(b) => JsonValue::Bool(b),
        serde_json::Value::Number(n) => conv_number(n),
        serde_json::Value::String(s) => JsonValue::Str(s),
        serde_json::Value::Array(a) => JsonValue::Arr(a.into_iter().map(conv_value).collect()),
        serde_json::Value::Object(m) => JsonValue::Obj(
            m.into_iter().map(|(k, x)| (k, conv_value(x))).collect(),
        ),
    }
}

/// Relies on `serde_json::Number::from_str` (its `FromStr` impl): the text
/// of a float literal parses back into a `serde_json` number, or fails when
/// it names no finite JSON number.
#[verifier::external_body]
fn num_from_text(t: &str) -> Option<serde_json::Number> {
    <serde_json::Number as core::str::FromStr>::from_str(t).ok()
}

/// Relies on `serde_json::Value::Array`: converts each element in order;
/// `None` when some element fails `to_serde_value`.
#[verifier::external_body]
fn arr_to_serde(a: &Vec<JsonValue>) -> Option<serde_json::Value> {
    let mut out: Vec<serde_json::Value> = Vec::new();
    for x in a.iter() {
        out.push(to_serde_value(x)?);
    }
    Some(serde_json::Value::Array(out))
}

/// Relies on `serde_json::Value::Object` and `serde_json::Map::insert`:
/// converts each entry; `None` when some value fails `to_serde_value`.
#[verifier::external_body]
fn obj_to_serde(es: &Vec<(String, JsonValue)>) -> Option<serde_json::Value> {
    let mut m = serde_json::Map::new();
    for (k, x) in es.iter() {
        m.insert(k.clone(), to_serde_value(x)?);
    }
    Some(serde_json::Value::Object(m))
}

/// Relies on `serde_json::Value`: each [`JsonValue`] form maps to the
/// matching variant, one arm per variant, recursing into arrays and
/// objects; `None` exactly when some float literal's text fails
/// `num_from_text`.
#[verifier::external_body]
fn to_serde_value(v: &JsonValue) -> Option<serde_json::Value> {
    Some(
        match v {
            JsonValue::Null => serde_json::Value::Null,
            JsonValue::Bool(b) => serde_json::Value::Bool(*b),
            JsonValue::U64(u) => serde_json::Value::from(*u),
            JsonValue::I64(i) => serde_json::Value::from(*i),
            JsonValue::F64(t) => serde_json::Value::Number(num_from_text(t.as_str())?),
            JsonValue::Str(s) => serde_json::Value::String(s.clone()),
            JsonValue::Arr(a) => arr_to_serde(a)?,
            JsonValue::Obj(es) => obj_to_serde(es)?,
        },
    )
}

/// Relies on `serde_json::from_str::<serde_json::Value>`: wire text parses
/// to a value — a deterministic function of the text alone, named
/// [`parse_of`] — or fails exactly when the text is not valid JSON.
#[verifier::external_body]
pub(crate) fn parse_json(s: &str) -> (r: Result<JsonValue, serde_json::Error>)
    ensures
        r is Ok <==> parse_of(s@) is Some,
        r matches Ok(v) ==> parse_of(s@) == Some(v.dv()),
{
    match serde_json::from_str::<serde_json::Value>(s) {
        Ok(v) => Ok(conv_value(v)),
        Err(e) => Err(e),
    }
}

/// Relies on `serde_json::to_string` on a `serde_json::Value`: a value
/// serializes to wire text — a deterministic function of the value alone,
/// named [`print_of`] — and serialization succeeds (named [`printable`])
/// whenever no float literal is present; only a float literal whose text
/// names no finite JSON number can fail.
#[verifier::external_body]
pub(crate) fn print_json(v: &JsonValue) -> (r: Option<String>)
    ensures
        r is Some <==> printable(v.dv()),
        r matches Some(s) ==> s@ == print_of(v.dv()),
        no_floats(v.dv()) ==> r is Some,
{
    let val = to_serde_value(v)?;
    serde_json::to_string(&val).ok()
}

} // verus!
