//! Values in their JSON transport form and in the form the encoder takes,
//! and the conversions between the two.
//!
//! In transport form, 64-bit integers travel as decimal text (JavaScript
//! numbers cannot hold them) and binary payloads as base64 text. A double
//! travels unchanged; here it is held as its IEEE-754 bit pattern.

use vstd::prelude::*;

use crate::codec::{
    base64_decode, base64_encodable, base64_encode, base64_standard_decoding,
    base64_standard_encoding,
};
use crate::decimal::{
    after_plus, all_ascii_digits, decimal_value, i64_to_decimal, lemma_i64_text_parses, lemma_u64_text_parses, parse_i64_decimal,
    parse_u64_decimal, spec_i64_text, spec_parse_i64, spec_parse_u64, spec_u64_text,
    u64_to_decimal,
};
use crate::error::BridgeError;

verus! {

/// A value as it travels in JSON.
#[derive(Debug, PartialEq)]
pub enum TransportValue {
    Null,
    Bool(bool),
    /// A signed 64-bit integer, as decimal text.
    I64(String),
    /// An unsigned 64-bit integer, as decimal text.
    U64(String),
    /// A double, as its IEEE-754 bit pattern.
    F64(u64),
    String(String),
    /// A binary payload, as standard base64 text.
    Binary(String),
    Array(Vec<TransportValue>),
    /// Key-value pairs, in order.
    Entries(Vec<(String, TransportValue)>),
}

/// A value as the encoder takes it.
#[derive(Debug, PartialEq)]
pub enum Value {
    Null,
    Bool(bool),
    I64(i64),
    U64(u64),
    /// A double, as its IEEE-754 bit pattern.
    F64(u64),
    String(String),
    Binary(Vec<u8>),
    Array(Vec<Value>),
    /// Key-value pairs, in order.
    Entries(Vec<(String, Value)>),
}

/// The mathematical form of a [`TransportValue`].
pub enum SpecTransportValue {
    Null,
    Bool(bool),
    I64(Seq<char>),
    U64(Seq<char>),
    F64(u64),
    String(Seq<char>),
    Binary(Seq<char>),
    Array(Seq<SpecTransportValue>),
    Entries(Seq<(Seq<char>, SpecTransportValue)>),
}

/// The mathematical form of a [`Value`].
pub enum SpecValue {
    Null,
    Bool(bool),
    I64(i64),
    U64(u64),
    F64(u64),
    String(Seq<char>),
    Binary(Seq<u8>),
    Array(Seq<SpecValue>),
    Entries(Seq<(Seq<char>, SpecValue)>),
}

pub open spec fn transport_view(t: TransportValue) -> SpecTransportValue
    decreases t,
{
    match t {
        TransportValue::Null => SpecTransportValue::Null,
        TransportValue::Bool(b) => SpecTransportValue::Bool(b),
        TransportValue::I64(s) => SpecTransportValue::I64(s@),
        TransportValue::U64(s) => SpecTransportValue::U64(s@),
        TransportValue::F64(bits) => SpecTransportValue::F64(bits),
        TransportValue::String(s) => SpecTransportValue::String(s@),
        TransportValue::Binary(s) => SpecTransportValue::Binary(s@),
        TransportValue::Array(items) => SpecTransportValue::Array(
            Seq::new(
                items@.len(),
                |i: int|
                    if 0 <= i < items@.len() {
                        transport_view(items@[i])
                    } else {
                        SpecTransportValue::Null
                    },
            ),
        ),
        TransportValue::Entries(entries) => SpecTransportValue::Entries(
            Seq::new(
                entries@.len(),
                |i: int|
                    if 0 <= i < entries@.len() {
                        (entries@[i].0@, transport_view(entries@[i].1))
                    } else {
                        (Seq::empty(), SpecTransportValue::Null)
                    },
            ),
        ),
    }
}

pub open spec fn value_view(v: Value) -> SpecValue
    decreases v,
{
    match v {
        Value::Null => SpecValue::Null,
        Value::Bool(b) => SpecValue::Bool(b),
        Value::I64(x) => SpecValue::I64(x),
        Value::U64(x) => SpecValue::U64(x),
        Value::F64(bits) => SpecValue::F64(bits),
        Value::String(s) => SpecValue::String(s@),
        Value::Binary(b) => SpecValue::Binary(b@),
        Value::Array(items) => SpecValue::Array(
            Seq::new(
                items@.len(),
                |i: int|
                    if 0 <= i < items@.len() {
                        value_view(items@[i])
                    } else {
                        SpecValue::Null
                    },
            ),
        ),
        Value::Entries(entries) => SpecValue::Entries(
            Seq::new(
                entries@.len(),
                |i: int|
                    if 0 <= i < entries@.len() {
                        (entries@[i].0@, value_view(entries@[i].1))
                    } else {
                        (Seq::empty(), SpecValue::Null)
                    },
            ),
        ),
    }
}

impl View for TransportValue {
    type V = SpecTransportValue;

    open spec fn view(&self) -> SpecTransportValue {
        transport_view(*self)
    }
}

impl View for Value {
    type V = SpecValue;

    open spec fn view(&self) -> SpecValue {
        value_view(*self)
    }
}

/// The views of a sequence of values.
pub open spec fn values_view(s: Seq<Value>) -> Seq<SpecValue> {
    Seq::new(s.len(), |i: int| s[i]@)
}

/// The views of a sequence of key-value pairs.
pub open spec fn value_entries_view(s: Seq<(String, Value)>) -> Seq<(Seq<char>, SpecValue)> {
    Seq::new(s.len(), |i: int| (s[i].0@, s[i].1@))
}

/// The views of a sequence of transport values.
pub open spec fn transports_view(s: Seq<TransportValue>) -> Seq<SpecTransportValue> {
    Seq::new(s.len(), |i: int| s[i]@)
}

/// The views of a sequence of transport key-value pairs.
pub open spec fn transport_entries_view(s: Seq<(String, TransportValue)>) -> Seq<
    (Seq<char>, SpecTransportValue),
> {
    Seq::new(s.len(), |i: int| (s[i].0@, s[i].1@))
}

/// The message for an `i64` that is not valid decimal text.
pub open spec fn invalid_i64_message() -> Seq<char> {
    "invalid i64 value"@
}

/// The message for a `u64` that is not valid decimal text.
pub open spec fn invalid_u64_message() -> Seq<char> {
    "invalid u64 value"@
}

/// The message for a binary payload that is not valid base64.
pub open spec fn invalid_base64_message() -> Seq<char> {
    "invalid base64 binary payload"@
}

/// The binary value for the outcome of decoding its base64 text.
pub open spec fn spec_binary_value(decoded: Option<Seq<u8>>) -> Result<SpecValue, Seq<char>> {
    match decoded {
        Some(bytes) => Ok(SpecValue::Binary(bytes)),
        None => Err(invalid_base64_message()),
    }
}

/// The value that a transport value stands for, or the message of the
/// first invalid part met (depth first, in order).
pub open spec fn spec_transport_to_value(t: SpecTransportValue) -> Result<SpecValue, Seq<char>>
    decreases t, 0int,
{
    match t {
        SpecTransportValue::Null => Ok(SpecValue::Null),
        SpecTransportValue::Bool(b) => Ok(SpecValue::Bool(b)),
        SpecTransportValue::I64(s) => match spec_parse_i64(s) {
            Some(x) => Ok(SpecValue::I64(x)),
            None => Err(invalid_i64_message()),
        },
        SpecTransportValue::U64(s) => match spec_parse_u64(s) {
            Some(x) => Ok(SpecValue::U64(x)),
            None => Err(invalid_u64_message()),
        },
        SpecTransportValue::F64(bits) => Ok(SpecValue::F64(bits)),
        SpecTransportValue::String(s) => Ok(SpecValue::String(s)),
        SpecTransportValue::Binary(s) => spec_binary_value(base64_standard_decoding(s)),
        SpecTransportValue::Array(items) => match spec_items_to_values(items, items.len() as int) {
            Ok(values) => Ok(SpecValue::Array(values)),
            Err(e) => Err(e),
        },
        SpecTransportValue::Entries(entries) => match spec_entries_to_values(
            entries,
            entries.len() as int,
        ) {
            Ok(values) => Ok(SpecValue::Entries(values)),
            Err(e) => Err(e),
        },
    }
}

/// The values of the first `n` transport values, or the first message met.
pub open spec fn spec_items_to_values(items: Seq<SpecTransportValue>, n: int) -> Result<
    Seq<SpecValue>,
    Seq<char>,
>
    decreases items, n,
{
    if n <= 0 || n > items.len() {
        Ok(Seq::empty())
    } else {
        match spec_items_to_values(items, n - 1) {
            Err(e) => Err(e),
            Ok(prefix) => match spec_transport_to_value(items[n - 1]) {
                Ok(v) => Ok(prefix.push(v)),
                Err(e) => Err(e),
            },
        }
    }
}

/// The pairs of the first `n` transport pairs, keys kept and values
/// converted, or the first message met.
pub open spec fn spec_entries_to_values(
    entries: Seq<(Seq<char>, SpecTransportValue)>,
    n: int,
) -> Result<Seq<(Seq<char>, SpecValue)>, Seq<char>>
    decreases entries, n,
{
    if n <= 0 || n > entries.len() {
        Ok(Seq::empty())
    } else {
        match spec_entries_to_values(entries, n - 1) {
            Err(e) => Err(e),
            Ok(prefix) => match spec_transport_to_value(entries[n - 1].1) {
                Ok(v) => Ok(prefix.push((entries[n - 1].0, v))),
                Err(e) => Err(e),
            },
        }
    }
}

/// The transport form of a value: integers as canonical decimal text,
/// binary payloads as standard base64 text, everything else unchanged.
pub open spec fn spec_value_to_transport(v: SpecValue) -> SpecTransportValue
    decreases v,
{
    match v {
        SpecValue::Null => SpecTransportValue::Null,
        SpecValue::Bool(b) => SpecTransportValue::Bool(b),
        SpecValue::I64(x) => SpecTransportValue::I64(spec_i64_text(x)),
        SpecValue::U64(x) => SpecTransportValue::U64(spec_u64_text(x)),
        SpecValue::F64(bits) => SpecTransportValue::F64(bits),
        SpecValue::String(s) => SpecTransportValue::String(s),
        SpecValue::Binary(b) => SpecTransportValue::Binary(base64_standard_encoding(b)),
        SpecValue::Array(items) => SpecTransportValue::Array(
            Seq::new(
                items.len(),
                |i: int|
                    if 0 <= i < items.len() {
                        spec_value_to_transport(items[i])
                    } else {
                        SpecTransportValue::Null
                    },
            ),
        ),
        SpecValue::Entries(entries) => SpecTransportValue::Entries(
            Seq::new(
                entries.len(),
                |i: int|
                    if 0 <= i < entries.len() {
                        (entries[i].0, spec_value_to_transport(entries[i].1))
                    } else {
                        (Seq::empty(), SpecTransportValue::Null)
                    },
            ),
        ),
    }
}

/// Every binary payload in the value is short enough for its base64 text
/// to be allocated.
pub open spec fn spec_value_encodable(v: SpecValue) -> bool
    decreases v, 0int,
{
    match v {
        SpecValue::Binary(b) => base64_encodable(b),
        SpecValue::Array(items) => spec_items_encodable(items, items.len() as int),
        SpecValue::Entries(entries) => spec_entries_encodable(entries, entries.len() as int),
        _ => true,
    }
}

/// Each of the first `n` values is encodable.
pub open spec fn spec_items_encodable(items: Seq<SpecValue>, n: int) -> bool
    decreases items, n,
{
    if n <= 0 || n > items.len() {
        true
    } else {
        spec_items_encodable(items, n - 1) && spec_value_encodable(items[n - 1])
    }
}

/// Each value of the first `n` pairs is encodable.
pub open spec fn spec_entries_encodable(entries: Seq<(Seq<char>, SpecValue)>, n: int) -> bool
    decreases entries, n,
{
    if n <= 0 || n > entries.len() {
        true
    } else {
        spec_entries_encodable(entries, n - 1) && spec_value_encodable(entries[n - 1].1)
    }
}

proof fn lemma_items_encodable_at(items: Seq<SpecValue>, n: int, j: int)
    requires
        0 <= j < n <= items.len(),
        spec_items_encodable(items, n),
    ensures
        spec_value_encodable(items[j]),
    decreases n,
{
    if j < n - 1 {
        lemma_items_encodable_at(items, n - 1, j);
    }
}

proof fn lemma_entries_encodable_at(entries: Seq<(Seq<char>, SpecValue)>, n: int, j: int)
    requires
        0 <= j < n <= entries.len(),
        spec_entries_encodable(entries, n),
    ensures
        spec_value_encodable(entries[j].1),
    decreases n,
{
    if j < n - 1 {
        lemma_entries_encodable_at(entries, n - 1, j);
    }
}

proof fn lemma_items_error_persists(items: Seq<SpecTransportValue>, k: int, n: int)
    requires
        0 <= k <= n <= items.len(),
        spec_items_to_values(items, k) is Err,
    ensures
        spec_items_to_values(items, n) == spec_items_to_values(items, k),
    decreases n - k,
{
    if k < n {
        lemma_items_error_persists(items, k, n - 1);
    }
}

proof fn lemma_entries_error_persists(
    entries: Seq<(Seq<char>, SpecTransportValue)>,
    k: int,
    n: int,
)
    requires
        0 <= k <= n <= entries.len(),
        spec_entries_to_values(entries, k) is Err,
    ensures
        spec_entries_to_values(entries, n) == spec_entries_to_values(entries, k),
    decreases n - k,
{
    if k < n {
        lemma_entries_error_persists(entries, k, n - 1);
    }
}

/// The view of the outcome of a base64 decoding.
pub open spec fn decoded_view(decoded: Option<Vec<u8>>) -> Option<Seq<u8>> {
    match decoded {
        Some(b) => Some(b@),
        None => None,
    }
}

/// The binary value for the outcome of decoding its base64 text: the
/// bytes, or the invalid-payload error where decoding failed.
pub fn binary_value_from_decoded(decoded: Option<Vec<u8>>) -> (res: Result<Value, BridgeError>)
    ensures
        match res {
            Ok(v) => spec_binary_value(decoded_view(decoded)) == Ok::<SpecValue, Seq<char>>(v@),
            Err(e) => spec_binary_value(decoded_view(decoded)) == Err::<SpecValue, Seq<char>>(e@),
        },
{
    match decoded {
        Some(bytes) => Ok(Value::Binary(bytes)),
        None => Err(BridgeError::new("invalid base64 binary payload")),
    }
}

/// Converts a transport value into the value it stands for: decimal text
/// into 64-bit integers, base64 text into bytes, arrays and pairs element
/// by element. The error is that of the first invalid part, depth first.
pub fn transport_to_value(value: &TransportValue) -> (res: Result<Value, BridgeError>)
    ensures
        match res {
            Ok(v) => spec_transport_to_value(value@) == Ok::<SpecValue, Seq<char>>(v@),
            Err(e) => spec_transport_to_value(value@) == Err::<SpecValue, Seq<char>>(e@),
        },
    decreases value,
{
    match value {
        TransportValue::Null => Ok(Value::Null),
        TransportValue::Bool(b) => Ok(Value::Bool(*b)),
        TransportValue::I64(raw) => match parse_i64_decimal(raw.as_str()) {
            Some(x) => Ok(Value::I64(x)),
            None => Err(BridgeError::new("invalid i64 value")),
        },
        TransportValue::U64(raw) => match parse_u64_decimal(raw.as_str()) {
            Some(x) => Ok(Value::U64(x)),
            None => Err(BridgeError::new("invalid u64 value")),
        },
        TransportValue::F64(bits) => Ok(Value::F64(*bits)),
        TransportValue::String(s) => Ok(Value::String(s.clone())),
        TransportValue::Binary(raw) => {
            let decoded = base64_decode(raw.as_str());
            binary_value_from_decoded(decoded)
        },
        TransportValue::Array(items) => {
            let ghost titems = transports_view(items@);
            assert(value@ == SpecTransportValue::Array(titems)) by {
                assert(titems =~= match value@ {
                    SpecTransportValue::Array(s) => s,
                    _ => titems,
                });
            }
            let mut out: Vec<Value> = Vec::new();
            let mut i: usize = 0;
            assert(values_view(out@) =~= Seq::<SpecValue>::empty());
            while i < items.len()
                invariant
                    i <= items@.len(),
                    titems == transports_view(items@),
                    value@ == SpecTransportValue::Array(titems),
                    spec_items_to_values(titems, i as int) == Ok::<Seq<SpecValue>, Seq<char>>(
                        values_view(out@),
                    ),
                    forall|j: int| 0 <= j < items@.len() ==> decreases_to!(*value => items@[j]),
                decreases items@.len() - i,
            {
                match transport_to_value(&items[i]) {
                    Ok(v) => {
                        let ghost before = out@;
                        out.push(v);
                        assert(values_view(out@) =~= values_view(before).push(v@));
                        i = i + 1;
                    },
                    Err(e) => {
                        proof {
                            assert(titems[i as int] == items@[i as int]@);
                            assert(spec_items_to_values(titems, i + 1) == Err::<
                                Seq<SpecValue>,
                                Seq<char>,
                            >(e@));
                            lemma_items_error_persists(titems, i + 1, items@.len() as int);
                        }
                        return Err(e);
                    },
                }
            }
            let res = Value::Array(out);
            assert(res@ == SpecValue::Array(values_view(out@))) by {
                assert(values_view(out@) =~= match res@ {
                    SpecValue::Array(s) => s,
                    _ => values_view(out@),
                });
            }
            Ok(res)
        },
        TransportValue::Entries(entries) => {
            let ghost tentries = transport_entries_view(entries@);
            assert(value@ == SpecTransportValue::Entries(tentries)) by {
                assert(tentries =~= match value@ {
                    SpecTransportValue::Entries(s) => s,
                    _ => tentries,
                });
            }
            let mut out: Vec<(String, Value)> = Vec::new();
            let mut i: usize = 0;
            assert(value_entries_view(out@) =~= Seq::<(Seq<char>, SpecValue)>::empty());
            while i < entries.len()
                invariant
                    i <= entries@.len(),
                    tentries == transport_entries_view(entries@),
                    value@ == SpecTransportValue::Entries(tentries),
                    spec_entries_to_values(tentries, i as int) == Ok::<
                        Seq<(Seq<char>, SpecValue)>,
                        Seq<char>,
                    >(value_entries_view(out@)),
                    forall|j: int|
                        0 <= j < entries@.len() ==> decreases_to!(*value => entries@[j].1),
                decreases entries@.len() - i,
            {
                let entry = &entries[i];
                match transport_to_value(&entry.1) {
                    Ok(v) => {
                        let ghost before = out@;
                        out.push((entry.0.clone(), v));
                        assert(value_entries_view(out@) =~= value_entries_view(before).push(
                            (entry.0@, v@),
                        ));
                        i = i + 1;
                    },
                    Err(e) => {
                        proof {
                            assert(tentries[i as int] == (entry.0@, entry.1@));
                            assert(spec_entries_to_values(tentries, i + 1) == Err::<
                                Seq<(Seq<char>, SpecValue)>,
                                Seq<char>,
                            >(e@));
                            lemma_entries_error_persists(
                                tentries,
                                i + 1,
                                entries@.len() as int,
                            );
                        }
                        return Err(e);
                    },
                }
            }
            let res = Value::Entries(out);
            assert(res@ == SpecValue::Entries(value_entries_view(out@))) by {
                assert(value_entries_view(out@) =~= match res@ {
                    SpecValue::Entries(s) => s,
                    _ => value_entries_view(out@),
                });
            }
            Ok(res)
        },
    }
}


proof fn lemma_items_all_convert(items: Seq<SpecTransportValue>, values: Seq<SpecValue>, n: int)
    requires
        0 <= n <= items.len(),
        n <= values.len(),
        forall|j: int|
            0 <= j < n ==> spec_transport_to_value(#[trigger] items[j]) == Ok::<
                SpecValue,
                Seq<char>,
            >(values[j]),
    ensures
        spec_items_to_values(items, n) == Ok::<Seq<SpecValue>, Seq<char>>(values.take(n)),
    decreases n,
{
    if n > 0 {
        lemma_items_all_convert(items, values, n - 1);
        assert(values.take(n - 1).push(values[n - 1]) =~= values.take(n));
    } else {
        assert(values.take(0) =~= Seq::<SpecValue>::empty());
    }
}

proof fn lemma_entries_all_convert(
    entries: Seq<(Seq<char>, SpecTransportValue)>,
    values: Seq<(Seq<char>, SpecValue)>,
    n: int,
)
    requires
        0 <= n <= entries.len(),
        n <= values.len(),
        forall|j: int|
            0 <= j < n ==> (#[trigger] entries[j]).0 == values[j].0
                && spec_transport_to_value(entries[j].1) == Ok::<SpecValue, Seq<char>>(
                values[j].1,
            ),
    ensures
        spec_entries_to_values(entries, n) == Ok::<Seq<(Seq<char>, SpecValue)>, Seq<char>>(
            values.take(n),
        ),
    decreases n,
{
    if n > 0 {
        lemma_entries_all_convert(entries, values, n - 1);
        assert(values.take(n - 1).push(values[n - 1]) =~= values.take(n));
    } else {
        assert(values.take(0) =~= Seq::<(Seq<char>, SpecValue)>::empty());
    }
}

/// Converts a value into its transport form: 64-bit integers as canonical
/// decimal text, bytes as standard base64 text, arrays and pairs element by
/// element. Converting the result back gives the value again.
pub fn value_to_transport(value: &Value) -> (res: TransportValue)
    requires
        spec_value_encodable(value@),
    ensures
        res@ == spec_value_to_transport(value@),
        spec_transport_to_value(res@) == Ok::<SpecValue, Seq<char>>(value@),
    decreases value,
{
    match value {
        Value::Null => TransportValue::Null,
        Value::Bool(b) => TransportValue::Bool(*b),
        Value::I64(x) => {
            proof {
                lemma_i64_text_parses(*x);
            }
            TransportValue::I64(i64_to_decimal(*x))
        },
        Value::U64(x) => {
            proof {
                lemma_u64_text_parses(*x);
            }
            TransportValue::U64(u64_to_decimal(*x))
        },
        Value::F64(bits) => TransportValue::F64(*bits),
        Value::String(s) => TransportValue::String(s.clone()),
        Value::Binary(bytes) => TransportValue::Binary(base64_encode(bytes.as_slice())),
        Value::Array(items) => {
            let ghost vitems = values_view(items@);
            assert(value@ == SpecValue::Array(vitems)) by {
                assert(vitems =~= match value@ {
                    SpecValue::Array(s) => s,
                    _ => vitems,
                });
            }
            let mut out: Vec<TransportValue> = Vec::new();
            let mut i: usize = 0;
            while i < items.len()
                invariant
                    i <= items@.len(),
                    out@.len() == i,
                    vitems == values_view(items@),
                    value@ == SpecValue::Array(vitems),
                    spec_value_encodable(value@),
                    forall|j: int|
                        0 <= j < i ==> (#[trigger] out@[j])@ == spec_value_to_transport(vitems[j])
                            && spec_transport_to_value(out@[j]@) == Ok::<SpecValue, Seq<char>>(
                            vitems[j],
                        ),
                    forall|j: int| 0 <= j < items@.len() ==> decreases_to!(*value => items@[j]),
                decreases items@.len() - i,
            {
                assert(vitems[i as int] == items@[i as int]@);
                proof {
                    lemma_items_encodable_at(vitems, vitems.len() as int, i as int);
                }
                let t = value_to_transport(&items[i]);
                out.push(t);
                i = i + 1;
            }
            let ghost touts = transports_view(out@);
            proof {
                lemma_items_all_convert(touts, vitems, out@.len() as int);
                assert(vitems.take(vitems.len() as int) =~= vitems);
            }
            let res = TransportValue::Array(out);
            assert(res@ == SpecTransportValue::Array(touts)) by {
                assert(touts =~= match res@ {
                    SpecTransportValue::Array(s) => s,
                    _ => touts,
                });
            }
            assert(res@ == spec_value_to_transport(value@)) by {
                assert(touts =~= match spec_value_to_transport(value@) {
                    SpecTransportValue::Array(s) => s,
                    _ => touts,
                });
            }
            res
        },
        Value::Entries(entries) => {
            let ghost ventries = value_entries_view(entries@);
            assert(value@ == SpecValue::Entries(ventries)) by {
                assert(ventries =~= match value@ {
                    SpecValue::Entries(s) => s,
                    _ => ventries,
                });
            }
            let mut out: Vec<(String, TransportValue)> = Vec::new();
            let mut i: usize = 0;
            while i < entries.len()
                invariant
                    i <= entries@.len(),
                    out@.len() == i,
                    ventries == value_entries_view(entries@),
                    value@ == SpecValue::Entries(ventries),
                    spec_value_encodable(value@),
                    forall|j: int|
                        0 <= j < i ==> (#[trigger] out@[j]).0@ == ventries[j].0 && out@[j].1@
                            == spec_value_to_transport(ventries[j].1) && spec_transport_to_value(
                            out@[j].1@,
                        ) == Ok::<SpecValue, Seq<char>>(ventries[j].1),
                    forall|j: int|
                        0 <= j < entries@.len() ==> decreases_to!(*value => entries@[j].1),
                decreases entries@.len() - i,
            {
                let entry = &entries[i];
                assert(ventries[i as int] == (entry.0@, entry.1@));
                proof {
                    lemma_entries_encodable_at(ventries, ventries.len() as int, i as int);
                }
                let t = value_to_transport(&entry.1);
                out.push((entry.0.clone(), t));
                i = i + 1;
            }
            let ghost touts = transport_entries_view(out@);
            proof {
                lemma_entries_all_convert(touts, ventries, out@.len() as int);
                assert(ventries.take(ventries.len() as int) =~= ventries);
            }
            let res = TransportValue::Entries(out);
            assert(res@ == SpecTransportValue::Entries(touts)) by {
                assert(touts =~= match res@ {
                    SpecTransportValue::Entries(s) => s,
                    _ => touts,
                });
            }
            assert(res@ == spec_value_to_transport(value@)) by {
                assert(touts =~= match spec_value_to_transport(value@) {
                    SpecTransportValue::Entries(s) => s,
                    _ => touts,
                });
            }
            res
        },
    }
}

/// Converts a sequence of transport values one by one, in order; the
/// error is that of the first value that does not convert.
pub fn transport_values_to_values(values: &Vec<TransportValue>) -> (res: Result<
    Vec<Value>,
    BridgeError,
>)
    ensures
        match res {
            Ok(vs) => spec_items_to_values(transports_view(values@), values@.len() as int)
                == Ok::<Seq<SpecValue>, Seq<char>>(values_view(vs@)),
            Err(e) => spec_items_to_values(transports_view(values@), values@.len() as int)
                == Err::<Seq<SpecValue>, Seq<char>>(e@),
        },
{
    let ghost titems = transports_view(values@);
    let mut out: Vec<Value> = Vec::new();
    let mut i: usize = 0;
    assert(values_view(out@) =~= Seq::<SpecValue>::empty());
    while i < values.len()
        invariant
            i <= values@.len(),
            titems == transports_view(values@),
            spec_items_to_values(titems, i as int) == Ok::<Seq<SpecValue>, Seq<char>>(
                values_view(out@),
            ),
        decreases values@.len() - i,
    {
        match transport_to_value(&values[i]) {
            Ok(v) => {
                let ghost before = out@;
                out.push(v);
                assert(values_view(out@) =~= values_view(before).push(v@));
                i = i + 1;
            },
            Err(e) => {
                proof {
                    assert(titems[i as int] == values@[i as int]@);
                    assert(spec_items_to_values(titems, i + 1) == Err::<Seq<SpecValue>, Seq<char>>(
                        e@,
                    ));
                    lemma_items_error_persists(titems, i + 1, values@.len() as int);
                }
                return Err(e);
            },
        }
    }
    Ok(out)
}

/// Whether every binary payload of the value is within the length that
/// base64 text can be made for; the condition that
/// [`value_to_transport`] asks for.
pub fn value_fits_base64(value: &Value) -> (res: bool)
    ensures
        res == spec_value_encodable(value@),
    decreases value,
{
    match value {
        Value::Binary(bytes) => bytes.len() / 3 <= (isize::MAX as usize - 4) / 4,
        Value::Array(items) => {
            let ghost vitems = values_view(items@);
            assert(value@ == SpecValue::Array(vitems)) by {
                assert(vitems =~= match value@ {
                    SpecValue::Array(s) => s,
                    _ => vitems,
                });
            }
            let mut i: usize = 0;
            while i < items.len()
                invariant
                    i <= items@.len(),
                    vitems == values_view(items@),
                    value@ == SpecValue::Array(vitems),
                    spec_items_encodable(vitems, i as int),
                    forall|j: int| 0 <= j < items@.len() ==> decreases_to!(*value => items@[j]),
                decreases items@.len() - i,
            {
                assert(vitems[i as int] == items@[i as int]@);
                if !value_fits_base64(&items[i]) {
                    proof {
                        if spec_items_encodable(vitems, vitems.len() as int) {
                            lemma_items_encodable_at(vitems, vitems.len() as int, i as int);
                        }
                    }
                    return false;
                }
                i = i + 1;
            }
            true
        },
        Value::Entries(entries) => {
            let ghost ventries = value_entries_view(entries@);
            assert(value@ == SpecValue::Entries(ventries)) by {
                assert(ventries =~= match value@ {
                    SpecValue::Entries(s) => s,
                    _ => ventries,
                });
            }
            let mut i: usize = 0;
            while i < entries.len()
                invariant
                    i <= entries@.len(),
                    ventries == value_entries_view(entries@),
                    value@ == SpecValue::Entries(ventries),
                    spec_entries_encodable(ventries, i as int),
                    forall|j: int|
                        0 <= j < entries@.len() ==> decreases_to!(*value => entries@[j].1),
                decreases entries@.len() - i,
            {
                assert(ventries[i as int] == (entries@[i as int].0@, entries@[i as int].1@));
                if !value_fits_base64(&entries[i].1) {
                    proof {
                        if spec_entries_encodable(ventries, ventries.len() as int) {
                            lemma_entries_encodable_at(
                                ventries,
                                ventries.len() as int,
                                i as int,
                            );
                        }
                    }
                    return false;
                }
                i = i + 1;
            }
            true
        },
        _ => true,
    }
}

proof fn lemma_items_converted_elementwise(items: Seq<SpecTransportValue>, n: int)
    requires
        0 <= n <= items.len(),
        spec_items_to_values(items, n) is Ok,
    ensures
        ({
            let values = spec_items_to_values(items, n)->Ok_0;
            &&& values.len() == n
            &&& forall|i: int|
                0 <= i < n ==> spec_transport_to_value(#[trigger] items[i]) == Ok::<
                    SpecValue,
                    Seq<char>,
                >(values[i])
        }),
    decreases n,
{
    if n > 0 {
        lemma_items_converted_elementwise(items, n - 1);
    }
}

/// Converting a sequence of transport values succeeds with `values`
/// exactly when each transport value converts, on its own, to the value at
/// its place in `values`.
pub proof fn lemma_batch_is_elementwise(items: Seq<SpecTransportValue>, values: Seq<SpecValue>)
    ensures
        spec_items_to_values(items, items.len() as int) == Ok::<Seq<SpecValue>, Seq<char>>(
            values,
        ) <==> (values.len() == items.len() && forall|i: int|
            0 <= i < items.len() ==> spec_transport_to_value(#[trigger] items[i]) == Ok::<
                SpecValue,
                Seq<char>,
            >(values[i])),
{
    if values.len() == items.len() && forall|i: int|
        0 <= i < items.len() ==> spec_transport_to_value(#[trigger] items[i]) == Ok::<
            SpecValue,
            Seq<char>,
        >(values[i]) {
        lemma_items_all_convert(items, values, items.len() as int);
        assert(values.take(items.len() as int) =~= values);
    }
    if spec_items_to_values(items, items.len() as int) is Ok {
        lemma_items_converted_elementwise(items, items.len() as int);
    }
}

proof fn lemma_entries_converted_elementwise(
    entries: Seq<(Seq<char>, SpecTransportValue)>,
    n: int,
)
    requires
        0 <= n <= entries.len(),
        spec_entries_to_values(entries, n) is Ok,
    ensures
        ({
            let values = spec_entries_to_values(entries, n)->Ok_0;
            &&& values.len() == n
            &&& forall|i: int|
                0 <= i < n ==> (#[trigger] values[i]).0 == entries[i].0 && spec_transport_to_value(
                    entries[i].1,
                ) == Ok::<SpecValue, Seq<char>>(values[i].1)
        }),
    decreases n,
{
    if n > 0 {
        lemma_entries_converted_elementwise(entries, n - 1);
        let values = spec_entries_to_values(entries, n)->Ok_0;
        let prefix = spec_entries_to_values(entries, n - 1)->Ok_0;
        assert forall|i: int| 0 <= i < n implies (#[trigger] values[i]).0 == entries[i].0
            && spec_transport_to_value(entries[i].1) == Ok::<SpecValue, Seq<char>>(
            values[i].1,
        ) by {
            if i < n - 1 {
                assert(values[i] == prefix[i]);
            }
        }
    }
}

/// A transport value and a value are of the same kind: null, boolean,
/// signed, unsigned, double, string, binary, array or key-value pairs. The
/// boolean, the double's bits and the string are equal; an array has as
/// many elements, and pairs have as many pairs with the same keys in the
/// same order.
pub open spec fn same_shape(t: SpecTransportValue, v: SpecValue) -> bool {
    match t {
        SpecTransportValue::Null => v is Null,
        SpecTransportValue::Bool(a) => v matches SpecValue::Bool(b) && a == b,
        SpecTransportValue::I64(_) => v is I64,
        SpecTransportValue::U64(_) => v is U64,
        SpecTransportValue::F64(a) => v matches SpecValue::F64(b) && a == b,
        SpecTransportValue::String(a) => v matches SpecValue::String(b) && a == b,
        SpecTransportValue::Binary(_) => v is Binary,
        SpecTransportValue::Array(a) => v matches SpecValue::Array(b) && a.len() == b.len(),
        SpecTransportValue::Entries(a) => v matches SpecValue::Entries(b) && a.len() == b.len()
            && forall|i: int| 0 <= i < a.len() ==> (#[trigger] a[i]).0 == b[i].0,
    }
}

/// Converting a transport value keeps its kind: when it succeeds, the value
/// is of the same kind as the transport value, with the same boolean, bits
/// or string, the same number of elements and the same keys.
pub proof fn lemma_transport_to_value_keeps_shape(t: SpecTransportValue)
    ensures
        spec_transport_to_value(t) matches Ok(v) ==> same_shape(t, v),
{
    match t {
        SpecTransportValue::Array(items) => {
            if spec_transport_to_value(t) is Ok {
                lemma_items_converted_elementwise(items, items.len() as int);
            }
        },
        SpecTransportValue::Entries(entries) => {
            if spec_transport_to_value(t) is Ok {
                lemma_entries_converted_elementwise(entries, entries.len() as int);
            }
        },
        _ => {},
    }
}

/// An array converts into an array whose element `i` is what element `i`
/// of the transport array converts into on its own.
pub proof fn lemma_array_converts_elementwise(items: Seq<SpecTransportValue>)
    ensures
        spec_transport_to_value(SpecTransportValue::Array(items)) matches Ok(v) ==> (v matches SpecValue::Array(
            values,
        ) && values.len() == items.len() && forall|i: int|
            0 <= i < items.len() ==> spec_transport_to_value(#[trigger] items[i]) == Ok::<
                SpecValue,
                Seq<char>,
            >(values[i])),
{
    if spec_transport_to_value(SpecTransportValue::Array(items)) is Ok {
        lemma_items_converted_elementwise(items, items.len() as int);
    }
}

/// Key-value pairs convert into key-value pairs with the same keys in the
/// same order, the value of pair `i` being what the transport value of
/// pair `i` converts into on its own.
pub proof fn lemma_entries_convert_elementwise(entries: Seq<(Seq<char>, SpecTransportValue)>)
    ensures
        spec_transport_to_value(SpecTransportValue::Entries(entries)) matches Ok(v) ==> (v matches SpecValue::Entries(
            values,
        ) && values.len() == entries.len() && forall|i: int|
            0 <= i < entries.len() ==> (#[trigger] values[i]).0 == entries[i].0
                && spec_transport_to_value(entries[i].1) == Ok::<SpecValue, Seq<char>>(
                values[i].1,
            )),
{
    if spec_transport_to_value(SpecTransportValue::Entries(entries)) is Ok {
        lemma_entries_converted_elementwise(entries, entries.len() as int);
    }
}

/// The transport form of a value is of the same kind as the value.
pub proof fn lemma_value_to_transport_keeps_shape(v: SpecValue)
    ensures
        same_shape(spec_value_to_transport(v), v),
{
}

/// The transport form of an array is an array of as many elements, element
/// `i` being the transport form of element `i`; likewise pairs keep their
/// keys and order, each value in transport form.
pub proof fn lemma_value_to_transport_elementwise(v: SpecValue)
    ensures
        v matches SpecValue::Array(items) ==> (spec_value_to_transport(v) matches SpecTransportValue::Array(
            ts,
        ) && ts.len() == items.len() && forall|i: int|
            0 <= i < items.len() ==> #[trigger] ts[i] == spec_value_to_transport(items[i])),
        v matches SpecValue::Entries(entries) ==> (spec_value_to_transport(v) matches SpecTransportValue::Entries(
            ts,
        ) && ts.len() == entries.len() && forall|i: int|
            0 <= i < entries.len() ==> (#[trigger] ts[i]).0 == entries[i].0 && ts[i].1
                == spec_value_to_transport(entries[i].1)),
{
}

/// A signed integer in transport form is an optional `+` or `-` and one or
/// more ASCII digits, and converts into the integer they denote; an
/// unsigned one is an optional `+` and digits. Text that does not convert
/// gives the message of its kind. Every integer's own text converts back
/// to it.
pub proof fn lemma_integer_texts(s: Seq<char>, x: i64, y: u64)
    ensures
        spec_transport_to_value(SpecTransportValue::I64(s)) matches Ok(v) ==> (v matches SpecValue::I64(
            n,
        ) && ((s.len() > 0 && s[0] == '-' && s.drop_first().len() > 0 && all_ascii_digits(
            s.drop_first(),
        ) && decimal_value(s.drop_first()) == -n) || (after_plus(s).len() > 0 && all_ascii_digits(
            after_plus(s),
        ) && decimal_value(after_plus(s)) == n))),
        spec_transport_to_value(SpecTransportValue::U64(s)) matches Ok(v) ==> (v matches SpecValue::U64(
            n,
        ) && after_plus(s).len() > 0 && all_ascii_digits(after_plus(s)) && decimal_value(
            after_plus(s),
        ) == n),
        spec_transport_to_value(SpecTransportValue::I64(s)) is Err ==> spec_transport_to_value(
            SpecTransportValue::I64(s),
        ) == Err::<SpecValue, Seq<char>>(invalid_i64_message()),
        spec_transport_to_value(SpecTransportValue::U64(s)) is Err ==> spec_transport_to_value(
            SpecTransportValue::U64(s),
        ) == Err::<SpecValue, Seq<char>>(invalid_u64_message()),
        spec_transport_to_value(SpecTransportValue::I64(spec_i64_text(x))) == Ok::<
            SpecValue,
            Seq<char>,
        >(SpecValue::I64(x)),
        spec_transport_to_value(SpecTransportValue::U64(spec_u64_text(y))) == Ok::<
            SpecValue,
            Seq<char>,
        >(SpecValue::U64(y)),
        spec_value_to_transport(SpecValue::I64(x)) == SpecTransportValue::I64(spec_i64_text(x)),
        spec_value_to_transport(SpecValue::U64(y)) == SpecTransportValue::U64(spec_u64_text(y)),
{
    lemma_i64_text_parses(x);
    lemma_u64_text_parses(y);
}

/// A binary payload converts into the bytes that base64 decoding gives for
/// its text, and fails with the invalid-payload message exactly when
/// decoding fails; a value's bytes travel as their base64 text.
pub proof fn lemma_binary_payloads(text: Seq<char>, bytes: Seq<u8>)
    ensures
        spec_transport_to_value(SpecTransportValue::Binary(text)) is Ok
            <==> base64_standard_decoding(text) is Some,
        base64_standard_decoding(text) matches Some(b) ==> spec_transport_to_value(
            SpecTransportValue::Binary(text),
        ) == Ok::<SpecValue, Seq<char>>(SpecValue::Binary(b)),
        base64_standard_decoding(text) is None ==> spec_transport_to_value(
            SpecTransportValue::Binary(text),
        ) == Err::<SpecValue, Seq<char>>(invalid_base64_message()),
        spec_value_to_transport(SpecValue::Binary(bytes)) == SpecTransportValue::Binary(
            base64_standard_encoding(bytes),
        ),
{
}

} // verus!
