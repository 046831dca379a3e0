//! Schemas in their JSON transport form and in the form the encoder takes.
//!
//! In transport form an identifier or bound may be a JSON number or the
//! decimal text of one; a field's default is a transport value.

use vstd::prelude::*;
use vstd::string::StringExecFns;

use crate::decimal::{
    after_plus, all_ascii_digits, decimal_value, is_ascii_digit, lemma_i64_text_parses, lemma_u64_text_is_digits, lemma_u64_text_parses,
    parse_i64_decimal, parse_u64_decimal, spec_i64_text, spec_parse_i64, spec_parse_u64,
    spec_u64_text,
};
use crate::error::BridgeError;
use crate::transport::{
    spec_transport_to_value, transport_to_value, SpecTransportValue, SpecValue, TransportValue,
    Value,
};

verus! {

/// An unsigned 64-bit integer given as a JSON number or as decimal text.
#[derive(Debug, PartialEq)]
pub enum U64Like {
    Number(u64),
    String(String),
}

/// A signed 64-bit integer given as a JSON number or as decimal text.
#[derive(Debug, PartialEq)]
pub enum I64Like {
    Number(i64),
    String(String),
}

/// The mathematical form of a [`U64Like`].
pub enum SpecU64Like {
    Number(u64),
    Text(Seq<char>),
}

/// The mathematical form of an [`I64Like`].
pub enum SpecI64Like {
    Number(i64),
    Text(Seq<char>),
}

impl View for U64Like {
    type V = SpecU64Like;

    open spec fn view(&self) -> SpecU64Like {
        match *self {
            U64Like::Number(n) => SpecU64Like::Number(n),
            U64Like::String(s) => SpecU64Like::Text(s@),
        }
    }
}

impl View for I64Like {
    type V = SpecI64Like;

    open spec fn view(&self) -> SpecI64Like {
        match *self {
            I64Like::Number(n) => SpecI64Like::Number(n),
            I64Like::String(s) => SpecI64Like::Text(s@),
        }
    }
}

/// The message for a field that is not a valid `u64`.
pub open spec fn expected_u64_message(field_name: Seq<char>) -> Seq<char> {
    "invalid "@ + field_name + ": expected u64"@
}

/// The message for a field that is not a valid `i64`.
pub open spec fn expected_i64_message(field_name: Seq<char>) -> Seq<char> {
    "invalid "@ + field_name + ": expected i64"@
}

/// The `u64` that a [`SpecU64Like`] gives, or the message naming the field.
pub open spec fn spec_u64_like(v: SpecU64Like, field_name: Seq<char>) -> Result<u64, Seq<char>> {
    match v {
        SpecU64Like::Number(n) => Ok(n),
        SpecU64Like::Text(s) => match spec_parse_u64(s) {
            Some(n) => Ok(n),
            None => Err(expected_u64_message(field_name)),
        },
    }
}

/// The `i64` that a [`SpecI64Like`] gives, or the message naming the field.
pub open spec fn spec_i64_like(v: SpecI64Like, field_name: Seq<char>) -> Result<i64, Seq<char>> {
    match v {
        SpecI64Like::Number(n) => Ok(n),
        SpecI64Like::Text(s) => match spec_parse_i64(s) {
            Some(n) => Ok(n),
            None => Err(expected_i64_message(field_name)),
        },
    }
}

impl U64Like {
    /// The integer: the number itself, or the value of the decimal text;
    /// text that is not a valid `u64` gives `invalid <field_name>: expected u64`.
    pub fn parse(&self, field_name: &str) -> (res: Result<u64, BridgeError>)
        ensures
            match res {
                Ok(n) => spec_u64_like(self@, field_name@) == Ok::<u64, Seq<char>>(n),
                Err(e) => spec_u64_like(self@, field_name@) == Err::<u64, Seq<char>>(e@),
            },
    {
        match self {
            U64Like::Number(n) => Ok(*n),
            U64Like::String(raw) => match parse_u64_decimal(raw.as_str()) {
                Some(n) => Ok(n),
                None => {
                    let message = String::from_str("invalid ").concat(field_name).concat(
                        ": expected u64",
                    );
                    Err(BridgeError::new(message.as_str()))
                },
            },
        }
    }
}

impl I64Like {
    /// The integer: the number itself, or the value of the decimal text;
    /// text that is not a valid `i64` gives `invalid <field_name>: expected i64`.
    pub fn parse(&self, field_name: &str) -> (res: Result<i64, BridgeError>)
        ensures
            match res {
                Ok(n) => spec_i64_like(self@, field_name@) == Ok::<i64, Seq<char>>(n),
                Err(e) => spec_i64_like(self@, field_name@) == Err::<i64, Seq<char>>(e@),
            },
    {
        match self {
            I64Like::Number(n) => Ok(*n),
            I64Like::String(raw) => match parse_i64_decimal(raw.as_str()) {
                Some(n) => Ok(n),
                None => {
                    let message = String::from_str("invalid ").concat(field_name).concat(
                        ": expected i64",
                    );
                    Err(BridgeError::new(message.as_str()))
                },
            },
        }
    }
}

/// A schema field as it travels in JSON.
#[derive(Debug)]
pub struct TransportSchemaField {
    pub number: U64Like,
    pub name: String,
    pub logical_type: String,
    pub required: bool,
    pub default_value: Option<TransportValue>,
    pub min: Option<I64Like>,
    pub max: Option<I64Like>,
    pub enum_values: Vec<String>,
}

/// A schema as it travels in JSON.
#[derive(Debug)]
pub struct TransportSchema {
    pub schema_id: U64Like,
    pub name: String,
    pub fields: Vec<TransportSchemaField>,
}

/// A schema field as the encoder takes it.
#[derive(Debug)]
pub struct SchemaField {
    pub number: u64,
    pub name: String,
    pub logical_type: String,
    pub required: bool,
    pub default_value: Option<Value>,
    pub min: Option<i64>,
    pub max: Option<i64>,
    pub enum_values: Vec<String>,
}

/// A schema as the encoder takes it.
#[derive(Debug)]
pub struct Schema {
    pub schema_id: u64,
    pub name: String,
    pub fields: Vec<SchemaField>,
}

/// The mathematical form of a [`TransportSchemaField`].
pub struct SpecTransportSchemaField {
    pub number: SpecU64Like,
    pub name: Seq<char>,
    pub logical_type: Seq<char>,
    pub required: bool,
    pub default_value: Option<SpecTransportValue>,
    pub min: Option<SpecI64Like>,
    pub max: Option<SpecI64Like>,
    pub enum_values: Seq<Seq<char>>,
}

/// The mathematical form of a [`TransportSchema`].
pub struct SpecTransportSchema {
    pub schema_id: SpecU64Like,
    pub name: Seq<char>,
    pub fields: Seq<SpecTransportSchemaField>,
}

/// The mathematical form of a [`SchemaField`].
pub struct SpecSchemaField {
    pub number: u64,
    pub name: Seq<char>,
    pub logical_type: Seq<char>,
    pub required: bool,
    pub default_value: Option<SpecValue>,
    pub min: Option<i64>,
    pub max: Option<i64>,
    pub enum_values: Seq<Seq<char>>,
}

/// The mathematical form of a [`Schema`].
pub struct SpecSchema {
    pub schema_id: u64,
    pub name: Seq<char>,
    pub fields: Seq<SpecSchemaField>,
}

/// The views of a sequence of strings.
pub open spec fn strings_view(s: Seq<String>) -> Seq<Seq<char>> {
    Seq::new(s.len(), |i: int| s[i]@)
}

pub open spec fn optional_transport_view(v: Option<TransportValue>) -> Option<SpecTransportValue> {
    match v {
        Some(t) => Some(t@),
        None => None,
    }
}

pub open spec fn optional_value_view(v: Option<Value>) -> Option<SpecValue> {
    match v {
        Some(t) => Some(t@),
        None => None,
    }
}

pub open spec fn optional_i64_like_view(v: Option<I64Like>) -> Option<SpecI64Like> {
    match v {
        Some(t) => Some(t@),
        None => None,
    }
}

impl View for TransportSchemaField {
    type V = SpecTransportSchemaField;

    open spec fn view(&self) -> SpecTransportSchemaField {
        SpecTransportSchemaField {
            number: self.number@,
            name: self.name@,
            logical_type: self.logical_type@,
            required: self.required,
            default_value: optional_transport_view(self.default_value),
            min: optional_i64_like_view(self.min),
            max: optional_i64_like_view(self.max),
            enum_values: strings_view(self.enum_values@),
        }
    }
}

impl View for SchemaField {
    type V = SpecSchemaField;

    open spec fn view(&self) -> SpecSchemaField {
        SpecSchemaField {
            number: self.number,
            name: self.name@,
            logical_type: self.logical_type@,
            required: self.required,
            default_value: optional_value_view(self.default_value),
            min: self.min,
            max: self.max,
            enum_values: strings_view(self.enum_values@),
        }
    }
}

/// The views of a sequence of transport schema fields.
pub open spec fn transport_fields_view(s: Seq<TransportSchemaField>) -> Seq<
    SpecTransportSchemaField,
> {
    Seq::new(s.len(), |i: int| s[i]@)
}

/// The views of a sequence of schema fields.
pub open spec fn fields_view(s: Seq<SchemaField>) -> Seq<SpecSchemaField> {
    Seq::new(s.len(), |i: int| s[i]@)
}

impl View for TransportSchema {
    type V = SpecTransportSchema;

    open spec fn view(&self) -> SpecTransportSchema {
        SpecTransportSchema {
            schema_id: self.schema_id@,
            name: self.name@,
            fields: transport_fields_view(self.fields@),
        }
    }
}

impl View for Schema {
    type V = SpecSchema;

    open spec fn view(&self) -> SpecSchema {
        SpecSchema {
            schema_id: self.schema_id,
            name: self.name@,
            fields: fields_view(self.fields@),
        }
    }
}

/// The converted default of a field, if it has one.
pub open spec fn spec_optional_value(v: Option<SpecTransportValue>) -> Result<
    Option<SpecValue>,
    Seq<char>,
> {
    match v {
        None => Ok(None),
        Some(t) => match spec_transport_to_value(t) {
            Ok(value) => Ok(Some(value)),
            Err(e) => Err(e),
        },
    }
}

/// The bound of a field, if it has one.
pub open spec fn spec_optional_i64(v: Option<SpecI64Like>, field_name: Seq<char>) -> Result<
    Option<i64>,
    Seq<char>,
> {
    match v {
        None => Ok(None),
        Some(t) => match spec_i64_like(t, field_name) {
            Ok(n) => Ok(Some(n)),
            Err(e) => Err(e),
        },
    }
}

/// A field in the encoder's form: its number, then its default, then its
/// bounds are read in that order, and the first failure is the result;
/// names, type, flag and enumeration are kept.
pub open spec fn spec_schema_field(f: SpecTransportSchemaField) -> Result<
    SpecSchemaField,
    Seq<char>,
> {
    match spec_u64_like(f.number, "field.number"@) {
        Err(e) => Err(e),
        Ok(number) => match spec_optional_value(f.default_value) {
            Err(e) => Err(e),
            Ok(default_value) => match spec_optional_i64(f.min, "field.min"@) {
                Err(e) => Err(e),
                Ok(min) => match spec_optional_i64(f.max, "field.max"@) {
                    Err(e) => Err(e),
                    Ok(max) => Ok(
                        SpecSchemaField {
                            number,
                            name: f.name,
                            logical_type: f.logical_type,
                            required: f.required,
                            default_value,
                            min,
                            max,
                            enum_values: f.enum_values,
                        },
                    ),
                },
            },
        },
    }
}

/// The first `n` fields in the encoder's form, or the first message met.
pub open spec fn spec_schema_fields(fields: Seq<SpecTransportSchemaField>, n: int) -> Result<
    Seq<SpecSchemaField>,
    Seq<char>,
>
    decreases n,
{
    if n <= 0 || n > fields.len() {
        Ok(Seq::empty())
    } else {
        match spec_schema_fields(fields, n - 1) {
            Err(e) => Err(e),
            Ok(prefix) => match spec_schema_field(fields[n - 1]) {
                Ok(f) => Ok(prefix.push(f)),
                Err(e) => Err(e),
            },
        }
    }
}

/// A schema in the encoder's form: its identifier first, then its fields
/// in order; the first failure is the result.
pub open spec fn spec_schema(s: SpecTransportSchema) -> Result<SpecSchema, Seq<char>> {
    match spec_u64_like(s.schema_id, "schemaId"@) {
        Err(e) => Err(e),
        Ok(schema_id) => match spec_schema_fields(s.fields, s.fields.len() as int) {
            Err(e) => Err(e),
            Ok(fields) => Ok(SpecSchema { schema_id, name: s.name, fields }),
        },
    }
}

proof fn lemma_fields_error_persists(fields: Seq<SpecTransportSchemaField>, k: int, n: int)
    requires
        0 <= k <= n <= fields.len(),
        spec_schema_fields(fields, k) is Err,
    ensures
        spec_schema_fields(fields, n) == spec_schema_fields(fields, k),
    decreases n - k,
{
    if k < n {
        lemma_fields_error_persists(fields, k, n - 1);
    }
}

fn clone_strings(v: &Vec<String>) -> (res: Vec<String>)
    ensures
        res@ == v@,
{
    let res = v.clone();
    assert(res@ =~= v@);
    res
}

/// Converts one schema field: reads its number, then its default value,
/// then its minimum and maximum, and fails with the first failure.
pub fn transport_field_to_field(field: &TransportSchemaField) -> (res: Result<
    SchemaField,
    BridgeError,
>)
    ensures
        match res {
            Ok(f) => spec_schema_field(field@) == Ok::<SpecSchemaField, Seq<char>>(f@),
            Err(e) => spec_schema_field(field@) == Err::<SpecSchemaField, Seq<char>>(e@),
        },
{
    let number = match field.number.parse("field.number") {
        Ok(n) => n,
        Err(e) => return Err(e),
    };
    let default_value = match &field.default_value {
        None => None,
        Some(t) => match transport_to_value(t) {
            Ok(v) => Some(v),
            Err(e) => return Err(e),
        },
    };
    let min = match &field.min {
        None => None,
        Some(m) => match m.parse("field.min") {
            Ok(n) => Some(n),
            Err(e) => return Err(e),
        },
    };
    let max = match &field.max {
        None => None,
        Some(m) => match m.parse("field.max") {
            Ok(n) => Some(n),
            Err(e) => return Err(e),
        },
    };
    Ok(
        SchemaField {
            number,
            name: field.name.clone(),
            logical_type: field.logical_type.clone(),
            required: field.required,
            default_value,
            min,
            max,
            enum_values: clone_strings(&field.enum_values),
        },
    )
}

/// Converts a schema: reads its identifier, then converts its fields in
/// order, and fails with the first failure.
pub fn transport_schema_to_schema(schema: &TransportSchema) -> (res: Result<Schema, BridgeError>)
    ensures
        match res {
            Ok(s) => spec_schema(schema@) == Ok::<SpecSchema, Seq<char>>(s@),
            Err(e) => spec_schema(schema@) == Err::<SpecSchema, Seq<char>>(e@),
        },
{
    let schema_id = match schema.schema_id.parse("schemaId") {
        Ok(n) => n,
        Err(e) => return Err(e),
    };
    let ghost tfields = transport_fields_view(schema.fields@);
    let mut fields: Vec<SchemaField> = Vec::new();
    let mut i: usize = 0;
    assert(fields_view(fields@) =~= Seq::<SpecSchemaField>::empty());
    while i < schema.fields.len()
        invariant
            i <= schema.fields@.len(),
            tfields == transport_fields_view(schema.fields@),
            tfields == schema@.fields,
            spec_u64_like(schema@.schema_id, "schemaId"@) == Ok::<u64, Seq<char>>(schema_id),
            spec_schema_fields(tfields, i as int) == Ok::<Seq<SpecSchemaField>, Seq<char>>(
                fields_view(fields@),
            ),
        decreases schema.fields@.len() - i,
    {
        match transport_field_to_field(&schema.fields[i]) {
            Ok(f) => {
                let ghost before = fields@;
                fields.push(f);
                assert(fields_view(fields@) =~= fields_view(before).push(f@));
                i = i + 1;
            },
            Err(e) => {
                proof {
                    assert(tfields[i as int] == schema.fields@[i as int]@);
                    assert(spec_schema_fields(tfields, i + 1) == Err::<
                        Seq<SpecSchemaField>,
                        Seq<char>,
                    >(e@));
                    lemma_fields_error_persists(tfields, i + 1, schema.fields@.len() as int);
                }
                return Err(e);
            },
        }
    }
    Ok(Schema { schema_id, name: schema.name.clone(), fields })
}

/// Every `u64` is read back from its decimal text, with or without a `+`,
/// whatever the field, up to `u64::MAX`; a number is taken as it is.
pub proof fn lemma_u64_like_reads_every_u64(n: u64, field_name: Seq<char>)
    ensures
        spec_u64_like(SpecU64Like::Number(n), field_name) == Ok::<u64, Seq<char>>(n),
        spec_u64_like(SpecU64Like::Text(spec_u64_text(n)), field_name) == Ok::<u64, Seq<char>>(
            n,
        ),
        spec_u64_like(SpecU64Like::Text(seq!['+'] + spec_u64_text(n)), field_name) == Ok::<
            u64,
            Seq<char>,
        >(n),
{
    lemma_u64_text_parses(n);
    lemma_u64_text_is_digits(n);
    let text = spec_u64_text(n);
    assert(is_ascii_digit(text[0]));
    assert(after_plus(text) == text);
    let t = seq!['+'] + spec_u64_text(n);
    assert(t.drop_first() =~= spec_u64_text(n));
    assert(after_plus(t) == spec_u64_text(n));
}

/// Text read as a `u64` is an optional `+` and one or more ASCII digits,
/// and the result is the number those digits denote; any other text is
/// refused with the message that names the field.
pub proof fn lemma_u64_like_text_is_decimal(s: Seq<char>, field_name: Seq<char>)
    ensures
        spec_u64_like(SpecU64Like::Text(s), field_name) matches Ok(n) ==> ({
            let d = after_plus(s);
            &&& d.len() > 0
            &&& all_ascii_digits(d)
            &&& decimal_value(d) == n
        }),
        spec_u64_like(SpecU64Like::Text(s), field_name) is Err ==> spec_u64_like(
            SpecU64Like::Text(s),
            field_name,
        ) == Err::<u64, Seq<char>>(expected_u64_message(field_name)),
{
}

/// Every `i64` is read back from its decimal text, whatever the field; a
/// number is taken as it is.
pub proof fn lemma_i64_like_reads_every_i64(n: i64, field_name: Seq<char>)
    ensures
        spec_i64_like(SpecI64Like::Number(n), field_name) == Ok::<i64, Seq<char>>(n),
        spec_i64_like(SpecI64Like::Text(spec_i64_text(n)), field_name) == Ok::<i64, Seq<char>>(
            n,
        ),
{
    lemma_i64_text_parses(n);
}

/// A converted field keeps what was given for it: its name, logical type,
/// flag and enumeration as they are; its number, default and bounds are
/// what each reads as on its own, present exactly when given.
pub proof fn lemma_field_keeps_given_parts(f: SpecTransportSchemaField)
    ensures
        spec_schema_field(f) matches Ok(r) ==> {
            &&& r.name == f.name
            &&& r.logical_type == f.logical_type
            &&& r.required == f.required
            &&& r.enum_values == f.enum_values
            &&& spec_u64_like(f.number, "field.number"@) == Ok::<u64, Seq<char>>(r.number)
            &&& (f.default_value is None <==> r.default_value is None)
            &&& (f.default_value matches Some(t) ==> Ok::<SpecValue, Seq<char>>(
                r.default_value.unwrap(),
            ) == spec_transport_to_value(t))
            &&& (f.min is None <==> r.min is None)
            &&& (f.min matches Some(m) ==> spec_i64_like(m, "field.min"@) == Ok::<i64, Seq<char>>(
                r.min.unwrap(),
            ))
            &&& (f.max is None <==> r.max is None)
            &&& (f.max matches Some(m) ==> spec_i64_like(m, "field.max"@) == Ok::<i64, Seq<char>>(
                r.max.unwrap(),
            ))
        },
{
}

proof fn lemma_fields_converted_elementwise(fields: Seq<SpecTransportSchemaField>, n: int)
    requires
        0 <= n <= fields.len(),
        spec_schema_fields(fields, n) is Ok,
    ensures
        ({
            let out = spec_schema_fields(fields, n)->Ok_0;
            &&& out.len() == n
            &&& forall|i: int|
                0 <= i < n ==> spec_schema_field(#[trigger] fields[i]) == Ok::<
                    SpecSchemaField,
                    Seq<char>,
                >(out[i])
        }),
    decreases n,
{
    if n > 0 {
        lemma_fields_converted_elementwise(fields, n - 1);
    }
}

/// A converted schema keeps its name, reads its identifier on its own, and
/// has as many fields as given, field `i` being what field `i` converts
/// into on its own.
pub proof fn lemma_schema_keeps_given_parts(s: SpecTransportSchema)
    ensures
        spec_schema(s) matches Ok(r) ==> {
            &&& r.name == s.name
            &&& spec_u64_like(s.schema_id, "schemaId"@) == Ok::<u64, Seq<char>>(r.schema_id)
            &&& r.fields.len() == s.fields.len()
            &&& forall|i: int|
                0 <= i < s.fields.len() ==> spec_schema_field(#[trigger] s.fields[i]) == Ok::<
                    SpecSchemaField,
                    Seq<char>,
                >(r.fields[i])
        },
{
    if spec_schema(s) is Ok {
        lemma_fields_converted_elementwise(s.fields, s.fields.len() as int);
    }
}

} // verus!
