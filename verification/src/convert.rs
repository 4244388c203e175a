//! Typed conversion: turns a fully resolved raw document into the typed
//! value a schema describes, parsing each string leaf by its field's target
//! type and recursing into nested documents. Conversion fails fast: the
//! first field that cannot be converted (in schema order) yields a
//! `FieldParseError` naming the field path, and no typed value is produced.
//! The error repeats the offending raw value only for non-secret fields.
//!
//! A float-typed leaf is carried through as its resolved text, to be turned
//! into a machine float by the caller: verified code here holds no floats.

use vstd::prelude::*;
use vstd::string::StringExecFns;
use crate::doc::{raw_fields_view, raw_value_view, RawDocument, RawVal, RawValue};
use crate::env::{Env, EnvVal};
use crate::parse::{
    bool_literal, int_literal, parse_bool, parse_signed, parse_unsigned, uint_literal, ParseCause,
};
use crate::resolve::{
    entries_warnings_spec, log_views, resolve_document, resolve_entries_spec,
};
use crate::schema::{
    lemma_spec_fields_decreases, raw_is_string, target_is_primitive, FieldSpec, Schema,
    TargetType,
};
use crate::text::str_eq;

verus! {

broadcast use {
    vstd::seq::group_seq_axioms,
    vstd::std_specs::vec::group_vec_axioms,
    crate::schema::lemma_spec_fields_decreases,
};

/// One named field of a typed document.
#[derive(Debug)]
pub struct TypedField {
    pub name: String,
    pub value: TypedValue,
}

/// A typed value: a primitive, an absence, or a nested typed document. A
/// float leaf holds its validated-by-the-caller literal text.
#[derive(Debug)]
pub enum TypedValue {
    Str(String),
    Bool(bool),
    U8(u8),
    U16(u16),
    U32(u32),
    U64(u64),
    U128(u128),
    I8(i8),
    I16(i16),
    I32(i32),
    I64(i64),
    I128(i128),
    FloatText(String),
    Absent,
    Doc(TypedDocument),
}

/// A typed document: one entry per schema field, in schema order.
#[derive(Debug)]
pub struct TypedDocument {
    pub fields: Vec<TypedField>,
}

/// The mathematical model of a typed value.
pub enum TypedVal {
    Str(Seq<char>),
    Bool(bool),
    U8(u8),
    U16(u16),
    U32(u32),
    U64(u64),
    U128(u128),
    I8(i8),
    I16(i16),
    I32(i32),
    I64(i64),
    I128(i128),
    FloatText(Seq<char>),
    Absent,
    Doc(Seq<(Seq<char>, TypedVal)>),
}

pub open spec fn typed_value_view(v: TypedValue) -> TypedVal
    decreases v,
{
    match v {
        TypedValue::Str(s) => TypedVal::Str(s@),
        TypedValue::Bool(b) => TypedVal::Bool(b),
        TypedValue::U8(x) => TypedVal::U8(x),
        TypedValue::U16(x) => TypedVal::U16(x),
        TypedValue::U32(x) => TypedVal::U32(x),
        TypedValue::U64(x) => TypedVal::U64(x),
        TypedValue::U128(x) => TypedVal::U128(x),
        TypedValue::I8(x) => TypedVal::I8(x),
        TypedValue::I16(x) => TypedVal::I16(x),
        TypedValue::I32(x) => TypedVal::I32(x),
        TypedValue::I64(x) => TypedVal::I64(x),
        TypedValue::I128(x) => TypedVal::I128(x),
        TypedValue::FloatText(s) => TypedVal::FloatText(s@),
        TypedValue::Absent => TypedVal::Absent,
        TypedValue::Doc(d) => TypedVal::Doc(typed_fields_view(d.fields@)),
    }
}

pub open spec fn typed_fields_view(fs: Seq<TypedField>) -> Seq<(Seq<char>, TypedVal)>
    decreases fs,
{
    if fs.len() == 0 {
        Seq::empty()
    } else {
        typed_fields_view(fs.drop_last()).push(
            (fs.last().name@, typed_value_view(fs.last().value)),
        )
    }
}

impl View for TypedValue {
    type V = TypedVal;

    open spec fn view(&self) -> TypedVal {
        typed_value_view(*self)
    }
}

impl View for TypedDocument {
    type V = Seq<(Seq<char>, TypedVal)>;

    open spec fn view(&self) -> Seq<(Seq<char>, TypedVal)> {
        typed_fields_view(self.fields@)
    }
}

/// A failed field conversion: the field path, the raw value unless the
/// field is secret, and the cause.
#[derive(Debug)]
pub struct FieldParseError {
    pub field: String,
    pub raw_value: Option<String>,
    pub cause: ParseCause,
}

/// The model of a failed field conversion.
pub struct ErrVal {
    pub field: Seq<char>,
    pub raw_value: Option<Seq<char>>,
    pub cause: ParseCause,
}

impl View for FieldParseError {
    type V = ErrVal;

    open spec fn view(&self) -> ErrVal {
        ErrVal {
            field: self.field@,
            raw_value: match self.raw_value {
                Option::Some(s) => Option::Some(s@),
                Option::None => Option::None,
            },
            cause: self.cause,
        }
    }
}

/// The wording of each failure cause.
pub open spec fn cause_text(c: ParseCause) -> Seq<char> {
    match c {
        ParseCause::NotBool => "not a boolean literal"@,
        ParseCause::NotNumeric => "not an integer literal"@,
        ParseCause::OutOfRange => "integer out of range for the target type"@,
        ParseCause::MissingValue => "no value for a non-optional field"@,
        ParseCause::ShapeMismatch => "value shape does not fit the target type"@,
    }
}

/// The rendering of a field error: the field path and the cause, and the
/// raw value only when the error carries one (it never does for a secret
/// field).
pub open spec fn err_message_text(e: ErrVal) -> Seq<char> {
    match e.raw_value {
        Option::Some(rv) => "field '"@ + e.field + "': "@ + cause_text(e.cause) + " (value: '"@
            + rv + "')"@,
        Option::None => "field '"@ + e.field + "': "@ + cause_text(e.cause),
    }
}

fn cause_message(c: &ParseCause) -> (r: &'static str)
    ensures
        r@ == cause_text(*c),
{
    match c {
        ParseCause::NotBool => "not a boolean literal",
        ParseCause::NotNumeric => "not an integer literal",
        ParseCause::OutOfRange => "integer out of range for the target type",
        ParseCause::MissingValue => "no value for a non-optional field",
        ParseCause::ShapeMismatch => "value shape does not fit the target type",
    }
}

impl FieldParseError {
    /// Renders the error for diagnostics.
    pub fn message(&self) -> (r: String)
        ensures
            r@ == err_message_text(self@),
    {
        let mut m = "field '".to_owned();
        m.append(self.field.as_str());
        m.append("': ");
        m.append(cause_message(&self.cause));
        match &self.raw_value {
            Option::Some(rv) => {
                m.append(" (value: '");
                m.append(rv.as_str());
                m.append("')");
            },
            Option::None => {},
        }
        proof {
            assert(m@ =~= err_message_text(self@));
        }
        m
    }
}

/// The value of an unsigned literal bounded by `max`.
pub open spec fn uint_convert_spec(s: Seq<char>, max: int) -> Result<int, ParseCause> {
    match uint_literal(s) {
        Option::Some(v) => if v <= max {
            Result::Ok(v)
        } else {
            Result::Err(ParseCause::OutOfRange)
        },
        Option::None => Result::Err(ParseCause::NotNumeric),
    }
}

/// The value of a signed literal within `min ..= max`.
pub open spec fn sint_convert_spec(s: Seq<char>, min: int, max: int) -> Result<int, ParseCause> {
    match int_literal(s) {
        Option::Some(v) => if min <= v <= max {
            Result::Ok(v)
        } else {
            Result::Err(ParseCause::OutOfRange)
        },
        Option::None => Result::Err(ParseCause::NotNumeric),
    }
}

/// What a resolved string leaf converts to under a primitive target type.
pub open spec fn prim_convert_spec(t: TargetType, s: Seq<char>) -> Result<TypedVal, ParseCause> {
    match t {
        TargetType::Str => Result::Ok(TypedVal::Str(s)),
        TargetType::Bool => match bool_literal(s) {
            Option::Some(b) => Result::Ok(TypedVal::Bool(b)),
            Option::None => Result::Err(ParseCause::NotBool),
        },
        TargetType::U8 => match uint_convert_spec(s, u8::MAX as int) {
            Result::Ok(v) => Result::Ok(TypedVal::U8(v as u8)),
            Result::Err(c) => Result::Err(c),
        },
        TargetType::U16 => match uint_convert_spec(s, u16::MAX as int) {
            Result::Ok(v) => Result::Ok(TypedVal::U16(v as u16)),
            Result::Err(c) => Result::Err(c),
        },
        TargetType::U32 => match uint_convert_spec(s, u32::MAX as int) {
            Result::Ok(v) => Result::Ok(TypedVal::U32(v as u32)),
            Result::Err(c) => Result::Err(c),
        },
        TargetType::U64 => match uint_convert_spec(s, u64::MAX as int) {
            Result::Ok(v) => Result::Ok(TypedVal::U64(v as u64)),
            Result::Err(c) => Result::Err(c),
        },
        TargetType::U128 => match uint_convert_spec(s, u128::MAX as int) {
            Result::Ok(v) => Result::Ok(TypedVal::U128(v as u128)),
            Result::Err(c) => Result::Err(c),
        },
        TargetType::I8 => match sint_convert_spec(s, i8::MIN as int, i8::MAX as int) {
            Result::Ok(v) => Result::Ok(TypedVal::I8(v as i8)),
            Result::Err(c) => Result::Err(c),
        },
        TargetType::I16 => match sint_convert_spec(s, i16::MIN as int, i16::MAX as int) {
            Result::Ok(v) => Result::Ok(TypedVal::I16(v as i16)),
            Result::Err(c) => Result::Err(c),
        },
        TargetType::I32 => match sint_convert_spec(s, i32::MIN as int, i32::MAX as int) {
            Result::Ok(v) => Result::Ok(TypedVal::I32(v as i32)),
            Result::Err(c) => Result::Err(c),
        },
        TargetType::I64 => match sint_convert_spec(s, i64::MIN as int, i64::MAX as int) {
            Result::Ok(v) => Result::Ok(TypedVal::I64(v as i64)),
            Result::Err(c) => Result::Err(c),
        },
        TargetType::I128 => match sint_convert_spec(s, i128::MIN as int, i128::MAX as int) {
            Result::Ok(v) => Result::Ok(TypedVal::I128(v as i128)),
            Result::Err(c) => Result::Err(c),
        },
        TargetType::F32 => Result::Ok(TypedVal::FloatText(s)),
        TargetType::F64 => Result::Ok(TypedVal::FloatText(s)),
        TargetType::Nested(_) => Result::Err(ParseCause::ShapeMismatch),
    }
}

/// Index of the first entry named `name` at or after `i`; `entries.len()`
/// if there is none.
pub open spec fn entry_index_from(
    entries: Seq<(Seq<char>, RawVal)>,
    name: Seq<char>,
    i: int,
) -> int
    decreases entries.len() - i,
{
    if i < 0 || i >= entries.len() {
        entries.len() as int
    } else if entries[i].0 == name {
        i
    } else {
        entry_index_from(entries, name, i + 1)
    }
}

/// The first entry named `name` in a document, if any.
pub open spec fn doc_lookup(entries: Seq<(Seq<char>, RawVal)>, name: Seq<char>) -> Option<
    RawVal,
> {
    if entry_index_from(entries, name, 0) < entries.len() {
        Option::Some(entries[entry_index_from(entries, name, 0)].1)
    } else {
        Option::None
    }
}

/// What one field converts to, given the document's value for it (`None`
/// when the document has no entry of that name). An absent or missing value
/// is allowed only for an optional field; a present-but-empty string leaf
/// of a string-raw optional field converts to absence; otherwise the leaf
/// is parsed by the field's target type, and a nested document is converted
/// by the nested schema, errors carrying the outer field name as a path
/// prefix.
pub open spec fn convert_field_spec(f: FieldSpec, v: Option<RawVal>) -> Result<TypedVal, ErrVal>
    decreases f,
{
    match v {
        Option::None => if f.optional {
            Result::Ok(TypedVal::Absent)
        } else {
            Result::Err(
                ErrVal { field: f.name@, raw_value: Option::None, cause: ParseCause::MissingValue },
            )
        },
        Option::Some(RawVal::Absent) => if f.optional {
            Result::Ok(TypedVal::Absent)
        } else {
            Result::Err(
                ErrVal { field: f.name@, raw_value: Option::None, cause: ParseCause::MissingValue },
            )
        },
        Option::Some(RawVal::Str(s)) => if f.optional && s.len() == 0 && raw_is_string(f) {
            Result::Ok(TypedVal::Absent)
        } else {
            match prim_convert_spec(f.target, s) {
                Result::Ok(tv) => Result::Ok(tv),
                Result::Err(c) => Result::Err(
                    ErrVal {
                        field: f.name@,
                        raw_value: if f.secret {
                            Option::None
                        } else {
                            Option::Some(s)
                        },
                        cause: c,
                    },
                ),
            }
        },
        Option::Some(RawVal::Doc(entries)) => match f.target {
            TargetType::Nested(sub) => match convert_fields_spec((*sub).spec_fields(), entries) {
                Result::Ok(tvs) => Result::Ok(TypedVal::Doc(tvs)),
                Result::Err(e) => Result::Err(
                    ErrVal {
                        field: f.name@ + "."@ + e.field,
                        raw_value: e.raw_value,
                        cause: e.cause,
                    },
                ),
            },
            _ => Result::Err(
                ErrVal { field: f.name@, raw_value: Option::None, cause: ParseCause::ShapeMismatch },
            ),
        },
    }
}

/// What a document converts to under a field list: every field in order, or
/// the first field's error.
pub open spec fn convert_fields_spec(
    fields: Seq<FieldSpec>,
    entries: Seq<(Seq<char>, RawVal)>,
) -> Result<Seq<(Seq<char>, TypedVal)>, ErrVal>
    decreases fields,
{
    if fields.len() == 0 {
        Result::Ok(Seq::empty())
    } else {
        match convert_fields_spec(fields.drop_last(), entries) {
            Result::Ok(done) => match convert_field_spec(
                fields.last(),
                doc_lookup(entries, fields.last().name@),
            ) {
                Result::Ok(tv) => Result::Ok(done.push((fields.last().name@, tv))),
                Result::Err(e) => Result::Err(e),
            },
            Result::Err(e) => Result::Err(e),
        }
    }
}

pub open spec fn opt_val(v: Option<&RawValue>) -> Option<RawVal> {
    match v {
        Option::Some(x) => Option::Some(raw_value_view(*x)),
        Option::None => Option::None,
    }
}

proof fn lemma_entry_index_skip(entries: Seq<(Seq<char>, RawVal)>, name: Seq<char>, i: int)
    requires
        0 <= i <= entries.len(),
        forall|j: int| 0 <= j < i ==> (#[trigger] entries[j]).0 != name,
    ensures
        entry_index_from(entries, name, 0) == entry_index_from(entries, name, i),
    decreases i,
{
    if i > 0 {
        lemma_entry_index_skip(entries, name, i - 1);
        assert(entry_index_from(entries, name, i - 1) == entry_index_from(entries, name, i));
    }
}

/// The document's value for the field named `name`, if any.
fn doc_find<'a>(doc: &'a RawDocument, name: &str) -> (r: Option<&'a RawValue>)
    ensures
        opt_val(r) == doc_lookup(doc@, name@),
{
    proof {
        crate::doc::lemma_raw_fields_view_len(doc.fields@);
        assert forall|j: int| 0 <= j < doc.fields@.len() implies (#[trigger] doc@[j]) == (
        doc.fields@[j].name@, raw_value_view(doc.fields@[j].value)) by {
            crate::doc::lemma_raw_fields_view_index(doc.fields@, j);
        }
    }
    let n = doc.fields.len();
    let mut i: usize = 0;
    while i < n
        invariant
            0 <= i <= n,
            n == doc.fields@.len(),
            doc@.len() == n,
            forall|j: int| 0 <= j < doc.fields@.len() ==> (#[trigger] doc@[j]) == (
            doc.fields@[j].name@, raw_value_view(doc.fields@[j].value)),
            forall|j: int| 0 <= j < i ==> (#[trigger] doc@[j]).0 != name@,
        decreases n - i,
    {
        if str_eq(doc.fields[i].name.as_str(), name) {
            proof {
                lemma_entry_index_skip(doc@, name@, i as int);
            }
            return Some(&doc.fields[i].value);
        }
        i = i + 1;
    }
    proof {
        lemma_entry_index_skip(doc@, name@, n as int);
    }
    None
}

/// Converts one resolved string leaf by a primitive target type.
fn convert_primitive(t: &TargetType, s: &str) -> (r: Result<TypedValue, ParseCause>)
    ensures
        match r {
            Ok(tv) => prim_convert_spec(*t, s@) == Result::<TypedVal, ParseCause>::Ok(tv@),
            Err(c) => prim_convert_spec(*t, s@) == Result::<TypedVal, ParseCause>::Err(c),
        },
{
    match t {
        TargetType::Str => Ok(TypedValue::Str(s.to_owned())),
        TargetType::Bool => match parse_bool(s) {
            Ok(b) => Ok(TypedValue::Bool(b)),
            Err(c) => Err(c),
        },
        TargetType::U8 => match parse_unsigned(s, u8::MAX as u128) {
            Ok(v) => Ok(TypedValue::U8(v as u8)),
            Err(c) => Err(c),
        },
        TargetType::U16 => match parse_unsigned(s, u16::MAX as u128) {
            Ok(v) => Ok(TypedValue::U16(v as u16)),
            Err(c) => Err(c),
        },
        TargetType::U32 => match parse_unsigned(s, u32::MAX as u128) {
            Ok(v) => Ok(TypedValue::U32(v as u32)),
            Err(c) => Err(c),
        },
        TargetType::U64 => match parse_unsigned(s, u64::MAX as u128) {
            Ok(v) => Ok(TypedValue::U64(v as u64)),
            Err(c) => Err(c),
        },
        TargetType::U128 => match parse_unsigned(s, u128::MAX) {
            Ok(v) => Ok(TypedValue::U128(v)),
            Err(c) => Err(c),
        },
        TargetType::I8 => match parse_signed(s, i8::MIN as i128, i8::MAX as i128) {
            Ok(v) => Ok(TypedValue::I8(v as i8)),
            Err(c) => Err(c),
        },
        TargetType::I16 => match parse_signed(s, i16::MIN as i128, i16::MAX as i128) {
            Ok(v) => Ok(TypedValue::I16(v as i16)),
            Err(c) => Err(c),
        },
        TargetType::I32 => match parse_signed(s, i32::MIN as i128, i32::MAX as i128) {
            Ok(v) => Ok(TypedValue::I32(v as i32)),
            Err(c) => Err(c),
        },
        TargetType::I64 => match parse_signed(s, i64::MIN as i128, i64::MAX as i128) {
            Ok(v) => Ok(TypedValue::I64(v as i64)),
            Err(c) => Err(c),
        },
        TargetType::I128 => match parse_signed(s, i128::MIN, i128::MAX) {
            Ok(v) => Ok(TypedValue::I128(v)),
            Err(c) => Err(c),
        },
        TargetType::F32 => Ok(TypedValue::FloatText(s.to_owned())),
        TargetType::F64 => Ok(TypedValue::FloatText(s.to_owned())),
        TargetType::Nested(_) => Err(ParseCause::ShapeMismatch),
    }
}

/// Whether the field's derived raw type is the plain string type.
fn raw_is_string_exec(f: &FieldSpec) -> (b: bool)
    ensures
        b == raw_is_string(*f),
{
    match &f.raw_override {
        Option::Some(o) => str_eq(o.as_str(), "String"),
        Option::None => target_is_primitive(&f.target),
    }
}

/// Converts one field from the document's value for it.
fn convert_field(f: &FieldSpec, v: Option<&RawValue>) -> (r: Result<TypedValue, FieldParseError>)
    ensures
        match r {
            Ok(tv) => convert_field_spec(*f, opt_val(v)) == Result::<TypedVal, ErrVal>::Ok(tv@),
            Err(e) => convert_field_spec(*f, opt_val(v)) == Result::<TypedVal, ErrVal>::Err(e@),
        },
    decreases f,
{
    let missing = !match v {
        Option::Some(rv) => match rv {
            RawValue::Absent => false,
            _ => true,
        },
        Option::None => false,
    };
    if missing {
        if f.optional {
            return Ok(TypedValue::Absent);
        } else {
            return Err(
                FieldParseError {
                    field: f.name.clone(),
                    raw_value: None,
                    cause: ParseCause::MissingValue,
                },
            );
        }
    }
    match v.unwrap() {
        RawValue::Str(s) => {
            if f.optional && s.unicode_len() == 0 && raw_is_string_exec(f) {
                Ok(TypedValue::Absent)
            } else {
                match convert_primitive(&f.target, s.as_str()) {
                    Ok(tv) => Ok(tv),
                    Err(c) => Err(
                        FieldParseError {
                            field: f.name.clone(),
                            raw_value: if f.secret {
                                None
                            } else {
                                Some(s.clone())
                            },
                            cause: c,
                        },
                    ),
                }
            }
        },
        RawValue::Doc(d) => {
            match &f.target {
                TargetType::Nested(sub) => {
                    proof {
                        assert(decreases_to!(*f => f.target));
                    }
                    match convert_document(&**sub, d) {
                        Ok(td) => Ok(TypedValue::Doc(td)),
                        Err(e) => {
                            let FieldParseError { field, raw_value, cause } = e;
                            let mut path = f.name.clone();
                            path.append(".");
                            path.append(field.as_str());
                            proof {
                                assert(path@ =~= f.name@ + "."@ + field@);
                            }
                            Err(FieldParseError { field: path, raw_value, cause })
                        },
                    }
                },
                _ => Err(
                    FieldParseError {
                        field: f.name.clone(),
                        raw_value: None,
                        cause: ParseCause::ShapeMismatch,
                    },
                ),
            }
        },
        RawValue::Absent => {
            // unreachable: handled as missing above
            proof {
                assert(false);
            }
            Ok(TypedValue::Absent)
        },
    }
}

/// An error for a field prefix stays the error of the whole field list.
proof fn lemma_convert_prefix_err(
    fields: Seq<FieldSpec>,
    entries: Seq<(Seq<char>, RawVal)>,
    i: int,
)
    requires
        0 <= i <= fields.len(),
        convert_fields_spec(fields.take(i), entries) is Err,
    ensures
        convert_fields_spec(fields, entries) == convert_fields_spec(fields.take(i), entries),
    decreases fields.len(),
{
    if i == fields.len() {
        assert(fields.take(i) =~= fields);
    } else {
        assert(fields.drop_last().take(i) =~= fields.take(i));
        lemma_convert_prefix_err(fields.drop_last(), entries, i);
    }
}

/// Converts a fully resolved document into the typed document the schema
/// describes, or fails with the first field error in schema order.
#[verifier::loop_isolation(false)]
pub fn convert_document(schema: &Schema, doc: &RawDocument) -> (r: Result<
    TypedDocument,
    FieldParseError,
>)
    ensures
        match r {
            Ok(t) => convert_fields_spec(schema.spec_fields(), doc@) == Result::<
                Seq<(Seq<char>, TypedVal)>,
                ErrVal,
            >::Ok(t@),
            Err(e) => convert_fields_spec(schema.spec_fields(), doc@) == Result::<
                Seq<(Seq<char>, TypedVal)>,
                ErrVal,
            >::Err(e@),
        },
    decreases schema,
{
    let ghost f_seq = schema.spec_fields();
    let fields = schema.fields();
    let n = fields.len();
    let mut out: Vec<TypedField> = Vec::new();
    let mut i: usize = 0;
    while i < n
        invariant
            0 <= i <= n,
            out@.len() == i,
            convert_fields_spec(f_seq.take(i as int), doc@) == Result::<
                Seq<(Seq<char>, TypedVal)>,
                ErrVal,
            >::Ok(typed_fields_view(out@)),
        decreases n - i,
    {
        proof {
            lemma_spec_fields_decreases(*schema);
            assert(decreases_to!(f_seq => f_seq[i as int]));
        }
        let fv = doc_find(doc, fields[i].name.as_str());
        match convert_field(&fields[i], fv) {
            Ok(tv) => {
                let ghost out_pre = out@;
                out.push(TypedField { name: fields[i].name.clone(), value: tv });
                proof {
                    let cur = f_seq.take(i as int + 1);
                    assert(cur.drop_last() =~= f_seq.take(i as int));
                    assert(cur.last() == f_seq[i as int]);
                    assert(out@.drop_last() =~= out_pre);
                    assert(typed_fields_view(out@) == typed_fields_view(out_pre).push(
                        (f_seq[i as int].name@, typed_value_view(tv)),
                    ));
                    assert(convert_fields_spec(cur, doc@) == Result::<
                        Seq<(Seq<char>, TypedVal)>,
                        ErrVal,
                    >::Ok(typed_fields_view(out@)));
                }
            },
            Err(e) => {
                proof {
                    let cur = f_seq.take(i as int + 1);
                    assert(cur.drop_last() =~= f_seq.take(i as int));
                    assert(cur.last() == f_seq[i as int]);
                    assert(convert_fields_spec(cur, doc@) == Result::<
                        Seq<(Seq<char>, TypedVal)>,
                        ErrVal,
                    >::Err(e@));
                    lemma_convert_prefix_err(f_seq, doc@, i as int + 1);
                }
                return Err(e);
            },
        }
        i = i + 1;
    }
    proof {
        assert(f_seq.take(n as int) =~= f_seq);
    }
    Ok(TypedDocument { fields: out })
}

/// The caller-facing entry point: resolves every placeholder in `doc`
/// against `env`, appending warnings to `log`, then converts the resolved
/// document by `schema`, failing fast with the first field error.
pub fn load(schema: &Schema, doc: RawDocument, env: &Env, log: &mut Vec<String>) -> (r: Result<
    TypedDocument,
    FieldParseError,
>)
    ensures
        match r {
            Ok(t) => convert_fields_spec(
                schema.spec_fields(),
                resolve_entries_spec(schema.spec_fields(), doc@, env@),
            ) == Result::<Seq<(Seq<char>, TypedVal)>, ErrVal>::Ok(t@),
            Err(e) => convert_fields_spec(
                schema.spec_fields(),
                resolve_entries_spec(schema.spec_fields(), doc@, env@),
            ) == Result::<Seq<(Seq<char>, TypedVal)>, ErrVal>::Err(e@),
        },
        log_views(final(log)@) == log_views(old(log)@) + entries_warnings_spec(
            schema.spec_fields(),
            doc@,
            env@,
        ),
{
    let resolved = resolve_document(schema, doc, env, log);
    convert_document(schema, &resolved)
}

} // verus!
