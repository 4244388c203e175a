//! The configuration schema: an ordered, immutable sequence of field
//! descriptions, each naming a target type, optionality, secrecy and an
//! optional raw-type override. Constructing a schema derives and caches the
//! raw (string-leaf) shape an external deserializer must populate; a field
//! whose raw type cannot be derived is a definition-time error.

use vstd::prelude::*;
use vstd::string::StringExecFns;
use crate::text::str_eq;

verus! {

broadcast use {vstd::seq::group_seq_axioms, vstd::std_specs::vec::group_vec_axioms};

/// The target type of one field: a primitive, or a nested schema.
#[derive(Debug)]
pub enum TargetType {
    Str,
    Bool,
    U8,
    U16,
    U32,
    U64,
    U128,
    I8,
    I16,
    I32,
    I64,
    I128,
    F32,
    F64,
    Nested(Box<Schema>),
}

/// The description of one field of a configuration type.
#[derive(Debug)]
pub struct FieldSpec {
    pub name: String,
    pub target: TargetType,
    pub optional: bool,
    pub secret: bool,
    pub raw_override: Option<String>,
}

/// A definition-time schema fault, carrying the offending field's name.
#[derive(Debug)]
pub enum SchemaError {
    /// A non-primitive field declared no raw-type override.
    UnresolvedRawType(String),
    /// A primitive field declared the override that would be derived
    /// anyway.
    RedundantAnnotation(String),
}

/// The rendering of a definition-time schema fault.
pub open spec fn schema_error_text(e: SchemaError) -> Seq<char> {
    match e {
        SchemaError::UnresolvedRawType(n) => "field '"@ + n@
            + "': a non-primitive field must declare a raw-type override"@,
        SchemaError::RedundantAnnotation(n) => "field '"@ + n@
            + "': the override repeats the raw type derived for a primitive"@,
    }
}

impl SchemaError {
    /// Renders the fault for diagnostics.
    pub fn message(&self) -> (r: String)
        ensures
            r@ == schema_error_text(*self),
    {
        let mut m = "field '".to_owned();
        match self {
            SchemaError::UnresolvedRawType(n) => {
                m.append(n.as_str());
                m.append("': a non-primitive field must declare a raw-type override");
            },
            SchemaError::RedundantAnnotation(n) => {
                m.append(n.as_str());
                m.append("': the override repeats the raw type derived for a primitive");
            },
        }
        proof {
            assert(m@ =~= schema_error_text(*self));
        }
        m
    }
}

/// The raw shape of one field: the type name the deserializer must
/// populate it with.
#[derive(Debug)]
pub struct RawFieldShape {
    pub name: String,
    pub optional: bool,
    pub raw_name: String,
}

pub open spec fn is_primitive(t: TargetType) -> bool {
    !(t is Nested)
}

/// The raw type name derived for a field; `None` when the derivation is a
/// definition-time error.
pub open spec fn derived_raw_name(f: FieldSpec) -> Option<Seq<char>> {
    match f.raw_override {
        Option::Some(o) => if o@ == "String"@ && is_primitive(f.target) {
            Option::None
        } else {
            Option::Some(o@)
        },
        Option::None => if is_primitive(f.target) {
            Option::Some("String"@)
        } else {
            Option::None
        },
    }
}

/// Whether the field is populated as a plain string leaf.
pub open spec fn raw_is_string(f: FieldSpec) -> bool {
    match f.raw_override {
        Option::Some(o) => o@ == "String"@,
        Option::None => is_primitive(f.target),
    }
}

/// Whether `e` is the derivation error belonging to field `f`.
pub open spec fn schema_error_for(f: FieldSpec, e: SchemaError) -> bool {
    match e {
        SchemaError::RedundantAnnotation(n) => n@ == f.name@ && (f.raw_override matches Some(o)
            && o@ == "String"@) && is_primitive(f.target),
        SchemaError::UnresolvedRawType(n) => n@ == f.name@ && f.raw_override is None
            && !is_primitive(f.target),
    }
}

/// Whether the target is one of the primitive types.
pub fn target_is_primitive(t: &TargetType) -> (b: bool)
    ensures
        b == is_primitive(*t),
{
    match t {
        TargetType::Nested(_) => false,
        _ => true,
    }
}

/// Derives the raw type of one field: the override when one is given, the
/// string type for a primitive without one; an override that merely repeats
/// the string type, or a non-primitive without one, is an error.
pub fn raw_type(f: &FieldSpec) -> (r: Result<RawFieldShape, SchemaError>)
    ensures
        match r {
            Ok(sh) => derived_raw_name(*f) == Some(sh.raw_name@) && sh.name@ == f.name@
                && sh.optional == f.optional,
            Err(e) => derived_raw_name(*f) is None && schema_error_for(*f, e),
        },
{
    match &f.raw_override {
        Option::Some(o) => {
            if str_eq(o.as_str(), "String") && target_is_primitive(&f.target) {
                Err(SchemaError::RedundantAnnotation(f.name.clone()))
            } else {
                Ok(
                    RawFieldShape {
                        name: f.name.clone(),
                        optional: f.optional,
                        raw_name: o.clone(),
                    },
                )
            }
        },
        Option::None => {
            if target_is_primitive(&f.target) {
                Ok(
                    RawFieldShape {
                        name: f.name.clone(),
                        optional: f.optional,
                        raw_name: "String".to_owned(),
                    },
                )
            } else {
                Err(SchemaError::UnresolvedRawType(f.name.clone()))
            }
        },
    }
}

/// An immutable schema: its fields, and the raw shape derived from them
/// once at construction.
#[derive(Debug)]
pub struct Schema {
    fields: Vec<FieldSpec>,
    shapes: Vec<RawFieldShape>,
}

impl Schema {
    #[verifier::type_invariant]
    spec fn inv(self) -> bool {
        &&& self.shapes@.len() == self.fields@.len()
        &&& forall|i: int|
            0 <= i < self.fields@.len() ==> {
                &&& derived_raw_name(#[trigger] self.fields@[i]) == Some(
                    self.shapes@[i].raw_name@,
                )
                &&& self.shapes@[i].name@ == self.fields@[i].name@
                &&& self.shapes@[i].optional == self.fields@[i].optional
            }
    }

    /// The schema's field descriptions.
    pub closed spec fn spec_fields(&self) -> Seq<FieldSpec> {
        self.fields@
    }

    /// Validates every field's raw-type derivation and caches the derived
    /// shape; fails with the first field's error.
    pub fn new(fields: Vec<FieldSpec>) -> (r: Result<Schema, SchemaError>)
        ensures
            match r {
                Ok(s) => s.spec_fields() == fields@ && forall|i: int|
                    0 <= i < fields@.len() ==> derived_raw_name(#[trigger] fields@[i]) is Some,
                Err(e) => exists|i: int|
                    0 <= i < fields@.len() && derived_raw_name(#[trigger] fields@[i]) is None
                        && schema_error_for(fields@[i], e) && forall|j: int|
                        0 <= j < i ==> derived_raw_name(#[trigger] fields@[j]) is Some,
            },
    {
        let mut shapes: Vec<RawFieldShape> = Vec::new();
        let mut i: usize = 0;
        while i < fields.len()
            invariant
                0 <= i <= fields@.len(),
                shapes@.len() == i,
                forall|k: int|
                    0 <= k < i ==> {
                        &&& derived_raw_name(#[trigger] fields@[k]) == Some(
                            shapes@[k].raw_name@,
                        )
                        &&& shapes@[k].name@ == fields@[k].name@
                        &&& shapes@[k].optional == fields@[k].optional
                    },
            decreases fields@.len() - i,
        {
            match raw_type(&fields[i]) {
                Ok(sh) => {
                    shapes.push(sh);
                },
                Err(e) => {
                    return Err(e);
                },
            }
            i = i + 1;
        }
        Ok(Schema { fields, shapes })
    }

    /// The field descriptions.
    pub fn fields(&self) -> (r: &Vec<FieldSpec>)
        ensures
            r@ == self.spec_fields(),
    {
        &self.fields
    }

    /// The cached raw shape: one entry per field, in field order.
    pub fn raw_shape(&self) -> (r: &Vec<RawFieldShape>)
        ensures
            r@.len() == self.spec_fields().len(),
            forall|i: int|
                0 <= i < r@.len() ==> {
                    &&& derived_raw_name(#[trigger] self.spec_fields()[i]) == Some(
                        r@[i].raw_name@,
                    )
                    &&& r@[i].name@ == self.spec_fields()[i].name@
                    &&& r@[i].optional == self.spec_fields()[i].optional
                },
    {
        proof {
            use_type_invariant(self);
        }
        &self.shapes
    }

    /// The number of fields.
    pub fn len(&self) -> (r: usize)
        ensures
            r == self.spec_fields().len(),
    {
        self.fields.len()
    }
}

/// A schema's field sequence is structurally below the schema itself, so
/// recursion that steps from a schema into its fields terminates.
pub broadcast proof fn lemma_spec_fields_decreases(s: Schema)
    ensures
        #![trigger s.spec_fields()]
        decreases_to!(s => s.spec_fields()),
{
    assert(decreases_to!(s => s.fields));
    assert(decreases_to!(s.fields => s.fields@));
}

} // verus!
