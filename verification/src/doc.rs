//! The raw document: the string-leaf value tree an external deserializer
//! populates, before resolution. A value is a string leaf, an absence
//! marker, or a nested document; its mathematical model is the same tree
//! over sequences of characters.

use vstd::prelude::*;

verus! {

broadcast use {vstd::seq::group_seq_axioms, vstd::std_specs::vec::group_vec_axioms};

/// One named field of a raw document.
#[derive(Debug)]
pub struct RawField {
    pub name: String,
    pub value: RawValue,
}

/// A raw value: a string leaf, an absence marker, or a nested document.
#[derive(Debug)]
pub enum RawValue {
    Str(String),
    Absent,
    Doc(RawDocument),
}

/// A raw document: named raw values, in the order the source supplied them.
#[derive(Debug)]
pub struct RawDocument {
    pub fields: Vec<RawField>,
}

/// The mathematical model of a raw value.
pub enum RawVal {
    Str(Seq<char>),
    Absent,
    Doc(Seq<(Seq<char>, RawVal)>),
}

/// The model of a raw value tree.
pub open spec fn raw_value_view(v: RawValue) -> RawVal
    decreases v,
{
    match v {
        RawValue::Str(s) => RawVal::Str(s@),
        RawValue::Absent => RawVal::Absent,
        RawValue::Doc(d) => RawVal::Doc(raw_fields_view(d.fields@)),
    }
}

/// The model of a document's field list.
pub open spec fn raw_fields_view(fs: Seq<RawField>) -> Seq<(Seq<char>, RawVal)>
    decreases fs,
{
    if fs.len() == 0 {
        Seq::empty()
    } else {
        raw_fields_view(fs.drop_last()).push(
            (fs.last().name@, raw_value_view(fs.last().value)),
        )
    }
}

impl View for RawValue {
    type V = RawVal;

    open spec fn view(&self) -> RawVal {
        raw_value_view(*self)
    }
}

impl View for RawDocument {
    type V = Seq<(Seq<char>, RawVal)>;

    open spec fn view(&self) -> Seq<(Seq<char>, RawVal)> {
        raw_fields_view(self.fields@)
    }
}

pub proof fn lemma_raw_fields_view_len(fs: Seq<RawField>)
    ensures
        raw_fields_view(fs).len() == fs.len(),
    decreases fs.len(),
{
    if fs.len() > 0 {
        lemma_raw_fields_view_len(fs.drop_last());
    }
}

pub proof fn lemma_raw_fields_view_index(fs: Seq<RawField>, i: int)
    requires
        0 <= i < fs.len(),
    ensures
        raw_fields_view(fs).len() == fs.len(),
        raw_fields_view(fs)[i] == (fs[i].name@, raw_value_view(fs[i].value)),
    decreases fs.len(),
{
    lemma_raw_fields_view_len(fs);
    if i == fs.len() - 1 {
    } else {
        assert(fs.drop_last()[i] == fs[i]);
        lemma_raw_fields_view_index(fs.drop_last(), i);
    }
}

} // verus!
