//! The library's laws, stated and proved over the specification functions
//! that the executable functions' contracts use.

use vstd::prelude::*;
use crate::convert::{
    convert_field_spec, convert_fields_spec, doc_lookup, err_message_text, cause_text,
    prim_convert_spec, ErrVal, TypedVal,
};
use crate::doc::RawVal;
use crate::env::EnvVal;
use crate::resolve::{
    is_placeholder, ph_default, ph_name, resolve_spec, resolve_warnings, warn_absent_text,
    warn_invalid_text,
};
use crate::schema::{raw_is_string, FieldSpec};

verus! {

broadcast use {vstd::seq::group_seq_axioms, vstd::std_specs::vec::group_vec_axioms};

/// A string that is not a placeholder resolves to itself, under every
/// environment, and records no warning.
pub proof fn lemma_resolve_identity(s: Seq<char>, secret: bool, env: Map<Seq<char>, EnvVal>)
    requires
        !is_placeholder(s),
    ensures
        resolve_spec(s, env) == s,
        resolve_warnings(s, secret, env) == Seq::<Seq<char>>::empty(),
{
}

/// A placeholder whose name the environment maps to text resolves to that
/// text, and records no warning.
pub proof fn lemma_resolve_env_present(
    s: Seq<char>,
    secret: bool,
    env: Map<Seq<char>, EnvVal>,
    v: Seq<char>,
)
    requires
        is_placeholder(s),
        env.contains_key(ph_name(s)),
        env[ph_name(s)] == EnvVal::Text(v),
    ensures
        resolve_spec(s, env) == v,
        resolve_warnings(s, secret, env) == Seq::<Seq<char>>::empty(),
{
}

/// A placeholder whose name the environment does not define resolves to its
/// default, and records exactly one warning.
pub proof fn lemma_resolve_env_absent(s: Seq<char>, secret: bool, env: Map<Seq<char>, EnvVal>)
    requires
        is_placeholder(s),
        !env.contains_key(ph_name(s)),
    ensures
        resolve_spec(s, env) == ph_default(s),
        resolve_warnings(s, secret, env) == seq![
            warn_absent_text(ph_name(s), ph_default(s), secret),
        ],
{
}

/// A placeholder whose name is present but not valid text resolves to its
/// default, and records exactly one warning distinguishing that state.
pub proof fn lemma_resolve_env_invalid(s: Seq<char>, secret: bool, env: Map<Seq<char>, EnvVal>)
    requires
        is_placeholder(s),
        env.contains_key(ph_name(s)),
        env[ph_name(s)] == EnvVal::Invalid,
    ensures
        resolve_spec(s, env) == ph_default(s),
        resolve_warnings(s, secret, env) == seq![
            warn_invalid_text(ph_name(s), ph_default(s), secret),
        ],
{
}

/// A secret field's warnings carry no information about the default: two
/// placeholders with the same name record the same warnings under every
/// environment, whatever their defaults.
pub proof fn lemma_secret_warnings_hide_default(
    s1: Seq<char>,
    s2: Seq<char>,
    env: Map<Seq<char>, EnvVal>,
)
    requires
        is_placeholder(s1),
        is_placeholder(s2),
        ph_name(s1) == ph_name(s2),
    ensures
        resolve_warnings(s1, true, env) == resolve_warnings(s2, true, env),
{
}

/// An optional field whose raw type is the string type converts a present
/// but empty string leaf to absence.
pub proof fn lemma_optional_empty_is_absent(f: FieldSpec, s: Seq<char>)
    requires
        f.optional,
        raw_is_string(f),
        s.len() == 0,
    ensures
        convert_field_spec(f, Some(RawVal::Str(s))) == Result::<TypedVal, ErrVal>::Ok(
            TypedVal::Absent,
        ),
{
}

/// A non-optional field whose string leaf does not parse for its target
/// type converts to an error naming that field; the error repeats the raw
/// value only when the field is not secret.
pub proof fn lemma_parse_failure_names_field(f: FieldSpec, s: Seq<char>)
    requires
        !f.optional,
        prim_convert_spec(f.target, s) is Err,
    ensures
        convert_field_spec(f, Some(RawVal::Str(s))) matches Err(e) && e.field == f.name@
            && e.raw_value == (if f.secret {
            Option::<Seq<char>>::None
        } else {
            Option::Some(s)
        }),
{
}

/// When any field of the list fails to convert, the whole document fails:
/// no typed value is produced at all.
pub proof fn lemma_convert_fails_on_bad_field(
    fields: Seq<FieldSpec>,
    entries: Seq<(Seq<char>, RawVal)>,
    i: int,
)
    requires
        0 <= i < fields.len(),
        convert_field_spec(fields[i], doc_lookup(entries, fields[i].name@)) is Err,
    ensures
        convert_fields_spec(fields, entries) is Err,
    decreases fields.len(),
{
    if i < fields.len() - 1 {
        assert(fields.drop_last()[i] == fields[i]);
        lemma_convert_fails_on_bad_field(fields.drop_last(), entries, i);
    }
}

/// The rendering of an error that carries no raw value (as one for a secret
/// field never does) is built from the field path and the cause text alone.
pub proof fn lemma_secret_error_message_no_value(e: ErrVal)
    requires
        e.raw_value is None,
    ensures
        err_message_text(e) == "field '"@ + e.field + "': "@ + cause_text(e.cause),
{
}

} // verus!
