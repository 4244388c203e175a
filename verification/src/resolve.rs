//! Placeholder resolution. A string leaf of the exact shape `${NAME:default}`
//! is replaced by the environment's text for `NAME`; when `NAME` is absent or
//! its value is not valid text, the default takes its place and a warning is
//! recorded. A warning for a secret field never carries the default value.

use vstd::prelude::*;
use vstd::string::StringExecFns;
use crate::doc::{raw_fields_view, raw_value_view, RawDocument, RawField, RawVal, RawValue};
use crate::env::{Env, EnvLookup, EnvVal};
use crate::schema::{FieldSpec, Schema, TargetType};
use crate::text::{find_colon, first_colon, lemma_first_colon_from, str_eq};

verus! {

broadcast use {vstd::seq::group_seq_axioms, vstd::std_specs::vec::group_vec_axioms};

/// Per-field resolution metadata: whether the field's values may appear in
/// diagnostics.
#[derive(Clone, Copy, Debug)]
pub struct Metadata {
    pub secret: bool,
}

/// A string is a placeholder iff it starts with `${`, ends with `}` and has
/// a `':'` strictly between the two markers.
pub open spec fn is_placeholder(s: Seq<char>) -> bool {
    &&& s.len() >= 4
    &&& s[0] == '$'
    &&& s[1] == '{'
    &&& s[s.len() - 1] == '}'
    &&& exists|i: int| 2 <= i <= s.len() - 2 && s[i] == ':'
}

/// The environment-variable name of a placeholder: between `${` and the
/// first `':'`.
pub open spec fn ph_name(s: Seq<char>) -> Seq<char> {
    s.subrange(2, first_colon(s))
}

/// The default value of a placeholder: between the first `':'` and the
/// final `}`.
pub open spec fn ph_default(s: Seq<char>) -> Seq<char> {
    s.subrange(first_colon(s) + 1, s.len() - 1)
}

/// In a placeholder the first colon lies strictly between the markers.
pub proof fn lemma_placeholder_colon(s: Seq<char>)
    requires
        is_placeholder(s),
    ensures
        2 <= first_colon(s) <= s.len() - 2,
        s[first_colon(s)] == ':',
{
    lemma_first_colon_from(s, 0);
    let w = choose|i: int| 2 <= i <= s.len() - 2 && s[i] == ':';
    assert(first_colon(s) <= w);
}

/// The warning recorded when a name is absent from the environment.
pub open spec fn warn_absent_text(name: Seq<char>, default: Seq<char>, secret: bool) -> Seq<
    char,
> {
    if secret {
        "ENV variable \""@ + name + "\" not present. Using secret default."@
    } else {
        "ENV variable \""@ + name + "\" not present. Using default: \""@ + default + "\""@
    }
}

/// The warning recorded when a name is present but its value is not valid
/// text.
pub open spec fn warn_invalid_text(name: Seq<char>, default: Seq<char>, secret: bool) -> Seq<
    char,
> {
    if secret {
        "ENV variable \""@ + name + "\" does not contain valid text. Using secret default."@
    } else {
        "ENV variable \""@ + name + "\" does not contain valid text. Using default: \""@ + default
            + "\""@
    }
}

/// What a string leaf resolves to under `env`.
pub open spec fn resolve_spec(s: Seq<char>, env: Map<Seq<char>, EnvVal>) -> Seq<char> {
    if !is_placeholder(s) {
        s
    } else if env.contains_key(ph_name(s)) {
        match env[ph_name(s)] {
            EnvVal::Text(v) => v,
            EnvVal::Invalid => ph_default(s),
        }
    } else {
        ph_default(s)
    }
}

/// The warnings recorded while resolving a string leaf: none unless the
/// leaf is a placeholder that fell back to its default.
pub open spec fn resolve_warnings(s: Seq<char>, secret: bool, env: Map<Seq<char>, EnvVal>) -> Seq<
    Seq<char>,
> {
    if !is_placeholder(s) {
        Seq::empty()
    } else if env.contains_key(ph_name(s)) {
        match env[ph_name(s)] {
            EnvVal::Text(v) => Seq::empty(),
            EnvVal::Invalid => seq![warn_invalid_text(ph_name(s), ph_default(s), secret)],
        }
    } else {
        seq![warn_absent_text(ph_name(s), ph_default(s), secret)]
    }
}

/// The views of the recorded log lines.
pub open spec fn log_views(l: Seq<String>) -> Seq<Seq<char>> {
    l.map_values(|m: String| m@)
}

proof fn lemma_log_views_push(l: Seq<String>, m: String)
    ensures
        log_views(l.push(m)) == log_views(l) + seq![m@],
{
    assert(log_views(l.push(m)) =~= log_views(l) + seq![m@]);
}

fn build_warn_absent(name: &str, default: &str, secret: bool) -> (r: String)
    ensures
        r@ == warn_absent_text(name@, default@, secret),
{
    let mut m = "ENV variable \"".to_owned();
    m.append(name);
    if secret {
        m.append("\" not present. Using secret default.");
    } else {
        m.append("\" not present. Using default: \"");
        m.append(default);
        m.append("\"");
    }
    proof {
        assert(m@ =~= warn_absent_text(name@, default@, secret));
    }
    m
}

fn build_warn_invalid(name: &str, default: &str, secret: bool) -> (r: String)
    ensures
        r@ == warn_invalid_text(name@, default@, secret),
{
    let mut m = "ENV variable \"".to_owned();
    m.append(name);
    if secret {
        m.append("\" does not contain valid text. Using secret default.");
    } else {
        m.append("\" does not contain valid text. Using default: \"");
        m.append(default);
        m.append("\"");
    }
    proof {
        assert(m@ =~= warn_invalid_text(name@, default@, secret));
    }
    m
}

/// Resolves one string leaf against `env`, appending any warning to `log`.
/// A string that is not a placeholder passes through unchanged.
pub fn resolve_string(s: &str, metadata: Metadata, env: &Env, log: &mut Vec<String>) -> (r:
    String)
    ensures
        r@ == resolve_spec(s@, env@),
        log_views(final(log)@) == log_views(old(log)@) + resolve_warnings(
            s@,
            metadata.secret,
            env@,
        ),
{
    let n = s.unicode_len();
    let shape_ok = n >= 4 && s.get_char(0) == '$' && s.get_char(1) == '{' && s.get_char(n - 1)
        == '}';
    if !shape_ok {
        proof {
            assert(!is_placeholder(s@));
            assert(log_views(log@) =~= log_views(log@) + resolve_warnings(
                s@,
                metadata.secret,
                env@,
            ));
        }
        return s.to_owned();
    }
    match find_colon(s) {
        None => {
            proof {
                lemma_first_colon_from(s@, 0);
                assert(!is_placeholder(s@));
                assert(log_views(log@) =~= log_views(log@) + resolve_warnings(
                    s@,
                    metadata.secret,
                    env@,
                ));
            }
            s.to_owned()
        },
        Some(c) => {
            proof {
                lemma_first_colon_from(s@, 0);
                assert(s@[c as int] == ':');
                assert(c >= 2);
                assert(c <= n - 2);
                assert(is_placeholder(s@));
                lemma_placeholder_colon(s@);
            }
            let name = s.substring_char(2, c);
            let default = s.substring_char(c + 1, n - 1);
            proof {
                assert(name@ == ph_name(s@));
                assert(default@ == ph_default(s@));
            }
            match env.lookup(name) {
                EnvLookup::Text(v) => {
                    proof {
                        assert(log_views(log@) =~= log_views(log@) + resolve_warnings(
                            s@,
                            metadata.secret,
                            env@,
                        ));
                    }
                    v
                },
                EnvLookup::Invalid => {
                    let msg = build_warn_invalid(name, default, metadata.secret);
                    proof {
                        lemma_log_views_push(log@, msg);
                    }
                    log.push(msg);
                    default.to_owned()
                },
                EnvLookup::Absent => {
                    let msg = build_warn_absent(name, default, metadata.secret);
                    proof {
                        lemma_log_views_push(log@, msg);
                    }
                    log.push(msg);
                    default.to_owned()
                },
            }
        },
    }
}

/// Index of the first field named `name` at or after position `i`;
/// `fields.len()` if there is none.
pub open spec fn field_index_from(fields: Seq<FieldSpec>, name: Seq<char>, i: int) -> int
    decreases fields.len() - i,
{
    if i < 0 || i >= fields.len() {
        fields.len() as int
    } else if fields[i].name@ == name {
        i
    } else {
        field_index_from(fields, name, i + 1)
    }
}

/// Index of the first field named `name`; `fields.len()` if there is none.
pub open spec fn field_index(fields: Seq<FieldSpec>, name: Seq<char>) -> int {
    field_index_from(fields, name, 0)
}

/// The first field named `name`, if any.
pub open spec fn find_field(fields: Seq<FieldSpec>, name: Seq<char>) -> Option<FieldSpec> {
    if field_index(fields, name) < fields.len() {
        Option::Some(fields[field_index(fields, name)])
    } else {
        Option::None
    }
}

proof fn lemma_field_index_skip(fields: Seq<FieldSpec>, name: Seq<char>, i: int)
    requires
        0 <= i <= fields.len(),
        forall|j: int| 0 <= j < i ==> (#[trigger] fields[j]).name@ != name,
    ensures
        field_index(fields, name) == field_index_from(fields, name, i),
    decreases i,
{
    if i > 0 {
        lemma_field_index_skip(fields, name, i - 1);
        assert(field_index_from(fields, name, i - 1) == field_index_from(fields, name, i));
    }
}

/// The first field of the schema named `name`, if any.
pub fn find_field_ref<'a>(fields: &'a Vec<FieldSpec>, name: &str) -> (r: Option<&'a FieldSpec>)
    ensures
        match r {
            Some(f) => find_field(fields@, name@) == Some(*f),
            None => find_field(fields@, name@) is None,
        },
{
    let n = fields.len();
    let mut i: usize = 0;
    while i < n
        invariant
            0 <= i <= n,
            n == fields@.len(),
            forall|j: int| 0 <= j < i ==> (#[trigger] fields@[j]).name@ != name@,
        decreases n - i,
    {
        if str_eq(fields[i].name.as_str(), name) {
            proof {
                lemma_field_index_skip(fields@, name@, i as int);
            }
            return Some(&fields[i]);
        }
        i = i + 1;
    }
    proof {
        lemma_field_index_skip(fields@, name@, n as int);
    }
    None
}

pub open spec fn opt_field(f: Option<&FieldSpec>) -> Option<FieldSpec> {
    match f {
        Option::Some(x) => Option::Some(*x),
        Option::None => Option::None,
    }
}

/// What a raw value resolves to, when it stands in the field `f` of a
/// schema: string leaves are resolved, absence stays absence, and a nested
/// document is resolved against the field's nested schema. A value without
/// a matching field, or one whose shape does not fit the field, passes
/// through unchanged.
pub open spec fn resolve_value_spec(
    f: Option<FieldSpec>,
    v: RawVal,
    env: Map<Seq<char>, EnvVal>,
) -> RawVal
    decreases v,
{
    match v {
        RawVal::Str(s) => match f {
            Option::Some(fs) => RawVal::Str(resolve_spec(s, env)),
            Option::None => RawVal::Str(s),
        },
        RawVal::Absent => RawVal::Absent,
        RawVal::Doc(entries) => match f {
            Option::Some(fs) => match fs.target {
                TargetType::Nested(sub) => RawVal::Doc(
                    resolve_entries_spec((*sub).spec_fields(), entries, env),
                ),
                _ => RawVal::Doc(entries),
            },
            Option::None => RawVal::Doc(entries),
        },
    }
}

/// Every entry of a document, resolved in order against its field.
pub open spec fn resolve_entries_spec(
    fields: Seq<FieldSpec>,
    entries: Seq<(Seq<char>, RawVal)>,
    env: Map<Seq<char>, EnvVal>,
) -> Seq<(Seq<char>, RawVal)>
    decreases entries,
{
    if entries.len() == 0 {
        Seq::empty()
    } else {
        resolve_entries_spec(fields, entries.drop_last(), env).push(
            (
                entries.last().0,
                resolve_value_spec(find_field(fields, entries.last().0), entries.last().1, env),
            ),
        )
    }
}

/// The warnings recorded while resolving a raw value in field `f`.
pub open spec fn value_warnings_spec(
    f: Option<FieldSpec>,
    v: RawVal,
    env: Map<Seq<char>, EnvVal>,
) -> Seq<Seq<char>>
    decreases v,
{
    match v {
        RawVal::Str(s) => match f {
            Option::Some(fs) => resolve_warnings(s, fs.secret, env),
            Option::None => Seq::empty(),
        },
        RawVal::Absent => Seq::empty(),
        RawVal::Doc(entries) => match f {
            Option::Some(fs) => match fs.target {
                TargetType::Nested(sub) => entries_warnings_spec(
                    (*sub).spec_fields(),
                    entries,
                    env,
                ),
                _ => Seq::empty(),
            },
            Option::None => Seq::empty(),
        },
    }
}

/// The warnings recorded while resolving a document, in field order.
pub open spec fn entries_warnings_spec(
    fields: Seq<FieldSpec>,
    entries: Seq<(Seq<char>, RawVal)>,
    env: Map<Seq<char>, EnvVal>,
) -> Seq<Seq<char>>
    decreases entries,
{
    if entries.len() == 0 {
        Seq::empty()
    } else {
        entries_warnings_spec(fields, entries.drop_last(), env) + value_warnings_spec(
            find_field(fields, entries.last().0),
            entries.last().1,
            env,
        )
    }
}

/// Resolves one raw value standing in field `f`, appending any warnings to
/// `log`.
pub fn resolve_value(f: Option<&FieldSpec>, v: RawValue, env: &Env, log: &mut Vec<String>) -> (r:
    RawValue)
    ensures
        r@ == resolve_value_spec(opt_field(f), v@, env@),
        log_views(final(log)@) == log_views(old(log)@) + value_warnings_spec(
            opt_field(f),
            v@,
            env@,
        ),
    decreases v,
{
    let ghost gv = v;
    match v {
        RawValue::Str(s) => {
            match f {
                Option::Some(fs) => {
                    let r = resolve_string(s.as_str(), Metadata { secret: fs.secret }, env, log);
                    RawValue::Str(r)
                },
                Option::None => {
                    proof {
                        assert(log_views(log@) =~= log_views(log@) + value_warnings_spec(
                            opt_field(f),
                            gv@,
                            env@,
                        ));
                    }
                    RawValue::Str(s)
                },
            }
        },
        RawValue::Absent => {
            proof {
                assert(log_views(log@) =~= log_views(log@) + value_warnings_spec(
                    opt_field(f),
                    gv@,
                    env@,
                ));
            }
            RawValue::Absent
        },
        RawValue::Doc(d) => {
            match f {
                Option::Some(fs) => {
                    match &fs.target {
                        TargetType::Nested(sub) => {
                            let rd = resolve_document(&**sub, d, env, log);
                            RawValue::Doc(rd)
                        },
                        _ => {
                            proof {
                                assert(log_views(log@) =~= log_views(log@) + value_warnings_spec(
                                    opt_field(f),
                                    gv@,
                                    env@,
                                ));
                            }
                            RawValue::Doc(d)
                        },
                    }
                },
                Option::None => {
                    proof {
                        assert(log_views(log@) =~= log_views(log@) + value_warnings_spec(
                            opt_field(f),
                            gv@,
                            env@,
                        ));
                    }
                    RawValue::Doc(d)
                },
            }
        },
    }
}

/// Resolves every placeholder in a document against `env`, field by field in
/// document order, appending the warnings to `log`.
#[verifier::loop_isolation(false)]
pub fn resolve_document(schema: &Schema, doc: RawDocument, env: &Env, log: &mut Vec<String>) -> (r:
    RawDocument)
    ensures
        r@ == resolve_entries_spec(schema.spec_fields(), doc@, env@),
        log_views(final(log)@) == log_views(old(log)@) + entries_warnings_spec(
            schema.spec_fields(),
            doc@,
            env@,
        ),
    decreases doc,
{
    let ghost gdoc = doc;
    let ghost f_seq = schema.spec_fields();
    let fields = schema.fields();
    let mut rest = doc.fields;
    let mut out: Vec<RawField> = Vec::new();
    while rest.len() > 0
        invariant
            out@.len() + rest@.len() == gdoc.fields@.len(),
            rest@ == gdoc.fields@.subrange(out@.len() as int, gdoc.fields@.len() as int),
            fields@ == f_seq,
            raw_fields_view(out@) == resolve_entries_spec(
                f_seq,
                raw_fields_view(gdoc.fields@.subrange(0, out@.len() as int)),
                env@,
            ),
            log_views(log@) == log_views(old(log)@) + entries_warnings_spec(
                f_seq,
                raw_fields_view(gdoc.fields@.subrange(0, out@.len() as int)),
                env@,
            ),
        decreases rest@.len(),
    {
        let ghost k = out@.len() as int;
        let ghost pre = gdoc.fields@.subrange(0, k);
        let fld = rest.remove(0);
        proof {
            assert(fld == gdoc.fields@[k]);
            assert(rest@ =~= gdoc.fields@.subrange(k + 1, gdoc.fields@.len() as int));
            assert(decreases_to!(gdoc.fields@ => gdoc.fields@[k]));
            assert(decreases_to!(gdoc => fld.value));
        }
        let RawField { name, value } = fld;
        let fopt = find_field_ref(fields, name.as_str());
        proof {
            assert(opt_field(fopt) == find_field(f_seq, fld.name@));
        }
        let new_value = resolve_value(fopt, value, env, log);
        let ghost out_pre = out@;
        out.push(RawField { name, value: new_value });
        proof {
            let nf = out@.last();
            assert(out@.drop_last() =~= out_pre);
            assert(nf.name@ == fld.name@ && nf.value == new_value);
            assert(raw_fields_view(out@) == raw_fields_view(out_pre).push(
                (fld.name@, raw_value_view(new_value)),
            ));
            let cur = gdoc.fields@.subrange(0, k + 1);
            assert(cur.drop_last() =~= pre);
            assert(cur.last() == gdoc.fields@[k]);
            let e = raw_fields_view(cur);
            assert(e == raw_fields_view(pre).push((fld.name@, raw_value_view(fld.value))));
            assert(e.drop_last() =~= raw_fields_view(pre));
            assert(e.last() == (fld.name@, raw_value_view(fld.value)));
            assert(resolve_entries_spec(f_seq, e, env@) == resolve_entries_spec(
                f_seq,
                raw_fields_view(pre),
                env@,
            ).push(
                (
                    fld.name@,
                    resolve_value_spec(
                        find_field(f_seq, fld.name@),
                        raw_value_view(fld.value),
                        env@,
                    ),
                ),
            ));
            assert(raw_fields_view(out@) == resolve_entries_spec(f_seq, e, env@));
            assert(entries_warnings_spec(f_seq, e, env@) == entries_warnings_spec(
                f_seq,
                raw_fields_view(pre),
                env@,
            ) + value_warnings_spec(
                find_field(f_seq, fld.name@),
                raw_value_view(fld.value),
                env@,
            ));
            assert(log_views(log@) =~= log_views(old(log)@) + entries_warnings_spec(
                f_seq,
                e,
                env@,
            ));
        }
    }
    proof {
        assert(gdoc.fields@.subrange(0, gdoc.fields@.len() as int) =~= gdoc.fields@);
        assert(rest@.len() == 0);
    }
    RawDocument { fields: out }
}

/// Resolution of a whole value of a given shape: what the value resolves to
/// and which warnings that records.
pub trait ReplaceEnv: Sized {
    /// Whether `r` is what `self` resolves to under `env`.
    spec fn resolves_to(self, r: Self, secret: bool, env: Map<Seq<char>, EnvVal>) -> bool;

    /// The warnings recorded while resolving `self` under `env`.
    spec fn warnings(self, secret: bool, env: Map<Seq<char>, EnvVal>) -> Seq<Seq<char>>;

    /// Resolves every placeholder in `self`, appending the warnings to
    /// `log`.
    fn replace_env(self, metadata: Metadata, env: &Env, log: &mut Vec<String>) -> (r: Self)
        ensures
            self.resolves_to(r, metadata.secret, env@),
            log_views(final(log)@) == log_views(old(log)@) + self.warnings(
                metadata.secret,
                env@,
            ),
    ;
}

impl ReplaceEnv for String {
    open spec fn resolves_to(self, r: String, secret: bool, env: Map<Seq<char>, EnvVal>) -> bool {
        r@ == resolve_spec(self@, env)
    }

    open spec fn warnings(self, secret: bool, env: Map<Seq<char>, EnvVal>) -> Seq<Seq<char>> {
        resolve_warnings(self@, secret, env)
    }

    fn replace_env(self, metadata: Metadata, env: &Env, log: &mut Vec<String>) -> (r: String) {
        resolve_string(self.as_str(), metadata, env, log)
    }
}

impl<T: ReplaceEnv> ReplaceEnv for Option<T> {
    open spec fn resolves_to(self, r: Option<T>, secret: bool, env: Map<Seq<char>, EnvVal>) -> bool {
        match self {
            Option::None => r is None,
            Option::Some(x) => r matches Some(y) && x.resolves_to(y, secret, env),
        }
    }

    open spec fn warnings(self, secret: bool, env: Map<Seq<char>, EnvVal>) -> Seq<Seq<char>> {
        match self {
            Option::None => Seq::empty(),
            Option::Some(x) => x.warnings(secret, env),
        }
    }

    fn replace_env(self, metadata: Metadata, env: &Env, log: &mut Vec<String>) -> (r: Option<
        T,
    >) {
        match self {
            Option::None => {
                proof {
                    assert(log_views(log@) =~= log_views(log@) + Seq::<Seq<char>>::empty());
                }
                Option::None
            },
            Option::Some(x) => Option::Some(x.replace_env(metadata, env, log)),
        }
    }
}

} // verus!
