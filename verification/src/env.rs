//! A read-only model of the process environment, injected by the caller so
//! that resolution is a pure function of document and environment. A name
//! maps to text, to a present-but-invalid-text marker, or to nothing.

use vstd::prelude::*;
use crate::text::str_eq;

verus! {

/// One environment entry as stored: valid text or an invalid-text marker.
pub enum EnvValue {
    Text(String),
    Invalid,
}

/// The mathematical value of an entry.
pub enum EnvVal {
    Text(Seq<char>),
    Invalid,
}

pub open spec fn env_value_view(v: EnvValue) -> EnvVal {
    match v {
        EnvValue::Text(s) => EnvVal::Text(s@),
        EnvValue::Invalid => EnvVal::Invalid,
    }
}

/// The map described by a list of bindings; a later binding for the same
/// name overrides an earlier one.
pub open spec fn map_of(entries: Seq<(String, EnvValue)>) -> Map<Seq<char>, EnvVal>
    decreases entries.len(),
{
    if entries.len() == 0 {
        Map::empty()
    } else {
        map_of(entries.drop_last()).insert(entries.last().0@, env_value_view(entries.last().1))
    }
}

/// Outcome of looking one name up.
pub enum EnvLookup {
    Text(String),
    Invalid,
    Absent,
}

/// An environment: a set of name-to-value bindings, viewed as a map.
pub struct Env {
    entries: Vec<(String, EnvValue)>,
}

impl View for Env {
    type V = Map<Seq<char>, EnvVal>;

    closed spec fn view(&self) -> Map<Seq<char>, EnvVal> {
        map_of(self.entries@)
    }
}

proof fn lemma_map_of_no_match(entries: Seq<(String, EnvValue)>, k: Seq<char>)
    requires
        forall|j: int| 0 <= j < entries.len() ==> entries[j].0@ != k,
    ensures
        !map_of(entries).contains_key(k),
    decreases entries.len(),
{
    if entries.len() > 0 {
        lemma_map_of_no_match(entries.drop_last(), k);
    }
}

proof fn lemma_map_of_last_match(entries: Seq<(String, EnvValue)>, k: Seq<char>, i: int)
    requires
        0 <= i < entries.len(),
        entries[i].0@ == k,
        forall|j: int| i < j < entries.len() ==> entries[j].0@ != k,
    ensures
        map_of(entries).contains_key(k),
        map_of(entries)[k] == env_value_view(entries[i].1),
    decreases entries.len(),
{
    if i == entries.len() - 1 {
    } else {
        assert(entries.drop_last()[i] == entries[i]);
        lemma_map_of_last_match(entries.drop_last(), k, i);
    }
}

impl Env {
    /// An empty environment.
    pub fn new() -> (r: Env)
        ensures
            r@ == Map::<Seq<char>, EnvVal>::empty(),
    {
        Env { entries: Vec::new() }
    }

    /// Binds `name` to the text `value`.
    pub fn set_text(&mut self, name: String, value: String)
        ensures
            final(self)@ == old(self)@.insert(name@, EnvVal::Text(value@)),
    {
        let ghost pre = self.entries@;
        self.entries.push((name, EnvValue::Text(value)));
        proof {
            assert(self.entries@.drop_last() =~= pre);
        }
    }

    /// Marks `name` as present but not valid text.
    pub fn set_invalid(&mut self, name: String)
        ensures
            final(self)@ == old(self)@.insert(name@, EnvVal::Invalid),
    {
        let ghost pre = self.entries@;
        self.entries.push((name, EnvValue::Invalid));
        proof {
            assert(self.entries@.drop_last() =~= pre);
        }
    }

    /// Looks `name` up; the latest binding wins.
    pub fn lookup(&self, name: &str) -> (r: EnvLookup)
        ensures
            match r {
                EnvLookup::Text(v) => self@.contains_key(name@) && self@[name@] == EnvVal::Text(
                    v@,
                ),
                EnvLookup::Invalid => self@.contains_key(name@) && self@[name@]
                    == EnvVal::Invalid,
                EnvLookup::Absent => !self@.contains_key(name@),
            },
    {
        let mut i: usize = self.entries.len();
        while i > 0
            invariant
                0 <= i <= self.entries@.len(),
                forall|j: int| i <= j < self.entries@.len() ==> self.entries@[j].0@ != name@,
            decreases i,
        {
            i = i - 1;
            if str_eq(self.entries[i].0.as_str(), name) {
                proof {
                    lemma_map_of_last_match(self.entries@, name@, i as int);
                }
                match &self.entries[i].1 {
                    EnvValue::Text(v) => {
                        return EnvLookup::Text(v.clone());
                    },
                    EnvValue::Invalid => {
                        return EnvLookup::Invalid;
                    },
                }
            }
        }
        proof {
            lemma_map_of_no_match(self.entries@, name@);
        }
        EnvLookup::Absent
    }
}

} // verus!
