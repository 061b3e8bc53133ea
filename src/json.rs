use vstd::prelude::*;

use crate::text::str_eq;
use vstd::std_specs::vec::axiom_vec_index_decreases;

verus! {

/// A decoded JSON value. A number keeps the text that spells it, so that
/// fractions stay exact; an object keeps its members in order.
#[derive(Debug)]
pub enum Json {
    Null,
    Bool(bool),
    Number(String),
    Str(String),
    Array(Vec<Json>),
    Object(Vec<(String, Json)>),
}

/// The value of the first member named `k`.
pub open spec fn lookup(ms: Seq<(String, Json)>, k: Seq<char>) -> Option<Json>
    decreases ms.len(),
{
    if ms.len() == 0 {
        None
    } else if ms[0].0@ == k {
        Some(ms[0].1)
    } else {
        lookup(ms.drop_first(), k)
    }
}

/// Some string inside `j` (at any depth, keys aside) equals `needle`.
pub open spec fn holds_text(j: Json, needle: Seq<char>) -> bool
    decreases j,
{
    match j {
        Json::Str(s) => s@ == needle,
        Json::Array(items) => exists|i: int|
            #![trigger items@[i]]
            0 <= i < items.len() && holds_text(items@[i], needle),
        Json::Object(ms) => exists|i: int|
            #![trigger ms@[i]]
            0 <= i < ms.len() && holds_text(ms@[i].1, needle),
        _ => false,
    }
}

impl Json {
    /// The member `k` of an object; nothing for any other value.
    pub open spec fn field(self, k: Seq<char>) -> Option<Json> {
        match self {
            Json::Object(ms) => lookup(ms@, k),
            _ => None,
        }
    }

    /// The member `k`, where it is a string.
    pub open spec fn str_field(self, k: Seq<char>) -> Option<Seq<char>> {
        match self.field(k) {
            Some(Json::Str(s)) => Some(s@),
            _ => None,
        }
    }

    /// The member `key` of an object.
    pub fn get(&self, key: &str) -> (r: Option<&Json>)
        ensures
            match r {
                Some(v) => self.field(key@) == Some(*v),
                None => self.field(key@) is None,
            },
    {
        match self {
            Json::Object(ms) => {
                let mut i: usize = 0;
                assert(ms@.skip(0) =~= ms@);
                while i < ms.len()
                    invariant
                        *self == Json::Object(*ms),
                        i <= ms@.len(),
                        lookup(ms@, key@) == lookup(ms@.skip(i as int), key@),
                    decreases ms@.len() - i,
                {
                    assert(ms@.skip(i as int).drop_first() =~= ms@.skip(i + 1));
                    assert(ms@.skip(i as int)[0] == ms@[i as int]);
                    if str_eq(ms[i].0.as_str(), key) {
                        return Some(&ms[i].1);
                    }
                    i = i + 1;
                }
                None
            },
            _ => None,
        }
    }

    /// The member `key`, where it is a string.
    pub fn get_str(&self, key: &str) -> (r: Option<&String>)
        ensures
            match r {
                Some(s) => self.str_field(key@) == Some(s@),
                None => self.str_field(key@) is None,
            },
    {
        match self.get(key) {
            Some(Json::Str(s)) => Some(s),
            _ => None,
        }
    }
}

proof fn lemma_array_decreases(j: Json, i: int)
    requires
        j is Array,
        0 <= i < j->Array_0.len(),
    ensures
        decreases_to!(j => j->Array_0[i]),
{
    assert(decreases_to!(j => j->Array_0));
    axiom_vec_index_decreases(j->Array_0, i);
}

proof fn lemma_object_decreases(j: Json, i: int)
    requires
        j is Object,
        0 <= i < j->Object_0.len(),
    ensures
        decreases_to!(j => j->Object_0[i].1),
{
    assert(decreases_to!(j => j->Object_0));
    axiom_vec_index_decreases(j->Object_0, i);
    assert(decreases_to!(j->Object_0[i] => j->Object_0[i].1));
}

/// Whether some string inside `value` equals `needle`.
pub fn json_contains_string(value: &Json, needle: &str) -> (r: bool)
    ensures
        r == holds_text(*value, needle@),
    decreases value,
{
    match value {
        Json::Str(s) => str_eq(s.as_str(), needle),
        Json::Array(items) => {
            let mut i: usize = 0;
            while i < items.len()
                invariant
                    *value == Json::Array(*items),
                    i <= items@.len(),
                    forall|j: int| 0 <= j < i ==> !holds_text(#[trigger] items@[j], needle@),
                decreases items@.len() - i,
            {
                proof {
                    axiom_vec_index_decreases(*items, i as int);
                    lemma_array_decreases(*value, i as int);
                }
                if json_contains_string(&items[i], needle) {
                    assert(holds_text(items@[i as int], needle@));
                    assert(holds_text(*value, needle@));
                    return true;
                }
                i = i + 1;
            }
            false
        },
        Json::Object(ms) => {
            let mut i: usize = 0;
            while i < ms.len()
                invariant
                    *value == Json::Object(*ms),
                    i <= ms@.len(),
                    forall|j: int| 0 <= j < i ==> !holds_text(#[trigger] ms@[j].1, needle@),
                decreases ms@.len() - i,
            {
                proof {
                    axiom_vec_index_decreases(*ms, i as int);
                    lemma_object_decreases(*value, i as int);
                }
                if json_contains_string(&ms[i].1, needle) {
                    assert(holds_text(ms@[i as int].1, needle@));
                    assert(holds_text(*value, needle@));
                    return true;
                }
                i = i + 1;
            }
            false
        },
        _ => false,
    }
}

} // verus!
