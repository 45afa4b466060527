//! A plain model of JSON values.  The boundary that parses JSON text
//! hands its result over in this shape (numbers keep their literal
//! text; none of the rules here reads a numeric value), so validation
//! and response summaries work on data the verifier can see into.

use vstd::prelude::*;

use crate::strutil::str_eq;

verus! {

#[derive(Debug)]
pub enum Json {
    Null,
    Bool(bool),
    /// A number, kept as its literal text.
    Num(String),
    Str(String),
    Arr(Vec<Json>),
    Obj(Vec<(String, Json)>),
}

/// The value of the first member of `ps` named `key`.
pub open spec fn spec_obj_first(ps: Seq<(String, Json)>, key: Seq<char>) -> Option<Json>
    decreases ps.len(),
{
    if ps.len() == 0 {
        None
    } else if ps[0].0@ == key {
        Some(ps[0].1)
    } else {
        spec_obj_first(ps.drop_first(), key)
    }
}

impl Json {
    /// The value under `key`, when this is an object with such a
    /// member.
    pub open spec fn spec_get(self, key: Seq<char>) -> Option<Json> {
        match self {
            Json::Obj(ps) => spec_obj_first(ps@, key),
            _ => None,
        }
    }

    /// The character sequence held, when this is a string.
    pub open spec fn spec_str_value(self) -> Option<Seq<char>> {
        match self {
            Json::Str(s) => Some(s@),
            _ => None,
        }
    }

    /// The elements held, when this is an array.
    pub open spec fn spec_arr_value(self) -> Option<Seq<Json>> {
        match self {
            Json::Arr(es) => Some(es@),
            _ => None,
        }
    }

    /// Looks the first member named `key` up in an object.
    pub fn get<'a>(&'a self, key: &str) -> (r: Option<&'a Json>)
        ensures
            r matches Some(v) ==> self.spec_get(key@) == Some(*v),
            r is None ==> self.spec_get(key@) is None,
    {
        match self {
            Json::Obj(ps) => {
                let n = ps.len();
                let mut i: usize = 0;
                proof {
                    assert(ps@.skip(0) =~= ps@);
                }
                while i < n
                    invariant
                        i <= n,
                        n == ps@.len(),
                        self.spec_get(key@) == spec_obj_first(ps@.skip(i as int), key@),
                    decreases n - i,
                {
                    proof {
                        assert(ps@.skip(i as int)[0] == ps@[i as int]);
                        assert(ps@.skip(i as int).drop_first() =~= ps@.skip(i + 1));
                    }
                    if str_eq(ps[i].0.as_str(), key) {
                        proof {
                            assert(spec_obj_first(ps@.skip(i as int), key@) == Some(
                                ps@[i as int].1,
                            ));
                        }
                        return Some(&ps[i].1);
                    }
                    i = i + 1;
                }
                proof {
                    assert(ps@.skip(n as int).len() == 0);
                }
                None
            },
            _ => None,
        }
    }

    /// The held string, when this is a string value.
    pub fn as_str<'a>(&'a self) -> (r: Option<&'a String>)
        ensures
            r matches Some(s) ==> self.spec_str_value() == Some(s@),
            r is None ==> self.spec_str_value() is None,
    {
        match self {
            Json::Str(s) => Some(s),
            _ => None,
        }
    }

    /// The held elements, when this is an array.
    pub fn as_array<'a>(&'a self) -> (r: Option<&'a Vec<Json>>)
        ensures
            r matches Some(es) ==> self.spec_arr_value() == Some(es@),
            r is None ==> self.spec_arr_value() is None,
    {
        match self {
            Json::Arr(es) => Some(es),
            _ => None,
        }
    }
}

} // verus!
