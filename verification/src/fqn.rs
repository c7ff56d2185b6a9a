//! Fully qualified names: the pair of a module name and a local type name.
//!
//! An FQN such as `(common.strings, StringML)` is the only cross-file join
//! key of the cache; its key form is the module name, a dot, and the type
//! name.

use vstd::prelude::*;
use vstd::string::StrSliceExecFns;
use vstd::string::StringExecFns;
use crate::text::{split_char, split_char_seq, str_eq, views_of};

verus! {

/// A fully qualified name.
#[derive(Debug, Clone, PartialEq, Eq, Hash)]
pub struct Fqn {
    module_name: String,
    local_name: String,
}

/// The mathematical value of an FQN.
pub ghost struct FqnV {
    pub module: Seq<char>,
    pub name: Seq<char>,
}

impl View for Fqn {
    type V = FqnV;

    closed spec fn view(&self) -> FqnV {
        FqnV { module: self.module_name@, name: self.local_name@ }
    }
}

/// The single string under which an FQN is cached: module, dot, type name.
pub open spec fn fqn_key(module: Seq<char>, name: Seq<char>) -> Seq<char> {
    module + seq!['.'] + name
}

impl FqnV {
    /// The cache key of this FQN.
    pub open spec fn key(self) -> Seq<char> {
        fqn_key(self.module, self.name)
    }
}

impl Fqn {
    pub fn from_module_name_and_type_name(module_name: &str, name: &str) -> (r: Self)
        ensures
            r@.module == module_name@,
            r@.name == name@,
    {
        Fqn { module_name: String::from_str(module_name), local_name: String::from_str(name) }
    }

    /// The module path parts, e.g. `adlc.package` gives `[adlc, package]`.
    pub fn module_path_parts(&self) -> (r: Vec<String>)
        ensures
            views_of(r@) == split_char_seq(self@.module, '.'),
    {
        split_char(self.module_name.as_str(), '.')
    }

    /// The module name.
    pub fn module_name(&self) -> (r: &str)
        ensures
            r@ == self@.module,
    {
        self.module_name.as_str()
    }

    /// The local type name.
    pub fn local_type_name(&self) -> (r: &str)
        ensures
            r@ == self@.name,
    {
        self.local_name.as_str()
    }

    /// The full name: module, dot, type name.
    pub fn full_name(&self) -> (r: String)
        ensures
            r@ == self@.key(),
    {
        let mut s = String::from_str(self.module_name.as_str());
        s.append(".");
        s.append(self.local_name.as_str());
        proof {
            reveal_strlit(".");
            assert("."@ =~= seq!['.']);
        }
        s
    }

    /// Whether this FQN's module path begins with the given prefix parts.
    pub fn module_matches_prefix(&self, prefix_parts: &Vec<String>) -> (r: bool)
        ensures
            r == {
                let parts = split_char_seq(self@.module, '.');
                &&& views_of(prefix_parts@).len() <= parts.len()
                &&& forall|i: int|
                    0 <= i < views_of(prefix_parts@).len() ==> #[trigger] views_of(
                        prefix_parts@,
                    )[i] == parts[i]
            },
    {
        let parts = self.module_path_parts();
        if prefix_parts.len() > parts.len() {
            return false;
        }
        let mut i: usize = 0;
        while i < prefix_parts.len()
            invariant
                i <= prefix_parts@.len(),
                prefix_parts@.len() <= parts@.len(),
                views_of(parts@) == split_char_seq(self@.module, '.'),
                forall|j: int|
                    0 <= j < i ==> #[trigger] views_of(prefix_parts@)[j] == views_of(parts@)[j],
            decreases prefix_parts@.len() - i,
        {
            if !str_eq(prefix_parts[i].as_str(), parts[i].as_str()) {
                proof {
                    assert(views_of(prefix_parts@)[i as int] == prefix_parts@[i as int]@);
                    assert(views_of(parts@)[i as int] == parts@[i as int]@);
                }
                return false;
            }
            i += 1;
        }
        true
    }

    /// The module path part that follows the given prefix, when the prefix
    /// matches and a next part exists.
    pub fn next_module_part_after_prefix(&self, prefix_parts: &Vec<String>) -> (r: Option<String>)
        ensures
            ({
                let parts = split_char_seq(self@.module, '.');
                let matches = {
                    &&& views_of(prefix_parts@).len() <= parts.len()
                    &&& forall|i: int|
                        0 <= i < views_of(prefix_parts@).len() ==> #[trigger] views_of(
                            prefix_parts@,
                        )[i] == parts[i]
                };
                match r {
                    Some(p) => matches && prefix_parts@.len() < parts.len() && p@ == parts[
                        prefix_parts@.len() as int
                    ],
                    None => !matches || prefix_parts@.len() >= parts.len(),
                }
            }),
    {
        if !self.module_matches_prefix(prefix_parts) {
            return None;
        }
        let parts = self.module_path_parts();
        if prefix_parts.len() < parts.len() {
            let p = String::from_str(parts[prefix_parts.len()].as_str());
            Some(p)
        } else {
            None
        }
    }
}

} // verus!
