//! Reference search within one tree: the usage sites of an identifier,
//! excluding definition and import sites.

use vstd::prelude::*;
use vstd::string::StrSliceExecFns;
use crate::text::str_eq;
use crate::tree::{
    all_matching, exec_is_from_definition, exec_is_user_defined_name,
    exec_self_or_ancestor_of_kind, idxs_matching, import_ancestor_at, is_from_definition_at,
    is_identifier_at, is_scoped_name_at, is_user_defined_name_at, kind_at_is, parent_of, text_at,
    NodeV, SyntaxTree,
};
use crate::types::{node_location, spec_node_loc, Location};

verus! {

/// A usage site of `id`: a user-defined name spelling `id` that stands
/// neither under a definition mark nor under an import declaration.  A bare
/// identifier directly inside a scoped name spelling the same text is left
/// out, so a dotted name and its last part are not reported twice.
pub open spec fn ref_site_pred(id: Seq<char>) -> spec_fn(Seq<NodeV>, int) -> bool {
    |v: Seq<NodeV>, i: int|
        {
            &&& is_user_defined_name_at(v, i)
            &&& v[i].text == id
            &&& !is_from_definition_at(v, i)
            &&& import_ancestor_at(v, i) is None
            &&& (!is_identifier_at(v, i) || !(i != 0 && is_scoped_name_at(v, v[i].parent)
                && v[v[i].parent].text == id))
        }
}

/// The usage sites of `id`, in document order; an empty identifier has none.
pub open spec fn spec_reference_sites(v: Seq<NodeV>, id: Seq<char>) -> Seq<int> {
    if id.len() == 0 {
        Seq::empty()
    } else {
        all_matching(v, ref_site_pred(id))
    }
}

fn exec_ref_site_pred(t: &SyntaxTree, j: usize, id: &str) -> (r: bool)
    requires
        t.wf(),
        j < t@.len(),
    ensures
        r == ref_site_pred(id@)(t@, j as int),
{
    if !exec_is_user_defined_name(t, j) {
        return false;
    }
    let txt = text_at(t, j);
    if !str_eq(txt.as_str(), id) {
        return false;
    }
    if exec_is_from_definition(t, j) {
        return false;
    }
    match exec_self_or_ancestor_of_kind(t, j, "import_declaration") {
        Some(_) => {
            return false;
        },
        None => {},
    }
    if kind_at_is(t, j, "identifier") {
        if j != 0 {
            let p = parent_of(t, j);
            if kind_at_is(t, p, "scoped_name") {
                let ptxt = text_at(t, p);
                if str_eq(ptxt.as_str(), id) {
                    return false;
                }
            }
        }
    }
    true
}

/// Every usage site of `id` in this tree, in document order, as a location
/// in the file `uri`.
pub fn find_references(t: &SyntaxTree, uri: &str, id: &str) -> (r: Vec<Location>)
    requires
        t.wf(),
    ensures
        r@.len() == spec_reference_sites(t@, id@).len(),
        forall|j: int|
            0 <= j < r@.len() ==> (#[trigger] r@[j])@ == spec_node_loc(
                t@,
                uri@,
                spec_reference_sites(t@, id@)[j],
            ),
{
    let mut r: Vec<Location> = Vec::new();
    if id.unicode_len() == 0 {
        return r;
    }
    let n = t.len();
    let mut j: usize = 0;
    while j < n
        invariant
            t.wf(),
            j <= n,
            n == t@.len(),
            id@.len() != 0,
            r@.len() == idxs_matching(t@, ref_site_pred(id@), j as int).len(),
            forall|m: int|
                0 <= m < r@.len() ==> (#[trigger] r@[m])@ == spec_node_loc(
                    t@,
                    uri@,
                    idxs_matching(t@, ref_site_pred(id@), j as int)[m],
                ),
        decreases n - j,
    {
        if exec_ref_site_pred(t, j, id) {
            let loc = node_location(t, uri, j);
            r.push(loc);
        }
        j += 1;
    }
    r
}

} // verus!
