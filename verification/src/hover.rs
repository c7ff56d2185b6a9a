//! Hover content within one tree: for each definition of the identifier,
//! the full text of the enclosing declaration, doc comments included, since
//! they are part of the declaration node's span.

use vstd::prelude::*;
use vstd::string::StrSliceExecFns;
use vstd::string::StringExecFns;
use crate::text::{str_eq, trim, trim_seq};
use crate::tree::{
    children_of, exec_is_from_definition, exec_is_user_defined_name, is_from_definition_at,
    is_user_defined_name_at, nth_child, parent_of, text_at, NodeV, SyntaxTree,
};
use crate::types::{HoverFragment, HoverV};

verus! {

/// A hover site for `id`: a user-defined name whose first child marks a
/// definition and spells `id`.
pub open spec fn hover_site_pred(v: Seq<NodeV>, i: int, id: Seq<char>) -> bool {
    &&& is_user_defined_name_at(v, i)
    &&& children_of(v, i).len() > 0
    &&& is_from_definition_at(v, children_of(v, i)[0])
    &&& v[children_of(v, i)[0]].text == id
}

/// The fragment a hover site yields: the trimmed text of the site's parent,
/// the whole declaration, marked as code in the schema language.
pub open spec fn spec_hover_fragment(v: Seq<NodeV>, i: int) -> HoverV {
    HoverV { language: "adl"@, value: trim_seq(v[v[i].parent].text) }
}

/// The hover fragments of the sites among the first `n` nodes, in document
/// order; the root yields none, having no parent.
pub open spec fn hover_upto(v: Seq<NodeV>, id: Seq<char>, n: int) -> Seq<HoverV>
    decreases n,
{
    if n <= 0 {
        Seq::empty()
    } else {
        let rest = hover_upto(v, id, n - 1);
        if hover_site_pred(v, n - 1, id) && n - 1 != 0 {
            rest.push(spec_hover_fragment(v, n - 1))
        } else {
            rest
        }
    }
}

/// All hover fragments for `id`; an empty identifier has none.
pub open spec fn spec_hover(v: Seq<NodeV>, id: Seq<char>) -> Seq<HoverV> {
    if id.len() == 0 {
        Seq::empty()
    } else {
        hover_upto(v, id, v.len() as int)
    }
}

fn exec_hover_site_pred(t: &SyntaxTree, j: usize, id: &str) -> (r: bool)
    requires
        t.wf(),
        j < t@.len(),
    ensures
        r == hover_site_pred(t@, j as int, id@),
{
    if !exec_is_user_defined_name(t, j) {
        return false;
    }
    match nth_child(t, j, 0) {
        Some(c) => {
            if !exec_is_from_definition(t, c) {
                return false;
            }
            let txt = text_at(t, c);
            str_eq(txt.as_str(), id)
        },
        None => false,
    }
}

/// The views of hover fragments, in order.
pub open spec fn hover_views(s: Seq<HoverFragment>) -> Seq<HoverV> {
    s.map_values(|h: HoverFragment| h@)
}

/// The hover fragments for `id` in this tree, in document order: for each
/// definition of `id`, the trimmed text of the whole enclosing declaration.
pub fn hover(t: &SyntaxTree, id: &str) -> (r: Vec<HoverFragment>)
    requires
        t.wf(),
    ensures
        hover_views(r@) == spec_hover(t@, id@),
{
    let mut r: Vec<HoverFragment> = Vec::new();
    if id.unicode_len() == 0 {
        proof {
            assert(hover_views(r@) =~= spec_hover(t@, id@));
        }
        return r;
    }
    let n = t.len();
    let mut j: usize = 0;
    proof {
        assert(hover_views(r@) =~= hover_upto(t@, id@, 0));
    }
    while j < n
        invariant
            t.wf(),
            j <= n,
            n == t@.len(),
            id@.len() != 0,
            hover_views(r@) == hover_upto(t@, id@, j as int),
        decreases n - j,
    {
        if exec_hover_site_pred(t, j, id) && j != 0 {
            let p = parent_of(t, j);
            let value = trim(t.nodes[p].text.as_str());
            let frag = HoverFragment { language: String::from_str("adl"), value };
            proof {
                assert(hover_views(r@.push(frag)) =~= hover_views(r@).push(frag@));
            }
            r.push(frag);
        }
        j += 1;
    }
    r
}

} // verus!
