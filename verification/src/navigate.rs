//! Module-path extraction at a cursor position: which module path an
//! identifier under the cursor belongs to, read from the enclosing import
//! declaration or dotted scoped name.

use vstd::prelude::*;
use vstd::string::StrSliceExecFns;
use vstd::string::StringExecFns;
use crate::adl::{import_decl_at, spec_import_at, tree_module_name};
use crate::definition::tree_module_or_empty;
use crate::text::{join_str, join_str_seq, prefix_strings, split_char, split_char_seq, views_of};
use crate::tree::{
    is_scoped_name_at, kind_at_is, node_at_pos, node_at_position, parent_of, text_at, tree_wf,
    NodeV, SyntaxTree,
};

verus! {

/// The segment of the dot-separated `parts` whose span holds the relative
/// offset `rel`, counting one separator between consecutive segments,
/// starting the scan at segment `k` and offset `off`.
pub open spec fn segment_at(parts: Seq<Seq<char>>, rel: int, k: int, off: int) -> Option<int>
    decreases parts.len() - k,
    when 0 <= k
{
    if k >= parts.len() {
        None
    } else if off <= rel < off + parts[k].len() {
        Some(k)
    } else {
        segment_at(parts, rel, k + 1, off + parts[k].len() + 1)
    }
}

/// The offset of the cursor inside the scoped name at `p`, measured from
/// the name's start: on the same line it is the column distance, clamped at
/// zero; across lines it falls back to the visited child's start, or zero.
pub open spec fn rel_offset(v: Seq<NodeV>, cur: int, p: int, l: int, c: int) -> int {
    if l == v[p].start_line {
        if c >= v[p].start_col {
            c - v[p].start_col
        } else {
            0
        }
    } else if v[cur].start_line == v[p].start_line {
        if v[cur].start_col >= v[p].start_col {
            v[cur].start_col - v[p].start_col
        } else {
            0
        }
    } else {
        0
    }
}

/// The module path the cursor stands in, walking from `cur` up through
/// enclosing scoped names: for a dotted name, the joined segments before
/// the one under the cursor, when the cursor is past the first segment.
pub open spec fn scoped_module_path(v: Seq<NodeV>, cur: int, l: int, c: int) -> Option<Seq<char>>
    decreases cur,
    when tree_wf(v) && 0 <= cur < v.len()
{
    if cur == 0 {
        None
    } else {
        let p = v[cur].parent;
        if is_scoped_name_at(v, p) {
            let parts = split_char_seq(v[p].text, '.');
            if parts.len() > 1 {
                match segment_at(parts, rel_offset(v, cur, p, l, c), 0, 0) {
                    Some(i) => if i > 0 {
                        Some(join_str_seq(parts.take(i), seq!['.']))
                    } else {
                        None
                    },
                    None => scoped_module_path(v, p, l, c),
                }
            } else {
                scoped_module_path(v, p, l, c)
            }
        } else {
            scoped_module_path(v, p, l, c)
        }
    }
}

/// The import declaration strictly above `cur`, if any.
pub open spec fn strict_import_ancestor(v: Seq<NodeV>, cur: int) -> Option<int>
    decreases cur,
    when tree_wf(v) && 0 <= cur < v.len()
{
    if cur == 0 {
        None
    } else {
        let p = v[cur].parent;
        if v[p].kind == "import_declaration"@ {
            Some(p)
        } else {
            strict_import_ancestor(v, p)
        }
    }
}

/// What module-path extraction at a position answers: from an enclosing
/// import declaration, that import's module path; otherwise from an
/// enclosing dotted scoped name, the segments before the cursor.  The
/// second component is the file's own module name, or empty.
pub open spec fn spec_module_path_at(v: Seq<NodeV>, l: int, c: int) -> Option<
    (Seq<char>, Seq<char>),
> {
    match node_at_pos(v, l, c) {
        None => None,
        Some(i) => if !(0 <= i < v.len()) {
            None
        } else {
            match strict_import_ancestor(v, i) {
                Some(a) => {
                    let m = match spec_import_at(v, a) {
                        Some(d) => d.module_name,
                        None => Seq::empty(),
                    };
                    Some((m, tree_module_or_empty(v)))
                },
                None => match scoped_module_path(v, i, l, c) {
                    Some(mp) => Some((mp, tree_module_or_empty(v))),
                    None => None,
                },
            }
        },
    }
}

/// The import declaration strictly above `i`, if any.
fn exec_strict_import_ancestor(t: &SyntaxTree, i: usize) -> (r: Option<usize>)
    requires
        t.wf(),
        i < t@.len(),
    ensures
        match r {
            Some(a) => a < t@.len() && strict_import_ancestor(t@, i as int) == Some(a as int),
            None => strict_import_ancestor(t@, i as int) is None,
        },
{
    let mut cur = i;
    loop
        invariant
            t.wf(),
            cur < t@.len(),
            strict_import_ancestor(t@, i as int) == strict_import_ancestor(t@, cur as int),
        decreases cur,
    {
        if cur == 0 {
            return None;
        }
        let p = parent_of(t, cur);
        if kind_at_is(t, p, "import_declaration") {
            return Some(p);
        }
        cur = p;
    }
}

/// The module path of the enclosing dotted scoped name before the cursor's
/// segment, if any.
fn exec_scoped_module_path(t: &SyntaxTree, i: usize, line: u32, col: u32) -> (r: Option<String>)
    requires
        t.wf(),
        i < t@.len(),
    ensures
        match r {
            Some(mp) => scoped_module_path(t@, i as int, line as int, col as int) == Some(mp@),
            None => scoped_module_path(t@, i as int, line as int, col as int) is None,
        },
{
    let mut cur = i;
    loop
        invariant
            t.wf(),
            cur < t@.len(),
            scoped_module_path(t@, i as int, line as int, col as int) == scoped_module_path(
                t@,
                cur as int,
                line as int,
                col as int,
            ),
        decreases cur,
    {
        if cur == 0 {
            return None;
        }
        let p = parent_of(t, cur);
        if kind_at_is(t, p, "scoped_name") {
            let txt = text_at(t, p);
            let parts = split_char(txt.as_str(), '.');
            if parts.len() > 1 {
                let rel = rel_offset_exec(t, cur, p, line, col);
                match segment_index(&parts, rel) {
                    Some(seg) => {
                        if seg > 0 {
                            proof {
                                reveal_strlit(".");
                                assert("."@ =~= seq!['.']);
                            }
                            let mp = join_str(&prefix_strings(&parts, seg), ".");
                            return Some(mp);
                        }
                        return None;
                    },
                    None => {},
                }
            }
        }
        cur = p;
    }
}

/// The module path under the cursor and the file's own module name: read
/// from the enclosing import declaration, or from the enclosing dotted
/// scoped name when the cursor is past the name's first segment.
pub fn get_module_path_at(t: &SyntaxTree, line: u32, col: u32) -> (r: Option<(String, String)>)
    requires
        t.wf(),
    ensures
        match r {
            Some(p) => spec_module_path_at(t@, line as int, col as int) == Some((p.0@, p.1@)),
            None => spec_module_path_at(t@, line as int, col as int) is None,
        },
{
    let i = match node_at_position(t, line, col) {
        Some(i) => i,
        None => {
            return None;
        },
    };
    let source_module = match tree_module_name(t) {
        Some(m) => m,
        None => String::new(),
    };
    match exec_strict_import_ancestor(t, i) {
        Some(a) => {
            let m = match import_decl_at(t, a) {
                Some(d) => d.module_name,
                None => String::new(),
            };
            Some((m, source_module))
        },
        None => match exec_scoped_module_path(t, i, line, col) {
            Some(mp) => Some((mp, source_module)),
            None => None,
        },
    }
}

/// The cursor's offset inside the scoped name at `p`.
fn rel_offset_exec(t: &SyntaxTree, cur: usize, p: usize, line: u32, col: u32) -> (r: usize)
    requires
        t.wf(),
        cur < t@.len(),
        p < t@.len(),
    ensures
        r == rel_offset(t@, cur as int, p as int, line as int, col as int),
{
    if line == t.nodes[p].start_line {
        if col >= t.nodes[p].start_col {
            (col - t.nodes[p].start_col) as usize
        } else {
            0
        }
    } else if t.nodes[cur].start_line == t.nodes[p].start_line {
        if t.nodes[cur].start_col >= t.nodes[p].start_col {
            (t.nodes[cur].start_col - t.nodes[p].start_col) as usize
        } else {
            0
        }
    } else {
        0
    }
}

/// The index of the dot-separated segment whose span holds `rel`.
fn segment_index(parts: &Vec<String>, rel: usize) -> (r: Option<usize>)
    ensures
        match r {
            Some(k) => k < parts@.len() && segment_at(views_of(parts@), rel as int, 0, 0) == Some(
                k as int,
            ),
            None => segment_at(views_of(parts@), rel as int, 0, 0) is None,
        },
{
    let mut k: usize = 0;
    let mut off: usize = 0;
    while k < parts.len()
        invariant
            k <= parts@.len(),
            off <= rel,
            segment_at(views_of(parts@), rel as int, 0, 0) == segment_at(
                views_of(parts@),
                rel as int,
                k as int,
                off as int,
            ),
        decreases parts@.len() - k,
    {
        let plen = parts[k].as_str().unicode_len();
        proof {
            assert(views_of(parts@)[k as int] == parts@[k as int]@);
        }
        let d: usize = rel - off;
        if d < plen {
            return Some(k);
        }
        if d == plen {
            // the separator itself: every later segment starts past the offset
            proof {
                lemma_segment_at_past(views_of(parts@), rel as int, k + 1, off + plen + 1);
            }
            return None;
        }
        off = off + plen + 1;
        k += 1;
    }
    None
}

proof fn lemma_segment_at_past(parts: Seq<Seq<char>>, rel: int, k: int, off: int)
    requires
        0 <= k,
        off > rel,
    ensures
        segment_at(parts, rel, k, off) is None,
    decreases parts.len() - k,
{
    if k < parts.len() {
        lemma_segment_at_past(parts, rel, k + 1, off + parts[k].len() + 1);
    }
}

} // verus!
