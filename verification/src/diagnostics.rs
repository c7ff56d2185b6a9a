//! Diagnostics collected from one document: syntax-error nodes, missing
//! tokens, out-of-order imports, and missing terminating semicolons.  All
//! are advisory; an empty file yields a single warning instead of parsing.

use vstd::prelude::*;
use vstd::string::StrSliceExecFns;
use vstd::string::StringExecFns;
use crate::adl::{is_missing_semicolon, spec_missing_semicolon};
use crate::text::trim_seq;
use crate::tree::{
    children_of, first_matching, first_node_of_kind, kind_at_is, kind_pred, nth_child, pos_lt,
    pos_lt_exec, NodeV, SyntaxTree,
};
use crate::types::{node_range, DiagV, Diagnostic, Range, RangeV, Severity};

verus! {

/// The range whose endpoints are the document's origin.
pub open spec fn zero_range() -> RangeV {
    RangeV { start_line: 0, start_col: 0, end_line: 0, end_col: 0 }
}

/// The warning a blank document yields.
pub open spec fn empty_file_diag() -> DiagV {
    DiagV { range: zero_range(), severity: Severity::Warning, message: "empty file"@ }
}

/// The views of collected diagnostics, in order.
pub open spec fn diag_views(s: Seq<Diagnostic>) -> Seq<DiagV> {
    s.map_values(|d: Diagnostic| d@)
}

/// The message of a syntax-error node: it names the kind of the node's
/// parent when there is one.
pub open spec fn syntax_error_message(v: Seq<NodeV>, i: int) -> Seq<char> {
    if i == 0 {
        "syntax error"@
    } else {
        "syntax error in "@ + v[v[i].parent].kind
    }
}

/// The diagnostics of the error nodes among the first `n` nodes.
pub open spec fn error_diags_upto(v: Seq<NodeV>, n: int) -> Seq<DiagV>
    decreases n,
{
    if n <= 0 {
        Seq::empty()
    } else {
        let rest = error_diags_upto(v, n - 1);
        if v[n - 1].kind == "ERROR"@ {
            rest.push(
                DiagV {
                    range: crate::types::spec_node_range(v, n - 1),
                    severity: Severity::Error,
                    message: syntax_error_message(v, n - 1),
                },
            )
        } else {
            rest
        }
    }
}

/// The diagnostics of the missing-token nodes among the first `n` nodes,
/// each naming the expected token kind.
pub open spec fn missing_diags_upto(v: Seq<NodeV>, n: int) -> Seq<DiagV>
    decreases n,
{
    if n <= 0 {
        Seq::empty()
    } else {
        let rest = missing_diags_upto(v, n - 1);
        if v[n - 1].missing {
            rest.push(
                DiagV {
                    range: crate::types::spec_node_range(v, n - 1),
                    severity: Severity::Error,
                    message: "missing token '"@ + v[n - 1].kind + "'"@,
                },
            )
        } else {
            rest
        }
    }
}

/// The first member of the module body, from its `k`-th child on, that is
/// neither an import declaration nor a comment or doc comment.
pub open spec fn first_non_import_from(v: Seq<NodeV>, b: int, k: int) -> Option<int>
    decreases children_of(v, b).len() - k,
    when 0 <= k
{
    let ch = children_of(v, b);
    if k >= ch.len() {
        None
    } else if v[ch[k]].kind == "import_declaration"@ || v[ch[k]].kind == "docstring"@ || v[ch[
        k
    ]].kind == "comment"@ {
        first_non_import_from(v, b, k + 1)
    } else {
        Some(ch[k])
    }
}

/// The diagnostics of the import declarations among the first `n` nodes
/// that start after the position where node `f` starts.
pub open spec fn late_import_diags_upto(v: Seq<NodeV>, f: int, n: int) -> Seq<DiagV>
    decreases n,
{
    if n <= 0 {
        Seq::empty()
    } else {
        let rest = late_import_diags_upto(v, f, n - 1);
        if v[n - 1].kind == "import_declaration"@ && pos_lt(
            v[f].start_line,
            v[f].start_col,
            v[n - 1].start_line,
            v[n - 1].start_col,
        ) {
            rest.push(
                DiagV {
                    range: crate::types::spec_node_range(v, n - 1),
                    severity: Severity::Error,
                    message: "imports must be declared at the beginning of a module"@,
                },
            )
        } else {
            rest
        }
    }
}

/// The out-of-order-import diagnostics: none unless the tree has a module
/// body with a member that is not an import or comment; then one per import
/// declaration starting after that member.  The body's first child, the
/// opening brace, is passed over.
pub open spec fn spec_import_diags(v: Seq<NodeV>) -> Seq<DiagV> {
    match first_matching(v, kind_pred("module_body"@)) {
        None => Seq::empty(),
        Some(b) => match first_non_import_from(v, b, 1) {
            None => Seq::empty(),
            Some(f) => late_import_diags_upto(v, f, v.len() as int),
        },
    }
}

/// The missing-semicolon diagnostics of the nodes of kind `k` among the
/// first `n` nodes.
pub open spec fn semi_diags_upto(v: Seq<NodeV>, k: Seq<char>, n: int) -> Seq<DiagV>
    decreases n,
{
    if n <= 0 {
        Seq::empty()
    } else {
        let rest = semi_diags_upto(v, k, n - 1);
        if v[n - 1].kind == k && spec_missing_semicolon(v, n - 1) {
            rest.push(
                DiagV {
                    range: crate::types::spec_node_range(v, n - 1),
                    severity: Severity::Error,
                    message: "missing semicolon"@,
                },
            )
        } else {
            rest
        }
    }
}

/// The missing-semicolon diagnostics, checked declaration kind by
/// declaration kind.
pub open spec fn spec_semicolon_diags(v: Seq<NodeV>) -> Seq<DiagV> {
    let n = v.len() as int;
    semi_diags_upto(v, "module_definition"@, n) + semi_diags_upto(v, "import_declaration"@, n)
        + semi_diags_upto(v, "type_definition"@, n) + semi_diags_upto(v, "newtype_definition"@, n)
        + semi_diags_upto(v, "struct_definition"@, n) + semi_diags_upto(
        v,
        "union_definition"@,
        n,
    ) + semi_diags_upto(v, "field"@, n) + semi_diags_upto(v, "annotation_declaration"@, n)
}

/// Every diagnostic of a document: the empty-file warning alone for a blank
/// document; otherwise the syntax errors, then the missing tokens, then the
/// out-of-order imports, then the missing semicolons.
pub open spec fn spec_diagnostics(v: Seq<NodeV>, text: Seq<char>) -> Seq<DiagV> {
    if trim_seq(text).len() == 0 {
        seq![empty_file_diag()]
    } else {
        error_diags_upto(v, v.len() as int) + missing_diags_upto(v, v.len() as int)
            + spec_import_diags(v) + spec_semicolon_diags(v)
    }
}

/// The diagnostics of the parser's error nodes, in document order.
pub fn collect_parse_diagnostics(t: &SyntaxTree) -> (r: Vec<Diagnostic>)
    requires
        t.wf(),
    ensures
        diag_views(r@) == error_diags_upto(t@, t@.len() as int),
{
    let n = t.len();
    let mut r: Vec<Diagnostic> = Vec::new();
    let mut j: usize = 0;
    proof {
        assert(diag_views(r@) =~= error_diags_upto(t@, 0));
    }
    while j < n
        invariant
            t.wf(),
            j <= n,
            n == t@.len(),
            diag_views(r@) == error_diags_upto(t@, j as int),
        decreases n - j,
    {
        if kind_at_is(t, j, "ERROR") {
            let message = if j == 0 {
                String::from_str("syntax error")
            } else {
                let mut m = String::from_str("syntax error in ");
                m.append(t.nodes[parent_of_local(t, j)].kind.as_str());
                m
            };
            let d = Diagnostic { range: node_range(t, j), severity: Severity::Error, message };
            proof {
                assert(diag_views(r@.push(d)) =~= diag_views(r@).push(d@));
            }
            r.push(d);
        }
        j += 1;
    }
    r
}

fn parent_of_local(t: &SyntaxTree, i: usize) -> (r: usize)
    requires
        t.wf(),
        i < t@.len(),
    ensures
        r == t@[i as int].parent,
        r < t@.len(),
{
    proof {
        if i != 0 {
            assert(t@[i as int].parent < i as int);
        } else {
            assert(t@[0].parent == 0);
        }
    }
    t.nodes[i].parent
}

/// The diagnostics of the parser's synthesised missing-token nodes, each
/// reporting the expected kind.
pub fn collect_parse_diagnostics_missing(t: &SyntaxTree) -> (r: Vec<Diagnostic>)
    requires
        t.wf(),
    ensures
        diag_views(r@) == missing_diags_upto(t@, t@.len() as int),
{
    let n = t.len();
    let mut r: Vec<Diagnostic> = Vec::new();
    let mut j: usize = 0;
    proof {
        assert(diag_views(r@) =~= missing_diags_upto(t@, 0));
    }
    while j < n
        invariant
            t.wf(),
            j <= n,
            n == t@.len(),
            diag_views(r@) == missing_diags_upto(t@, j as int),
        decreases n - j,
    {
        if t.nodes[j].missing {
            let mut m = String::from_str("missing token '");
            m.append(t.nodes[j].kind.as_str());
            m.append("'");
            let d = Diagnostic { range: node_range(t, j), severity: Severity::Error, message: m };
            proof {
                assert(diag_views(r@.push(d)) =~= diag_views(r@).push(d@));
            }
            r.push(d);
        }
        j += 1;
    }
    r
}

/// The out-of-order-import diagnostics: imports must be declared before any
/// other member of the module body.
pub fn collect_import_diagnostics(t: &SyntaxTree) -> (r: Vec<Diagnostic>)
    requires
        t.wf(),
    ensures
        diag_views(r@) == spec_import_diags(t@),
{
    let mut r: Vec<Diagnostic> = Vec::new();
    let b = match first_node_of_kind(t, "module_body") {
        Some(b) => b,
        None => {
            proof {
                assert(diag_views(r@) =~= spec_import_diags(t@));
            }
            return r;
        },
    };
    let n = t.len();
    let f = match first_non_import_member(t, b) {
        Some(f) => f,
        None => {
            proof {
                assert(diag_views(r@) =~= spec_import_diags(t@));
            }
            return r;
        },
    };
    let mut j: usize = 0;
    proof {
        assert(diag_views(r@) =~= late_import_diags_upto(t@, f as int, 0));
    }
    while j < n
        invariant
            t.wf(),
            j <= n,
            f < n,
            n == t@.len(),
            spec_import_diags(t@) == late_import_diags_upto(t@, f as int, t@.len() as int),
            diag_views(r@) == late_import_diags_upto(t@, f as int, j as int),
        decreases n - j,
    {
        if kind_at_is(t, j, "import_declaration") && pos_lt_exec(
            t.nodes[f].start_line,
            t.nodes[f].start_col,
            t.nodes[j].start_line,
            t.nodes[j].start_col,
        ) {
            let d = Diagnostic {
                range: node_range(t, j),
                severity: Severity::Error,
                message: String::from_str("imports must be declared at the beginning of a module"),
            };
            proof {
                assert(diag_views(r@.push(d)) =~= diag_views(r@).push(d@));
            }
            r.push(d);
        }
        j += 1;
    }
    r
}

/// The first member of the module body `b`, past its opening brace, that is
/// neither an import declaration nor a comment or doc comment.
fn first_non_import_member(t: &SyntaxTree, b: usize) -> (r: Option<usize>)
    requires
        t.wf(),
        b < t@.len(),
    ensures
        match r {
            Some(f) => f < t@.len() && first_non_import_from(t@, b as int, 1) == Some(f as int),
            None => first_non_import_from(t@, b as int, 1) is None,
        },
{
    let n = t.len();
    let mut k: usize = 1;
    loop
        invariant
            t.wf(),
            b < n,
            n == t@.len(),
            1 <= k <= n,
            first_non_import_from(t@, b as int, 1) == first_non_import_from(t@, b as int, k as int),
        decreases n - k,
    {
        match nth_child(t, b, k) {
            None => {
                return None;
            },
            Some(c) => {
                if !(kind_at_is(t, c, "import_declaration") || kind_at_is(t, c, "docstring")
                    || kind_at_is(t, c, "comment")) {
                    proof {
                        assert(first_non_import_from(t@, b as int, k as int) == Some(c as int));
                    }
                    return Some(c);
                }
                proof {
                    crate::tree::lemma_kids_len(t@, b as int, t@.len() as int);
                }
                k += 1;
            },
        }
    }
}

/// The missing-semicolon diagnostics of the nodes of one declaration kind.
fn semicolon_diags_for_kind(t: &SyntaxTree, kind: &str) -> (r: Vec<Diagnostic>)
    requires
        t.wf(),
    ensures
        diag_views(r@) == semi_diags_upto(t@, kind@, t@.len() as int),
{
    let n = t.len();
    let mut r: Vec<Diagnostic> = Vec::new();
    let mut j: usize = 0;
    proof {
        assert(diag_views(r@) =~= semi_diags_upto(t@, kind@, 0));
    }
    while j < n
        invariant
            t.wf(),
            j <= n,
            n == t@.len(),
            diag_views(r@) == semi_diags_upto(t@, kind@, j as int),
        decreases n - j,
    {
        if kind_at_is(t, j, kind) && is_missing_semicolon(t, j) {
            let d = Diagnostic {
                range: node_range(t, j),
                severity: Severity::Error,
                message: String::from_str("missing semicolon"),
            };
            proof {
                assert(diag_views(r@.push(d)) =~= diag_views(r@).push(d@));
            }
            r.push(d);
        }
        j += 1;
    }
    r
}

/// The missing-semicolon diagnostics of every declaration kind that takes a
/// terminating semicolon.
pub fn collect_missing_semicolon_diagnostics(t: &SyntaxTree) -> (r: Vec<Diagnostic>)
    requires
        t.wf(),
    ensures
        diag_views(r@) == spec_semicolon_diags(t@),
{
    let mut r = semicolon_diags_for_kind(t, "module_definition");
    let s1 = semicolon_diags_for_kind(t, "import_declaration");
    let s2 = semicolon_diags_for_kind(t, "type_definition");
    let s3 = semicolon_diags_for_kind(t, "newtype_definition");
    let s4 = semicolon_diags_for_kind(t, "struct_definition");
    let s5 = semicolon_diags_for_kind(t, "union_definition");
    let s6 = semicolon_diags_for_kind(t, "field");
    let s7 = semicolon_diags_for_kind(t, "annotation_declaration");
    let ghost g0 = diag_views(r@);
    let ghost g1 = diag_views(s1@);
    let ghost g2 = diag_views(s2@);
    let ghost g3 = diag_views(s3@);
    let ghost g4 = diag_views(s4@);
    let ghost g5 = diag_views(s5@);
    let ghost g6 = diag_views(s6@);
    let ghost g7 = diag_views(s7@);
    let mut s1m = s1;
    let mut s2m = s2;
    let mut s3m = s3;
    let mut s4m = s4;
    let mut s5m = s5;
    let mut s6m = s6;
    let mut s7m = s7;
    r.append(&mut s1m);
    r.append(&mut s2m);
    r.append(&mut s3m);
    r.append(&mut s4m);
    r.append(&mut s5m);
    r.append(&mut s6m);
    r.append(&mut s7m);
    proof {
        assert(diag_views(r@) =~= g0 + g1 + g2 + g3 + g4 + g5 + g6 + g7);
        assert(g0 + g1 + g2 + g3 + g4 + g5 + g6 + g7 =~= spec_semicolon_diags(t@));
    }
    r
}

/// Every diagnostic of a document, in the order the families are checked;
/// a blank document yields the single empty-file warning instead.
pub fn collect_diagnostics(t: &SyntaxTree, text: &str) -> (r: Vec<Diagnostic>)
    requires
        t.wf(),
    ensures
        diag_views(r@) == spec_diagnostics(t@, text@),
{
    let trimmed = crate::text::trim(text);
    if trimmed.as_str().unicode_len() == 0 {
        let mut r: Vec<Diagnostic> = Vec::new();
        let d = Diagnostic {
            range: Range {
                start: crate::types::Position { line: 0, character: 0 },
                end: crate::types::Position { line: 0, character: 0 },
            },
            severity: Severity::Warning,
            message: String::from_str("empty file"),
        };
        r.push(d);
        proof {
            assert(diag_views(r@) =~= seq![empty_file_diag()]);
        }
        return r;
    }
    let mut r = collect_parse_diagnostics(t);
    let ghost g0 = diag_views(r@);
    let mut m1 = collect_parse_diagnostics_missing(t);
    let ghost g1 = diag_views(m1@);
    let mut m2 = collect_import_diagnostics(t);
    let ghost g2 = diag_views(m2@);
    let mut m3 = collect_missing_semicolon_diagnostics(t);
    let ghost g3 = diag_views(m3@);
    r.append(&mut m1);
    r.append(&mut m2);
    r.append(&mut m3);
    proof {
        assert(diag_views(r@) =~= g0 + g1 + g2 + g3);
        assert(g0 + g1 + g2 + g3 =~= spec_diagnostics(t@, text@));
    }
    r
}

} // verus!
