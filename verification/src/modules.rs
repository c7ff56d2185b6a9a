//! Module path resolution: mapping a target module's dotted name to the file
//! locations that may define it.
//!
//! A file declaring module `a.b.c` must live exactly two directories below
//! its package root, so the root is derivable from the file's own location
//! and module name.  The same-package candidate always comes first; the
//! configured search directories follow in declaration order, skipping a
//! candidate identical to the same-package one.

use vstd::prelude::*;
use vstd::string::StrSliceExecFns;
use vstd::string::StringExecFns;
use crate::text::{
    join_str, join_str_seq, lines, lines_seq, prefix_strings, split_char, split_char_seq,
    split_whitespace, split_ws_seq, str_eq, str_starts_with, strip_trailing, trim,
    trim_end_matches_char, trim_seq, views_of,
};

verus! {

/// The filesystem path of a `file://` URI; any other string is taken to be a
/// path already.
pub open spec fn uri_path_seq(u: Seq<char>) -> Seq<char> {
    if seq!['f', 'i', 'l', 'e', ':', '/', '/'].is_prefix_of(u) {
        u.skip(7)
    } else {
        u
    }
}

/// The `file://` URI of a filesystem path.
pub open spec fn uri_of_path(p: Seq<char>) -> Seq<char> {
    seq!['f', 'i', 'l', 'e', ':', '/', '/'] + p
}

/// The filesystem path of a `file://` URI.
pub fn uri_to_path(u: &str) -> (r: String)
    ensures
        r@ == uri_path_seq(u@),
{
    proof {
        reveal_strlit("file://");
        assert("file://"@ =~= seq!['f', 'i', 'l', 'e', ':', '/', '/']);
    }
    if str_starts_with(u, "file://") {
        u.substring_char(7, u.unicode_len()).to_owned()
    } else {
        u.to_owned()
    }
}

/// The `file://` URI of a filesystem path.
pub fn path_to_uri(p: &str) -> (r: String)
    ensures
        r@ == uri_of_path(p@),
{
    proof {
        reveal_strlit("file://");
        assert("file://"@ =~= seq!['f', 'i', 'l', 'e', ':', '/', '/']);
    }
    let mut s = String::from_str("file://");
    s.append(p);
    s
}

/// The `.adl` file for the module path `target` under the directory `root`.
pub open spec fn adl_file_under(root: Seq<char>, target: Seq<Seq<char>>) -> Seq<char> {
    root + seq!['/'] + join_str_seq(target, seq!['/']) + seq!['.', 'a', 'd', 'l']
}

/// The `.adl` file for the module path `target` under the directory `root`.
pub fn adl_file_path(root: &str, target: &Vec<String>) -> (r: String)
    ensures
        r@ == adl_file_under(root@, views_of(target@)),
{
    proof {
        reveal_strlit("/");
        reveal_strlit(".adl");
        assert("/"@ =~= seq!['/']);
        assert(".adl"@ =~= seq!['.', 'a', 'd', 'l']);
    }
    let mut s = root.to_owned();
    s.append("/");
    s.append(join_str(target, "/").as_str());
    s.append(".adl");
    s
}

/// The package root implied by a source file's path and its module name:
/// the directory as many levels above the file as the module name is deep.
/// There is none when the path has too few components.
pub open spec fn implied_root(source_path: Seq<char>, source_module: Seq<char>) -> Option<
    Seq<char>,
> {
    let segs = split_char_seq(source_path, '/');
    let depth = split_char_seq(source_module, '.').len();
    if depth < segs.len() {
        Some(join_str_seq(segs.take(segs.len() - depth), seq!['/']))
    } else {
        None
    }
}

/// The candidates contributed by the search directories, in order, without
/// one equal to `skip`.
pub open spec fn other_candidates(
    roots: Seq<Seq<char>>,
    skip: Option<Seq<char>>,
    target: Seq<Seq<char>>,
) -> Seq<Seq<char>>
    decreases roots.len(),
{
    if roots.len() == 0 {
        Seq::empty()
    } else {
        let c = adl_file_under(roots[0], target);
        (if skip == Some(c) {
            Seq::<Seq<char>>::empty()
        } else {
            seq![c]
        }) + other_candidates(roots.drop_first(), skip, target)
    }
}

/// Every candidate file path for an import, in precedence order: the
/// same-package candidate first, then one per search directory in
/// declaration order, skipping a duplicate of the same-package candidate.
pub open spec fn spec_candidates(
    roots: Seq<Seq<char>>,
    source_path: Seq<char>,
    source_module: Seq<char>,
    target: Seq<Seq<char>>,
) -> Seq<Seq<char>> {
    match implied_root(source_path, source_module) {
        Some(root) => {
            let same = adl_file_under(root, target);
            seq![same] + other_candidates(roots, Some(same), target)
        },
        None => other_candidates(roots, None, target),
    }
}

/// TESTABLE LAW — depth correctness.
///
/// A file's implied package root keeps exactly the leading segments of its
/// path: all but as many as its module name is deep, so a file declaring an
/// `n`-segment module name finds its root `n` directories up.
pub proof fn lemma_implied_root_depth(source_path: Seq<char>, source_module: Seq<char>)
    requires
        split_char_seq(source_module, '.').len() < split_char_seq(source_path, '/').len(),
    ensures
        ({
            let segs = split_char_seq(source_path, '/');
            let depth = split_char_seq(source_module, '.').len();
            implied_root(source_path, source_module) == Some(
                join_str_seq(segs.take(segs.len() - depth), seq!['/']),
            )
        }),
{
}

/// TESTABLE LAW — same-package precedence.
///
/// Whenever the source file's location and module name imply a package
/// root, the same-package candidate stands first in the candidate list,
/// whatever search directories are configured and in whatever order.
pub proof fn lemma_same_package_first(
    roots: Seq<Seq<char>>,
    source_path: Seq<char>,
    source_module: Seq<char>,
    target: Seq<Seq<char>>,
)
    requires
        implied_root(source_path, source_module) is Some,
    ensures
        spec_candidates(roots, source_path, source_module, target).len() >= 1,
        spec_candidates(roots, source_path, source_module, target)[0] == adl_file_under(
            implied_root(source_path, source_module)->Some_0,
            target,
        ),
{
}

/// Every candidate file path for resolving `imported_module_path` from the
/// file `source_uri` declaring `source_module`, in precedence order.
pub fn resolve_candidates(
    package_roots: &Vec<String>,
    source_uri: &str,
    source_module: &str,
    imported_module_path: &Vec<String>,
) -> (r: Vec<String>)
    ensures
        views_of(r@) == spec_candidates(
            views_of(package_roots@),
            uri_path_seq(source_uri@),
            source_module@,
            views_of(imported_module_path@),
        ),
{
    let path = uri_to_path(source_uri);
    let segs = split_char(path.as_str(), '/');
    let depth = split_char(source_module, '.').len();
    let mut out: Vec<String> = Vec::new();
    let same: Option<String> = if depth < segs.len() {
        proof {
            reveal_strlit("/");
            assert("/"@ =~= seq!['/']);
        }
        let root = join_str(&prefix_strings(&segs, segs.len() - depth), "/");
        Some(adl_file_path(root.as_str(), imported_module_path))
    } else {
        None
    };
    let ghost skip: Option<Seq<char>> = match &same {
        Some(c) => Some(c@),
        None => None,
    };
    let ghost roots_v = views_of(package_roots@);
    let ghost target_v = views_of(imported_module_path@);
    let ghost all = spec_candidates(roots_v, uri_path_seq(source_uri@), source_module@, target_v);
    match &same {
        Some(c) => {
            let c2 = String::from_str(c.as_str());
            out.push(c2);
        },
        None => {},
    }
    proof {
        assert(roots_v.skip(0) =~= roots_v);
        assert(views_of(out@) + other_candidates(roots_v, skip, target_v) =~= all);
    }
    let mut i: usize = 0;
    while i < package_roots.len()
        invariant
            i <= package_roots@.len(),
            roots_v == views_of(package_roots@),
            target_v == views_of(imported_module_path@),
            skip == (match same {
                Some(c) => Some(c@),
                None => None::<Seq<char>>,
            }),
            all == views_of(out@) + other_candidates(roots_v.skip(i as int), skip, target_v),
        decreases package_roots@.len() - i,
    {
        let c = adl_file_path(package_roots[i].as_str(), imported_module_path);
        proof {
            assert(roots_v.skip(i as int)[0] == roots_v[i as int]);
            assert(roots_v.skip(i as int).drop_first() =~= roots_v.skip(i + 1));
        }
        let keep = match &same {
            Some(s) => !str_eq(c.as_str(), s.as_str()),
            None => true,
        };
        if keep {
            proof {
                assert(views_of(out@.push(c)) =~= views_of(out@) + seq![c@]);
                assert(views_of(out@) + (seq![c@] + other_candidates(
                    roots_v.skip(i + 1),
                    skip,
                    target_v,
                )) =~= (views_of(out@) + seq![c@]) + other_candidates(
                    roots_v.skip(i + 1),
                    skip,
                    target_v,
                ));
            }
            out.push(c);
        }
        i += 1;
    }
    proof {
        assert(roots_v.skip(package_roots@.len() as int) =~= Seq::<Seq<char>>::empty());
        assert(views_of(out@) + other_candidates(Seq::empty(), skip, target_v) =~= views_of(
            out@,
        ));
    }
    out
}

/// Whether some string valued `p` draws the answer `b` from the predicate
/// `f`.
pub open spec fn probe_answer<F: Fn(&String) -> bool>(f: F, p: Seq<char>, b: bool) -> bool {
    exists|s: &String| s@ == p && call_ensures(f, (s,), b)
}

/// Resolve an import to the first candidate the existence predicate accepts,
/// as a `file://` URI.  Candidates are probed in precedence order, so a
/// returned location was accepted and every candidate before it was refused;
/// `None` means every candidate was refused.
pub fn resolve_import<F: Fn(&String) -> bool>(
    package_roots: &Vec<String>,
    source_uri: &str,
    source_module: &str,
    imported_module_path: &Vec<String>,
    document_exists: F,
) -> (r: Option<String>)
    requires
        forall|s: &String| #[trigger] call_requires(document_exists, (s,)),
    ensures
        ({
            let cands = spec_candidates(
                views_of(package_roots@),
                uri_path_seq(source_uri@),
                source_module@,
                views_of(imported_module_path@),
            );
            match r {
                Some(u) => exists|k: int|
                    #![trigger cands[k]]
                    {
                        &&& 0 <= k < cands.len()
                        &&& u@ == uri_of_path(cands[k])
                        &&& probe_answer(document_exists, cands[k], true)
                        &&& forall|j: int|
                            0 <= j < k ==> probe_answer(
                                document_exists,
                                #[trigger] cands[j],
                                false,
                            )
                    },
                None => forall|j: int|
                    0 <= j < cands.len() ==> probe_answer(
                        document_exists,
                        #[trigger] cands[j],
                        false,
                    ),
            }
        }),
{
    let cands = resolve_candidates(package_roots, source_uri, source_module, imported_module_path);
    let ghost cv = views_of(cands@);
    let mut k: usize = 0;
    while k < cands.len()
        invariant
            k <= cands@.len(),
            cv == views_of(cands@),
            cv == spec_candidates(
                views_of(package_roots@),
                uri_path_seq(source_uri@),
                source_module@,
                views_of(imported_module_path@),
            ),
            forall|s: &String| #[trigger] call_requires(document_exists, (s,)),
            forall|j: int| 0 <= j < k ==> probe_answer(document_exists, #[trigger] cv[j], false),
        decreases cands@.len() - k,
    {
        let cref = &cands[k];
        let hit = document_exists(cref);
        proof {
            assert(cv[k as int] == cands@[k as int]@);
            assert(cref@ == cv[k as int]);
            assert(probe_answer(document_exists, cv[k as int], hit));
        }
        if hit {
            return Some(path_to_uri(cands[k].as_str()));
        }
        k += 1;
    }
    None
}

/// The package root implied by an `.adl` file's location and its declared
/// module name: the directory as many levels up as the module name is deep.
pub fn discover_package_root_from_file(file_uri: &str, module_name: &str) -> (r: Option<String>)
    ensures
        match r {
            Some(p) => implied_root(uri_path_seq(file_uri@), module_name@) == Some(p@),
            None => implied_root(uri_path_seq(file_uri@), module_name@) is None,
        },
{
    let path = uri_to_path(file_uri);
    let segs = split_char(path.as_str(), '/');
    let depth = split_char(module_name, '.').len();
    if depth < segs.len() {
        proof {
            reveal_strlit("/");
            assert("/"@ =~= seq!['/']);
        }
        Some(join_str(&prefix_strings(&segs, segs.len() - depth), "/"))
    } else {
        None
    }
}

/// The module name of a line such as `module a.b.c;`: the second
/// whitespace-separated token of the first trimmed line that begins with
/// `module `, with trailing semicolons removed.
pub open spec fn module_name_of_lines(ls: Seq<Seq<char>>) -> Option<Seq<char>>
    decreases ls.len(),
{
    if ls.len() == 0 {
        None
    } else {
        let t = trim_seq(ls[0]);
        if seq!['m', 'o', 'd', 'u', 'l', 'e', ' '].is_prefix_of(t) && split_ws_seq(t).len() >= 2 {
            Some(strip_trailing(split_ws_seq(t)[1], ';'))
        } else {
            module_name_of_lines(ls.drop_first())
        }
    }
}

/// The module name declared in a file's content, read line by line.
pub open spec fn spec_extract_module_name(content: Seq<char>) -> Option<Seq<char>> {
    module_name_of_lines(lines_seq(content))
}

/// Extract the module name a file declares, e.g. `module a.b.c;` gives
/// `a.b.c`, from the first line that begins with `module `.
pub fn extract_module_name_from_content(content: &str) -> (r: Option<String>)
    ensures
        match r {
            Some(m) => spec_extract_module_name(content@) == Some(m@),
            None => spec_extract_module_name(content@) is None,
        },
{
    proof {
        reveal_strlit("module ");
        assert("module "@ =~= seq!['m', 'o', 'd', 'u', 'l', 'e', ' ']);
    }
    let ls = lines(content);
    let ghost lv = lines_seq(content@);
    let mut i: usize = 0;
    proof {
        assert(lv.skip(0) =~= lv);
    }
    while i < ls.len()
        invariant
            i <= ls@.len(),
            lv == lines_seq(content@),
            views_of(ls@) == lv,
            module_name_of_lines(lv) == module_name_of_lines(lv.skip(i as int)),
        decreases ls@.len() - i,
    {
        proof {
            reveal_strlit("module ");
            assert("module "@ =~= seq!['m', 'o', 'd', 'u', 'l', 'e', ' ']);
            assert(lv.skip(i as int)[0] == lv[i as int]);
            assert(views_of(ls@)[i as int] == ls@[i as int]@);
        }
        let line = trim(ls[i].as_str());
        if str_starts_with(line.as_str(), "module ") {
            let parts = split_whitespace(line.as_str());
            if parts.len() >= 2 {
                let name = trim_end_matches_char(parts[1].as_str(), ';');
                proof {
                    assert(views_of(parts@)[1] == parts@[1]@);
                    assert(module_name_of_lines(lv.skip(i as int)) == Some(name@));
                }
                return Some(name);
            }
            proof {
                assert(split_ws_seq(trim_seq(lv[i as int])).len() < 2);
            }
        }
        proof {
            assert(lv.skip(i as int).drop_first() =~= lv.skip(i + 1));
            assert(module_name_of_lines(lv.skip(i as int)) == module_name_of_lines(
                lv.skip(i + 1),
            ));
        }
        i += 1;
    }
    proof {
        assert(lv.skip(ls@.len() as int) =~= Seq::<Seq<char>>::empty());
    }
    None
}

/// A package definition as a package-manifest file declares it, with a
/// version and named dependencies.
#[derive(Debug, Clone)]
pub struct AdlPackageDefinition {
    pub name: String,
    pub version: String,
    pub dependencies: Vec<AdlPackageDependency>,
}

/// One named dependency of a package and the path it lives at.
#[derive(Debug, Clone)]
pub struct AdlPackageDependency {
    pub name: String,
    pub path: String,
}

} // verus!
