//! Package roots and the file-index-first import resolver.
//!
//! A package root is a directory whose subtree mirrors dotted module names;
//! roots are configured, discovered by walking up from a file by its module
//! depth, or found by a package-manifest marker file.  The resolver here
//! consults each root's known file index first and falls back to probing
//! the filesystem through the injected existence predicate.

use vstd::prelude::*;
use vstd::string::StrSliceExecFns;
use vstd::string::StringExecFns;
use crate::modules::{
    adl_file_path, adl_file_under, implied_root, path_to_uri, probe_answer, uri_of_path,
    uri_path_seq, uri_to_path,
};
use crate::text::{
    contains_str, join_str, join_str_seq, prefix_strings, split_char, split_char_seq, str_eq,
    str_starts_with, views_of,
};

verus! {

/// A reference to a dependency package: the directory it lives in.
#[derive(Debug, Clone)]
pub struct AdlPackageRef {
    pub localdir: String,
}

/// A package definition as a package-manifest file declares it.
#[derive(Debug, Clone)]
pub struct AdlPackageDefinition {
    pub name: String,
    pub dependencies: Vec<AdlPackageRef>,
}

/// One configured search directory with the `.adl` file URIs known under
/// it.
pub struct SearchRoot {
    pub root: String,
    pub files: Vec<String>,
}

/// The mathematical value of a search root.
pub ghost struct SearchRootV {
    pub root: Seq<char>,
    pub files: Seq<Seq<char>>,
}

impl View for SearchRoot {
    type V = SearchRootV;

    open spec fn view(&self) -> SearchRootV {
        SearchRootV { root: self.root@, files: views_of(self.files@) }
    }
}

/// The views of the search roots, in order.
pub open spec fn root_views(s: Seq<SearchRoot>) -> Seq<SearchRootV> {
    s.map_values(|r: SearchRoot| r@)
}

/// The first search root, at or after `j`, whose file index holds the
/// target module's candidate URI.
pub open spec fn index_hit_from(dirs: Seq<SearchRootV>, target: Seq<Seq<char>>, j: int) -> Option<
    int,
>
    decreases dirs.len() - j,
    when 0 <= j
{
    if j >= dirs.len() {
        None
    } else if dirs[j].files.contains(uri_of_path(adl_file_under(dirs[j].root, target))) {
        Some(j)
    } else {
        index_hit_from(dirs, target, j + 1)
    }
}

/// The same-package candidate, if the source file implies a root.
pub open spec fn spec_same_candidate(same: Option<Seq<char>>, target: Seq<Seq<char>>) -> Option<
    Seq<char>,
> {
    match same {
        Some(root) => Some(adl_file_under(root, target)),
        None => None,
    }
}

/// Resolve an import against the search roots' file indices first, in
/// order; on a miss, probe the same-package candidate implied by the source
/// file, then each root's candidate, skipping a duplicate of the
/// same-package one.  The result, if any, is a `file://` URI.
pub fn resolve_import<F: Fn(&String) -> bool>(
    search_dirs: &Vec<SearchRoot>,
    source_uri: &str,
    source_module: &str,
    imported_module_path: &Vec<String>,
    document_exists: F,
) -> (r: Option<String>)
    requires
        forall|s: &String| #[trigger] call_requires(document_exists, (s,)),
    ensures
        ({
            let dirs = root_views(search_dirs@);
            let target = views_of(imported_module_path@);
            let same = implied_root(uri_path_seq(source_uri@), source_module@);
            match r {
                Some(u) => match index_hit_from(dirs, target, 0) {
                    Some(j) => u@ == uri_of_path(adl_file_under(dirs[j].root, target)),
                    None => {
                        ||| (same matches Some(root) && u@ == uri_of_path(
                            adl_file_under(root, target),
                        ) && probe_answer(document_exists, adl_file_under(root, target), true))
                        ||| exists|j: int|
                            #![auto]
                            0 <= j < dirs.len() && u@ == uri_of_path(
                                adl_file_under(dirs[j].root, target),
                            ) && probe_answer(
                                document_exists,
                                adl_file_under(dirs[j].root, target),
                                true,
                            )
                    },
                },
                None => {
                    &&& index_hit_from(dirs, target, 0) is None
                    &&& (same matches Some(root) ==> probe_answer(
                        document_exists,
                        adl_file_under(root, target),
                        false,
                    ))
                    &&& forall|j: int|
                        #![auto]
                        0 <= j < dirs.len() ==> (Some(adl_file_under(dirs[j].root, target))
                            == spec_same_candidate(same, target) || probe_answer(
                            document_exists,
                            adl_file_under(dirs[j].root, target),
                            false,
                        ))
                },
            }
        }),
{
    let ghost dirs = root_views(search_dirs@);
    let ghost target = views_of(imported_module_path@);
    // the file indices first
    let mut j: usize = 0;
    while j < search_dirs.len()
        invariant
            j <= search_dirs@.len(),
            dirs == root_views(search_dirs@),
            target == views_of(imported_module_path@),
            forall|s: &String| #[trigger] call_requires(document_exists, (s,)),
            index_hit_from(dirs, target, 0) == index_hit_from(dirs, target, j as int),
        decreases search_dirs@.len() - j,
    {
        let cand = adl_file_path(search_dirs[j].root.as_str(), imported_module_path);
        let curi = path_to_uri(cand.as_str());
        proof {
            assert(dirs[j as int].root == search_dirs@[j as int].root@);
            assert(dirs[j as int].files == views_of(search_dirs@[j as int].files@));
        }
        if contains_str(&search_dirs[j].files, curi.as_str()) {
            proof {
                assert(index_hit_from(dirs, target, j as int) == Some(j as int));
            }
            return Some(curi);
        }
        j += 1;
    }
    proof {
        assert(index_hit_from(dirs, target, search_dirs@.len() as int) is None);
    }
    // the same-package candidate implied by the source file
    let path = uri_to_path(source_uri);
    let segs = split_char(path.as_str(), '/');
    let depth = split_char(source_module, '.').len();
    let mut same: Option<String> = None;
    if depth < segs.len() {
        proof {
            reveal_strlit("/");
            assert("/"@ =~= seq!['/']);
        }
        let root = join_str(&prefix_strings(&segs, segs.len() - depth), "/");
        let cand = adl_file_path(root.as_str(), imported_module_path);
        let hit = document_exists(&cand);
        proof {
            assert(probe_answer(document_exists, cand@, hit));
        }
        if hit {
            return Some(path_to_uri(cand.as_str()));
        }
        same = Some(cand);
    }
    // each root's candidate, skipping a duplicate of the same-package one
    let mut k: usize = 0;
    while k < search_dirs.len()
        invariant
            k <= search_dirs@.len(),
            dirs == root_views(search_dirs@),
            target == views_of(imported_module_path@),
            forall|s: &String| #[trigger] call_requires(document_exists, (s,)),
            index_hit_from(dirs, target, 0) is None,
            match same {
                Some(c) => implied_root(uri_path_seq(source_uri@), source_module@) matches Some(
                    root,
                ) && c@ == adl_file_under(root, target) && probe_answer(
                    document_exists,
                    c@,
                    false,
                ),
                None => implied_root(uri_path_seq(source_uri@), source_module@) is None,
            },
            forall|j: int|
                #![auto]
                0 <= j < k ==> (Some(adl_file_under(dirs[j].root, target))
                    == spec_same_candidate(
                    implied_root(uri_path_seq(source_uri@), source_module@),
                    target,
                ) || probe_answer(
                    document_exists,
                    adl_file_under(dirs[j].root, target),
                    false,
                )),
        decreases search_dirs@.len() - k,
    {
        let cand = adl_file_path(search_dirs[k].root.as_str(), imported_module_path);
        proof {
            assert(dirs[k as int].root == search_dirs@[k as int].root@);
        }
        let dup = match &same {
            Some(c) => str_eq(cand.as_str(), c.as_str()),
            None => false,
        };
        if !dup {
            let hit = document_exists(&cand);
            proof {
                assert(probe_answer(document_exists, cand@, hit));
            }
            if hit {
                return Some(path_to_uri(cand.as_str()));
            }
        }
        k += 1;
    }
    None
}

/// Whether some string of `s` is valued `x`.
pub open spec fn str_in(s: Seq<String>, x: Seq<char>) -> bool {
    exists|j: int| 0 <= j < s.len() && s[j]@ == x
}

proof fn lemma_str_in_prefix(a: Seq<String>, b: Seq<String>)
    requires
        a.is_prefix_of(b),
    ensures
        forall|x: Seq<char>| #[trigger] str_in(a, x) ==> str_in(b, x),
{
    assert forall|x: Seq<char>| #[trigger] str_in(a, x) implies str_in(b, x) by {
        let j = choose|j: int| 0 <= j < a.len() && a[j]@ == x;
        assert(b[j]@ == x);
    }
}

/// A package manifest already read from disk: the directory it lies in and
/// the dependencies it declares.
pub struct LoadedManifest {
    pub package_dir: String,
    pub dependencies: Vec<crate::modules::AdlPackageDependency>,
}

/// Expand the package roots with the dependency directories the loaded
/// manifests declare: the configured roots stay, and each declared
/// dependency path the existence predicate accepts joins them, without
/// duplicates.
pub fn resolve_package_dependencies<F: Fn(&String) -> bool>(
    package_roots: &Vec<String>,
    manifests: &Vec<LoadedManifest>,
    dir_exists: F,
) -> (r: Vec<String>)
    requires
        forall|s: &String| #[trigger] call_requires(dir_exists, (s,)),
    ensures
        forall|a: int, b: int| 0 <= a < b < r@.len() ==> r@[a]@ != r@[b]@,
        forall|x: Seq<char>| #[trigger] str_in(package_roots@, x) ==> str_in(r@, x),
        forall|j: int|
            0 <= j < r@.len() ==> (str_in(package_roots@, (#[trigger] r@[j])@) || exists|
                m: int,
                d: int,
            |
                #![auto]
                0 <= m < manifests@.len() && 0 <= d < manifests@[m].dependencies@.len() && r@[j]@
                    == spec_dependency_path(
                    manifests@[m].package_dir@,
                    manifests@[m].dependencies@[d].path@,
                ) && probe_answer(
                    dir_exists,
                    spec_dependency_path(
                        manifests@[m].package_dir@,
                        manifests@[m].dependencies@[d].path@,
                    ),
                    true,
                )),
        forall|m: int, d: int|
            #![auto]
            0 <= m < manifests@.len() && 0 <= d < manifests@[m].dependencies@.len() ==> (str_in(
                r@,
                spec_dependency_path(
                    manifests@[m].package_dir@,
                    manifests@[m].dependencies@[d].path@,
                ),
            ) || probe_answer(
                dir_exists,
                spec_dependency_path(
                    manifests@[m].package_dir@,
                    manifests@[m].dependencies@[d].path@,
                ),
                false,
            )),
{
    let mut r: Vec<String> = Vec::new();
    let mut i: usize = 0;
    while i < package_roots.len()
        invariant
            i <= package_roots@.len(),
            forall|a: int, b: int| 0 <= a < b < r@.len() ==> r@[a]@ != r@[b]@,
            forall|j: int| 0 <= j < r@.len() ==> str_in(package_roots@, (#[trigger] r@[j])@),
            forall|m: int| 0 <= m < i ==> str_in(r@, (#[trigger] package_roots@[m])@),
        decreases package_roots@.len() - i,
    {
        let root = &package_roots[i];
        if !contains_str(&r, root.as_str()) {
            let ghost prev = r@;
            r.push(String::from_str(root.as_str()));
            proof {
                assert(r@.subrange(0, prev.len() as int) =~= prev);
                lemma_str_in_prefix_push(prev, r@);
                assert(r@[prev.len() as int]@ == package_roots@[i as int]@);
                assert(str_in(package_roots@, r@[prev.len() as int]@));
                assert forall|j: int| 0 <= j < r@.len() implies str_in(
                    package_roots@,
                    (#[trigger] r@[j])@,
                ) by {
                    if j < prev.len() {
                        assert(r@[j] == prev[j]);
                    }
                }
                assert forall|a: int, b: int| 0 <= a < b < r@.len() implies r@[a]@ != r@[b]@ by {
                    if b == r@.len() - 1 {
                        assert(!views_of(prev).contains(r@[b]@));
                        assert(views_of(prev)[a] == prev[a]@);
                    }
                }
            }
        } else {
            proof {
                let j = choose|j: int| 0 <= j < views_of(r@).len() && views_of(r@)[j]
                    == package_roots@[i as int]@;
                assert(r@[j]@ == package_roots@[i as int]@);
            }
        }
        i += 1;
    }
    proof {
        assert forall|x: Seq<char>| #[trigger] str_in(package_roots@, x) implies str_in(r@, x) by {
            let m = choose|m: int| 0 <= m < package_roots@.len() && package_roots@[m]@ == x;
        }
    }
    let mut m: usize = 0;
    while m < manifests.len()
        invariant
            m <= manifests@.len(),
            forall|s: &String| #[trigger] call_requires(dir_exists, (s,)),
            forall|a: int, b: int| 0 <= a < b < r@.len() ==> r@[a]@ != r@[b]@,
            forall|x: Seq<char>| #[trigger] str_in(package_roots@, x) ==> str_in(r@, x),
            forall|j: int|
                0 <= j < r@.len() ==> (str_in(package_roots@, (#[trigger] r@[j])@) || exists|
                    mm: int,
                    d: int,
                |
                    #![auto]
                    0 <= mm < manifests@.len() && 0 <= d < manifests@[mm].dependencies@.len()
                        && r@[j]@ == spec_dependency_path(
                        manifests@[mm].package_dir@,
                        manifests@[mm].dependencies@[d].path@,
                    ) && probe_answer(
                        dir_exists,
                        spec_dependency_path(
                            manifests@[mm].package_dir@,
                            manifests@[mm].dependencies@[d].path@,
                        ),
                        true,
                    )),
            forall|mm: int, d: int|
                #![auto]
                0 <= mm < m && 0 <= d < manifests@[mm].dependencies@.len() ==> (str_in(
                    r@,
                    spec_dependency_path(
                        manifests@[mm].package_dir@,
                        manifests@[mm].dependencies@[d].path@,
                    ),
                ) || probe_answer(
                    dir_exists,
                    spec_dependency_path(
                        manifests@[mm].package_dir@,
                        manifests@[mm].dependencies@[d].path@,
                    ),
                    false,
                )),
        decreases manifests@.len() - m,
    {
        let deps_len = manifests[m].dependencies.len();
        let mut d: usize = 0;
        while d < deps_len
            invariant
                m < manifests@.len(),
                deps_len == manifests@[m as int].dependencies@.len(),
                d <= deps_len,
                forall|s: &String| #[trigger] call_requires(dir_exists, (s,)),
                forall|a: int, b: int| 0 <= a < b < r@.len() ==> r@[a]@ != r@[b]@,
                forall|x: Seq<char>| #[trigger] str_in(package_roots@, x) ==> str_in(r@, x),
                forall|j: int|
                    0 <= j < r@.len() ==> (str_in(package_roots@, (#[trigger] r@[j])@) || exists|
                        mm: int,
                        dd: int,
                    |
                        #![auto]
                        0 <= mm < manifests@.len() && 0 <= dd < manifests@[mm].dependencies@.len()
                            && r@[j]@ == spec_dependency_path(
                            manifests@[mm].package_dir@,
                            manifests@[mm].dependencies@[dd].path@,
                        ) && probe_answer(
                            dir_exists,
                            spec_dependency_path(
                                manifests@[mm].package_dir@,
                                manifests@[mm].dependencies@[dd].path@,
                            ),
                            true,
                        )),
                forall|mm: int, dd: int|
                    #![auto]
                    (0 <= mm < m && 0 <= dd < manifests@[mm].dependencies@.len()) || (mm == m && 0
                        <= dd < d) ==> (str_in(
                        r@,
                        spec_dependency_path(
                            manifests@[mm].package_dir@,
                            manifests@[mm].dependencies@[dd].path@,
                        ),
                    ) || probe_answer(
                        dir_exists,
                        spec_dependency_path(
                            manifests@[mm].package_dir@,
                            manifests@[mm].dependencies@[dd].path@,
                        ),
                        false,
                    )),
            decreases deps_len - d,
        {
            let path = resolve_dependency_path(
                manifests[m].package_dir.as_str(),
                manifests[m].dependencies[d].path.as_str(),
            );
            let hit = dir_exists(&path);
            proof {
                assert(probe_answer(dir_exists, path@, hit));
            }
            if hit && !contains_str(&r, path.as_str()) {
                let ghost prev = r@;
                r.push(path);
                proof {
                    assert(r@.subrange(0, prev.len() as int) =~= prev);
                    lemma_str_in_prefix_push(prev, r@);
                    assert forall|a: int, b: int| 0 <= a < b < r@.len() implies r@[a]@
                        != r@[b]@ by {
                        if b == r@.len() - 1 {
                            assert(!views_of(prev).contains(r@[b]@));
                            assert(views_of(prev)[a] == prev[a]@);
                        }
                    }
                    assert(str_in(
                        r@,
                        spec_dependency_path(
                            manifests@[m as int].package_dir@,
                            manifests@[m as int].dependencies@[d as int].path@,
                        ),
                    )) by {
                        assert(r@[prev.len() as int]@ == spec_dependency_path(
                            manifests@[m as int].package_dir@,
                            manifests@[m as int].dependencies@[d as int].path@,
                        ));
                    }
                }
            } else if hit {
                proof {
                    let j = choose|j: int| 0 <= j < views_of(r@).len() && views_of(r@)[j]
                        == path@;
                    assert(r@[j]@ == path@);
                }
            }
            d += 1;
        }
        m += 1;
    }
    r
}

proof fn lemma_str_in_prefix_push(prev: Seq<String>, cur: Seq<String>)
    requires
        prev.is_prefix_of(cur),
    ensures
        forall|x: Seq<char>| #[trigger] str_in(prev, x) ==> str_in(cur, x),
{
    lemma_str_in_prefix(prev, cur);
}

/// Resolve a dependency directory: an absolute path stands as it is, a
/// relative one hangs off the package root.
pub fn resolve_dependency_path(package_root: &str, localdir: &str) -> (r: String)
    ensures
        r@ == spec_dependency_path(package_root@, localdir@),
{
    proof {
        reveal_strlit("/");
        assert("/"@ =~= seq!['/']);
    }
    if str_starts_with(localdir, "/") {
        localdir.to_owned()
    } else {
        let mut s = package_root.to_owned();
        s.append("/");
        s.append(localdir);
        s
    }
}

/// An absolute dependency path stands alone; a relative one hangs off the
/// package root.
pub open spec fn spec_dependency_path(package_root: Seq<char>, localdir: Seq<char>) -> Seq<char> {
    if seq!['/'].is_prefix_of(localdir) {
        localdir
    } else {
        package_root + seq!['/'] + localdir
    }
}

/// Find the package-manifest file at or above `start_dir`: the manifest of
/// the first directory, walking up, for which the marker predicate answers
/// that one lies there.  The predicate decides; `None` means it refused
/// every ancestor.
pub fn find_package_definition<F: Fn(&String) -> bool>(start_dir: &str, has_marker: F) -> (r:
    Option<String>)
    requires
        forall|s: &String| #[trigger] call_requires(has_marker, (s,)),
    ensures
        ({
            let segs = split_char_seq(start_dir@, '/');
            match r {
                Some(p) => exists|k: int|
                    #![auto]
                    1 <= k <= segs.len() && p@ == manifest_under(
                        join_str_seq(segs.take(k), seq!['/']),
                    ) && probe_answer(has_marker, join_str_seq(segs.take(k), seq!['/']), true),
                None => forall|k: int|
                    1 <= k <= segs.len() ==> probe_answer(
                        has_marker,
                        #[trigger] join_str_seq(segs.take(k), seq!['/']),
                        false,
                    ),
            }
        }),
{
    match find_package_root_by_marker(start_dir, has_marker) {
        Some(root) => {
            proof {
                reveal_strlit("/adl-package.json");
                assert("/adl-package.json"@ =~= seq![
                    '/', 'a', 'd', 'l', '-', 'p', 'a', 'c', 'k', 'a', 'g', 'e', '.', 'j', 's',
                    'o', 'n',
                ]);
            }
            let mut s = root;
            s.append("/adl-package.json");
            Some(s)
        },
        None => None,
    }
}

/// The manifest file of a package directory.
pub open spec fn manifest_under(dir: Seq<char>) -> Seq<char> {
    dir + seq!['/', 'a', 'd', 'l', '-', 'p', 'a', 'c', 'k', 'a', 'g', 'e', '.', 'j', 's', 'o', 'n']
}

/// Find the nearest package root at or above `path`: the first directory,
/// walking up, for which the marker predicate answers that a package
/// manifest lies there.  The predicate decides; `None` means it refused
/// every ancestor.
pub fn find_package_root_by_marker<F: Fn(&String) -> bool>(path: &str, has_marker: F) -> (r:
    Option<String>)
    requires
        forall|s: &String| #[trigger] call_requires(has_marker, (s,)),
    ensures
        ({
            let segs = split_char_seq(path@, '/');
            match r {
                Some(p) => exists|k: int|
                    #![auto]
                    1 <= k <= segs.len() && p@ == join_str_seq(segs.take(k), seq!['/'])
                        && probe_answer(has_marker, p@, true),
                None => forall|k: int|
                    1 <= k <= segs.len() ==> probe_answer(
                        has_marker,
                        #[trigger] join_str_seq(segs.take(k), seq!['/']),
                        false,
                    ),
            }
        }),
{
    proof {
        reveal_strlit("/");
        assert("/"@ =~= seq!['/']);
    }
    let segs = split_char(path, '/');
    let mut k: usize = segs.len();
    proof {
        crate::text::lemma_split_len(path@, '/');
    }
    while k >= 1
        invariant
            k <= segs@.len(),
            views_of(segs@) == split_char_seq(path@, '/'),
            forall|s: &String| #[trigger] call_requires(has_marker, (s,)),
            forall|m: int|
                k < m <= segs@.len() ==> probe_answer(
                    has_marker,
                    #[trigger] join_str_seq(views_of(segs@).take(m), seq!['/']),
                    false,
                ),
        decreases k,
    {
        proof {
            reveal_strlit("/");
            assert("/"@ =~= seq!['/']);
        }
        let p = join_str(&prefix_strings(&segs, k), "/");
        let hit = has_marker(&p);
        proof {
            assert(probe_answer(has_marker, p@, hit));
        }
        if hit {
            return Some(p);
        }
        k -= 1;
    }
    None
}

} // verus!
