//! The document store: each file's raw text and syntax tree, updated
//! together and replaced wholesale on every edit — never a tree without its
//! matching text.

use vstd::prelude::*;
use crate::text::str_eq;
use crate::tree::{tree_wf, NodeV, SyntaxTree};

verus! {

/// One stored document: its location, raw text, and parsed tree.
pub struct Document {
    pub uri: String,
    pub text: String,
    pub tree: SyntaxTree,
}

/// The mathematical value of a stored document.
pub ghost struct DocV {
    pub text: Seq<char>,
    pub tree: Seq<NodeV>,
}

impl Document {
    pub open spec fn doc_view(&self) -> DocV {
        DocV { text: self.text@, tree: self.tree@ }
    }
}

spec fn ds_map(s: Seq<Document>) -> Map<Seq<char>, DocV>
    decreases s.len(),
{
    if s.len() == 0 {
        Map::empty()
    } else {
        ds_map(s.drop_last()).insert(s.last().uri@, s.last().doc_view())
    }
}

spec fn ds_unique(s: Seq<Document>) -> bool {
    forall|i: int, j: int| 0 <= i < j < s.len() ==> s[i].uri@ != s[j].uri@
}

spec fn ds_trees_wf(s: Seq<Document>) -> bool {
    forall|i: int| 0 <= i < s.len() ==> tree_wf(#[trigger] s[i].tree@)
}

/// The store of open and discovered documents, keyed by URI.
pub struct DocumentStore {
    docs: Vec<Document>,
}

impl View for DocumentStore {
    type V = Map<Seq<char>, DocV>;

    closed spec fn view(&self) -> Map<Seq<char>, DocV> {
        ds_map(self.docs@)
    }
}

proof fn lemma_ds_map_dom(s: Seq<Document>, u: Seq<char>)
    ensures
        ds_map(s).contains_key(u) <==> exists|i: int| 0 <= i < s.len() && s[i].uri@ == u,
    decreases s.len(),
{
    if s.len() > 0 {
        lemma_ds_map_dom(s.drop_last(), u);
        if ds_map(s).contains_key(u) {
            if s.last().uri@ == u {
                assert(s[s.len() - 1].uri@ == u);
            } else {
                let i = choose|i: int| 0 <= i < s.len() - 1 && s.drop_last()[i].uri@ == u;
                assert(s[i].uri@ == u);
            }
        }
        if exists|i: int| 0 <= i < s.len() && s[i].uri@ == u {
            let i = choose|i: int| 0 <= i < s.len() && s[i].uri@ == u;
            if i < s.len() - 1 {
                assert(s.drop_last()[i].uri@ == u);
            }
        }
    }
}

proof fn lemma_ds_map_index(s: Seq<Document>, i: int)
    requires
        ds_unique(s),
        0 <= i < s.len(),
    ensures
        ds_map(s).contains_key(s[i].uri@),
        ds_map(s)[s[i].uri@] == s[i].doc_view(),
    decreases s.len(),
{
    if i < s.len() - 1 {
        assert(s.drop_last()[i] == s[i]);
        lemma_ds_map_index(s.drop_last(), i);
        assert(s[s.len() - 1].uri@ != s[i].uri@);
    }
}

proof fn lemma_ds_map_remove(s: Seq<Document>, i: int)
    requires
        ds_unique(s),
        0 <= i < s.len(),
    ensures
        ds_map(s.remove(i)) =~= ds_map(s).remove(s[i].uri@),
        ds_unique(s.remove(i)),
    decreases s.len(),
{
    if i == s.len() - 1 {
        assert(s.remove(i) =~= s.drop_last());
        assert forall|u: Seq<char>| #[trigger] ds_map(s.drop_last()).contains_key(u) implies u
            != s[i].uri@ by {
            lemma_ds_map_dom(s.drop_last(), u);
            let j = choose|j: int| 0 <= j < s.len() - 1 && s.drop_last()[j].uri@ == u;
            assert(s[j].uri@ == u);
        }
    } else {
        assert(s.remove(i).drop_last() =~= s.drop_last().remove(i));
        assert(s.remove(i).last() == s.last());
        lemma_ds_map_remove(s.drop_last(), i);
        assert(s.drop_last()[i] == s[i]);
        assert(ds_map(s.remove(i)) =~= ds_map(s.drop_last().remove(i)).insert(
            s.last().uri@,
            s.last().doc_view(),
        ));
        assert(s.last().uri@ != s[i].uri@);
    }
}

impl DocumentStore {
    /// Unique keys, and every stored tree well-formed.
    pub closed spec fn wf(&self) -> bool {
        ds_unique(self.docs@) && ds_trees_wf(self.docs@)
    }

    /// Every stored document's tree is well-formed.
    pub proof fn lemma_stored_tree_wf(&self, u: Seq<char>)
        requires
            self.wf(),
            self@.contains_key(u),
        ensures
            tree_wf(self@[u].tree),
    {
        lemma_ds_map_dom(self.docs@, u);
        let i = choose|i: int| 0 <= i < self.docs@.len() && self.docs@[i].uri@ == u;
        lemma_ds_map_index(self.docs@, i);
    }

    pub fn new() -> (r: Self)
        ensures
            r@ == Map::<Seq<char>, DocV>::empty(),
            r.wf(),
    {
        DocumentStore { docs: Vec::new() }
    }

    /// Drop every document.
    pub fn clear(&mut self)
        ensures
            final(self)@ == Map::<Seq<char>, DocV>::empty(),
            final(self).wf(),
    {
        self.docs = Vec::new();
    }

    fn find_doc(&self, uri: &str) -> (r: Option<usize>)
        ensures
            match r {
                Some(i) => i < self.docs@.len() && self.docs@[i as int].uri@ == uri@,
                None => forall|i: int|
                    0 <= i < self.docs@.len() ==> self.docs@[i as int].uri@ != uri@,
            },
    {
        let mut i: usize = 0;
        while i < self.docs.len()
            invariant
                i <= self.docs@.len(),
                forall|j: int| 0 <= j < i ==> self.docs@[j].uri@ != uri@,
            decreases self.docs@.len() - i,
        {
            if str_eq(self.docs[i].uri.as_str(), uri) {
                return Some(i);
            }
            i += 1;
        }
        None
    }

    /// Whether a document is stored under `uri`.
    pub fn contains(&self, uri: &str) -> (r: bool)
        ensures
            r == self@.contains_key(uri@),
    {
        proof {
            lemma_ds_map_dom(self.docs@, uri@);
        }
        match self.find_doc(uri) {
            Some(_) => true,
            None => false,
        }
    }

    /// The document stored under `uri`, if any.
    pub fn get(&self, uri: &str) -> (r: Option<&Document>)
        requires
            self.wf(),
        ensures
            match r {
                Some(d) => {
                    &&& self@.contains_key(uri@)
                    &&& d.uri@ == uri@
                    &&& d.doc_view() == self@[uri@]
                    &&& d.tree.wf()
                },
                None => !self@.contains_key(uri@),
            },
    {
        proof {
            lemma_ds_map_dom(self.docs@, uri@);
        }
        match self.find_doc(uri) {
            Some(i) => {
                proof {
                    lemma_ds_map_index(self.docs@, i as int);
                }
                Some(&self.docs[i])
            },
            None => None,
        }
    }

    /// Store a document under its URI, replacing any previous entry: text
    /// and tree are committed together.
    pub fn insert(&mut self, doc: Document)
        requires
            old(self).wf(),
            doc.tree.wf(),
        ensures
            final(self).wf(),
            final(self)@ == old(self)@.insert(doc.uri@, doc.doc_view()),
    {
        let ghost dv = doc.doc_view();
        let ghost du = doc.uri@;
        match self.find_doc(doc.uri.as_str()) {
            Some(i) => {
                proof {
                    lemma_ds_map_remove(self.docs@, i as int);
                }
                self.docs.remove(i);
            },
            None => {
                proof {
                    lemma_ds_map_dom(self.docs@, du);
                    assert(!self@.contains_key(du));
                }
            },
        }
        let ghost mid = self.docs@;
        proof {
            lemma_ds_map_dom(mid, du);
        }
        self.docs.push(doc);
        proof {
            assert(self.docs@.drop_last() =~= mid);
            assert(ds_map(self.docs@) =~= ds_map(mid).insert(du, dv));
            assert(ds_map(mid).insert(du, dv) =~= old(self)@.insert(du, dv));
            assert forall|a: int, b: int|
                0 <= a < b < self.docs@.len() implies self.docs@[a].uri@
                != self.docs@[b].uri@ by {
                if b == self.docs@.len() - 1 {
                    lemma_ds_map_dom(mid, self.docs@[a].uri@);
                }
            }
        }
    }
}

} // verus!
