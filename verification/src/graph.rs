//! The page graph and the registry of the URLs that have a page in it.
//!
//! The graph is a `petgraph` graph. What it holds is named by two functions,
//! `graph_pages` and `graph_links`; the contracts of the calls into `petgraph`
//! are stated over them and taken on trust.
use vstd::prelude::*;
use crate::urls::Url;
use crate::{Link, Page, PageView};

verus! {

/// `petgraph::graph::Graph`. What a graph of pages holds is named by
/// `graph_pages` and `graph_links`.
#[verifier::external_type_specification]
#[verifier::external_body]
#[verifier::reject_recursive_types(N)]
#[verifier::reject_recursive_types(E)]
#[verifier::reject_recursive_types(Ty)]
#[verifier::reject_recursive_types(Ix)]
pub struct ExGraph<N, E, Ty, Ix>(petgraph::graph::Graph<N, E, Ty, Ix>);

/// `petgraph::Directed`, the marker of a graph with directed edges.
#[verifier::external_type_specification]
#[verifier::external_body]
pub struct ExDirected(petgraph::Directed);

/// The graph of all pages discovered and the links between them.
pub type PageGraph = petgraph::graph::Graph<Page, Link, petgraph::Directed, u32>;

/// A link as a mathematical value: the nodes it joins and the markup of the
/// element it was found in.
pub struct LinkView {
    pub source: usize,
    pub target: usize,
    pub html: Seq<char>,
}

/// The pages that a graph holds, by node index.
pub uninterp spec fn graph_pages(
    graph: petgraph::graph::Graph<Page, Link, petgraph::Directed, u32>,
) -> Seq<PageView>;

/// The links that a graph holds, by edge index.
pub uninterp spec fn graph_links(
    graph: petgraph::graph::Graph<Page, Link, petgraph::Directed, u32>,
) -> Seq<LinkView>;

/// The most nodes, and the most edges, that a graph with 32-bit indices takes.
pub const GRAPH_LIMIT: usize = 0xffff_ffff;

/// `Graph::new`: a graph without nodes and edges.
#[verifier::external_body]
pub(crate) fn graph_new() -> (graph: PageGraph)
    ensures
        graph_pages(graph) == Seq::<PageView>::empty(),
        graph_links(graph) == Seq::<LinkView>::empty(),
{
    petgraph::graph::Graph::new()
}

/// `Graph::node_count`: the number of nodes.
#[verifier::external_body]
pub(crate) fn graph_node_count(graph: &PageGraph) -> (count: usize)
    ensures
        count == graph_pages(*graph).len(),
{
    graph.node_count()
}

/// `Graph::edge_count`: the number of edges.
#[verifier::external_body]
pub(crate) fn graph_edge_count(graph: &PageGraph) -> (count: usize)
    ensures
        count == graph_links(*graph).len(),
{
    graph.edge_count()
}

/// `Graph::add_node`: the new node gets the next index, and nothing else
/// changes. The call panics on a graph that is full, which `requires` rules out.
#[verifier::external_body]
pub(crate) fn graph_add_node(graph: &mut PageGraph, page: Page) -> (index: usize)
    requires
        graph_pages(*old(graph)).len() < GRAPH_LIMIT,
    ensures
        index == graph_pages(*old(graph)).len(),
        graph_pages(*final(graph)) == graph_pages(*old(graph)).push(page@),
        graph_links(*final(graph)) == graph_links(*old(graph)),
{
    graph.add_node(page).index()
}

/// `Graph::add_edge`: the new edge gets the next index, and nothing else
/// changes. Parallel edges are kept. The call panics where a node does not
/// exist or the graph is full, which `requires` rules out.
#[verifier::external_body]
pub(crate) fn graph_add_edge(graph: &mut PageGraph, source: usize, target: usize, link: Link)
    requires
        source < graph_pages(*old(graph)).len(),
        target < graph_pages(*old(graph)).len(),
        graph_links(*old(graph)).len() < GRAPH_LIMIT,
    ensures
        graph_pages(*final(graph)) == graph_pages(*old(graph)),
        graph_links(*final(graph)) == graph_links(*old(graph)).push(
            LinkView { source, target, html: link@ },
        ),
{
    graph.add_edge(
        petgraph::graph::NodeIndex::new(source),
        petgraph::graph::NodeIndex::new(target),
        link,
    );
}

/// `Graph::node_weight` for a node that exists: the page at that index.
#[verifier::external_body]
pub(crate) fn graph_node_weight(graph: &PageGraph, index: usize) -> (page: &Page)
    requires
        index < graph_pages(*graph).len(),
    ensures
        page@ == graph_pages(*graph)[index as int],
{
    graph.node_weight(petgraph::graph::NodeIndex::new(index)).unwrap()
}

/// `Graph::node_weight_mut` for a node that exists: the page at that index,
/// to be changed in place. No other page and no link changes.
#[verifier::external_body]
pub(crate) fn graph_node_weight_mut(graph: &mut PageGraph, index: usize) -> (page: &mut Page)
    requires
        index < graph_pages(*old(graph)).len(),
    ensures
        page@ == graph_pages(*old(graph))[index as int],
        graph_pages(*final(graph)) == graph_pages(*old(graph)).update(
            index as int,
            final(page)@,
        ),
        graph_links(*final(graph)) == graph_links(*old(graph)),
{
    graph.node_weight_mut(petgraph::graph::NodeIndex::new(index)).unwrap()
}

/// The registry of the URLs that have a page: each with the index of its node.
/// No URL is held twice.
pub struct PageMap {
    keys: Vec<Url>,
    values: Vec<usize>,
}

/// The positions at which a list of URLs holds a given one.
pub open spec fn holds_at(keys: Seq<Url>, i: int, url: Seq<char>) -> bool {
    0 <= i < keys.len() && keys[i]@ == url
}

impl View for PageMap {
    type V = Map<Seq<char>, usize>;

    closed spec fn view(&self) -> Map<Seq<char>, usize> {
        Map::new(
            |url: Seq<char>| exists|i: int| holds_at(self.keys@, i, url),
            |url: Seq<char>| self.values@[choose|i: int| holds_at(self.keys@, i, url)],
        )
    }
}

impl PageMap {
    /// No URL is held twice.
    pub closed spec fn inv(&self) -> bool {
        &&& self.keys@.len() == self.values@.len()
        &&& forall|i: int, j: int|
            0 <= i < j < self.keys@.len() ==> (#[trigger] self.keys@[i])@ != (
            #[trigger] self.keys@[j])@
    }

    /// The number of URLs held.
    pub closed spec fn spec_len(&self) -> nat {
        self.keys@.len()
    }

    /// A registry that holds nothing.
    pub fn new() -> (map: Self)
        ensures
            map.inv(),
            map@ == Map::<Seq<char>, usize>::empty(),
            map.spec_len() == 0,
    {
        let map = PageMap { keys: Vec::new(), values: Vec::new() };
        assert(map@ =~= Map::<Seq<char>, usize>::empty());
        map
    }

    /// The position of `url` among the keys, if it is held.
    fn position(&self, url: &Url) -> (r: Option<usize>)
        ensures
            match r {
                Some(i) => holds_at(self.keys@, i as int, url@),
                None => forall|i: int| !holds_at(self.keys@, i, url@),
            },
    {
        let mut i: usize = 0;
        while i < self.keys.len()
            invariant
                i <= self.keys.len(),
                forall|j: int| 0 <= j < i ==> !holds_at(self.keys@, j, url@),
            decreases self.keys.len() - i,
        {
            if self.keys[i].same(url) {
                return Some(i);
            }
            i += 1;
        }
        None
    }

    /// The node of `url`, if the URL is held.
    pub fn get(&self, url: &Url) -> (r: Option<usize>)
        requires
            self.inv(),
        ensures
            r == (if self@.contains_key(url@) {
                Some(self@[url@])
            } else {
                None
            }),
    {
        match self.position(url) {
            Some(i) => {
                proof {
                    let chosen = choose|j: int| holds_at(self.keys@, j, url@);
                    assert(chosen == i);
                }
                Some(self.values[i])
            },
            None => None,
        }
    }

    /// Whether `url` is held.
    pub fn contains_key(&self, url: &Url) -> (r: bool)
        ensures
            r == self@.contains_key(url@),
    {
        self.position(url).is_some()
    }

    /// The number of URLs held.
    pub fn len(&self) -> (n: usize)
        ensures
            n == self.spec_len(),
    {
        self.keys.len()
    }

    /// Enters `url` with the node `index`. Where the URL is held already, its
    /// node is replaced and the old one handed back.
    pub fn insert(&mut self, url: Url, index: usize) -> (previous: Option<usize>)
        requires
            old(self).inv(),
        ensures
            final(self).inv(),
            final(self)@ == old(self)@.insert(url@, index),
            previous == (if old(self)@.contains_key(url@) {
                Some(old(self)@[url@])
            } else {
                None
            }),
            final(self).spec_len() == (if old(self)@.contains_key(url@) {
                old(self).spec_len()
            } else {
                old(self).spec_len() + 1
            }),
    {
        let ghost before = *self;
        match self.position(&url) {
            Some(i) => {
                proof {
                    let chosen = choose|j: int| holds_at(before.keys@, j, url@);
                    assert(chosen == i);
                }
                let previous = self.values[i];
                self.values.set(i, index);
                proof {
                    assert forall|k: Seq<char>| #[trigger]
                        self@.contains_key(k) == before@.insert(url@, index).contains_key(k) by {
                        if k == url@ {
                            assert(holds_at(self.keys@, i as int, k));
                        }
                    }
                    assert forall|k: Seq<char>| self@.contains_key(k) implies #[trigger] self@[k]
                        == before@.insert(url@, index)[k] by {
                        let at = choose|j: int| holds_at(self.keys@, j, k);
                        if k != url@ {
                            assert(at != i);
                        } else {
                            assert(holds_at(self.keys@, i as int, k));
                            assert(at == i);
                        }
                    }
                    assert(self@ =~= before@.insert(url@, index));
                }
                Some(previous)
            },
            None => {
                self.keys.push(url);
                self.values.push(index);
                proof {
                    let n = before.keys@.len() as int;
                    assert(holds_at(self.keys@, n, url@));
                    assert forall|i: int, j: int| 0 <= i < j < self.keys@.len() implies (
                    #[trigger] self.keys@[i])@ != (#[trigger] self.keys@[j])@ by {
                        if j == n {
                            assert(!holds_at(before.keys@, i, url@));
                        } else {
                            assert(before.keys@[i]@ != before.keys@[j]@);
                        }
                    }
                    assert forall|k: Seq<char>| #[trigger]
                        self@.contains_key(k) == before@.insert(url@, index).contains_key(k) by {
                        if before@.contains_key(k) {
                            let at = choose|j: int| holds_at(before.keys@, j, k);
                            assert(holds_at(self.keys@, at, k));
                        }
                        if self@.contains_key(k) && k != url@ {
                            let at = choose|j: int| holds_at(self.keys@, j, k);
                            assert(holds_at(before.keys@, at, k));
                        }
                    }
                    assert forall|k: Seq<char>| self@.contains_key(k) implies #[trigger] self@[k]
                        == before@.insert(url@, index)[k] by {
                        let at = choose|j: int| holds_at(self.keys@, j, k);
                        if k != url@ {
                            assert(holds_at(before.keys@, at, k));
                            let was = choose|j: int| holds_at(before.keys@, j, k);
                            assert(was == at);
                        } else {
                            assert(!holds_at(before.keys@, at, url@));
                            assert(at == n);
                        }
                    }
                    assert(self@ =~= before@.insert(url@, index));
                }
                None
            },
        }
    }
}

} // verus!
