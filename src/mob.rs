use crate::body_part::{BodyPart, BodyPartConnection};
use petgraph::graph::NodeIndex;
use petgraph::Graph;
use vstd::prelude::*;
use vstd::string::StringExecFns;

verus! {

#[verifier::external_type_specification]
#[verifier::external_body]
#[verifier::reject_recursive_types(N)]
#[verifier::reject_recursive_types(E)]
#[verifier::reject_recursive_types(Ty)]
#[verifier::reject_recursive_types(Ix)]
pub struct ExGraph<N, E, Ty, Ix>(Graph<N, E, Ty, Ix>);

#[verifier::external_type_specification]
#[verifier::external_body]
pub struct ExDirected(petgraph::Directed);

/// The anatomy graph: a node per body part (`None` marks an empty slot), an
/// edge per connection.
pub type PartGraph = Graph<Option<BodyPart>, BodyPartConnection>;

/// An edge as plain values: source node, target node, connection.
pub type EdgeRecord = (usize, usize, BodyPartConnection);

/// The node weights of a graph, by node index.
pub uninterp spec fn graph_nodes(g: PartGraph) -> Seq<Option<BodyPart>>;

/// The edges of a graph, by edge index.
pub uninterp spec fn graph_edges(g: PartGraph) -> Seq<EdgeRecord>;

/// Relies on petgraph's `Graph::new`: a graph with no node and no edge.
#[verifier::external_body]
fn new_graph() -> (r: PartGraph)
    ensures
        graph_nodes(r) == Seq::<Option<BodyPart>>::empty(),
        graph_edges(r) == Seq::<EdgeRecord>::empty(),
{
    Graph::new()
}

/// Relies on petgraph's `Graph::add_node`: the weight goes to the end of the
/// node list and its index comes back. It panics once the node indices
/// (`u32`) run out, which `requires` rules out.
#[verifier::external_body]
fn graph_add_node(g: &mut PartGraph, weight: Option<BodyPart>) -> (r: usize)
    requires
        graph_nodes(*old(g)).len() < u32::MAX,
    ensures
        graph_nodes(*final(g)) == graph_nodes(*old(g)).push(weight),
        graph_edges(*final(g)) == graph_edges(*old(g)),
        r == graph_nodes(*old(g)).len(),
{
    g.add_node(weight).index()
}

/// Relies on petgraph's `Graph::add_edge`: the edge goes to the end of the
/// edge list; parallel edges are kept. It panics on a missing node or once
/// the edge indices (`u32`) run out, which `requires` rules out.
#[verifier::external_body]
fn graph_add_edge(g: &mut PartGraph, a: usize, b: usize, weight: BodyPartConnection)
    requires
        a < graph_nodes(*old(g)).len(),
        b < graph_nodes(*old(g)).len(),
        graph_nodes(*old(g)).len() <= u32::MAX,
        graph_edges(*old(g)).len() < u32::MAX,
    ensures
        graph_nodes(*final(g)) == graph_nodes(*old(g)),
        graph_edges(*final(g)) == graph_edges(*old(g)).push((a, b, weight)),
{
    g.add_edge(NodeIndex::new(a), NodeIndex::new(b), weight);
}

/// Relies on petgraph's `Graph::raw_edges`: every edge, in the order in which
/// the edges were added.
#[verifier::external_body]
fn graph_edge_list(g: &PartGraph) -> (r: Vec<EdgeRecord>)
    ensures
        r@ == graph_edges(*g),
{
    g.raw_edges().iter().map(|e| (e.source().index(), e.target().index(), e.weight)).collect()
}

/// Relies on petgraph's indexing of a graph by node: the weight of that node.
#[verifier::external_body]
fn graph_node_weight(g: &PartGraph, i: usize) -> (r: &Option<BodyPart>)
    requires
        i < graph_nodes(*g).len(),
        graph_nodes(*g).len() <= u32::MAX,
    ensures
        *r == graph_nodes(*g)[i as int],
{
    &g[NodeIndex::new(i)]
}

/// The edges that join `parent` to `child`, one for each connection, in order.
pub open spec fn connection_edges(parent: usize, child: usize, connections: Seq<BodyPartConnection>) -> Seq<EdgeRecord> {
    connections.map_values(|c: BodyPartConnection| (parent, child, c))
}

/// Whether `q` is `p` under the name `p`'s name followed by `suffix`.
pub open spec fn renamed_copy(p: BodyPart, q: BodyPart, suffix: Seq<char>) -> bool {
    &&& q.name@ == p.name@ + suffix
    &&& q.part_type == p.part_type
    &&& q.layers@ == p.layers@
    &&& q.severable == p.severable
    &&& q.can_grab == p.can_grab
}

/// A creature: a name and a graph of body parts hanging from a root part.
#[derive(Debug)]
pub struct Mob {
    pub name: String,
    pub body_part_graph: PartGraph,
    pub root: usize,
}

impl Mob {
    /// The node weights of the graph.
    pub open spec fn nodes(&self) -> Seq<Option<BodyPart>> {
        graph_nodes(self.body_part_graph)
    }

    /// The edges of the graph.
    pub open spec fn edges(&self) -> Seq<EdgeRecord> {
        graph_edges(self.body_part_graph)
    }

    /// The root is a node, the indices fit petgraph's `u32`, and every edge
    /// runs from a node to a later one: parts are only ever added below parts
    /// that already exist, so the graph has no cycle.
    pub open spec fn wf(&self) -> bool {
        &&& self.root < self.nodes().len() <= u32::MAX
        &&& self.edges().len() <= u32::MAX
        &&& forall|k: int| 0 <= k < self.edges().len() ==>
            (#[trigger] self.edges()[k]).0 < self.edges()[k].1 < self.nodes().len()
    }

    /// A creature named `name` whose only part, the root, is `root`.
    pub fn new(name: String, root: BodyPart) -> (r: Mob)
        ensures
            r.wf(),
            r.name@ == name@,
            r.root == 0,
            r.nodes() == seq![Some(root)],
            r.edges() == Seq::<EdgeRecord>::empty(),
    {
        let mut g = new_graph();
        let ghost root_part = root;
        let i = graph_add_node(&mut g, Some(root));
        assert(graph_nodes(g) =~= seq![Some(root_part)]);
        Mob { name, body_part_graph: g, root: i }
    }

    /// Adds `body_part` as a new node and joins `parent` to it by one edge for
    /// each entry of `connections`, in order. Returns the new node.
    pub fn add_body_part(
        &mut self,
        body_part: BodyPart,
        parent: usize,
        connections: Vec<BodyPartConnection>,
    ) -> (r: usize)
        requires
            old(self).wf(),
            parent < old(self).nodes().len(),
            old(self).nodes().len() < u32::MAX,
            old(self).edges().len() + connections@.len() <= u32::MAX,
        ensures
            final(self).wf(),
            r == old(self).nodes().len(),
            final(self).nodes() == old(self).nodes().push(Some(body_part)),
            final(self).edges() == old(self).edges() + connection_edges(parent, r, connections@),
            final(self).root == old(self).root,
            final(self).name@ == old(self).name@,
    {
        let ghost part = body_part;
        let ghost old_edges = self.edges();
        let new_part = graph_add_node(&mut self.body_part_graph, Some(body_part));
        let mut k: usize = 0;
        while k < connections.len()
            invariant
                k <= connections@.len(),
                parent < new_part,
                new_part == old(self).nodes().len(),
                self.nodes() == old(self).nodes().push(Some(part)),
                self.edges() == old_edges + connection_edges(parent, new_part, connections@.subrange(0, k as int)),
                old_edges == old(self).edges(),
                old_edges.len() + connections@.len() <= u32::MAX,
                old(self).nodes().len() < u32::MAX,
                self.root == old(self).root,
                self.name@ == old(self).name@,
                old(self).wf(),
            decreases connections@.len() - k,
        {
            graph_add_edge(&mut self.body_part_graph, parent, new_part, connections[k]);
            k = k + 1;
            assert(connection_edges(parent, new_part, connections@.subrange(0, k as int))
                =~= connection_edges(parent, new_part, connections@.subrange(0, k - 1))
                    .push((parent, new_part, connections@[k - 1])));
            assert(self.edges() =~= old_edges + connection_edges(parent, new_part, connections@.subrange(0, k as int)));
        }
        assert(connections@.subrange(0, connections@.len() as int) =~= connections@);
        assert forall|j: int| 0 <= j < self.edges().len() implies
            (#[trigger] self.edges()[j]).0 < self.edges()[j].1 < self.nodes().len() by {
            if j >= old_edges.len() {
                assert(self.edges()[j] == (parent, new_part, connections@[j - old_edges.len()]));
            } else {
                assert(self.edges()[j] == old_edges[j]);
            }
        }
        new_part
    }

    /// `body_part` under its name followed by `suffix`.
    fn renamed(body_part: &BodyPart, suffix: &str) -> (r: BodyPart)
        ensures
            renamed_copy(*body_part, r, suffix@),
    {
        let mut copy = body_part.duplicate();
        copy.name.append(suffix);
        copy
    }

    /// Adds a left and a right copy of `body_part`, named with `_l` and `_r`
    /// after its name, both below `parent` with the same connections.
    pub fn add_body_part_sym(
        &mut self,
        body_part: BodyPart,
        parent: usize,
        connections: Vec<BodyPartConnection>,
    ) -> (r: (usize, usize))
        requires
            old(self).wf(),
            parent < old(self).nodes().len(),
            old(self).nodes().len() + 2 <= u32::MAX,
            old(self).edges().len() + 2 * connections@.len() <= u32::MAX,
        ensures
            final(self).wf(),
            r.0 == old(self).nodes().len(),
            r.1 == old(self).nodes().len() + 1,
            final(self).nodes().len() == old(self).nodes().len() + 2,
            final(self).nodes().subrange(0, r.0 as int) == old(self).nodes(),
            final(self).nodes()[r.0 as int] matches Some(p) && renamed_copy(body_part, p, "_l"@),
            final(self).nodes()[r.1 as int] matches Some(p) && renamed_copy(body_part, p, "_r"@),
            final(self).edges() == old(self).edges() + connection_edges(parent, r.0, connections@)
                + connection_edges(parent, r.1, connections@),
            final(self).root == old(self).root,
            final(self).name@ == old(self).name@,
    {
        self.add_body_part_sym_both(body_part, (parent, parent), connections)
    }

    /// Adds a left copy of `body_part` below the first parent and a right copy
    /// below the second, named with `_l` and `_r` after its name, with the same
    /// connections: this carries on two chains, left and right, side by side.
    pub fn add_body_part_sym_both(
        &mut self,
        body_part: BodyPart,
        parents: (usize, usize),
        connections: Vec<BodyPartConnection>,
    ) -> (r: (usize, usize))
        requires
            old(self).wf(),
            parents.0 < old(self).nodes().len(),
            parents.1 < old(self).nodes().len(),
            old(self).nodes().len() + 2 <= u32::MAX,
            old(self).edges().len() + 2 * connections@.len() <= u32::MAX,
        ensures
            final(self).wf(),
            r.0 == old(self).nodes().len(),
            r.1 == old(self).nodes().len() + 1,
            final(self).nodes().len() == old(self).nodes().len() + 2,
            final(self).nodes().subrange(0, r.0 as int) == old(self).nodes(),
            final(self).nodes()[r.0 as int] matches Some(p) && renamed_copy(body_part, p, "_l"@),
            final(self).nodes()[r.1 as int] matches Some(p) && renamed_copy(body_part, p, "_r"@),
            final(self).edges() == old(self).edges() + connection_edges(parents.0, r.0, connections@)
                + connection_edges(parents.1, r.1, connections@),
            final(self).root == old(self).root,
            final(self).name@ == old(self).name@,
    {
        let (parent_left, parent_right) = parents;
        proof {
            reveal_strlit("_l");
            reveal_strlit("_r");
        }
        let left = Mob::renamed(&body_part, "_l");
        let right = Mob::renamed(&body_part, "_r");
        let ghost right_part = right;
        let ghost mid_nodes = self.nodes();
        let new_left = self.add_body_part(left, parent_left, connections.clone());
        let ghost after_left = self.nodes();
        let new_right = self.add_body_part(right, parent_right, connections);
        assert(self.nodes().subrange(0, new_left as int) =~= old(self).nodes());
        assert(self.nodes()[new_left as int] == after_left[new_left as int]);
        (new_left, new_right)
    }
}


/// One step of a walk over the anatomy: the part at `node`, how deep it lies
/// below the start, and the connection that led to it (`None` for the start).
#[derive(Clone, Copy, Debug, PartialEq, Eq, Structural)]
pub struct PartVisit {
    pub depth: usize,
    pub connection: Option<BodyPartConnection>,
    pub node: usize,
}

/// Whether a walk for display follows edges of connection `c`: structure and
/// containment, never blood supply.
pub open spec fn displayed(c: BodyPartConnection) -> bool {
    c == BodyPartConnection::Structure || c == BodyPartConnection::Container
}

/// Whether edge `e` leads a walk on from `node` in a graph of `n` nodes.
pub open spec fn followed(e: EdgeRecord, node: int, n: int) -> bool {
    e.0 == node && displayed(e.2) && node < e.1 < n
}

/// The depth-first walk for display from `node`, reached at `depth` through
/// `via`: the node itself, then the walks from each followed edge out of it,
/// in the order in which the edges were added.
pub open spec fn walk(
    edges: Seq<EdgeRecord>,
    n: int,
    node: int,
    depth: int,
    via: Option<BodyPartConnection>,
) -> Seq<PartVisit>
    decreases n - node, edges.len() + 1,
{
    seq![PartVisit { depth: depth as usize, connection: via, node: node as usize }]
        + walk_children(edges, n, node, depth, edges.len() as int)
}

/// The walks from the followed edges among the first `k` edges out of `node`.
pub open spec fn walk_children(
    edges: Seq<EdgeRecord>,
    n: int,
    node: int,
    depth: int,
    k: int,
) -> Seq<PartVisit>
    decreases n - node, k,
{
    if k <= 0 || k > edges.len() {
        Seq::empty()
    } else {
        let e = edges[k - 1];
        let before = walk_children(edges, n, node, depth, k - 1);
        if followed(e, node, n) {
            before + walk(edges, n, e.1 as int, depth + 1, Some(e.2))
        } else {
            before
        }
    }
}

impl Mob {
    /// Appends to `out` the walk from `node`.
    fn walk_into(
        &self,
        edges: &Vec<EdgeRecord>,
        node: usize,
        depth: usize,
        via: Option<BodyPartConnection>,
        out: &mut Vec<PartVisit>,
    )
        requires
            self.wf(),
            edges@ == self.edges(),
            node < self.nodes().len(),
            depth <= node,
        ensures
            final(out)@ == old(out)@ + walk(edges@, self.nodes().len() as int, node as int, depth as int, via),
        decreases self.nodes().len() - node, edges@.len() + 1,
    {
        let ghost n = self.nodes().len() as int;
        let ghost start = old(out)@;
        out.push(PartVisit { depth, connection: via, node });
        let mut k: usize = 0;
        while k < edges.len()
            invariant
                self.wf(),
                edges@ == self.edges(),
                n == self.nodes().len(),
                node < n,
                depth <= node,
                k <= edges@.len(),
                out@ == start + seq![PartVisit { depth, connection: via, node }]
                    + walk_children(edges@, n, node as int, depth as int, k as int),
            decreases edges@.len() - k,
        {
            let (source, target, connection) = edges[k];
            assert(edges@[k as int] == self.edges()[k as int]);
            let ghost before = out@;
            if source == node
                && (connection == BodyPartConnection::Structure || connection == BodyPartConnection::Container)
            {
                self.walk_into(edges, target, depth + 1, Some(connection), out);
            }
            k = k + 1;
            assert(out@ =~= start + seq![PartVisit { depth, connection: via, node }]
                + walk_children(edges@, n, node as int, depth as int, k as int));
        }
    }

    /// The walk for display from the root: each part reached by structure or
    /// containment edges, depth first, children in the order in which their
    /// edges were added. Blood supply edges are not followed.
    pub fn traverse(&self) -> (r: Vec<PartVisit>)
        requires
            self.wf(),
        ensures
            r@ == walk(self.edges(), self.nodes().len() as int, self.root as int, 0, None),
    {
        let edges = graph_edge_list(&self.body_part_graph);
        let mut out: Vec<PartVisit> = Vec::new();
        self.walk_into(&edges, self.root, 0, None, &mut out);
        assert(out@ =~= walk(self.edges(), self.nodes().len() as int, self.root as int, 0, None));
        out
    }

    /// The part at node `i`, if that node holds one.
    pub fn part(&self, i: usize) -> (r: Option<&BodyPart>)
        requires
            self.wf(),
            i < self.nodes().len(),
        ensures
            r == match self.nodes()[i as int] {
                Some(p) => Some(&p),
                None => None,
            },
    {
        match graph_node_weight(&self.body_part_graph, i) {
            Some(p) => Some(p),
            None => None,
        }
    }
}


/// Whether `s` visits `node` at `depth` through a `c` edge.
pub open spec fn has_visit(s: Seq<PartVisit>, depth: int, c: BodyPartConnection, node: int) -> bool {
    exists|j: int|
        0 <= j < s.len() && #[trigger] s[j].depth == depth && s[j].connection == Some(c) && s[j].node == node
}

proof fn lemma_has_visit_concat(a: Seq<PartVisit>, b: Seq<PartVisit>, depth: int, c: BodyPartConnection, node: int)
    requires
        has_visit(a, depth, c, node) || has_visit(b, depth, c, node),
    ensures
        has_visit(a + b, depth, c, node),
{
    if has_visit(a, depth, c, node) {
        let j = choose|j: int|
            0 <= j < a.len() && #[trigger] a[j].depth == depth && a[j].connection == Some(c) && a[j].node == node;
        assert((a + b)[j] == a[j]);
    } else {
        let j = choose|j: int|
            0 <= j < b.len() && #[trigger] b[j].depth == depth && b[j].connection == Some(c) && b[j].node == node;
        assert((a + b)[a.len() + j] == b[j]);
    }
}

/// Whether `v` arrived through a displayed edge.
pub open spec fn arrives_displayed(v: PartVisit) -> bool {
    v.connection matches Some(c) && displayed(c)
}

/// Every step of a walk but the first arrives through a displayed edge.
proof fn lemma_walk_connections(edges: Seq<EdgeRecord>, n: int, node: int, depth: int, via: Option<BodyPartConnection>)
    ensures
        walk(edges, n, node, depth, via)[0].connection == via,
        forall|i: int| 1 <= i < walk(edges, n, node, depth, via).len() ==>
            arrives_displayed(#[trigger] walk(edges, n, node, depth, via)[i]),
    decreases n - node, edges.len() + 1,
{
    lemma_children_connections(edges, n, node, depth, edges.len() as int);
    let w = walk(edges, n, node, depth, via);
    let ch = walk_children(edges, n, node, depth, edges.len() as int);
    assert forall|i: int| 1 <= i < w.len() implies
        arrives_displayed(#[trigger] w[i]) by {
        assert(w[i] == ch[i - 1]);
    }
}

proof fn lemma_children_connections(edges: Seq<EdgeRecord>, n: int, node: int, depth: int, k: int)
    ensures
        forall|i: int| 0 <= i < walk_children(edges, n, node, depth, k).len() ==>
            arrives_displayed(#[trigger] walk_children(edges, n, node, depth, k)[i]),
    decreases n - node, k,
{
    if k > 0 && k <= edges.len() {
        let e = edges[k - 1];
        lemma_children_connections(edges, n, node, depth, k - 1);
        if followed(e, node, n) {
            lemma_walk_connections(edges, n, e.1 as int, depth + 1, Some(e.2));
            let a = walk_children(edges, n, node, depth, k - 1);
            let b = walk(edges, n, e.1 as int, depth + 1, Some(e.2));
            assert forall|i: int| 0 <= i < (a + b).len() implies
                arrives_displayed(#[trigger] (a + b)[i]) by {
                if i >= a.len() {
                    assert((a + b)[i] == b[i - a.len()]);
                } else {
                    assert((a + b)[i] == a[i]);
                }
            }
        }
    }
}

/// The children's walks from the first `k` edges take each followed edge among
/// them, right at its start.
proof fn lemma_children_take_edge(edges: Seq<EdgeRecord>, n: int, node: int, depth: int, k: int, x: int)
    requires
        0 <= x < k <= edges.len(),
        followed(edges[x], node, n),
        0 <= depth <= node < n <= u32::MAX,
    ensures
        has_visit(walk_children(edges, n, node, depth, k), depth + 1, edges[x].2, edges[x].1 as int),
    decreases k,
{
    let e = edges[k - 1];
    let a = walk_children(edges, n, node, depth, k - 1);
    if x == k - 1 {
        let b = walk(edges, n, e.1 as int, depth + 1, Some(e.2));
        assert(b[0].depth == depth + 1);
        assert(has_visit(b, depth + 1, e.2, e.1 as int));
        lemma_has_visit_concat(a, b, depth + 1, e.2, e.1 as int);
    } else {
        lemma_children_take_edge(edges, n, node, depth, k - 1, x);
        if followed(e, node, n) {
            let b = walk(edges, n, e.1 as int, depth + 1, Some(e.2));
            lemma_has_visit_concat(a, b, depth + 1, edges[x].2, edges[x].1 as int);
        }
    }
}

/// A walk from `node` goes on along every followed edge out of every node it
/// visits.
proof fn lemma_walk_closed(edges: Seq<EdgeRecord>, n: int, node: int, depth: int, via: Option<BodyPartConnection>)
    requires
        0 <= depth <= node < n <= u32::MAX,
    ensures
        forall|i: int, x: int|
            0 <= i < walk(edges, n, node, depth, via).len() && 0 <= x < edges.len()
                && followed(#[trigger] edges[x], #[trigger] walk(edges, n, node, depth, via)[i].node as int, n) ==>
                has_visit(
                    walk(edges, n, node, depth, via),
                    walk(edges, n, node, depth, via)[i].depth + 1,
                    edges[x].2,
                    edges[x].1 as int,
                ),
    decreases n - node, edges.len() + 1,
{
    let w = walk(edges, n, node, depth, via);
    let head = seq![PartVisit { depth: depth as usize, connection: via, node: node as usize }];
    let ch = walk_children(edges, n, node, depth, edges.len() as int);
    lemma_children_closed(edges, n, node, depth, edges.len() as int);
    assert forall|i: int, x: int|
        0 <= i < w.len() && 0 <= x < edges.len() && followed(#[trigger] edges[x], #[trigger] w[i].node as int, n) implies
            has_visit(w, w[i].depth + 1, edges[x].2, edges[x].1 as int) by {
        if i == 0 {
            lemma_children_take_edge(edges, n, node, depth, edges.len() as int, x);
            lemma_has_visit_concat(head, ch, depth + 1, edges[x].2, edges[x].1 as int);
        } else {
            assert(w[i] == ch[i - 1]);
            lemma_has_visit_concat(head, ch, w[i].depth + 1, edges[x].2, edges[x].1 as int);
        }
    }
}

proof fn lemma_children_closed(edges: Seq<EdgeRecord>, n: int, node: int, depth: int, k: int)
    requires
        0 <= depth <= node < n <= u32::MAX,
    ensures
        forall|i: int, x: int|
            0 <= i < walk_children(edges, n, node, depth, k).len() && 0 <= x < edges.len()
                && followed(#[trigger] edges[x], #[trigger] walk_children(edges, n, node, depth, k)[i].node as int, n) ==>
                has_visit(
                    walk_children(edges, n, node, depth, k),
                    walk_children(edges, n, node, depth, k)[i].depth + 1,
                    edges[x].2,
                    edges[x].1 as int,
                ),
    decreases n - node, k,
{
    if k > 0 && k <= edges.len() {
        let e = edges[k - 1];
        let a = walk_children(edges, n, node, depth, k - 1);
        lemma_children_closed(edges, n, node, depth, k - 1);
        if followed(e, node, n) {
            let b = walk(edges, n, e.1 as int, depth + 1, Some(e.2));
            lemma_walk_closed(edges, n, e.1 as int, depth + 1, Some(e.2));
            let w = a + b;
            assert forall|i: int, x: int|
                0 <= i < w.len() && 0 <= x < edges.len() && followed(#[trigger] edges[x], #[trigger] w[i].node as int, n) implies
                    has_visit(w, w[i].depth + 1, edges[x].2, edges[x].1 as int) by {
                if i < a.len() {
                    assert(w[i] == a[i]);
                    lemma_has_visit_concat(a, b, w[i].depth + 1, edges[x].2, edges[x].1 as int);
                } else {
                    assert(w[i] == b[i - a.len()]);
                    lemma_has_visit_concat(a, b, w[i].depth + 1, edges[x].2, edges[x].1 as int);
                }
            }
        }
    }
}

/// A walk for display from the root of a well-formed mob never goes along a
/// blood supply edge, and from every part it reaches it goes on along each
/// structure or containment edge out of that part, one level deeper.
pub proof fn lemma_traverse_displayed_edges(m: Mob)
    requires
        m.wf(),
    ensures
        forall|i: int| 0 <= i < walk(m.edges(), m.nodes().len() as int, m.root as int, 0, None).len() ==>
            (#[trigger] walk(m.edges(), m.nodes().len() as int, m.root as int, 0, None)[i].connection)
                != Some(BodyPartConnection::BloodSupply),
        forall|i: int, x: int|
            0 <= i < walk(m.edges(), m.nodes().len() as int, m.root as int, 0, None).len()
                && 0 <= x < m.edges().len()
                && (#[trigger] m.edges()[x]).0 == (#[trigger] walk(m.edges(), m.nodes().len() as int, m.root as int, 0, None)[i]).node
                && displayed(m.edges()[x].2) ==>
                has_visit(
                    walk(m.edges(), m.nodes().len() as int, m.root as int, 0, None),
                    walk(m.edges(), m.nodes().len() as int, m.root as int, 0, None)[i].depth + 1,
                    m.edges()[x].2,
                    m.edges()[x].1 as int,
                ),
{
    let edges = m.edges();
    let n = m.nodes().len() as int;
    let w = walk(edges, n, m.root as int, 0, None);
    lemma_walk_connections(edges, n, m.root as int, 0, None);
    lemma_walk_closed(edges, n, m.root as int, 0, None);
    assert forall|i: int| 0 <= i < w.len() implies (#[trigger] w[i].connection) != Some(BodyPartConnection::BloodSupply) by {
        if i > 0 {
            assert(arrives_displayed(w[i]));
        }
    }
    assert forall|i: int, x: int|
        0 <= i < w.len() && 0 <= x < edges.len() && (#[trigger] edges[x]).0 == (#[trigger] w[i]).node && displayed(edges[x].2) implies
            has_visit(w, w[i].depth + 1, edges[x].2, edges[x].1 as int) by {
        assert(followed(edges[x], w[i].node as int, n));
    }
}

} // verus!
