//! A directed graph over names, and the order in which its nodes can be
//! taken so that each comes after everything it points to.

use crate::text::{str_eq, str_views, string_views};
use vstd::prelude::*;

verus! {

/// A graph as plain values: the names of the nodes in the order in which
/// they were first met, and for each node the places of the nodes that it
/// points to.
pub struct GraphView {
    pub nodes: Seq<Seq<char>>,
    pub edges: Seq<Seq<int>>,
}

/// Whether `node` stands in `placed` before the place `a`.
pub open spec fn stands_before(placed: Seq<int>, a: int, node: int) -> bool {
    exists|b: int| 0 <= b < a && #[trigger] placed[b] == node
}

impl GraphView {
    /// No name stands twice, every node has its list of edges, and every
    /// edge leads to a node.
    pub open spec fn wf(self) -> bool {
        &&& self.nodes.no_duplicates()
        &&& self.edges.len() == self.nodes.len()
        &&& forall|i: int, k: int|
            0 <= i < self.edges.len() && 0 <= k < self.edges[i].len() ==> 0 <= #[trigger] self.edges[i][k]
                < self.nodes.len()
    }

    /// The place of the node called `name`, where there is one.
    pub open spec fn place_of(self, name: Seq<char>) -> int {
        self.nodes.index_of(name)
    }

    /// The places of the nodes called `names`.
    pub open spec fn places_of(self, names: Seq<Seq<char>>) -> Seq<int> {
        names.map_values(|name: Seq<char>| self.place_of(name))
    }

    /// The graph with a node called `name`: itself where it has one, else
    /// with one more node, which points nowhere.
    pub open spec fn with_node(self, name: Seq<char>) -> GraphView {
        if self.nodes.contains(name) {
            self
        } else {
            GraphView { nodes: self.nodes.push(name), edges: self.edges.push(Seq::empty()) }
        }
    }

    /// The graph with a node for each of `names`, met in their order.
    pub open spec fn with_nodes(self, names: Seq<Seq<char>>) -> GraphView
        decreases names.len(),
    {
        if names.len() == 0 {
            self
        } else {
            self.with_nodes(names.drop_last()).with_node(names.last())
        }
    }

    /// The graph in which `name` points to the nodes `out` and to nothing
    /// else. Nodes are made for `name` and for what it points to, in this
    /// order, as far as the graph lacks them.
    pub open spec fn with_edges(self, name: Seq<char>, out: Seq<Seq<char>>) -> GraphView {
        let g = self.with_node(name).with_nodes(out);
        GraphView { nodes: g.nodes, edges: g.edges.update(g.place_of(name), g.places_of(out)) }
    }

    /// The names of the nodes at `places`.
    pub open spec fn names_at(self, places: Seq<int>) -> Seq<Seq<char>> {
        places.map_values(|i: int| self.nodes[i])
    }

    /// Whether node `i` can be taken next: it is not placed, and everything
    /// it points to is.
    pub open spec fn ready(self, placed: Seq<int>, i: int) -> bool {
        &&& !placed.contains(i)
        &&& forall|k: int| 0 <= k < self.edges[i].len() ==> placed.contains(#[trigger] self.edges[i][k])
    }

    /// The first node from `from` on that can be taken next, or the number
    /// of nodes where there is none.
    pub open spec fn first_ready(self, placed: Seq<int>, from: int) -> int
        decreases self.nodes.len() - from,
    {
        if from >= self.nodes.len() {
            self.nodes.len() as int
        } else if self.ready(placed, from) {
            from
        } else {
            self.first_ready(placed, from + 1)
        }
    }

    /// The order that comes of taking, again and again, the first node that
    /// can be taken next, after the nodes `placed`. There is none where nodes
    /// are left and none of them can be taken.
    pub open spec fn order_after(self, placed: Seq<int>) -> Option<Seq<int>>
        decreases self.nodes.len() - placed.len(),
    {
        if placed.len() >= self.nodes.len() {
            Some(placed)
        } else {
            let next = self.first_ready(placed, 0);
            if next >= self.nodes.len() {
                None
            } else {
                self.order_after(placed.push(next))
            }
        }
    }

    /// The order of the graph: each node after everything it points to, and
    /// among nodes that could change places the one that was met first
    /// before the other.
    pub open spec fn order(self) -> Option<Seq<int>> {
        self.order_after(Seq::empty())
    }

    /// Whether `placed` takes nodes of the graph, none twice, each after
    /// everything it points to.
    pub open spec fn is_partial_order(self, placed: Seq<int>) -> bool {
        &&& placed.no_duplicates()
        &&& forall|a: int| 0 <= a < placed.len() ==> 0 <= #[trigger] placed[a] < self.nodes.len()
        &&& forall|a: int, e: int|
            0 <= a < placed.len() && 0 <= e < self.edges[placed[a]].len() ==> stands_before(
                placed,
                a,
                #[trigger] self.edges[placed[a]][e],
            )
    }

    /// Whether `order` takes every node of the graph once, each after
    /// everything it points to.
    pub open spec fn is_dependency_order(self, order: Seq<int>) -> bool {
        self.is_partial_order(order) && order.len() == self.nodes.len()
    }

    /// Whether the nodes of the graph can be put in an order in which each
    /// comes after everything it points to.
    pub open spec fn sortable(self) -> bool {
        exists|order: Seq<int>| self.is_dependency_order(order)
    }

    /// Whether some walk along edges of the graph ends where it began.
    pub open spec fn has_cycle(self) -> bool {
        exists|cycle: Seq<int>| self.is_cycle(cycle)
    }

    /// Whether `cycle` is a walk along edges of the graph that ends where
    /// it began.
    pub open spec fn is_cycle(self, cycle: Seq<int>) -> bool {
        &&& cycle.len() > 0
        &&& forall|k: int| 0 <= k < cycle.len() ==> 0 <= #[trigger] cycle[k] < self.nodes.len()
        &&& forall|k: int|
            0 <= k < cycle.len() ==> self.edges[#[trigger] cycle[k]].contains(
                cycle[(k + 1) % cycle.len() as int],
            )
    }
}

/// A directed graph over names. A node is made when its name is first met,
/// as a node of its own or as the end of an edge.
#[derive(Debug)]
pub struct Graph {
    nodes: Vec<String>,
    edges: Vec<Vec<usize>>,
}

/// The places that a list of edges holds.
pub open spec fn places(edges: Seq<usize>) -> Seq<int> {
    edges.map_values(|i: usize| i as int)
}

impl View for Graph {
    type V = GraphView;

    closed spec fn view(&self) -> GraphView {
        GraphView {
            nodes: string_views(self.nodes@),
            edges: self.edges@.map_values(|out: Vec<usize>| places(out@)),
        }
    }
}

/// In a list without repeats, a name stands at one place only.
pub proof fn place_is_unique(nodes: Seq<Seq<char>>, i: int)
    requires
        nodes.no_duplicates(),
        0 <= i < nodes.len(),
    ensures
        nodes.index_of(nodes[i]) == i,
{
    nodes.index_of_first_ensures(nodes[i]);
    assert(nodes.contains(nodes[i]));
}

/// A graph that gets a node stays well formed, and the nodes it had keep
/// their places and edges.
proof fn with_node_keeps(g: GraphView, name: Seq<char>)
    requires
        g.wf(),
    ensures
        g.with_node(name).wf(),
        g.with_node(name).nodes.contains(name),
        g.nodes.is_prefix_of(g.with_node(name).nodes),
        g.edges.is_prefix_of(g.with_node(name).edges),
{
    let h = g.with_node(name);
    if !g.nodes.contains(name) {
        assert(h.nodes[g.nodes.len() as int] == name);
        assert forall|i: int, j: int| 0 <= i < h.nodes.len() && 0 <= j < h.nodes.len() && i != j implies h.nodes[i]
            != h.nodes[j] by {
            if i < g.nodes.len() && j < g.nodes.len() {
            } else if i < g.nodes.len() {
                assert(g.nodes.contains(g.nodes[i]));
            } else {
                assert(g.nodes.contains(g.nodes[j]));
            }
        }
        assert forall|i: int, k: int| 0 <= i < h.edges.len() && 0 <= k < h.edges[i].len() implies 0
            <= #[trigger] h.edges[i][k] < h.nodes.len() by {
            if i < g.edges.len() {
                assert(h.edges[i] == g.edges[i]);
                assert(0 <= g.edges[i][k] < g.nodes.len());
            }
        }
    }
}

/// A graph that has a node for each of `names` gets none for them.
pub proof fn with_known_nodes(g: GraphView, names: Seq<Seq<char>>)
    requires
        forall|k: int| 0 <= k < names.len() ==> g.nodes.contains(#[trigger] names[k]),
    ensures
        g.with_nodes(names) == g,
    decreases names.len(),
{
    if names.len() > 0 {
        let fewer = names.drop_last();
        assert forall|k: int| 0 <= k < fewer.len() implies g.nodes.contains(#[trigger] fewer[k]) by {
            assert(fewer[k] == names[k]);
        }
        with_known_nodes(g, fewer);
        assert(g.nodes.contains(names[names.len() - 1]));
    }
}

impl Graph {
    /// The graph without nodes.
    pub fn new() -> (r: Graph)
        ensures
            r@ == (GraphView { nodes: Seq::empty(), edges: Seq::empty() }),
            r@.wf(),
    {
        let g = Graph { nodes: Vec::new(), edges: Vec::new() };
        assert(g@.nodes =~= Seq::empty());
        assert(g@.edges =~= Seq::empty());
        g
    }

    /// The number of nodes.
    pub fn len(&self) -> (r: usize)
        ensures
            r == self@.nodes.len(),
    {
        self.nodes.len()
    }

    /// The name of the node at `place`.
    pub fn name_at(&self, place: usize) -> (r: &str)
        requires
            place < self@.nodes.len(),
        ensures
            r@ == self@.nodes[place as int],
    {
        self.nodes[place].as_str()
    }

    /// The place of the node called `name`, which is made where the graph
    /// has none.
    pub fn node(&mut self, name: &str) -> (r: usize)
        requires
            old(self)@.wf(),
        ensures
            final(self)@ == old(self)@.with_node(name@),
            final(self)@.wf(),
            r < final(self)@.nodes.len(),
            final(self)@.nodes[r as int] == name@,
            r == final(self)@.place_of(name@),
    {
        proof {
            with_node_keeps(self@, name@);
        }
        let mut i: usize = 0;
        while i < self.nodes.len()
            invariant
                i <= self.nodes.len(),
                *self == *old(self),
                self@.wf(),
                self@.with_node(name@).wf(),
                forall|j: int| 0 <= j < i ==> self@.nodes[j] != name@,
            decreases self.nodes.len() - i,
        {
            if str_eq(self.nodes[i].as_str(), name) {
                proof {
                    assert(self@.nodes[i as int] == name@);
                    assert(self@.nodes.contains(name@));
                    place_is_unique(self@.nodes, i as int);
                }
                return i;
            }
            i += 1;
        }
        let ghost before = self@;
        assert(!before.nodes.contains(name@));
        self.nodes.push(String::from_str(name));
        self.edges.push(Vec::new());
        proof {
            assert(self@.nodes =~= before.nodes.push(name@));
            assert(places(Seq::<usize>::empty()) =~= Seq::empty());
            assert(self@.edges =~= before.edges.push(Seq::empty()));
            assert(self@.nodes[i as int] == name@);
            place_is_unique(self@.nodes, i as int);
        }
        i
    }

    /// Makes `node` point to the nodes `out`, and to nothing else. Nodes
    /// are made for `node` and then for each name of `out`, as far as the
    /// graph lacks them.
    pub fn add(&mut self, node: &str, out: &[&str])
        requires
            old(self)@.wf(),
        ensures
            final(self)@ == old(self)@.with_edges(node@, str_views(out@)),
            final(self)@.wf(),
    {
        let ghost names = str_views(out@);
        let at = self.node(node);
        let ghost start = self@;
        let mut targets: Vec<usize> = Vec::new();
        let mut k: usize = 0;
        assert(names.take(0) =~= Seq::empty());
        while k < out.len()
            invariant
                k <= out.len(),
                names == str_views(out@),
                self@ == start.with_nodes(names.take(k as int)),
                self@.wf(),
                at < self@.nodes.len(),
                self@.nodes[at as int] == node@,
                targets.len() == k,
                forall|j: int|
                    0 <= j < k ==> (#[trigger] targets@[j]) < self@.nodes.len()
                        && self@.nodes[targets@[j] as int] == names[j],
            decreases out.len() - k,
        {
            let ghost before = self@;
            proof {
                with_node_keeps(before, names[k as int]);
                assert(names.take(k + 1).drop_last() =~= names.take(k as int));
                assert(names.take(k + 1).last() == names[k as int]);
            }
            let to = self.node(out[k]);
            targets.push(to);
            k += 1;
        }
        let ghost grown = self@;
        proof {
            assert(names.take(out.len() as int) =~= names);
            place_is_unique(grown.nodes, at as int);
            assert forall|j: int| 0 <= j < names.len() implies grown.places_of(names)[j]
                == places(targets@)[j] by {
                place_is_unique(grown.nodes, targets@[j] as int);
            }
            assert(grown.places_of(names) =~= places(targets@));
        }
        self.edges.set(at, targets);
        proof {
            assert(self@.nodes == grown.nodes);
            assert(self@.edges =~= grown.edges.update(at as int, places(targets@)));
            assert forall|i: int, e: int| 0 <= i < self@.edges.len() && 0 <= e < self@.edges[i].len() implies 0
                <= #[trigger] self@.edges[i][e] < self@.nodes.len() by {
                if i == at {
                    assert(self@.edges[i][e] == targets@[e]);
                } else {
                    assert(self@.edges[i] == grown.edges[i]);
                    assert(0 <= grown.edges[i][e] < grown.nodes.len());
                }
            }
        }
    }

    /// Whether node `i` can be taken next.
    fn is_ready(&self, done: &Vec<bool>, i: usize, Ghost(placed): Ghost<Seq<int>>) -> (r: bool)
        requires
            self@.wf(),
            i < self@.nodes.len(),
            done.len() == self@.nodes.len(),
            forall|j: int| 0 <= j < done.len() ==> done@[j] == placed.contains(j),
        ensures
            r == self@.ready(placed, i as int),
    {
        if done[i] {
            return false;
        }
        let out = &self.edges[i];
        assert(places(out@) == self@.edges[i as int]);
        let mut k: usize = 0;
        while k < out.len()
            invariant
                k <= out.len(),
                i < self@.nodes.len(),
                self@.wf(),
                places(out@) == self@.edges[i as int],
                done.len() == self@.nodes.len(),
                forall|j: int| 0 <= j < done.len() ==> done@[j] == placed.contains(j),
                forall|e: int| 0 <= e < k ==> placed.contains(#[trigger] self@.edges[i as int][e]),
            decreases out.len() - k,
        {
            assert(places(out@)[k as int] == out@[k as int]);
            assert(0 <= self@.edges[i as int][k as int] < self@.nodes.len());
            if !done[out[k]] {
                assert(!placed.contains(self@.edges[i as int][k as int]));
                return false;
            }
            k += 1;
        }
        true
    }

    /// The places of the nodes in the order of the graph: each node after
    /// everything it points to, and among nodes that could change places the
    /// one that was met first before the other. There is such an order
    /// exactly where no walk along the edges comes back to where it began.
    pub fn sort_places(&self) -> (r: Option<Vec<usize>>)
        requires
            self@.wf(),
        ensures
            match r {
                Some(order) => self@.order() == Some(places(order@)) && self@.is_dependency_order(
                    places(order@),
                ),
                None => self@.order() is None,
            },
            r is Some <==> self@.sortable(),
            r is None <==> self@.has_cycle(),
    {
        let n = self.nodes.len();
        let ghost g = self@;
        let mut order: Vec<usize> = Vec::new();
        let mut done: Vec<bool> = vec![false; n];
        proof {
            order_exists_iff_sortable(g);
            order_exists_iff_no_cycle(g);
            assert(places(order@) =~= Seq::empty());
        }
        while order.len() < n
            invariant
                g == self@,
                g.wf(),
                n == g.nodes.len(),
                done.len() == n,
                order.len() <= n,
                forall|j: int| 0 <= j < n ==> done@[j] == places(order@).contains(j),
                g.order_after(places(order@)) == g.order(),
                g.order() is Some <==> g.sortable(),
                g.order() is Some <==> !g.has_cycle(),
                g.order() matches Some(o) ==> g.is_dependency_order(o),
            decreases n - order.len(),
        {
            let ghost placed = places(order@);
            let mut i: usize = 0;
            while i < n && !self.is_ready(&done, i, Ghost(placed))
                invariant
                    g == self@,
                    g.wf(),
                    n == g.nodes.len(),
                    done.len() == n,
                    i <= n,
                    forall|j: int| 0 <= j < n ==> done@[j] == placed.contains(j),
                    forall|j: int| 0 <= j < i ==> !g.ready(placed, j),
                decreases n - i,
            {
                i += 1;
            }
            proof {
                first_ready_skips(g, placed, 0, i as int);
            }
            if i == n {
                return None;
            }
            order.push(i);
            done.set(i, true);
            proof {
                assert(places(order@) =~= placed.push(i as int));
                assert forall|j: int| 0 <= j < n implies done@[j] == places(order@).contains(j) by {
                    if j == i {
                        assert(places(order@)[placed.len() as int] == j);
                    } else if placed.contains(j) {
                        let b = choose|b: int| 0 <= b < placed.len() && placed[b] == j;
                        assert(places(order@)[b] == j);
                    } else if places(order@).contains(j) {
                        let b = choose|b: int| 0 <= b < places(order@).len() && places(order@)[b] == j;
                        assert(placed[b] == j);
                    }
                }
            }
        }
        Some(order)
    }

    /// The names of the nodes in the order of the graph, or `None` where a
    /// walk along the edges comes back to where it began.
    pub fn sort(&self) -> (r: Option<Vec<String>>)
        requires
            self@.wf(),
        ensures
            match r {
                Some(names) => self@.order() matches Some(order) && string_views(names@)
                    == self@.names_at(order) && self@.is_dependency_order(order),
                None => self@.order() is None,
            },
            r is Some <==> self@.sortable(),
            r is None <==> self@.has_cycle(),
    {
        match self.sort_places() {
            None => None,
            Some(order) => {
                let mut names: Vec<String> = Vec::new();
                let mut k: usize = 0;
                while k < order.len()
                    invariant
                        k <= order.len(),
                        self@.is_dependency_order(places(order@)),
                        names.len() == k,
                        forall|j: int|
                            0 <= j < k ==> (#[trigger] names@[j])@ == self@.nodes[order@[j] as int],
                    decreases order.len() - k,
                {
                    assert(0 <= places(order@)[k as int] < self@.nodes.len());
                    names.push(self.nodes[order[k]].clone());
                    k += 1;
                }
                assert(string_views(names@) =~= self@.names_at(places(order@)));
                Some(names)
            },
        }
    }
}

/// Where the search for a node that can be taken has passed over the nodes
/// from `from` up to `i`, the first such node from `from` on is the first from
/// `i` on.
pub proof fn first_ready_skips(g: GraphView, placed: Seq<int>, from: int, i: int)
    requires
        0 <= from <= i <= g.nodes.len(),
        forall|j: int| from <= j < i ==> !g.ready(placed, j),
    ensures
        g.first_ready(placed, from) == g.first_ready(placed, i),
    decreases i - from,
{
    if from < i {
        first_ready_skips(g, placed, from + 1, i);
    }
}

/// The first node that can be taken is one that can be taken, and none
/// before it can; where the answer is the number of nodes, none can.
pub proof fn first_ready_is_first(g: GraphView, placed: Seq<int>, from: int)
    requires
        0 <= from <= g.nodes.len(),
    ensures
        from <= g.first_ready(placed, from) <= g.nodes.len(),
        g.first_ready(placed, from) < g.nodes.len() ==> g.ready(
            placed,
            g.first_ready(placed, from),
        ),
        forall|j: int| from <= j < g.first_ready(placed, from) ==> !g.ready(placed, j),
    decreases g.nodes.len() - from,
{
    if from < g.nodes.len() && !g.ready(placed, from) {
        first_ready_is_first(g, placed, from + 1);
    }
}

/// Taking a node that can be taken next keeps the order sound.
pub proof fn taking_keeps_order(g: GraphView, placed: Seq<int>, next: int)
    requires
        g.is_partial_order(placed),
        0 <= next < g.nodes.len(),
        g.ready(placed, next),
    ensures
        g.is_partial_order(placed.push(next)),
{
    let more = placed.push(next);
    assert forall|a: int| 0 <= a < more.len() implies 0 <= #[trigger] more[a] < g.nodes.len() by {
        if a < placed.len() {
            assert(more[a] == placed[a]);
        }
    }
    assert forall|a: int, e: int|
        0 <= a < more.len() && 0 <= e < g.edges[more[a]].len() implies stands_before(
        more,
        a,
        #[trigger] g.edges[more[a]][e],
    ) by {
        if a < placed.len() {
            assert(more[a] == placed[a]);
            assert(stands_before(placed, a, g.edges[placed[a]][e]));
            let b = choose|b: int| 0 <= b < a && #[trigger] placed[b] == g.edges[placed[a]][e];
            assert(more[b] == placed[b]);
        } else {
            let target = g.edges[next][e];
            assert(placed.contains(target));
            let b = choose|b: int| 0 <= b < placed.len() && placed[b] == target;
            assert(more[b] == target);
        }
    }
    assert forall|a: int, b: int| 0 <= a < more.len() && 0 <= b < more.len() && a != b implies more[a]
        != more[b] by {
        if a < placed.len() && b < placed.len() {
        } else if a < placed.len() {
            assert(placed.contains(placed[a]));
        } else {
            assert(placed.contains(placed[b]));
        }
    }
}

/// The order of a graph, where it has one, takes every node once and each
/// after everything it points to.
pub proof fn order_after_is_sound(g: GraphView, placed: Seq<int>)
    requires
        g.is_partial_order(placed),
        placed.len() <= g.nodes.len(),
    ensures
        g.order_after(placed) matches Some(order) ==> g.is_dependency_order(order),
    decreases g.nodes.len() - placed.len(),
{
    if placed.len() < g.nodes.len() {
        let next = g.first_ready(placed, 0);
        first_ready_is_first(g, placed, 0);
        if next < g.nodes.len() {
            taking_keeps_order(g, placed, next);
            order_after_is_sound(g, placed.push(next));
        }
    }
}

/// An order that goes on after `placed` begins with `placed` and takes
/// every node.
pub proof fn order_goes_on(g: GraphView, placed: Seq<int>)
    requires
        placed.len() <= g.nodes.len(),
        g.order_after(placed) is Some,
    ensures
        placed.is_prefix_of(g.order_after(placed).unwrap()),
        g.order_after(placed).unwrap().len() == g.nodes.len(),
    decreases g.nodes.len() - placed.len(),
{
    if placed.len() < g.nodes.len() {
        let next = g.first_ready(placed, 0);
        order_goes_on(g, placed.push(next));
        let order = g.order_after(placed).unwrap();
        assert forall|i: int| 0 <= i < placed.len() implies placed[i] == order[i] by {
            assert(placed.push(next)[i] == order[i]);
        }
    }
}

/// At each place of the order of a graph stands the first node that can be
/// taken after the nodes before it: of the nodes that could stand there, the
/// one that was met first.
pub proof fn order_takes_the_first_ready(g: GraphView, placed: Seq<int>, k: int)
    requires
        placed.len() <= k < g.nodes.len(),
        g.order_after(placed) is Some,
    ensures
        g.order_after(placed).unwrap().len() == g.nodes.len(),
        g.order_after(placed).unwrap()[k] == g.first_ready(
            g.order_after(placed).unwrap().take(k),
            0,
        ),
    decreases g.nodes.len() - placed.len(),
{
    let order = g.order_after(placed).unwrap();
    let next = g.first_ready(placed, 0);
    let more = placed.push(next);
    order_goes_on(g, placed);
    order_goes_on(g, more);
    if k == placed.len() {
        assert(order.take(k) =~= placed) by {
            assert forall|i: int| 0 <= i < k implies order.take(k)[i] == placed[i] by {
                assert(more[i] == order[i]);
            }
        }
        assert(more[k] == order[k]);
    } else {
        order_takes_the_first_ready(g, more, k);
    }
}

/// Below a node of a dependency order that is not placed yet there is one
/// that can be taken next.
proof fn some_node_is_ready(g: GraphView, order: Seq<int>, placed: Seq<int>, p: int)
    requires
        g.is_dependency_order(order),
        0 <= p < order.len(),
        !placed.contains(order[p]),
    ensures
        exists|i: int| 0 <= i < g.nodes.len() && g.ready(placed, i),
    decreases p,
{
    let node = order[p];
    if !g.ready(placed, node) {
        let e = choose|e: int|
            0 <= e < g.edges[node].len() && !placed.contains(#[trigger] g.edges[node][e]);
        assert(stands_before(order, p, g.edges[order[p]][e]));
        let b = choose|b: int| 0 <= b < p && #[trigger] order[b] == g.edges[order[p]][e];
        some_node_is_ready(g, order, placed, b);
    }
}

/// A sound order that does not hold every node leaves out a node of any
/// dependency order.
proof fn some_node_is_left(g: GraphView, order: Seq<int>, placed: Seq<int>) -> (p: int)
    requires
        g.is_dependency_order(order),
        g.is_partial_order(placed),
        placed.len() < g.nodes.len(),
    ensures
        0 <= p < order.len(),
        !placed.contains(order[p]),
{
    if forall|q: int| 0 <= q < order.len() ==> placed.contains(#[trigger] order[q]) {
        order.unique_seq_to_set();
        placed.unique_seq_to_set();
        assert(order.to_set().subset_of(placed.to_set())) by {
            assert forall|x: int| order.to_set().contains(x) implies placed.to_set().contains(x) by {
                let q = choose|q: int| 0 <= q < order.len() && order[q] == x;
                assert(placed.contains(order[q]));
            }
        }
        vstd::seq_lib::seq_to_set_is_finite(placed);
        vstd::set_lib::lemma_len_subset(order.to_set(), placed.to_set());
        assert(false);
    }
    choose|p: int| 0 <= p < order.len() && !placed.contains(#[trigger] order[p])
}

/// A graph whose nodes can be put in a dependency order has an order.
pub proof fn order_after_is_complete(g: GraphView, order: Seq<int>, placed: Seq<int>)
    requires
        g.is_dependency_order(order),
        g.is_partial_order(placed),
        placed.len() <= g.nodes.len(),
    ensures
        g.order_after(placed) is Some,
    decreases g.nodes.len() - placed.len(),
{
    if placed.len() < g.nodes.len() {
        let p = some_node_is_left(g, order, placed);
        some_node_is_ready(g, order, placed, p);
        let i = choose|i: int| 0 <= i < g.nodes.len() && g.ready(placed, i);
        first_ready_is_first(g, placed, 0);
        let next = g.first_ready(placed, 0);
        assert(next <= i);
        taking_keeps_order(g, placed, next);
        order_after_is_complete(g, order, placed.push(next));
    }
}

/// A graph has an order exactly where its nodes can be put in a dependency
/// order, and its order is then one.
pub proof fn order_exists_iff_sortable(g: GraphView)
    ensures
        g.order() is Some <==> g.sortable(),
        g.order() matches Some(order) ==> g.is_dependency_order(order),
{
    let none = Seq::<int>::empty();
    assert(g.is_partial_order(none));
    order_after_is_sound(g, none);
    if g.sortable() {
        let order = choose|order: Seq<int>| g.is_dependency_order(order);
        order_after_is_complete(g, order, none);
    }
}

/// The place that a node has in an order that holds it.
spec fn rank(order: Seq<int>, node: int) -> int {
    order.index_of(node)
}

/// Along a walk, the places in a dependency order go down.
proof fn walk_goes_down(g: GraphView, order: Seq<int>, cycle: Seq<int>, k: int)
    requires
        g.is_dependency_order(order),
        g.is_cycle(cycle),
        0 <= k < cycle.len(),
        order.contains(cycle[0]),
    ensures
        order.contains(cycle[k]),
        rank(order, cycle[k]) + k <= rank(order, cycle[0]),
    decreases k,
{
    if k > 0 {
        walk_goes_down(g, order, cycle, k - 1);
        assert((k - 1 + 1) % (cycle.len() as int) == k) by (nonlinear_arith)
            requires
                0 < k < cycle.len(),
        ;
        assert(g.edges[cycle[k - 1]].contains(cycle[(k - 1 + 1) % cycle.len() as int]));
        edge_goes_down(g, order, cycle[k - 1], cycle[k]);
    }
}

/// In a dependency order, what a node points to stands before the node.
proof fn edge_goes_down(g: GraphView, order: Seq<int>, from: int, to: int)
    requires
        g.is_dependency_order(order),
        order.contains(from),
        g.edges[from].contains(to),
    ensures
        order.contains(to),
        rank(order, to) < rank(order, from),
{
    let a = rank(order, from);
    assert(0 <= a < order.len() && order[a] == from);
    let e = choose|e: int| 0 <= e < g.edges[from].len() && g.edges[from][e] == to;
    assert(stands_before(order, a, g.edges[order[a]][e]));
    let b = choose|b: int| 0 <= b < a && #[trigger] order[b] == g.edges[order[a]][e];
    assert(order[b] == to);
    let c = rank(order, to);
    assert(0 <= c < order.len() && order[c] == to);
}

/// Every node of a graph stands in each of its dependency orders.
proof fn order_holds_every_node(g: GraphView, order: Seq<int>, node: int)
    requires
        g.is_dependency_order(order),
        0 <= node < g.nodes.len(),
    ensures
        order.contains(node),
{
    if !order.contains(node) {
        let all = Set::new(|x: int| 0 <= x < g.nodes.len() && x != node);
        let full = Set::new(|x: int| 0 <= x < g.nodes.len());
        vstd::set_lib::lemma_int_range(0, g.nodes.len() as int);
        assert(full =~= vstd::set_lib::set_int_range(0, g.nodes.len() as int));
        assert(all =~= full.remove(node));
        order.unique_seq_to_set();
        assert(order.to_set().subset_of(all)) by {
            assert forall|x: int| order.to_set().contains(x) implies all.contains(x) by {
                let q = choose|q: int| 0 <= q < order.len() && order[q] == x;
            }
        }
        vstd::set_lib::lemma_len_subset(order.to_set(), all);
        assert(false);
    }
}

/// A graph with a cycle has no order.
pub proof fn cycle_has_no_order(g: GraphView, cycle: Seq<int>)
    requires
        g.is_cycle(cycle),
    ensures
        !g.sortable(),
        g.order() is None,
{
    order_exists_iff_sortable(g);
    if g.sortable() {
        let order = choose|order: Seq<int>| g.is_dependency_order(order);
        let last = cycle.len() - 1;
        order_holds_every_node(g, order, cycle[0]);
        walk_goes_down(g, order, cycle, last);
        assert((last + 1) % (cycle.len() as int) == 0) by (nonlinear_arith)
            requires
                last + 1 == cycle.len(),
                cycle.len() > 0,
        ;
        assert(g.edges[cycle[last]].contains(cycle[(last + 1) % cycle.len() as int]));
        edge_goes_down(g, order, cycle[last], cycle[0]);
        assert(false);
    }
}

/// Where taking nodes after `placed` comes to no order, it gets stuck: some
/// nodes are placed soundly, others are left, and none of them can be taken.
proof fn order_gets_stuck(g: GraphView, placed: Seq<int>) -> (stuck: Seq<int>)
    requires
        g.is_partial_order(placed),
        placed.len() <= g.nodes.len(),
        g.order_after(placed) is None,
    ensures
        g.is_partial_order(stuck),
        stuck.len() < g.nodes.len(),
        forall|i: int| 0 <= i < g.nodes.len() ==> !g.ready(stuck, i),
    decreases g.nodes.len() - placed.len(),
{
    let next = g.first_ready(placed, 0);
    first_ready_is_first(g, placed, 0);
    if next >= g.nodes.len() {
        placed
    } else {
        taking_keeps_order(g, placed, next);
        order_gets_stuck(g, placed.push(next))
    }
}

/// A node that `node` points to and that is not placed.
spec fn way_on(g: GraphView, placed: Seq<int>, node: int) -> int {
    choose|to: int| g.edges[node].contains(to) && !placed.contains(to)
}

/// The node that is reached from `start` after `k` steps, each to a node
/// that is not placed.
spec fn stray(g: GraphView, placed: Seq<int>, start: int, k: nat) -> int
    decreases k,
{
    if k == 0 {
        start
    } else {
        way_on(g, placed, stray(g, placed, start, (k - 1) as nat))
    }
}

/// Where no node can be taken, a walk that starts at a node which is not
/// placed goes on for ever through such nodes.
proof fn stray_goes_on(g: GraphView, placed: Seq<int>, start: int, k: nat)
    requires
        g.wf(),
        0 <= start < g.nodes.len(),
        !placed.contains(start),
        forall|i: int| 0 <= i < g.nodes.len() ==> !g.ready(placed, i),
    ensures
        0 <= stray(g, placed, start, k) < g.nodes.len(),
        !placed.contains(stray(g, placed, start, k)),
        g.edges[stray(g, placed, start, k)].contains(stray(g, placed, start, k + 1)),
        0 <= stray(g, placed, start, k + 1) < g.nodes.len(),
        !placed.contains(stray(g, placed, start, k + 1)),
    decreases k,
{
    if k > 0 {
        stray_goes_on(g, placed, start, (k - 1) as nat);
    }
    let node = stray(g, placed, start, k);
    assert(!g.ready(placed, node));
    let e = choose|e: int| 0 <= e < g.edges[node].len() && !placed.contains(#[trigger] g.edges[node][e]);
    assert(g.edges[node].contains(g.edges[node][e]));
    let to = way_on(g, placed, node);
    assert(stray(g, placed, start, k + 1) == to);
    let at = choose|at: int| 0 <= at < g.edges[node].len() && g.edges[node][at] == to;
    assert(0 <= g.edges[node][at] < g.nodes.len());
}

/// A list of more than `n` numbers below `n` holds one of them twice.
proof fn some_number_repeats(list: Seq<int>, n: int) -> (r: (int, int))
    requires
        list.len() > n >= 0,
        forall|k: int| 0 <= k < list.len() ==> 0 <= #[trigger] list[k] < n,
    ensures
        0 <= r.0 < r.1 < list.len(),
        list[r.0] == list[r.1],
{
    if list.no_duplicates() {
        list.unique_seq_to_set();
        vstd::set_lib::lemma_int_range(0, n);
        let below = vstd::set_lib::set_int_range(0, n);
        assert(list.to_set().subset_of(below)) by {
            assert forall|x: int| list.to_set().contains(x) implies below.contains(x) by {
                let k = choose|k: int| 0 <= k < list.len() && list[k] == x;
                assert(0 <= list[k] < n);
            }
        }
        vstd::set_lib::lemma_len_subset(list.to_set(), below);
        assert(false);
    }
    let (i, j) = choose|i: int, j: int|
        0 <= i < list.len() && 0 <= j < list.len() && i != j && list[i] == list[j];
    if i < j {
        (i, j)
    } else {
        (j, i)
    }
}

/// A sound order that does not hold every node leaves out some node.
proof fn some_place_is_left(g: GraphView, placed: Seq<int>) -> (node: int)
    requires
        g.is_partial_order(placed),
        placed.len() < g.nodes.len(),
    ensures
        0 <= node < g.nodes.len(),
        !placed.contains(node),
{
    let n = g.nodes.len() as int;
    if forall|i: int| 0 <= i < n ==> placed.contains(i) {
        placed.unique_seq_to_set();
        vstd::set_lib::lemma_int_range(0, n);
        let below = vstd::set_lib::set_int_range(0, n);
        vstd::seq_lib::seq_to_set_is_finite(placed);
        assert(below.subset_of(placed.to_set())) by {
            assert forall|x: int| below.contains(x) implies placed.to_set().contains(x) by {
                assert(placed.contains(x));
            }
        }
        vstd::set_lib::lemma_len_subset(below, placed.to_set());
        assert(false);
    }
    choose|i: int| 0 <= i < n && !placed.contains(i)
}

/// A graph without an order has a cycle.
pub proof fn no_order_has_cycle(g: GraphView)
    requires
        g.wf(),
        g.order() is None,
    ensures
        g.has_cycle(),
{
    let n = g.nodes.len() as int;
    assert(g.is_partial_order(Seq::<int>::empty()));
    let stuck = order_gets_stuck(g, Seq::empty());
    let start = some_place_is_left(g, stuck);
    let walk = Seq::new((n + 1) as nat, |k: int| stray(g, stuck, start, k as nat));
    assert forall|k: int| 0 <= k < walk.len() implies 0 <= #[trigger] walk[k] < n by {
        stray_goes_on(g, stuck, start, k as nat);
    }
    let (i, j) = some_number_repeats(walk, n);
    let cycle = walk.subrange(i, j);
    let len = cycle.len() as int;
    assert forall|k: int| 0 <= k < cycle.len() implies g.edges[#[trigger] cycle[k]].contains(
        cycle[(k + 1) % len],
    ) by {
        stray_goes_on(g, stuck, start, (i + k) as nat);
        assert(walk[i + k + 1] == stray(g, stuck, start, (i + k + 1) as nat));
        if k + 1 < len {
            assert((k + 1) % len == k + 1) by (nonlinear_arith)
                requires
                    0 <= k,
                    k + 1 < len,
            ;
            assert(cycle[k + 1] == walk[i + k + 1]);
        } else {
            assert((k + 1) % len == 0) by (nonlinear_arith)
                requires
                    k + 1 == len,
                    len > 0,
            ;
            assert(cycle[0] == walk[i]);
            assert(walk[i + k + 1] == walk[j]);
        }
    }
    assert(g.is_cycle(cycle));
}

/// A graph has an order exactly where it has no cycle.
pub proof fn order_exists_iff_no_cycle(g: GraphView)
    requires
        g.wf(),
    ensures
        g.order() is Some <==> !g.has_cycle(),
{
    if g.has_cycle() {
        let cycle = choose|cycle: Seq<int>| g.is_cycle(cycle);
        cycle_has_no_order(g, cycle);
    }
    if g.order() is None {
        no_order_has_cycle(g);
    }
}

} // verus!
