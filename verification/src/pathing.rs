//! The room path solver: a graph whose nodes carry values and whose edges
//! carry arithmetic operations, searched breadth-first for a walk that
//! reaches a goal node with a goal value. Walking an edge combines the
//! current value with the destination node's value by the edge's operation.

use vstd::prelude::*;
use std::collections::HashSet;

verus! {

/// The arithmetic an edge applies to the walked value.
#[allow(missing_docs)]
#[derive(Debug, Default, Clone, Copy, Hash, PartialEq, Eq, Structural)]
pub enum Operation {
    #[default]
    Sub,
    Add,
    Mul,
}

/// A directed edge: the operation applied on crossing it, and the index of
/// the node it leads to.
struct Edge {
    op: Operation,
    next: usize,
}

impl Edge {
    fn new(op: Operation, next: usize) -> (e: Edge)
        ensures
            e.op == op && e.next == next,
    {
        Edge { op, next }
    }
}

/// A node: its value, and the edges leaving it.
struct Node {
    data: u16,
    neighbors: Vec<Edge>,
}

/// The mathematical content of a node: its value and its edges as
/// operation-destination pairs.
pub ghost struct GNode {
    /// The node's value.
    pub data: u16,
    /// The edges leaving the node.
    pub edges: Seq<(Operation, usize)>,
}

/// A graph of valued nodes, indexed by cell number.
pub struct Graph {
    nodes: Vec<Node>,
}

impl View for Graph {
    type V = Seq<GNode>;

    closed spec fn view(&self) -> Seq<GNode> {
        Seq::new(
            self.nodes@.len(),
            |i: int| GNode {
                data: self.nodes@[i].data,
                edges: Seq::new(
                    self.nodes@[i].neighbors@.len(),
                    |j: int| (self.nodes@[i].neighbors@[j].op, self.nodes@[i].neighbors@[j].next),
                ),
            },
        )
    }
}

/// The value at the destination of an edge: the current value combined
/// with the destination node's value by the edge's operation. Subtraction
/// floors at zero; multiplication wraps at the architectural modulus.
pub open spec fn calc_spec(g: Seq<GNode>, v: u16, op: Operation, next: int) -> int {
    match op {
        Operation::Add => v + g[next].data,
        Operation::Sub => if v < g[next].data {
            0int
        } else {
            v - g[next].data
        },
        Operation::Mul => (v * g[next].data) % 32768,
    }
}

/// `path` is a walk through `g` from node `c` with value `v` that ends at
/// node `gc` with value `gv`: each step crosses an edge of the current
/// node, and every intermediate value stays representable in a word.
pub open spec fn walk_ok(
    g: Seq<GNode>,
    c: int,
    v: u16,
    path: Seq<(Operation, usize)>,
    gc: int,
    gv: u16,
) -> bool
    decreases path.len(),
{
    if path.len() == 0 {
        c == gc && v == gv
    } else {
        let (op, next) = path[0];
        &&& 0 <= c < g.len()
        &&& (next as int) < g.len()
        &&& g[c].edges.contains((op, next))
        &&& 0 <= calc_spec(g, v, op, next as int) <= 65535
        &&& walk_ok(
            g,
            next as int,
            calc_spec(g, v, op, next as int) as u16,
            path.skip(1),
            gc,
            gv,
        )
    }
}

/// A walk extended by one crossable edge is a walk to that edge's
/// destination.
proof fn lemma_walk_extend(
    g: Seq<GNode>,
    c0: int,
    v0: u16,
    p: Seq<(Operation, usize)>,
    c: int,
    v: u16,
    op: Operation,
    next: usize,
)
    requires
        walk_ok(g, c0, v0, p, c, v),
        0 <= c < g.len(),
        (next as int) < g.len(),
        g[c].edges.contains((op, next)),
        0 <= calc_spec(g, v, op, next as int) <= 65535,
    ensures
        walk_ok(g, c0, v0, p.push((op, next)), next as int, calc_spec(g, v, op, next as int) as u16),
    decreases p.len(),
{
    reveal_with_fuel(walk_ok, 3);
    if p.len() == 0 {
        assert(p.push((op, next))[0] == (op, next));
        assert(p.push((op, next)).skip(1) =~= Seq::<(Operation, usize)>::empty());
    } else {
        let (op0, next0) = p[0];
        assert(p.push((op, next))[0] == p[0]);
        assert(p.push((op, next)).skip(1) =~= p.skip(1).push((op, next)));
        lemma_walk_extend(
            g,
            next0 as int,
            calc_spec(g, v0, op0, next0 as int) as u16,
            p.skip(1),
            c,
            v,
            op,
            next,
        );
    }
}

impl Graph {
    /// A graph of `cap` nodes, each with value zero and no edges.
    pub fn new(cap: usize) -> (g: Graph)
        ensures
            g@.len() == cap,
            forall|i: int| 0 <= i < cap ==> #[trigger] g@[i].data == 0 && g@[i].edges.len() == 0,
    {
        let mut nodes: Vec<Node> = Vec::new();
        let mut i: usize = 0;
        while i < cap
            invariant
                i <= cap,
                nodes@.len() == i,
                forall|j: int| 0 <= j < i ==> #[trigger] nodes@[j].data == 0
                    && nodes@[j].neighbors@.len() == 0,
            decreases cap - i,
        {
            nodes.push(Node { data: 0, neighbors: Vec::new() });
            i = i + 1;
        }
        Graph { nodes }
    }

    /// Give the node at `cell` its value and its outgoing edges.
    pub fn add_node(&mut self, cell: usize, data: u16, neighbors: Vec<(Operation, usize)>)
        requires
            cell < old(self)@.len(),
        ensures
            final(self)@ == old(self)@.update(cell as int, GNode { data: data, edges: neighbors@ }),
    {
        let mut edges: Vec<Edge> = Vec::new();
        let mut i: usize = 0;
        while i < neighbors.len()
            invariant
                i <= neighbors@.len(),
                edges@.len() == i,
                forall|j: int| 0 <= j < i ==> (#[trigger] edges@[j].op, edges@[j].next)
                    == neighbors@[j],
            decreases neighbors@.len() - i,
        {
            let (op, cell_to) = neighbors[i];
            edges.push(Edge::new(op, cell_to));
            i = i + 1;
        }
        let node = Node { data, neighbors: edges };
        self.nodes[cell] = node;
        proof {
            let newv = self@;
            let oldv = old(self)@.update(cell as int, GNode { data: data, edges: neighbors@ });
            assert forall|i: int| 0 <= i < newv.len() implies newv[i] == oldv[i] by {
                if i == cell as int {
                    assert forall|j: int| 0 <= j < neighbors@.len() implies newv[i].edges[j]
                        == neighbors@[j] by {
                        assert((edges@[j].op, edges@[j].next) == neighbors@[j]);
                    };
                    assert(newv[i].edges =~= neighbors@);
                } else {
                    assert(newv[i].edges =~= oldv[i].edges);
                }
            };
            assert(newv =~= oldv);
        }
    }

    /// The value at an edge's destination; see [`calc_spec`]. The addition
    /// case demands a representable result, which the search checks before
    /// crossing an edge.
    fn calc_value(&self, start_val: u16, edge: &Edge) -> (r: u16)
        requires
            (edge.next as int) < self@.len(),
            edge.op == Operation::Add ==> start_val + self@[edge.next as int].data <= 65535,
        ensures
            r as int == calc_spec(self@, start_val, edge.op, edge.next as int),
    {
        let data = self.nodes[edge.next].data;
        let current_val: u16;
        match edge.op {
            Operation::Add => {
                current_val = start_val + data;
            },
            Operation::Sub => {
                if start_val < data {
                    current_val = 0;
                } else {
                    current_val = start_val - data;
                }
            },
            Operation::Mul => {
                proof {
                    assert((start_val as int) * (data as int) < 0x100000000int)
                        by (nonlinear_arith)
                        requires start_val <= 65535 && data <= 65535;
                }
                current_val = (((start_val as u32) * (data as u32)) % 32768) as u16;
            },
        }
        current_val
    }

    /// Search breadth-first for a walk from `start` to `goal`, where each
    /// pair is a node index and a value. A returned path is a valid walk
    /// that reaches the goal, and a search that starts on the goal always
    /// succeeds, with the empty walk. The search deduplicates visited
    /// states, skips edges whose destination lies outside the graph or
    /// whose value would overflow a word, and gives up after a bounded
    /// number of expansions, returning `None`. That the search misses no
    /// reachable goal and returns a shortest walk is the usual property of
    /// a breadth-first order; it is not proved here, so `None` promises
    /// nothing and a returned walk carries no minimality claim.
    pub fn get_shortest_path(
        &mut self,
        start: (usize, u16),
        goal: (usize, u16),
    ) -> (r: Option<Vec<(Operation, usize)>>)
        requires
            start.0 < old(self)@.len(),
        ensures
            final(self)@ == old(self)@,
            start == goal ==> r is Some,
            match r {
                Some(path) => walk_ok(
                    final(self)@,
                    start.0 as int,
                    start.1,
                    path@,
                    goal.0 as int,
                    goal.1,
                ),
                None => true,
            },
    {
        let ghost g: Seq<GNode> = self@;
        if start.0 == goal.0 && start.1 == goal.1 {
            let found: Vec<(Operation, usize)> = Vec::new();
            proof {
                assert(walk_ok(g, start.0 as int, start.1, found@, goal.0 as int, goal.1));
            }
            return Some(found);
        }
        let mut queue: Vec<(usize, u16, Vec<(Operation, usize)>)> = Vec::new();
        let empty_path: Vec<(Operation, usize)> = Vec::new();
        queue.push((start.0, start.1, empty_path));
        let mut visited: HashSet<u128> = HashSet::new();
        let mut head: usize = 0;
        let budget: usize = 4194304;
        while head < queue.len() && head < budget
            invariant
                self@ == g,
                start.0 < g.len(),
                head <= queue@.len(),
                forall|i: int| head <= i < queue@.len() ==> {
                    let t = #[trigger] queue@[i];
                    (t.0 as int) < g.len() && walk_ok(
                        g,
                        start.0 as int,
                        start.1,
                        t.2@,
                        t.0 as int,
                        t.1,
                    )
                },
            decreases budget - head,
        {
            let (cur_c, cur_v, path) = {
                let t = &queue[head];
                (t.0, t.1, copy_path(&t.2))
            };
            proof {
                assert(queue@[head as int].2@ == path@);
            }
            head = head + 1;
            if cur_c == goal.0 && cur_v == goal.1 {
                return Some(path);
            }
            let num_edges = self.nodes[cur_c].neighbors.len();
            let mut j: usize = 0;
            while j < num_edges
                invariant
                    self@ == g,
                    start.0 < g.len(),
                    (cur_c as int) < g.len(),
                    num_edges == g[cur_c as int].edges.len(),
                    walk_ok(g, start.0 as int, start.1, path@, cur_c as int, cur_v),
                    head <= queue@.len(),
                    forall|i: int| head <= i < queue@.len() ==> {
                        let t = #[trigger] queue@[i];
                        (t.0 as int) < g.len() && walk_ok(
                            g,
                            start.0 as int,
                            start.1,
                            t.2@,
                            t.0 as int,
                            t.1,
                        )
                    },
                decreases num_edges - j,
            {
                let (op, next) = {
                    let e = &self.nodes[cur_c].neighbors[j];
                    (e.op, e.next)
                };
                proof {
                    assert(g[cur_c as int].edges[j as int] == (op, next));
                    assert(g[cur_c as int].edges.contains((op, next)));
                }
                if next < self.nodes.len() {
                    let data = self.nodes[next].data;
                    let fits: bool = match op {
                        Operation::Add => (cur_v as u32) + (data as u32) <= 65535,
                        Operation::Sub => true,
                        Operation::Mul => true,
                    };
                    if fits {
                        let e = Edge { op, next };
                        let val = self.calc_value(cur_v, &e);
                        let key: u128 = (next as u128) * 65536 + (val as u128);
                        if !visited.contains(&key) {
                            visited.insert(key);
                            let mut new_path = copy_path(&path);
                            new_path.push((op, next));
                            proof {
                                lemma_walk_extend(
                                    g,
                                    start.0 as int,
                                    start.1,
                                    path@,
                                    cur_c as int,
                                    cur_v,
                                    op,
                                    next,
                                );
                            }
                            queue.push((next, val, new_path));
                        }
                    }
                }
                j = j + 1;
            }
        }
        None
    }
}

/// Copy a path by value.
fn copy_path(p: &Vec<(Operation, usize)>) -> (r: Vec<(Operation, usize)>)
    ensures
        r@ == p@,
{
    let mut r: Vec<(Operation, usize)> = Vec::new();
    let mut i: usize = 0;
    while i < p.len()
        invariant
            i <= p@.len(),
            r@ =~= p@.subrange(0, i as int),
        decreases p@.len() - i,
    {
        r.push(p[i]);
        i = i + 1;
    }
    proof {
        assert(r@ =~= p@);
    }
    r
}

} // verus!
