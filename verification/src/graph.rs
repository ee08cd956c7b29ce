use rand::Rng;
use std::collections::HashSet;
use vstd::prelude::*;

verus! {

broadcast use vstd::std_specs::hash::group_hash_axioms;

/// Relies on rand's Rng::gen_range on the range 0..n, which panics on an
/// empty range and otherwise returns a value drawn from the range.
#[verifier::external_body]
fn random_below(n: usize) -> (r: usize)
    requires
        n > 0,
    ensures
        r < n,
{
    rand::thread_rng().gen_range(0..n)
}

/// One node of the ring: its id and where it can step to.
#[derive(Debug)]
pub struct Node {
    pub id: usize,
    pub exits: Vec<usize>,
}

/// An undirected edge between two node ids, stored smaller id first.
#[derive(Debug, PartialEq, Eq, Structural, Clone, Copy)]
pub struct Edge {
    pub node_1: usize,
    pub node_2: usize,
}

impl Edge {
    /// Builds the edge with its endpoints in order, whichever way they came.
    pub fn new(node_1: usize, node_2: usize) -> (r: Edge)
        ensures
            r.node_1 <= r.node_2,
            (r.node_1 == node_1 && r.node_2 == node_2) || (r.node_1 == node_2 && r.node_2
                == node_1),
    {
        if node_1 > node_2 {
            Edge { node_1: node_2, node_2: node_1 }
        } else {
            Edge { node_1, node_2 }
        }
    }

    /// The edge packed into one number, for the edge set.
    pub open spec fn code_spec(&self) -> u64 {
        (self.node_1 * 0x1_0000_0000 + self.node_2) as u64
    }

    /// Packs the two endpoints into one number; distinct edges with endpoints
    /// below 2^32 pack to distinct numbers.
    pub fn code(&self) -> (r: u64)
        requires
            self.node_1 < 0x1_0000_0000,
            self.node_2 < 0x1_0000_0000,
        ensures
            r == self.code_spec(),
    {
        (self.node_1 as u64) * 0x1_0000_0000 + (self.node_2 as u64)
    }
}

/// Packing is injective on ordered edges with small endpoints.
pub proof fn lemma_edge_code_injective(a: Edge, b: Edge)
    requires
        a.node_1 < 0x1_0000_0000,
        a.node_2 < 0x1_0000_0000,
        b.node_1 < 0x1_0000_0000,
        b.node_2 < 0x1_0000_0000,
        a.code_spec() == b.code_spec(),
    ensures
        a == b,
{
    vstd::arithmetic::div_mod::lemma_fundamental_div_mod_converse(
        a.code_spec() as int,
        0x1_0000_0000,
        a.node_1 as int,
        a.node_2 as int,
    );
    vstd::arithmetic::div_mod::lemma_fundamental_div_mod_converse(
        b.code_spec() as int,
        0x1_0000_0000,
        b.node_1 as int,
        b.node_2 as int,
    );
}

/// The set of edges seen so far, held as packed codes.
#[derive(Debug)]
pub struct Graph {
    pub edges: HashSet<u64>,
}

impl Graph {
    pub fn new() -> (r: Graph)
        ensures
            r.edges@ == Set::<u64>::empty(),
    {
        Graph { edges: HashSet::new() }
    }

    /// Records one edge; an edge already there changes nothing.
    pub fn insert(&mut self, edge: Edge) -> (r: Option<()>)
        requires
            edge.node_1 < 0x1_0000_0000,
            edge.node_2 < 0x1_0000_0000,
        ensures
            final(self).edges@ == old(self).edges@.insert(edge.code_spec()),
            r is Some,
    {
        let code = edge.code();
        self.edges.insert(code);
        Some(())
    }

    /// How many distinct edges were recorded.
    pub fn len(&self) -> (r: usize)
        ensures
            r == self.edges@.len(),
    {
        self.edges.len()
    }
}

/// Takes two values out of the list, both chosen at random. Every survivor
/// was already there, and the list shrinks by exactly two.
fn remove_random_pair(v: &mut Vec<usize>) -> (r: (usize, usize))
    requires
        old(v)@.len() > 1,
    ensures
        old(v)@.contains(r.0),
        old(v)@.contains(r.1),
        final(v)@.len() == old(v)@.len() - 2,
        forall|x: usize| final(v)@.contains(x) ==> old(v)@.contains(x),
{
    let ghost v0 = v@;
    let i = random_below(v.len());
    let n1 = v.swap_remove(i);
    proof {
        assert(v0.contains(n1));
        assert(forall|x: usize| v@.contains(x) ==> v0.contains(x));
    }
    let ghost v1 = v@;
    let j = random_below(v.len());
    let n2 = v.swap_remove(j);
    proof {
        assert(v1.contains(n2));
        assert(forall|x: usize| v@.contains(x) ==> v1.contains(x));
    }
    (n1, n2)
}

/// Builds an even-sized ring of nodes, each wired to its two ring neighbours,
/// then pairs the nodes off at random so every node gains a third exit.
pub fn generate_nodes(size: usize) -> (r: Result<Vec<Node>, ()>)
    requires
        2 <= size <= usize::MAX - 19,
        size % 2 == 0,
    ensures
        r is Ok,
        r.unwrap()@.len() == size,
        forall|i: int| 0 <= i < size ==> (#[trigger] r.unwrap()@[i]).id == i,
        forall|i: int| 0 <= i < size ==> (#[trigger] r.unwrap()@[i]).exits@.len() >= 2,
{
    let mut valence_2_nodes: Vec<usize> = Vec::new();
    let mut nodes: Vec<Node> = Vec::new();
    let mut i: usize = 0;
    while i < size
        invariant
            i <= size <= usize::MAX - 19,
            nodes@.len() == i,
            forall|k: int| 0 <= k < i ==> (#[trigger] nodes@[k]).id == k,
            forall|k: int| 0 <= k < i ==> (#[trigger] nodes@[k]).exits@.len() == 0,
        decreases size - i,
    {
        nodes.push(Node { id: i, exits: Vec::new() });
        i = i + 1;
    }
    let mut i: usize = 0;
    while i < size
        invariant
            i <= size <= usize::MAX - 19,
            size >= 2,
            nodes@.len() == size,
            valence_2_nodes@.len() == i,
            forall|k: int| 0 <= k < size ==> (#[trigger] nodes@[k]).id == k,
            forall|k: int| 0 <= k < i ==> (#[trigger] nodes@[k]).exits@.len() == 2,
            forall|k: int| i <= k < size ==> (#[trigger] nodes@[k]).exits@.len() == 0,
            forall|k: int| 0 <= k < i ==> #[trigger] valence_2_nodes@[k] == k,
        decreases size - i,
    {
        let next = (i + 1) % size;
        let prev = (i + 20 - 1) % size;
        nodes[i].exits.push(next);
        nodes[i].exits.push(prev);
        valence_2_nodes.push(i);
        i = i + 1;
    }
    proof {
        assert forall|x: usize| valence_2_nodes@.contains(x) implies x < size by {
            let k = choose|k: int|
                0 <= k < valence_2_nodes@.len() && valence_2_nodes@[k] == x;
        }
    }
    while valence_2_nodes.len() > 0
        invariant
            nodes@.len() == size,
            forall|k: int| 0 <= k < size ==> (#[trigger] nodes@[k]).id == k,
            forall|k: int| 0 <= k < size ==> (#[trigger] nodes@[k]).exits@.len() >= 2,
            forall|x: usize| valence_2_nodes@.contains(x) ==> x < size,
        decreases valence_2_nodes@.len(),
    {
        if valence_2_nodes.len() == 1 {
            let last = valence_2_nodes[0];
            proof {
                assert(valence_2_nodes@.contains(last));
            }
            valence_2_nodes = Vec::new();
            let partner = (last + 1) % size;
            nodes[last].exits.push(partner);
            nodes[partner].exits.push(last);
        } else {
            let pair = remove_random_pair(&mut valence_2_nodes);
            let (n1, n2) = pair;
            nodes[n1].exits.push(n2);
            nodes[n2].exits.push(n1);
        }
    }
    Ok(nodes)
}

/// Walks the ring looking for a cycle back to the start, giving up thirty
/// levels down; reports how deep it stopped.
pub fn search(
    nodes: &Vec<Node>,
    start_node: usize,
    current_node: usize,
    path: Vec<usize>,
    depth: usize,
) -> (r: usize)
    requires
        current_node < nodes@.len(),
        depth <= 30,
        forall|k: int|
            0 <= k < nodes@.len() ==> forall|e: int|
                0 <= e < (#[trigger] nodes@[k]).exits@.len() ==> (#[trigger] nodes@[k].exits@[e])
                    < nodes@.len(),
    ensures
        r <= 30,
    decreases 30 - depth,
{
    if depth == 30 {
        return depth;
    }
    let node = &nodes[current_node];
    if node.id == start_node && path.len() > 2 {
        return depth;
    }
    if contains_id(&path, node.id) {
        return depth;
    }
    let mut path = path;
    path.push(node.id);
    let mut path_length: usize = 0;
    let mut e: usize = 0;
    while e < node.exits.len()
        invariant
            current_node < nodes@.len(),
            node == nodes@[current_node as int],
            depth < 30,
            path_length <= 30,
            forall|k: int|
                0 <= k < nodes@.len() ==> forall|x: int|
                    0 <= x < (#[trigger] nodes@[k]).exits@.len() ==> (
                    #[trigger] nodes@[k].exits@[x]) < nodes@.len(),
        decreases node.exits@.len() - e,
    {
        let connection = node.exits[e];
        let branch = search(nodes, start_node, connection, copy_path(&path), depth + 1);
        if branch > path_length {
            path_length = branch;
        }
        e = e + 1;
    }
    path_length
}

/// Whether an id already stands in the path.
fn contains_id(path: &Vec<usize>, id: usize) -> (r: bool)
    ensures
        r <==> path@.contains(id),
{
    let mut i: usize = 0;
    while i < path.len()
        invariant
            i <= path@.len(),
            forall|k: int| 0 <= k < i ==> path@[k] != id,
        decreases path@.len() - i,
    {
        if path[i] == id {
            return true;
        }
        i = i + 1;
    }
    false
}

/// A fresh copy of the path, one element at a time.
fn copy_path(v: &Vec<usize>) -> (r: Vec<usize>)
    ensures
        r@ == v@,
{
    let mut r: Vec<usize> = Vec::new();
    let mut i: usize = 0;
    while i < v.len()
        invariant
            i <= v@.len(),
            r@ == v@.take(i as int),
        decreases v@.len() - i,
    {
        r.push(v[i]);
        proof {
            assert(r@ =~= v@.take(i as int + 1));
        }
        i = i + 1;
    }
    proof {
        assert(v@.take(v@.len() as int) =~= v@);
    }
    r
}

} // verus!
