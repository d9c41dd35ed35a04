//! The content library: the weighted tree of conversation sets, kept as a
//! flat arena of nodes, and the weighted descent that chooses a leaf.

use crate::random::draw_between;
use rand::rngs::StdRng;
use vstd::prelude::*;
use vstd::string::StringExecFns;

verus! {

/// One weighted edge of the tree: its label, its weight among its siblings
/// and the position of the child node in the arena.
#[derive(Clone, Debug)]
pub struct TransmissionSetBranch {
    pub label: String,
    pub weight: u32,
    pub child: usize,
}

/// One node of the tree. A node made from a set of the document carries the
/// path of that set's data in `data`; the root carries none. The branches
/// stand in the order in which the document declares them.
#[derive(Clone, Debug)]
pub struct TransmissionSetNode {
    pub value: String,
    pub data: Option<String>,
    pub branches: Vec<TransmissionSetBranch>,
}

/// The sum of the first `upto` weights.
pub open spec fn weight_before(weights: Seq<u32>, upto: int) -> int
    decreases upto,
{
    if upto <= 0 {
        0
    } else {
        weight_before(weights, upto - 1) + weights[upto - 1]
    }
}

/// The sum of all weights.
pub open spec fn weight_sum(weights: Seq<u32>) -> int {
    weight_before(weights, weights.len() as int)
}

/// Whether the draw `r` falls on position `b`: `b` is the first position
/// whose cumulative weight exceeds `r`.
pub open spec fn selects(weights: Seq<u32>, r: int, b: int) -> bool {
    0 <= b < weights.len() && weight_before(weights, b) <= r < weight_before(weights, b)
        + weights[b]
}

/// The cumulative weight grows with the position.
pub proof fn lemma_weight_before_grows(weights: Seq<u32>, a: int, b: int)
    requires
        0 <= a <= b,
    ensures
        0 <= weight_before(weights, a) <= weight_before(weights, b),
        weight_before(weights, b) <= b * 0xffff_ffff,
    decreases b,
{
    if b > 0 {
        if a < b {
            lemma_weight_before_grows(weights, a, b - 1);
        } else {
            lemma_weight_before_grows(weights, a - 1, b - 1);
        }
    }
}

/// Every draw below the sum of the weights falls on one position only.
pub proof fn law_draw_selects_one(weights: Seq<u32>, r: int, a: int, b: int)
    requires
        selects(weights, r, a),
        selects(weights, r, b),
    ensures
        a == b,
{
    if a < b {
        lemma_weight_before_grows(weights, a + 1, b);
    } else if b < a {
        lemma_weight_before_grows(weights, b + 1, a);
    }
}

/// Of the draws from zero up to the sum of the weights, as many fall on a
/// position as its weight says: each position is chosen in proportion to
/// its weight.
pub proof fn law_draws_match_weight(weights: Seq<u32>, b: int)
    requires
        0 <= b < weights.len(),
    ensures
        Set::new(|r: int| 0 <= r < weight_sum(weights) && selects(weights, r, b)).finite(),
        Set::new(|r: int| 0 <= r < weight_sum(weights) && selects(weights, r, b)).len()
            == weights[b],
{
    let low = weight_before(weights, b);
    let high = low + weights[b];
    lemma_weight_before_grows(weights, 0, b);
    lemma_weight_before_grows(weights, b + 1, weights.len() as int);
    vstd::set_lib::lemma_int_range(low, high);
    assert(Set::new(|r: int| 0 <= r < weight_sum(weights) && selects(weights, r, b))
        =~= vstd::set_lib::set_int_range(low, high));
}

impl TransmissionSetNode {
    /// The weights of the branches, in their order.
    pub open spec fn weights(&self) -> Seq<u32> {
        self.branches@.map_values(|branch: TransmissionSetBranch| branch.weight)
    }

    /// A node without branches.
    pub fn new(value: String, data: Option<String>) -> (node: Self)
        ensures
            node.value == value,
            node.data == data,
            node.branches@.len() == 0,
    {
        TransmissionSetNode { value, data, branches: Vec::new() }
    }

    /// Adds a branch behind those that the node has.
    pub fn add_branch(&mut self, label: String, weight: u32, child: usize)
        ensures
            final(self).value == old(self).value,
            final(self).data == old(self).data,
            final(self).branches@ == old(self).branches@.push(
                TransmissionSetBranch { label, weight, child },
            ),
    {
        self.branches.push(TransmissionSetBranch { label, weight, child });
    }

    /// The sum of the weights of the branches.
    pub fn total_weight(&self) -> (total: u128)
        ensures
            total == weight_sum(self.weights()),
    {
        let mut total: u128 = 0;
        let mut b: usize = 0;
        while b < self.branches.len()
            invariant
                b <= self.branches.len(),
                total == weight_before(self.weights(), b as int),
                total <= b * 0xffff_ffff,
            decreases self.branches.len() - b,
        {
            assert(self.weights()[b as int] == self.branches[b as int].weight);
            assert((b + 1) * 0xffff_ffff <= 0x1_0000_0000_0000_0000 * 0xffff_ffff) by (nonlinear_arith)
                requires
                    b < 0x1_0000_0000_0000_0000,
            ;
            total = total + self.branches[b].weight as u128;
            b = b + 1;
        }
        total
    }

    /// The branch on which the draw `r` falls: the first, in the order of
    /// the branches, whose cumulative weight exceeds `r`. There is one if
    /// and only if `r` is below the sum of the weights.
    pub fn pick_branch(&self, r: u128) -> (picked: Option<usize>)
        ensures
            r < weight_sum(self.weights()) ==> picked is Some,
            r >= weight_sum(self.weights()) ==> picked is None,
            picked matches Some(b) ==> selects(self.weights(), r as int, b as int),
    {
        let mut reached: u128 = 0;
        let mut b: usize = 0;
        while b < self.branches.len()
            invariant
                b <= self.branches.len(),
                reached == weight_before(self.weights(), b as int),
                reached <= b * 0xffff_ffff,
                reached <= r,
            decreases self.branches.len() - b,
        {
            assert(self.weights()[b as int] == self.branches[b as int].weight);
            assert((b + 1) * 0xffff_ffff <= 0x1_0000_0000_0000_0000 * 0xffff_ffff) by (nonlinear_arith)
                requires
                    b < 0x1_0000_0000_0000_0000,
            ;
            let next: u128 = reached + self.branches[b].weight as u128;
            if r < next {
                proof {
                    lemma_weight_before_grows(
                        self.weights(),
                        b + 1,
                        self.branches.len() as int,
                    );
                }
                return Some(b);
            }
            reached = next;
            b = b + 1;
        }
        None
    }
}

/// Why an arena of nodes is refused as a library.
#[derive(Clone, Copy, Debug, PartialEq, Eq, Structural)]
pub enum LibraryError {
    /// The arena has no node, so no root.
    NoRoot,
    /// A branch points at no node, or not at a later one.
    BadBranch,
}

impl LibraryError {
    /// The operator-facing text of the error.
    pub fn message(&self) -> (text: String)
        ensures
            text@ == self.message_text(),
    {
        match self {
            LibraryError::NoRoot => "The library has no root.".to_string(),
            LibraryError::BadBranch => "A branch of the library leads nowhere.".to_string(),
        }
    }

    /// The text that `message` returns.
    pub open spec fn message_text(&self) -> Seq<char> {
        match self {
            LibraryError::NoRoot => "The library has no root."@,
            LibraryError::BadBranch => "A branch of the library leads nowhere."@,
        }
    }
}

/// Whether `nodes` form an arena that a descent can walk from position 0:
/// there is a root, and every branch points at a node that stands later in
/// the arena than the node it leaves, so that no walk comes back to a node.
/// This is a graph without cycles, and more is not asked: two branches may
/// point at one node, and a node may be reached by none. `is_tree` asks for
/// a tree.
pub open spec fn arena_ok(nodes: Seq<TransmissionSetNode>) -> bool {
    &&& nodes.len() > 0
    &&& forall|p: int, b: int|
        0 <= p < nodes.len() && 0 <= b < nodes[p].branches@.len() ==> p < (
        #[trigger] nodes[p].branches@[b]).child < nodes.len()
}

/// Whether branch `b` of node `p` points at node `c`.
pub open spec fn points_at(nodes: Seq<TransmissionSetNode>, p: int, b: int, c: int) -> bool {
    0 <= p < nodes.len() && 0 <= b < nodes[p].branches@.len() && nodes[p].branches@[b].child == c
}

/// Whether some branch points at node `c`.
pub open spec fn is_pointed_at(nodes: Seq<TransmissionSetNode>, c: int) -> bool {
    exists|p: int, b: int| #[trigger] points_at(nodes, p, b, c)
}

/// Whether `nodes` form a tree rooted at position 0: an arena that a
/// descent can walk, in which every node but the root is pointed at by one
/// branch, and by one only.
pub open spec fn is_tree(nodes: Seq<TransmissionSetNode>) -> bool {
    &&& arena_ok(nodes)
    &&& forall|c: int| 0 < c < nodes.len() ==> #[trigger] is_pointed_at(nodes, c)
    &&& forall|p: int, b: int, q: int, d: int, c: int|
        #[trigger] points_at(nodes, p, b, c) && #[trigger] points_at(nodes, q, d, c) ==> p == q
            && b == d
}

/// Whether `after` is `before` with one set added below the node at
/// `parent`, as `add_set` adds it: a new last node without branches, and a
/// new last branch of `parent` that points at it.
pub open spec fn set_added(
    before: Seq<TransmissionSetNode>,
    after: Seq<TransmissionSetNode>,
    parent: int,
) -> bool {
    &&& 0 <= parent < before.len()
    &&& after.len() == before.len() + 1
    &&& after[before.len() as int].branches@.len() == 0
    &&& after[parent].branches@.len() == before[parent].branches@.len() + 1
    &&& after[parent].branches@.last().child == before.len()
    &&& forall|b: int|
        0 <= b < before[parent].branches@.len() ==> #[trigger] after[parent].branches@[b]
            == before[parent].branches@[b]
    &&& forall|p: int| 0 <= p < before.len() && p != parent ==> #[trigger] after[p] == before[p]
}

/// A root without branches, alone, is a tree.
pub proof fn law_root_alone_is_a_tree(nodes: Seq<TransmissionSetNode>)
    requires
        nodes.len() == 1,
        nodes[0].branches@.len() == 0,
    ensures
        is_tree(nodes),
{
}

/// A tree to which a set is added is a tree. With the law of the root
/// alone: every library that is built from the empty one by adding sets is
/// a tree.
pub proof fn law_added_sets_form_a_tree(
    before: Seq<TransmissionSetNode>,
    after: Seq<TransmissionSetNode>,
    parent: int,
)
    requires
        is_tree(before),
        set_added(before, after, parent),
    ensures
        is_tree(after),
{
    let added = before.len() as int;
    let last = before[parent].branches@.len() as int;
    assert forall|p: int, b: int, c: int| points_at(after, p, b, c) implies (points_at(
        before,
        p,
        b,
        c,
    ) && c < added) || (p == parent && b == last && c == added) by {
        if p == parent {
            if b < last {
                assert(after[p].branches@[b] == before[p].branches@[b]);
                assert(points_at(before, p, b, c));
            }
        } else {
            assert(after[p] == before[p]);
            assert(points_at(before, p, b, c));
        }
    }
    assert forall|p: int, b: int, c: int| points_at(before, p, b, c) implies points_at(
        after,
        p,
        b,
        c,
    ) by {
        if p == parent {
            assert(after[p].branches@[b] == before[p].branches@[b]);
        } else {
            assert(after[p] == before[p]);
        }
    }
    assert(points_at(after, parent, last, added));
    assert forall|p: int, b: int|
        0 <= p < after.len() && 0 <= b < after[p].branches@.len() implies p < (
    #[trigger] after[p].branches@[b]).child < after.len() by {
        let c = after[p].branches@[b].child as int;
        assert(points_at(after, p, b, c));
        if points_at(before, p, b, c) {
            assert(p < before[p].branches@[b].child < before.len());
        }
    }
    assert forall|c: int| 0 < c < after.len() implies #[trigger] is_pointed_at(after, c) by {
        if c < added {
            assert(is_pointed_at(before, c));
            let (p, b) = choose|p: int, b: int| #[trigger] points_at(before, p, b, c);
            assert(points_at(after, p, b, c));
        }
    }
    assert forall|p: int, b: int, q: int, d: int, c: int|
        #[trigger] points_at(after, p, b, c) && #[trigger] points_at(
            after,
            q,
            d,
            c,
        ) implies p == q && b == d by {
        if c < added {
            assert(points_at(before, p, b, c));
            assert(points_at(before, q, d, c));
        }
    }
}

/// Whether the arena has an edge of weight above zero from `node` to `child`.
pub open spec fn steps_to(node: TransmissionSetNode, child: int) -> bool {
    exists|b: int|
        0 <= b < node.branches@.len() && (#[trigger] node.branches@[b]).weight > 0
            && node.branches@[b].child == child
}

/// Whether `path` is a full descent through `nodes`: every step follows an
/// edge of weight above zero, and the descent ends at a node whose branches
/// weigh nothing together (a leaf, for one).
pub open spec fn is_descent(nodes: Seq<TransmissionSetNode>, path: Seq<int>) -> bool {
    &&& path.len() > 0
    &&& forall|k: int| 0 <= k < path.len() ==> 0 <= #[trigger] path[k] < nodes.len()
    &&& forall|k: int|
        0 <= k < path.len() - 1 ==> steps_to(nodes[path[k]], #[trigger] path[k + 1])
    &&& weight_sum(nodes[path.last()].weights()) == 0
}

/// The content library.
#[derive(Clone, Debug)]
pub struct TransmissionLibrary {
    nodes: Vec<TransmissionSetNode>,
}

impl View for TransmissionLibrary {
    type V = Seq<TransmissionSetNode>;

    closed spec fn view(&self) -> Seq<TransmissionSetNode> {
        self.nodes@
    }
}

impl TransmissionLibrary {
    /// What holds of every library that `empty`, `new` and `add_set` hand
    /// out: its nodes form an arena that a descent can walk, as `arena_ok`
    /// says.
    pub closed spec fn inv(&self) -> bool {
        arena_ok(self.nodes@)
    }

    /// The nodes of a library that satisfies `inv` form an arena that a
    /// descent can walk.
    pub proof fn lemma_is_arena(&self)
        requires
            self.inv(),
        ensures
            arena_ok(self@),
    {
    }

    /// A library of the root alone: a node named `root` that carries no
    /// data.
    pub fn empty() -> (library: Self)
        ensures
            library@.len() == 1,
            library@[0].value@ == "root"@,
            library@[0].data is None,
            library@[0].branches@.len() == 0,
            library.inv(),
            is_tree(library@),
    {
        let mut nodes: Vec<TransmissionSetNode> = Vec::new();
        nodes.push(TransmissionSetNode::new("root".to_string(), None));
        proof {
            law_root_alone_is_a_tree(nodes@);
        }
        TransmissionLibrary { nodes }
    }

    /// Makes a library of an arena of nodes, the root first, if a descent
    /// can walk it: if every branch points at a later node. Whether the
    /// arena is a tree is not looked at; a descent goes through any such
    /// arena in the same way. A library that is built from `empty` with
    /// `add_set` is a tree.
    pub fn new(nodes: Vec<TransmissionSetNode>) -> (made: Result<Self, LibraryError>)
        ensures
            made is Ok <==> arena_ok(nodes@),
            made matches Ok(library) ==> library@ == nodes@ && library.inv(),
            made matches Err(error) ==> (error == LibraryError::NoRoot <==> nodes@.len() == 0),
    {
        if nodes.len() == 0 {
            return Err(LibraryError::NoRoot);
        }
        let mut p: usize = 0;
        while p < nodes.len()
            invariant
                p <= nodes.len(),
                forall|q: int, b: int|
                    0 <= q < p && 0 <= b < nodes[q].branches@.len() ==> q < (
                    #[trigger] nodes[q].branches@[b]).child < nodes.len(),
            decreases nodes.len() - p,
        {
            let mut b: usize = 0;
            while b < nodes[p].branches.len()
                invariant
                    p < nodes.len(),
                    b <= nodes[p as int].branches.len(),
                    forall|c: int|
                        0 <= c < b ==> p < (#[trigger] nodes[p as int].branches@[c]).child
                            < nodes.len(),
                decreases nodes[p as int].branches.len() - b,
            {
                let child: usize = nodes[p].branches[b].child;
                if child <= p || child >= nodes.len() {
                    proof {
                        assert(!(p < nodes@[p as int].branches@[b as int].child < nodes.len()));
                    }
                    return Err(LibraryError::BadBranch);
                }
                b = b + 1;
            }
            p = p + 1;
        }
        Ok(TransmissionLibrary { nodes })
    }

    /// The number of nodes.
    pub fn len(&self) -> (count: usize)
        ensures
            count == self@.len(),
    {
        self.nodes.len()
    }

    /// The node at `position`, if there is one.
    pub fn node(&self, position: usize) -> (found: Option<&TransmissionSetNode>)
        ensures
            position < self@.len() ==> found == Some(&self@[position as int]),
            position >= self@.len() ==> found is None,
    {
        if position < self.nodes.len() {
            Some(&self.nodes[position])
        } else {
            None
        }
    }

    /// Adds the set `name` to the library as the last child of the node at
    /// `parent`, under the weight `weight`, and returns the position of the
    /// new node. The new node carries the path of the set's data: `base_dir`,
    /// then `/transmissions/`, then `data` where the set names any. Where
    /// `parent` is no node the library stays as it was.
    ///
    /// Every set that is added gets a node and a branch of its own, also
    /// where a sibling has the same name: both stay, each with its weight,
    /// in the order in which they were added. A library that was a tree is
    /// a tree with the set added.
    pub fn add_set(
        &mut self,
        parent: usize,
        name: String,
        weight: u32,
        data: Option<String>,
        base_dir: &str,
    ) -> (added: Option<usize>)
        requires
            old(self).inv(),
        ensures
            final(self).inv(),
            parent >= old(self)@.len() ==> added is None && final(self)@ == old(self)@,
            parent < old(self)@.len() ==> added == Some(old(self)@.len() as usize),
            added matches Some(child) ==> {
                &&& final(self)@.len() == old(self)@.len() + 1
                &&& final(self)@[child as int].value@ == name@
                &&& final(self)@[child as int].data is Some
                &&& final(self)@[child as int].data->0@ == set_path(base_dir@, data)
                &&& final(self)@[child as int].branches@.len() == 0
                &&& final(self)@[parent as int].value == old(self)@[parent as int].value
                &&& final(self)@[parent as int].data == old(self)@[parent as int].data
                &&& final(self)@[parent as int].branches@ == old(self)@[parent as int].branches@.push(
                    TransmissionSetBranch { label: name, weight, child },
                )
                &&& forall|p: int|
                    0 <= p < old(self)@.len() && p != parent ==> final(self)@[p] == old(self)@[p]
            },
            is_tree(old(self)@) ==> is_tree(final(self)@),
    {
        let child: usize = self.nodes.len();
        if parent >= child {
            return None;
        }
        let mut path = base_dir.to_string();
        path.append("/transmissions/");
        match &data {
            Some(sub) => path.append(sub.as_str()),
            None => {},
        }
        let label = name.clone();
        let ghost before = self.nodes@;
        self.nodes.push(TransmissionSetNode::new(name, Some(path)));
        self.nodes[parent].add_branch(label, weight, child);
        proof {
            let nodes = self.nodes@;
            assert forall|q: int, b: int|
                0 <= q < nodes.len() && 0 <= b < nodes[q].branches@.len() implies q < (
            #[trigger] nodes[q].branches@[b]).child < nodes.len() by {
                if q == parent {
                    if b < before[q].branches@.len() {
                        assert(nodes[q].branches@[b] == before[q].branches@[b]);
                    }
                } else if q < before.len() {
                    assert(nodes[q] == before[q]);
                    assert(nodes[q].branches@[b] == before[q].branches@[b]);
                }
            }
            if is_tree(before) {
                assert(set_added(before, nodes, parent as int));
                law_added_sets_form_a_tree(before, nodes, parent as int);
            }
        }
        Some(child)
    }

    /// Descends from the node at `start`: at each node whose branches weigh
    /// anything, draws below the sum of their weights and follows the branch
    /// on which the draw falls; stops at the first node whose branches weigh
    /// nothing, and returns its position. Where `start` is no node there is
    /// no descent.
    pub fn traverse(&self, start: usize, rng: &mut StdRng) -> (end: Option<usize>)
        requires
            self.inv(),
        ensures
            start >= self@.len() ==> end is None,
            start < self@.len() ==> end is Some,
            end matches Some(leaf) ==> exists|path: Seq<int>|
                #[trigger] is_descent(self@, path) && path[0] == start && path.last() == leaf,
    {
        if start >= self.nodes.len() {
            return None;
        }
        let mut at: usize = start;
        let ghost mut path: Seq<int> = seq![start as int];
        loop
            invariant
                arena_ok(self.nodes@),
                at < self.nodes.len(),
                path.len() > 0,
                path[0] == start,
                path.last() == at,
                forall|k: int| 0 <= k < path.len() ==> 0 <= #[trigger] path[k] < self.nodes.len(),
                forall|k: int|
                    0 <= k < path.len() - 1 ==> steps_to(
                        self.nodes@[path[k]],
                        #[trigger] path[k + 1],
                    ),
            decreases self.nodes.len() - at,
        {
            let total: u128 = self.nodes[at].total_weight();
            if total == 0 {
                proof {
                    assert(is_descent(self@, path));
                }
                return Some(at);
            }
            let r: u128 = draw_between(rng, 0, total - 1);
            match self.nodes[at].pick_branch(r) {
                Some(b) => {
                    let child: usize = self.nodes[at].branches[b].child;
                    proof {
                        let node = self.nodes@[at as int];
                        assert(node.weights()[b as int] == node.branches@[b as int].weight);
                        assert(steps_to(node, child as int));
                        let longer = path.push(child as int);
                        assert forall|k: int| 0 <= k < longer.len() - 1 implies steps_to(
                            self.nodes@[longer[k]],
                            #[trigger] longer[k + 1],
                        ) by {
                            if k < path.len() - 1 {
                                assert(longer[k + 1] == path[k + 1]);
                            }
                        }
                        path = longer;
                    }
                    at = child;
                },
                None => {
                    return Some(at);
                },
            }
        }
    }

    /// Chooses a node by descent from the root.
    pub fn choose_leaf(&self, rng: &mut StdRng) -> (chosen: &TransmissionSetNode)
        requires
            self.inv(),
        ensures
            exists|path: Seq<int>| #[trigger]
                is_descent(self@, path) && path[0] == 0 && *chosen == self@[path.last()],
    {
        match self.traverse(0, rng) {
            Some(leaf) => {
                proof {
                    let path = choose|path: Seq<int>|
                        #[trigger] is_descent(self@, path) && path[0] == 0 && path.last() == leaf;
                    assert(is_descent(self@, path) && path[0] == 0 && self.nodes@[leaf as int]
                        == self@[path.last()]);
                }
                &self.nodes[leaf]
            },
            None => &self.nodes[0],
        }
    }
}

/// The path of a set's data: `base_dir`, then `/transmissions/`, then what
/// the set names as its data, if anything.
pub open spec fn set_path(base_dir: Seq<char>, data: Option<String>) -> Seq<char> {
    match data {
        Some(sub) => base_dir + "/transmissions/"@ + sub@,
        None => base_dir + "/transmissions/"@,
    }
}

} // verus!
