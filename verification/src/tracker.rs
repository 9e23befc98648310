//! Kinds of tracked content and the progress database that tracks them.
use vstd::prelude::*;

use crate::text::{lowercase, to_lowercase};

verus! {

/// The nature of a tracked piece of content.
#[derive(Clone, Copy, Debug, PartialEq, Eq)]
pub enum NodeType {
    /// A standard post (read/unread only).
    Article,
    /// A dictionary entry (pure SRS memorisation).
    Lexicon,
    /// A course module (requires completion, optional SRS).
    Lesson,
}

impl NodeType {
    /// The kind a type name gives, compared lower-cased: "lesson", "lexicon";
    /// anything else is an article.
    pub fn from_name(name: &str) -> (r: NodeType)
        ensures
            lowercase(name@) == "lesson"@ ==> r == NodeType::Lesson,
            lowercase(name@) == "lexicon"@ ==> r == NodeType::Lexicon,
            lowercase(name@) != "lesson"@ && lowercase(name@) != "lexicon"@ ==> r == NodeType::Article,
    {
        proof {
            reveal_strlit("lesson");
            reveal_strlit("lexicon");
            assert("lesson"@[2] != "lexicon"@[2]);
        }
        let lower = to_lowercase(name);
        if crate::auth::str_eq(lower.as_str(), "lesson") {
            NodeType::Lesson
        } else if crate::auth::str_eq(lower.as_str(), "lexicon") {
            NodeType::Lexicon
        } else {
            NodeType::Article
        }
    }

    /// Whether nodes of this kind carry SRS data when first tracked.
    pub fn tracks_srs(self) -> (r: bool)
        ensures
            r == (self == NodeType::Lexicon || self == NodeType::Lesson),
    {
        match self {
            NodeType::Article => false,
            NodeType::Lexicon => true,
            NodeType::Lesson => true,
        }
    }
}

/// The universal tracking object saved in the progress database. `S` is
/// the spaced-repetition data a node may carry.
#[derive(Clone, Debug)]
pub struct TrackedNode<S> {
    pub id: String,
    pub parent_id: Option<String>,
    pub node_type: NodeType,
    pub is_completed: bool,
    pub srs: Option<S>,
}

/// `n` marked complete, all else kept.
pub open spec fn completed<S>(n: TrackedNode<S>) -> TrackedNode<S> {
    TrackedNode {
        id: n.id,
        parent_id: n.parent_id,
        node_type: n.node_type,
        is_completed: true,
        srs: n.srs,
    }
}

/// `n` with new spaced-repetition data `s`, all else kept.
pub open spec fn with_srs<S>(n: TrackedNode<S>, s: S) -> TrackedNode<S> {
    TrackedNode {
        id: n.id,
        parent_id: n.parent_id,
        node_type: n.node_type,
        is_completed: n.is_completed,
        srs: Some(s),
    }
}

impl<S> TrackedNode<S> {
    /// Marks an article or lesson as complete.
    pub fn mark_complete(&mut self)
        ensures
            *final(self) == completed(*old(self)),
    {
        self.is_completed = true;
    }
}

/// The error text of `Vault::mark_completed` for an unknown id.
pub open spec fn not_in_vault_msg(id: Seq<char>) -> Seq<char> {
    "Node ID '"@ + id + "' not found in Vault."@
}

/// The error text of `Vault::process_review` for an unknown id.
pub open spec fn not_found_msg(id: Seq<char>) -> Seq<char> {
    "Node ID '"@ + id + "' not found."@
}

/// The error text of `Vault::process_review` for a node without SRS data.
pub open spec fn no_srs_msg(id: Seq<char>) -> Seq<char> {
    "Node ID '"@ + id + "' does not have SRS data attached."@
}

/// The progress database: tracked nodes, one per id.
pub struct Vault<S> {
    nodes: Vec<TrackedNode<S>>,
}

/// The ids of a list of nodes, in order.
pub open spec fn ids_of<S>(nodes: Seq<TrackedNode<S>>) -> Seq<Seq<char>> {
    nodes.map_values(|n: TrackedNode<S>| n.id@)
}

/// The nodes of a list with distinct ids, keyed by id.
pub open spec fn map_of<S>(nodes: Seq<TrackedNode<S>>) -> Map<Seq<char>, TrackedNode<S>> {
    Map::new(
        |k: Seq<char>| ids_of(nodes).contains(k),
        |k: Seq<char>| nodes[ids_of(nodes).index_of(k)],
    )
}

proof fn lemma_index_of_unique(ids: Seq<Seq<char>>, k: Seq<char>, j: int)
    requires
        ids.no_duplicates(),
        0 <= j < ids.len(),
        ids[j] == k,
    ensures
        ids.contains(k),
        ids.index_of(k) == j,
{
    assert(ids.contains(k));
}

proof fn lemma_update_same_id<S>(nodes: Seq<TrackedNode<S>>, i: int, node: TrackedNode<S>)
    requires
        ids_of(nodes).no_duplicates(),
        0 <= i < nodes.len(),
        node.id@ == nodes[i].id@,
    ensures
        ids_of(nodes.update(i, node)) == ids_of(nodes),
        map_of(nodes.update(i, node)) == map_of(nodes).insert(node.id@, node),
{
    let new_nodes = nodes.update(i, node);
    let key = node.id@;
    assert(ids_of(new_nodes) =~= ids_of(nodes));
    assert(ids_of(nodes)[i] == key);
    assert forall|k: Seq<char>| #[trigger] ids_of(new_nodes).contains(k) implies map_of(new_nodes)[k]
        == map_of(nodes).insert(key, node)[k] by {
        if k == key {
            lemma_index_of_unique(ids_of(nodes), k, i);
        }
    }
    assert(map_of(new_nodes) =~= map_of(nodes).insert(key, node));
}

/// The ids of a list of nodes are a finite set, the domain of its map.
proof fn lemma_map_of_dom<S>(nodes: Seq<TrackedNode<S>>)
    ensures
        map_of(nodes).dom() == ids_of(nodes).to_set(),
        map_of(nodes).dom().finite(),
{
    assert(map_of(nodes).dom() =~= ids_of(nodes).to_set());
    vstd::seq_lib::seq_to_set_is_finite(ids_of(nodes));
}

/// Law: a progress database tracks finitely many nodes.
pub proof fn lemma_vault_finite<S>(v: Vault<S>)
    ensures
        v@.dom().finite(),
{
    lemma_map_of_dom(v.nodes@);
}

impl<S> View for Vault<S> {
    type V = Map<Seq<char>, TrackedNode<S>>;

    closed spec fn view(&self) -> Map<Seq<char>, TrackedNode<S>> {
        map_of(self.nodes@)
    }
}

impl<S> Vault<S> {
    #[verifier::type_invariant]
    spec fn ids_distinct(self) -> bool {
        ids_of(self.nodes@).no_duplicates()
    }

    /// An empty vault.
    pub fn new() -> (r: Self)
        ensures
            r@ == Map::<Seq<char>, TrackedNode<S>>::empty(),
            r@.len() == 0,
    {
        let r = Vault { nodes: Vec::new() };
        assert(r@ =~= Map::<Seq<char>, TrackedNode<S>>::empty());
        r
    }

    /// The position of the node with `id`, if any.
    fn find(&self, id: &str) -> (r: Option<usize>)
        ensures
            r matches Some(i) ==> i < self.nodes@.len() && self.nodes@[i as int].id@ == id@
                && self@.contains_key(id@) && self@[id@] == self.nodes@[i as int],
            r is None ==> !self@.contains_key(id@),
    {
        proof {
            use_type_invariant(self);
        }
        let n = self.nodes.len();
        let mut i: usize = 0;
        while i < n
            invariant
                n == self.nodes@.len(),
                i <= n,
                ids_of(self.nodes@).no_duplicates(),
                forall|j: int| 0 <= j < i ==> (#[trigger] self.nodes@[j]).id@ != id@,
            decreases n - i,
        {
            if crate::auth::str_eq(self.nodes[i].id.as_str(), id) {
                proof {
                    lemma_index_of_unique(ids_of(self.nodes@), id@, i as int);
                }
                return Some(i);
            }
            i = i + 1;
        }
        proof {
            if ids_of(self.nodes@).contains(id@) {
                let j = choose|j: int| 0 <= j < n && ids_of(self.nodes@)[j] == id@;
                assert(self.nodes@[j].id@ == id@);
            }
        }
        None
    }

    /// Inserts `node`, replacing any node with the same id.
    pub fn insert_node(&mut self, node: TrackedNode<S>)
        ensures
            final(self)@ == old(self)@.insert(node.id@, node),
            final(self)@.len() == old(self)@.len() + if old(self)@.contains_key(node.id@) {
                0int
            } else {
                1int
            },
    {
        proof {
            use_type_invariant(&*self);
        }
        let ghost old_nodes = self.nodes@;
        let ghost key = node.id@;
        let pos = self.find(node.id.as_str());
        let mut nodes: Vec<TrackedNode<S>> = Vec::new();
        std::mem::swap(&mut nodes, &mut self.nodes);
        match pos {
            Some(i) => {
                nodes.remove(i);
                nodes.insert(i, node);
                proof {
                    assert(nodes@ =~= old_nodes.update(i as int, node));
                    lemma_update_same_id(old_nodes, i as int, node);
                }
            },
            None => {
                nodes.push(node);
                proof {
                    let ids0 = ids_of(old_nodes);
                    let ids1 = ids_of(nodes@);
                    assert(ids1 =~= ids0.push(key));
                    assert(!ids0.contains(key));
                    assert(ids1.no_duplicates()) by {
                        assert forall|a: int, b: int|
                            0 <= a < ids1.len() && 0 <= b < ids1.len() && a != b implies ids1[a] != ids1[b] by {
                            if a == ids0.len() as int {
                                assert(ids0[b] == ids1[b]);
                            } else if b == ids0.len() as int {
                                assert(ids0[a] == ids1[a]);
                            }
                        }
                    }
                    assert forall|k: Seq<char>| #[trigger] ids1.contains(k) implies map_of(nodes@)[k]
                        == map_of(old_nodes).insert(key, node)[k] by {
                        if k == key {
                            lemma_index_of_unique(ids1, k, ids0.len() as int);
                        } else {
                            let j = ids1.index_of(k);
                            assert(ids0[j] == k);
                            lemma_index_of_unique(ids0, k, j);
                        }
                    }
                    assert forall|k: Seq<char>| #[trigger] map_of(old_nodes).insert(key, node).contains_key(k)
                        implies ids1.contains(k) by {
                        if k == key {
                            assert(ids1[ids0.len() as int] == key);
                        } else {
                            let j = ids0.index_of(k);
                            assert(ids1[j] == k);
                        }
                    }
                    assert(map_of(nodes@) =~= map_of(old_nodes).insert(key, node));
                }
            },
        }
        proof {
            lemma_map_of_dom(old_nodes);
            vstd::set::axiom_set_insert_len(map_of(old_nodes).dom(), key);
            assert(map_of(old_nodes).insert(key, node).dom() == map_of(old_nodes).dom().insert(key));
        }
        self.nodes = nodes;
    }

    /// The node with `id`, if tracked.
    pub fn get_node(&self, id: &str) -> (r: Option<&TrackedNode<S>>)
        ensures
            self@.contains_key(id@) ==> r == Some(&self@[id@]),
            !self@.contains_key(id@) ==> r is None,
    {
        match self.find(id) {
            Some(i) => Some(&self.nodes[i]),
            None => None,
        }
    }

    /// Marks the node with `id` complete, or says that no such node is tracked.
    pub fn mark_completed(&mut self, id: &str) -> (r: Result<(), String>)
        ensures
            old(self)@.contains_key(id@) ==> r is Ok && final(self)@ == old(self)@.insert(
                id@,
                completed(old(self)@[id@]),
            ),
            !old(self)@.contains_key(id@) ==> (r matches Err(msg) && msg@ == not_in_vault_msg(id@))
                && final(self)@ == old(self)@,
    {
        match self.find(id) {
            Some(i) => {
                proof {
                    use_type_invariant(&*self);
                }
                let ghost old_nodes = self.nodes@;
                let mut nodes: Vec<TrackedNode<S>> = Vec::new();
                std::mem::swap(&mut nodes, &mut self.nodes);
                let mut node = nodes.remove(i);
                node.mark_complete();
                nodes.insert(i, node);
                proof {
                    assert(nodes@ =~= old_nodes.update(i as int, node));
                    lemma_update_same_id(old_nodes, i as int, node);
                }
                self.nodes = nodes;
                Ok(())
            },
            None => Err(String::from_str("Node ID '").concat(id).concat("' not found in Vault.")),
        }
    }
    /// Applies one review to the SRS data of the node with `id`. `review` is the
    /// scheduling step (it gets the current data and gives the next); the node
    /// must be tracked and carry SRS data.
    pub fn process_review<F: FnOnce(S) -> S>(&mut self, id: &str, review: F) -> (r: Result<(), String>)
        requires
            forall|s: S| #[trigger] review.requires((s,)),
        ensures
            !old(self)@.contains_key(id@) ==> (r matches Err(msg) && msg@ == not_found_msg(id@))
                && final(self)@ == old(self)@,
            old(self)@.contains_key(id@) && old(self)@[id@].srs is None ==> (r matches Err(msg)
                && msg@ == no_srs_msg(id@)) && final(self)@ == old(self)@,
            old(self)@.contains_key(id@) && old(self)@[id@].srs is Some ==> r is Ok && exists|s: S|
                #[trigger] review.ensures((old(self)@[id@].srs->0,), s) && final(self)@ == old(
                    self,
                )@.insert(id@, with_srs(old(self)@[id@], s)),
            old(self)@.contains_key(id@) && old(self)@[id@].srs is Some ==> {
                &&& final(self)@.contains_key(id@)
                &&& final(self)@[id@].is_completed == old(self)@[id@].is_completed
                &&& final(self)@[id@].id == old(self)@[id@].id
                &&& final(self)@[id@].parent_id == old(self)@[id@].parent_id
                &&& final(self)@[id@].node_type == old(self)@[id@].node_type
                &&& final(self)@[id@].srs is Some
                &&& review.ensures((old(self)@[id@].srs->0,), final(self)@[id@].srs->0)
                &&& final(self)@.dom() == old(self)@.dom()
                &&& forall|k: Seq<char>| k != id@ && #[trigger] old(self)@.contains_key(k) ==> final(self)@[k] == old(self)@[k]
            },
    {
        let pos = self.find(id);
        let i = match pos {
            Some(i) => i,
            None => {
                return Err(String::from_str("Node ID '").concat(id).concat("' not found."));
            },
        };
        if self.nodes[i].srs.is_none() {
            return Err(
                String::from_str("Node ID '").concat(id).concat("' does not have SRS data attached."),
            );
        }
        proof {
            use_type_invariant(&*self);
        }
        let ghost old_nodes = self.nodes@;
        let mut nodes: Vec<TrackedNode<S>> = Vec::new();
        std::mem::swap(&mut nodes, &mut self.nodes);
        let node = nodes.remove(i);
        let TrackedNode { id: node_id, parent_id, node_type, is_completed, srs } = node;
        let next = review(srs.unwrap());
        let updated = TrackedNode { id: node_id, parent_id, node_type, is_completed, srs: Some(next) };
        nodes.insert(i, updated);
        proof {
            assert(nodes@ =~= old_nodes.update(i as int, updated));
            lemma_update_same_id(old_nodes, i as int, updated);
            assert(updated == with_srs(old_nodes[i as int], next));
        }
        self.nodes = nodes;
        proof {
            assert(self@.dom() =~= old(self)@.dom());
        }
        Ok(())
    }
    /// The tracked nodes, each once, in no particular order.
    pub fn nodes(&self) -> (r: &[TrackedNode<S>])
        ensures
            ids_of(r@).no_duplicates(),
            forall|i: int| 0 <= i < r@.len() ==> #[trigger] self@.contains_key(r@[i].id@) && self@[r@[i].id@] == r@[i],
            forall|k: Seq<char>| #[trigger] self@.contains_key(k) ==> exists|i: int| 0 <= i < r@.len() && r@[i].id@ == k,
    {
        proof {
            use_type_invariant(self);
            assert forall|i: int| 0 <= i < self.nodes@.len() implies #[trigger] self@.contains_key(self.nodes@[i].id@)
                && self@[self.nodes@[i].id@] == self.nodes@[i] by {
                lemma_index_of_unique(ids_of(self.nodes@), self.nodes@[i].id@, i);
            }
            assert forall|k: Seq<char>| #[trigger] self@.contains_key(k) implies exists|i: int|
                0 <= i < self.nodes@.len() && self.nodes@[i].id@ == k by {
                let j = ids_of(self.nodes@).index_of(k);
                assert(self.nodes@[j].id@ == k);
            }
        }
        self.nodes.as_slice()
    }

    /// How many nodes are tracked.
    pub fn len(&self) -> (r: usize)
        ensures
            r == self@.len(),
    {
        proof {
            use_type_invariant(self);
            let ids = ids_of(self.nodes@);
            assert(self@.dom() =~= ids.to_set());
            ids.unique_seq_to_set();
        }
        self.nodes.len()
    }

    /// How many tracked nodes are completed.
    pub fn completed_count(&self) -> (r: usize)
        ensures
            r == self@.dom().filter(|k: Seq<char>| self@[k].is_completed).len(),
    {
        proof {
            use_type_invariant(self);
        }
        let ghost nodes = self.nodes@;
        let ghost ids = ids_of(nodes);
        let n = self.nodes.len();
        let mut count: usize = 0;
        let mut i: usize = 0;
        let ghost mut seen: Set<Seq<char>> = Set::empty();
        while i < n
            invariant
                n == nodes.len(),
                nodes == self.nodes@,
                ids == ids_of(nodes),
                ids.no_duplicates(),
                i <= n,
                seen.finite(),
                seen.len() == count,
                count <= i,
                seen == Set::new(
                    |k: Seq<char>| exists|j: int| 0 <= j < i && #[trigger] ids[j] == k && nodes[j].is_completed,
                ),
            decreases n - i,
        {
            if self.nodes[i].is_completed {
                proof {
                    assert(!seen.contains(ids[i as int])) by {
                        if seen.contains(ids[i as int]) {
                            let j = choose|j: int| 0 <= j < i && #[trigger] ids[j] == ids[i as int] && nodes[j].is_completed;
                            assert(ids[j] == ids[i as int]);
                        }
                    }
                    let next = seen.insert(ids[i as int]);
                    assert(next =~= Set::new(
                        |k: Seq<char>| exists|j: int| 0 <= j < i + 1 && #[trigger] ids[j] == k && nodes[j].is_completed,
                    )) by {
                        assert forall|k: Seq<char>| next.contains(k) implies exists|j: int|
                            0 <= j < i + 1 && #[trigger] ids[j] == k && nodes[j].is_completed by {
                            if k == ids[i as int] {
                                assert(ids[i as int] == k);
                            }
                        }
                    }
                    seen = next;
                }
                count = count + 1;
            } else {
                proof {
                    let next = Set::new(
                        |k: Seq<char>| exists|j: int| 0 <= j < i + 1 && #[trigger] ids[j] == k && nodes[j].is_completed,
                    );
                    assert(seen =~= next) by {
                        assert forall|k: Seq<char>| next.contains(k) implies seen.contains(k) by {
                            let j = choose|j: int| 0 <= j < i + 1 && #[trigger] ids[j] == k && nodes[j].is_completed;
                            assert(j != i);
                        }
                    }
                }
            }
            i = i + 1;
        }
        proof {
            let target = self@.dom().filter(|k: Seq<char>| self@[k].is_completed);
            assert(seen =~= target) by {
                assert forall|k: Seq<char>| seen.contains(k) implies target.contains(k) by {
                    let j = choose|j: int| 0 <= j < n && #[trigger] ids[j] == k && nodes[j].is_completed;
                    lemma_index_of_unique(ids, k, j);
                }
                assert forall|k: Seq<char>| target.contains(k) implies seen.contains(k) by {
                    let j = ids.index_of(k);
                    assert(ids[j] == k);
                }
            }
        }
        count
    }
}

impl<S> Default for Vault<S> {
    fn default() -> (r: Self)
        ensures
            r@ == Map::<Seq<char>, TrackedNode<S>>::empty(),
    {
        Self::new()
    }
}

/// Law (a write is what a later read gives back): after `insert_node(node)`,
/// `get_node` of its id finds exactly `node`, and every other id is found as
/// before.
pub proof fn lemma_insert_then_get<S>(before: Map<Seq<char>, TrackedNode<S>>, node: TrackedNode<S>, other: Seq<char>)
    requires
        other != node.id@,
    ensures
        before.insert(node.id@, node).contains_key(node.id@),
        before.insert(node.id@, node)[node.id@] == node,
        before.insert(node.id@, node).contains_key(other) == before.contains_key(other),
        before.contains_key(other) ==> before.insert(node.id@, node)[other] == before[other],
{
}

/// Law (a review changes only the SRS data): the reviewed node keeps its id,
/// parent, kind and completion, and carries the new SRS data; a review after
/// completion leaves the node complete, and completion after a review keeps
/// the reviewed data.
pub proof fn lemma_review_keeps_node<S>(n: TrackedNode<S>, s: S)
    ensures
        with_srs(n, s).is_completed == n.is_completed,
        with_srs(n, s).id == n.id,
        with_srs(n, s).parent_id == n.parent_id,
        with_srs(n, s).node_type == n.node_type,
        with_srs(n, s).srs == Some(s),
        with_srs(completed(n), s) == completed(with_srs(n, s)),
        with_srs(completed(n), s).is_completed,
{
}

/// Law (completion is idempotent and touches nothing else): marking a node
/// complete twice is marking it once, and keeps its id, parent, kind and
/// SRS data.
pub proof fn lemma_complete_idempotent<S>(n: TrackedNode<S>)
    ensures
        completed(completed(n)) == completed(n),
        completed(n).is_completed,
        completed(n).id == n.id,
        completed(n).parent_id == n.parent_id,
        completed(n).node_type == n.node_type,
        completed(n).srs == n.srs,
{
}

} // verus!
