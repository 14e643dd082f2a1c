//! The hierarchy builder: converts each analyzed file into a tree node and
//! lazily materializes any missing ancestor-directory nodes, deduplicated by
//! path label, in four parallel result arrays.

use vstd::prelude::*;

use crate::paths::lemma_join_step;
use crate::paths::spec_join;
use crate::paths::join_range;
use crate::strutil::str_eq;
use crate::strutil::views_of;

verus! {

/// One tree node: a label, the label of its containing directory (empty for a
/// root), a complexity score and a line count.
pub ghost struct SpecNode {
    pub label: Seq<char>,
    pub parent: Seq<char>,
    pub cc: u64,
    pub nloc: u64,
}

/// One successfully analyzed file, as the hierarchy builder sees it: its path
/// components relative to (and including) its topmost analyzed ancestor, its
/// complexity score and its line count.
pub ghost struct SpecEntry {
    pub comps: Seq<Seq<char>>,
    pub cc: u64,
    pub nloc: u64,
}

/// An analyzed file handed to the hierarchy builder.
pub struct AnalyzedFile {
    /// The file's path components under the analysis root, topmost ancestor
    /// first, filename last.
    pub components: Vec<String>,
    /// The file's complexity score.
    pub cc: u64,
    /// The file's line count.
    pub nloc: u64,
}

impl View for AnalyzedFile {
    type V = SpecEntry;

    open spec fn view(&self) -> SpecEntry {
        SpecEntry { comps: views_of(self.components@), cc: self.cc, nloc: self.nloc }
    }
}

/// The node an entry contributes for the prefix of its first `j` components:
/// a directory node for a proper prefix, the file node itself for the whole
/// component list.
pub open spec fn node_at(e: SpecEntry, j: int) -> SpecNode {
    SpecNode {
        label: spec_join(e.comps.take(j)),
        parent: spec_join(e.comps.take(j - 1)),
        cc: if j == e.comps.len() {
            e.cc
        } else {
            0
        },
        nloc: if j == e.comps.len() {
            e.nloc
        } else {
            0
        },
    }
}

/// All nodes an entry contributes, ancestors first: one per non-empty prefix
/// of its component list.
pub open spec fn candidate_nodes(e: SpecEntry) -> Seq<SpecNode> {
    Seq::new(e.comps.len(), |k: int| node_at(e, k + 1))
}

/// Some node in the sequence carries this label.
pub open spec fn has_label(nodes: Seq<SpecNode>, label: Seq<char>) -> bool {
    exists|i: int| 0 <= i < nodes.len() && (#[trigger] nodes[i]).label == label
}

/// Insert-if-absent, keyed by label: the node set is append-only and never
/// takes a second node for a label already present.
pub open spec fn insert_model(nodes: Seq<SpecNode>, n: SpecNode) -> Seq<SpecNode> {
    if has_label(nodes, n.label) {
        nodes
    } else {
        nodes.push(n)
    }
}

/// Insert each candidate in turn.
pub open spec fn insert_all_model(nodes: Seq<SpecNode>, cands: Seq<SpecNode>) -> Seq<SpecNode>
    decreases cands.len(),
{
    if cands.len() == 0 {
        nodes
    } else {
        insert_model(insert_all_model(nodes, cands.drop_last()), cands.last())
    }
}

/// What processing one analyzed file does to the node set.
pub open spec fn add_entry_model(nodes: Seq<SpecNode>, e: SpecEntry) -> Seq<SpecNode> {
    insert_all_model(nodes, candidate_nodes(e))
}

/// The node set a sequence of analyzed files builds, in processing order.
pub open spec fn build_model(entries: Seq<SpecEntry>) -> Seq<SpecNode>
    decreases entries.len(),
{
    if entries.len() == 0 {
        Seq::empty()
    } else {
        add_entry_model(build_model(entries.drop_last()), entries.last())
    }
}

/// The node is one of the entry's candidates: its file node or one of its
/// ancestor-directory nodes.
pub open spec fn in_candidates(e: SpecEntry, n: SpecNode) -> bool {
    exists|k: int| 0 <= k < candidate_nodes(e).len() && #[trigger] candidate_nodes(e)[k] == n
}

/// Some entry of the run contributes this node.
pub open spec fn produced(entries: Seq<SpecEntry>, n: SpecNode) -> bool {
    exists|e: SpecEntry| #[trigger] entries.contains(e) && in_candidates(e, n)
}

/// Among everything the run's entries contribute, a label determines its
/// node: two candidate nodes with equal labels are equal. The files of a real
/// directory tree satisfy this — a label fixes the component prefix it joins,
/// and a path is a file or a directory, never both.
pub open spec fn label_determined(entries: Seq<SpecEntry>) -> bool {
    forall|n1: SpecNode, n2: SpecNode|
        #![trigger produced(entries, n1), produced(entries, n2)]
        produced(entries, n1) && produced(entries, n2) && n1.label == n2.label ==> n1 == n2
}

/// Inserting candidates if-absent accumulates exactly their union with what
/// was there, when equal labels always mean equal nodes.
proof fn lemma_insert_all_set(nodes: Seq<SpecNode>, cands: Seq<SpecNode>)
    requires
        forall|n: SpecNode, m: SpecNode|
            #![trigger nodes.contains(n), cands.contains(m)]
            nodes.contains(n) && cands.contains(m) && n.label == m.label ==> n == m,
        forall|m1: SpecNode, m2: SpecNode|
            #![trigger cands.contains(m1), cands.contains(m2)]
            cands.contains(m1) && cands.contains(m2) && m1.label == m2.label ==> m1 == m2,
    ensures
        forall|n: SpecNode|
            #[trigger] insert_all_model(nodes, cands).contains(n) <==> (nodes.contains(n)
                || cands.contains(n)),
    decreases cands.len(),
{
    if cands.len() == 0 {
        assert forall|n: SpecNode|
            #[trigger] insert_all_model(nodes, cands).contains(n) <==> (nodes.contains(n)
                || cands.contains(n)) by {
            assert(!cands.contains(n));
        }
    } else {
        let head = cands.drop_last();
        let x = cands.last();
        assert(cands.contains(x));
        assert forall|m: SpecNode| #[trigger] head.contains(m) implies cands.contains(m) by {
            let i = choose|i: int| 0 <= i < head.len() && head[i] == m;
            assert(cands[i] == m);
        }
        lemma_insert_all_set(nodes, head);
        let prev = insert_all_model(nodes, head);
        let result = insert_all_model(nodes, cands);
        assert(result == insert_model(prev, x));
        if has_label(prev, x.label) {
            let w = choose|i: int| 0 <= i < prev.len() && (#[trigger] prev[i]).label == x.label;
            assert(prev.contains(prev[w]));
            assert(prev[w] == x);
            assert(result == prev);
        }
        assert forall|n: SpecNode| #[trigger] result.contains(n) implies (nodes.contains(n)
            || cands.contains(n)) by {
            if !prev.contains(n) {
                // only the pushed candidate is new
                let i = choose|i: int| 0 <= i < result.len() && result[i] == n;
                assert(n == x);
            } else {
                if head.contains(n) {
                    let i = choose|i: int| 0 <= i < head.len() && head[i] == n;
                    assert(cands[i] == n);
                }
            }
        }
        assert forall|n: SpecNode| nodes.contains(n) || cands.contains(n) implies #[trigger] result
            .contains(n) by {
            if cands.contains(n) && n != x {
                let i = choose|i: int| 0 <= i < cands.len() && cands[i] == n;
                assert(head[i] == n);
                assert(head.contains(n));
            }
            assert(prev.contains(n) || n == x);
            if prev.contains(n) {
                let i = choose|i: int| 0 <= i < prev.len() && prev[i] == n;
                if result != prev {
                    assert(result[i] == n);
                }
            } else {
                if !has_label(prev, x.label) {
                    assert(result.last() == x);
                }
            }
        }
    }
}

/// What one run builds, seen as an unordered collection: exactly the nodes
/// its entries contribute, whatever the processing order, when labels
/// determine nodes.
proof fn lemma_build_set(entries: Seq<SpecEntry>)
    requires
        label_determined(entries),
    ensures
        forall|n: SpecNode|
            #[trigger] build_model(entries).contains(n) <==> produced(entries, n),
    decreases entries.len(),
{
    if entries.len() == 0 {
        assert forall|n: SpecNode|
            #[trigger] build_model(entries).contains(n) <==> produced(entries, n) by {
            assert(!build_model(entries).contains(n));
            if produced(entries, n) {
                let e = choose|e: SpecEntry| #[trigger] entries.contains(e) && in_candidates(e, n);
                assert(false);
            }
        }
    } else {
        let prefix = entries.drop_last();
        let e = entries.last();
        assert(entries.contains(e));
        assert forall|f: SpecEntry| #[trigger] prefix.contains(f) implies entries.contains(f) by {
            let i = choose|i: int| 0 <= i < prefix.len() && prefix[i] == f;
            assert(entries[i] == f);
        }
        assert forall|n: SpecNode| #[trigger] produced(prefix, n) implies produced(entries, n) by {
            let f = choose|f: SpecEntry| #[trigger] prefix.contains(f) && in_candidates(f, n);
            assert(entries.contains(f));
        }
        assert(label_determined(prefix));
        lemma_build_set(prefix);
        let nodes = build_model(prefix);
        let cands = candidate_nodes(e);
        assert forall|m: SpecNode| #[trigger] cands.contains(m) implies produced(entries, m) by {
            let k = choose|k: int| 0 <= k < cands.len() && cands[k] == m;
            assert(in_candidates(e, m));
        }
        lemma_insert_all_set(nodes, cands);
        assert forall|n: SpecNode|
            #[trigger] build_model(entries).contains(n) <==> produced(entries, n) by {
            assert(build_model(entries) == insert_all_model(nodes, cands));
            if build_model(entries).contains(n) {
                if nodes.contains(n) {
                    assert(produced(prefix, n));
                } else {
                    assert(cands.contains(n));
                }
            }
            if produced(entries, n) {
                let f = choose|f: SpecEntry| #[trigger] entries.contains(f) && in_candidates(f, n);
                let i = choose|i: int| 0 <= i < entries.len() && entries[i] == f;
                if i < entries.len() - 1 {
                    assert(prefix[i] == f);
                    assert(prefix.contains(f));
                    assert(produced(prefix, n));
                    assert(nodes.contains(n));
                } else {
                    assert(f == e);
                    let k = choose|k: int|
                        0 <= k < candidate_nodes(f).len() && #[trigger] candidate_nodes(f)[k] == n;
                    assert(cands[k] == n);
                    assert(cands.contains(n));
                }
            }
        }
    }
}

/// Law: two runs over the same collection of analyzed files — however the
/// walk ordered them — build equal node sets as unordered collections,
/// provided labels determine nodes across the run (as they do for the files
/// of one directory tree).
pub proof fn lemma_build_order_independent(e1: Seq<SpecEntry>, e2: Seq<SpecEntry>)
    requires
        forall|e: SpecEntry| #[trigger] e1.contains(e) <==> #[trigger] e2.contains(e),
        label_determined(e1),
    ensures
        forall|n: SpecNode|
            #[trigger] build_model(e1).contains(n) <==> #[trigger] build_model(e2).contains(n),
{
    assert forall|n: SpecNode| #[trigger] produced(e1, n) implies produced(e2, n) by {
        let f = choose|f: SpecEntry| #[trigger] e1.contains(f) && in_candidates(f, n);
        assert(e2.contains(f));
    }
    assert forall|n: SpecNode| #[trigger] produced(e2, n) implies produced(e1, n) by {
        let f = choose|f: SpecEntry| #[trigger] e2.contains(f) && in_candidates(f, n);
        assert(e1.contains(f));
    }
    assert(label_determined(e2));
    lemma_build_set(e1);
    lemma_build_set(e2);
}

/// The union of file nodes and directory nodes produced by one analysis run,
/// kept as four parallel arrays.
pub struct NodeSet {
    nlocs: Vec<u64>,
    ccs: Vec<u64>,
    labels: Vec<String>,
    parents: Vec<String>,
}

impl NodeSet {
    /// The nodes held, in insertion order.
    pub closed spec fn nodes(&self) -> Seq<SpecNode> {
        Seq::new(
            self.labels@.len() as nat,
            |i: int|
                SpecNode {
                    label: self.labels@[i]@,
                    parent: self.parents@[i]@,
                    cc: self.ccs@[i],
                    nloc: self.nlocs@[i],
                },
        )
    }

    /// The node set's invariant: the four arrays run in parallel, labels are
    /// unique within one run, every non-empty parent is the label of another
    /// node, and a node's label is strictly longer than its non-empty parent
    /// (so the owner of the parent label is always a different node).
    pub closed spec fn wf(&self) -> bool {
        &&& self.ccs@.len() == self.labels@.len()
        &&& self.nlocs@.len() == self.labels@.len()
        &&& self.parents@.len() == self.labels@.len()
        &&& forall|i: int, j: int|
            0 <= i < j < self.nodes().len() ==> (#[trigger] self.nodes()[i]).label != (
            #[trigger] self.nodes()[j]).label
        &&& forall|i: int|
            0 <= i < self.nodes().len() ==> ((#[trigger] self.nodes()[i]).parent.len() == 0
                || has_label(self.nodes(), self.nodes()[i].parent))
        &&& forall|i: int|
            0 <= i < self.nodes().len() ==> ((#[trigger] self.nodes()[i]).parent.len() == 0
                || self.nodes()[i].parent.len() < self.nodes()[i].label.len())
    }

    /// An empty node set.
    pub fn new() -> (ns: NodeSet)
        ensures
            ns.wf(),
            ns.nodes() == Seq::<SpecNode>::empty(),
    {
        let ns = NodeSet { nlocs: Vec::new(), ccs: Vec::new(), labels: Vec::new(), parents: Vec::new() };
        proof {
            assert(ns.nodes() =~= Seq::<SpecNode>::empty());
        }
        ns
    }

    /// How many nodes the run has produced so far.
    pub fn len(&self) -> (n: usize)
        ensures
            n == self.nodes().len(),
    {
        self.labels.len()
    }

    /// Whether some node already carries this label.
    pub fn contains_label(&self, label: &str) -> (r: bool)
        ensures
            r == has_label(self.nodes(), label@),
    {
        for i in 0..self.labels.len()
            invariant
                self.labels@.len() == self.nodes().len(),
                forall|j: int| 0 <= j < i ==> (#[trigger] self.nodes()[j]).label != label@,
        {
            if str_eq(self.labels[i].as_str(), label) {
                assert((self.nodes()[i as int]).label == label@);
                return true;
            }
            assert((self.nodes()[i as int]).label == self.labels@[i as int]@);
        }
        false
    }

    /// Append one node unless its label is already taken.
    fn insert_node(&mut self, label: String, parent: String, cc: u64, nloc: u64)
        requires
            old(self).wf(),
            parent@.len() == 0 || (has_label(old(self).nodes(), parent@) && parent@.len()
                < label@.len()),
        ensures
            final(self).wf(),
            final(self).nodes() == insert_model(
                old(self).nodes(),
                SpecNode { label: label@, parent: parent@, cc: cc, nloc: nloc },
            ),
    {
        let ghost n = SpecNode { label: label@, parent: parent@, cc: cc, nloc: nloc };
        if self.contains_label(label.as_str()) {
            return ;
        }
        self.labels.push(label);
        self.parents.push(parent);
        self.ccs.push(cc);
        self.nlocs.push(nloc);
        proof {
            assert(self.nodes() =~= old(self).nodes().push(n));
            let m = self.nodes();
            let prev = old(self).nodes();
            assert forall|i: int|
                0 <= i < m.len() && (#[trigger] m[i]).parent.len() != 0 implies has_label(
                m,
                m[i].parent,
            ) by {
                if i < prev.len() {
                    let w = choose|k: int|
                        0 <= k < prev.len() && (#[trigger] prev[k]).label == prev[i].parent;
                    assert(m[w].label == m[i].parent);
                } else {
                    let w = choose|k: int|
                        0 <= k < prev.len() && (#[trigger] prev[k]).label == n.parent;
                    assert(m[w].label == m[i].parent);
                }
            }
        }
    }

    /// Process one analyzed file: walk its component prefixes from the
    /// topmost ancestor down, insert a directory node for each ancestor label
    /// not already present, and insert the file node itself the same way.
    pub fn add_entry(&mut self, file: &AnalyzedFile)
        requires
            old(self).wf(),
            file@.comps.len() >= 1,
        ensures
            final(self).wf(),
            final(self).nodes() == add_entry_model(old(self).nodes(), file@),
    {
        let ghost e = file@;
        let ghost cands = candidate_nodes(e);
        let count = file.components.len();
        let mut jj: usize = 0;
        proof {
            assert(cands.take(0) =~= Seq::<SpecNode>::empty());
        }
        while jj < count
            invariant
                self.wf(),
                jj < count ==> jj + 1 <= count,
                1 <= jj + 1 <= count + 1,
                count == e.comps.len(),
                e == file@,
                cands == candidate_nodes(e),
                self.nodes() == insert_all_model(old(self).nodes(), cands.take(jj as int)),
                forall|k: int|
                    1 <= k <= jj ==> has_label(self.nodes(), spec_join(e.comps.take(k))),
            decreases count - jj,
        {
            let j = jj + 1;
            let label = join_range(&file.components, 0, j);
            let parent = join_range(&file.components, 0, j - 1);
            let ghost prev = self.nodes();
            proof {
                assert(e.comps.subrange(0, j as int) =~= e.comps.take(j as int));
                assert(e.comps.subrange(0, j - 1) =~= e.comps.take(j - 1));
                if j >= 2 {
                    lemma_join_step(e.comps, j as int);
                    assert(parent@.len() < label@.len());
                } else {
                    assert(e.comps.take(0) =~= Seq::<Seq<char>>::empty());
                    assert(parent@.len() == 0);
                }
                assert(cands.take(j as int).drop_last() =~= cands.take(j - 1));
                assert(cands.take(j as int).last() == node_at(e, j as int));
            }
            if j == count {
                self.insert_node(label, parent, file.cc, file.nloc);
            } else {
                self.insert_node(label, parent, 0, 0);
            }
            proof {
                assert(self.nodes() == insert_model(prev, node_at(e, j as int)));
                assert(self.nodes() == insert_all_model(old(self).nodes(), cands.take(j as int)));
                // labels only accumulate, and this prefix's label is present now
                assert forall|k: int|
                    1 <= k < j + 1 implies has_label(
                    self.nodes(),
                    spec_join(e.comps.take(k)),
                ) by {
                    if k < j {
                        let w = choose|i: int|
                            0 <= i < prev.len() && (#[trigger] prev[i]).label == spec_join(
                                e.comps.take(k),
                            );
                        assert(self.nodes()[w].label == spec_join(e.comps.take(k)));
                    } else {
                        if has_label(prev, node_at(e, j as int).label) {
                            let w = choose|i: int|
                                0 <= i < prev.len() && (#[trigger] prev[i]).label == node_at(
                                    e,
                                    j as int,
                                ).label;
                            assert(self.nodes()[w].label == spec_join(e.comps.take(k)));
                        } else {
                            assert(self.nodes().last().label == spec_join(e.comps.take(k)));
                        }
                    }
                }
            }
            jj = jj + 1;
        }
        proof {
            assert(cands.take(count as int) =~= cands);
        }
    }

    /// Hand the four parallel arrays over for aggregation: line counts,
    /// complexity scores, labels and parents, in node order.
    pub fn extract(self) -> (r: (Vec<u64>, Vec<u64>, Vec<String>, Vec<String>))
        requires
            self.wf(),
        ensures
            r.0@.len() == self.nodes().len(),
            r.1@.len() == self.nodes().len(),
            r.2@.len() == self.nodes().len(),
            r.3@.len() == self.nodes().len(),
            forall|i: int|
                #![trigger self.nodes()[i]]
                0 <= i < self.nodes().len() ==> {
                    &&& r.0@[i] == self.nodes()[i].nloc
                    &&& r.1@[i] == self.nodes()[i].cc
                    &&& r.2@[i]@ == self.nodes()[i].label
                    &&& r.3@[i]@ == self.nodes()[i].parent
                },
    {
        let NodeSet { nlocs, ccs, labels, parents } = self;
        (nlocs, ccs, labels, parents)
    }

    /// The label of the node at one position.
    pub fn label_at(&self, i: usize) -> (r: &String)
        requires
            i < self.nodes().len(),
        ensures
            r@ == self.nodes()[i as int].label,
    {
        &self.labels[i]
    }

    /// The parent label of the node at one position.
    pub fn parent_at(&self, i: usize) -> (r: &String)
        requires
            i < self.nodes().len(),
            self.wf(),
        ensures
            r@ == self.nodes()[i as int].parent,
    {
        &self.parents[i]
    }

    /// The complexity score of the node at one position.
    pub fn cc_at(&self, i: usize) -> (r: u64)
        requires
            i < self.nodes().len(),
            self.wf(),
        ensures
            r == self.nodes()[i as int].cc,
    {
        self.ccs[i]
    }

    /// The line count of the node at one position.
    pub fn nloc_at(&self, i: usize) -> (r: u64)
        requires
            i < self.nodes().len(),
            self.wf(),
        ensures
            r == self.nodes()[i as int].nloc,
    {
        self.nlocs[i]
    }
}


/// The entries a list of analyzed files stands for.
pub open spec fn entries_of(files: Seq<AnalyzedFile>) -> Seq<SpecEntry> {
    files.map_values(|f: AnalyzedFile| f@)
}

/// Build the node set of a whole run from its analyzed files, in order.
pub fn build_node_set(files: &Vec<AnalyzedFile>) -> (ns: NodeSet)
    requires
        forall|i: int| 0 <= i < files@.len() ==> (#[trigger] files@[i])@.comps.len() >= 1,
    ensures
        ns.wf(),
        ns.nodes() == build_model(entries_of(files@)),
{
    let ghost entries = entries_of(files@);
    let mut ns = NodeSet::new();
    proof {
        assert(entries.take(0) =~= Seq::<SpecEntry>::empty());
    }
    for i in 0..files.len()
        invariant
            entries == entries_of(files@),
            forall|k: int| 0 <= k < files@.len() ==> (#[trigger] files@[k])@.comps.len() >= 1,
            ns.wf(),
            ns.nodes() == build_model(entries.take(i as int)),
    {
        proof {
            assert(entries.take(i + 1).drop_last() =~= entries.take(i as int));
            assert(entries.take(i + 1).last() == files@[i as int]@);
        }
        ns.add_entry(&files[i]);
    }
    proof {
        assert(entries.take(files@.len() as int) =~= entries);
    }
    ns
}

/// Law: labels are unique within one run: no two nodes of a well-formed node
/// set share a label.
pub proof fn lemma_labels_unique(ns: &NodeSet)
    requires
        ns.wf(),
    ensures
        forall|i: int, j: int|
            0 <= i < j < ns.nodes().len() ==> (#[trigger] ns.nodes()[i]).label != (
            #[trigger] ns.nodes()[j]).label,
{
}

/// Law: for every node of a well-formed node set whose parent is non-empty,
/// exactly one other node carries that parent as its label.
pub proof fn lemma_parent_unique(ns: &NodeSet, i: int)
    requires
        ns.wf(),
        0 <= i < ns.nodes().len(),
        ns.nodes()[i].parent.len() != 0,
    ensures
        exists|j: int|
            0 <= j < ns.nodes().len() && j != i
                && (#[trigger] ns.nodes()[j]).label == ns.nodes()[i].parent,
        forall|j: int, k: int|
            (0 <= j < ns.nodes().len() && 0 <= k < ns.nodes().len()
                && (#[trigger] ns.nodes()[j]).label == ns.nodes()[i].parent
                && (#[trigger] ns.nodes()[k]).label == ns.nodes()[i].parent) ==> j == k,
{
    let m = ns.nodes();
    let w = choose|j: int| 0 <= j < m.len() && (#[trigger] m[j]).label == m[i].parent;
    assert(m[i].parent.len() < m[i].label.len());
    assert(w != i);
    assert(0 <= w < m.len() && w != i && m[w].label == m[i].parent);
    assert forall|j: int, k: int|
        (0 <= j < m.len() && 0 <= k < m.len() && (#[trigger] m[j]).label == m[i].parent && (
        #[trigger] m[k]).label == m[i].parent) implies j == k by {
        if j < k {
            assert(m[j].label != m[k].label);
        } else if k < j {
            assert(m[k].label != m[j].label);
        }
    }
}

} // verus!
