//! The rendered listing of a walked tree, and the comparison of a source tree
//! with its replica, labelling each source file new, changed or unchanged.
use vstd::prelude::*;

use crate::fingerprint::FingerprintMap;
use crate::paths::FilePath;
use tree_flat::node::NodeId;
use std::collections::HashMap;
use tree_flat::tree::Tree;

verus! {

/// tree_flat's flat tree, held opaque; its nodes are named by `tree_nodes`.
#[verifier::external_type_specification]
#[verifier::external_body]
#[verifier::reject_recursive_types(T)]
pub struct ExTree<T>(Tree<T>);

/// The nodes a flat tree holds, in the order they were pushed: each node's
/// text, its level, and the index of its parent.
pub uninterp spec fn tree_nodes(t: Tree<String>) -> Seq<(Seq<char>, usize, usize)>;

/// The text that a flat tree with these nodes displays as: one line per node.
pub uninterp spec fn rendered_tree(nodes: Seq<(Seq<char>, usize, usize)>) -> Seq<char>;

/// Relies on tree_flat's `Tree::new`: a tree of the root alone, at level 0,
/// its parent index 0.
#[verifier::external_body]
fn tree_new(root: String) -> (r: Tree<String>)
    ensures
        tree_nodes(r) == seq![(root@, 0usize, 0usize)],
{
    Tree::new(root)
}

/// Relies on tree_flat's `Tree::push_with_level`: appends a node with its
/// level and its parent, and returns the new node's id; `NodeId::from_index`
/// and `NodeId::to_index` convert between ids and indexes (`from_index`
/// panics on `usize::MAX`).
#[verifier::external_body]
fn tree_push(t: &mut Tree<String>, data: String, level: usize, parent: usize) -> (r: usize)
    requires
        parent < usize::MAX,
    ensures
        tree_nodes(*final(t)) == tree_nodes(*old(t)).push((data@, level, parent)),
        r == tree_nodes(*old(t)).len(),
{
    t.push_with_level(data, level, NodeId::from_index(parent)).to_index()
}

/// Relies on tree_flat's `Display` for `Tree` (`Tree::print`): its text
/// depends on the nodes alone, and a tree whose only node is at level 0
/// prints as `. `, that node's text and a line break. `print` subtracts one
/// from the number of nodes, so the tree must not be empty.
#[verifier::external_body]
fn tree_render(t: &Tree<String>) -> (r: String)
    requires
        tree_nodes(*t).len() > 0,
    ensures
        r@ == rendered_tree(tree_nodes(*t)),
        tree_nodes(*t).len() == 1 && tree_nodes(*t)[0].1 == 0 ==> r@ == seq!['.', ' ']
            + tree_nodes(*t)[0].0 + seq!['\n'],
{
    format!("{}", t)
}

/// One entry of a walk: its name, its path below the walk's root, its depth
/// (the root is at depth 0) and whether it is a directory.
pub struct WalkEntry {
    pub name: String,
    pub rel: FilePath,
    pub depth: usize,
    pub is_dir: bool,
}

/// A source entry to compare, with the fingerprint of its content where it
/// was taken.
pub struct SourceEntry {
    pub entry: WalkEntry,
    pub fingerprint: Option<u64>,
}

/// A line to place in a listing: its label, its depth, and whether it is a
/// directory (which becomes the parent of what follows).
pub struct TreeItem {
    pub label: String,
    pub depth: usize,
    pub is_dir: bool,
}

impl View for TreeItem {
    type V = (Seq<char>, usize, bool);

    open spec fn view(&self) -> (Seq<char>, usize, bool) {
        (self.label@, self.depth, self.is_dir)
    }
}

/// The index of the last node at `level` among `nodes`, or -1 when none is.
pub open spec fn latest(nodes: Seq<(Seq<char>, usize, usize)>, level: int) -> int
    decreases nodes.len(),
{
    if nodes.len() == 0 {
        -1
    } else if nodes.last().1 == level {
        nodes.len() - 1
    } else {
        latest(nodes.drop_last(), level)
    }
}

/// The parent of a node at `depth` placed after `nodes`: the nearest earlier
/// node one level up, or the root when there is none.
pub open spec fn parent_for(nodes: Seq<(Seq<char>, usize, usize)>, depth: usize) -> usize {
    let p = latest(nodes, depth - 1);
    if p >= 0 {
        p as usize
    } else {
        0
    }
}

/// The nodes of a listing of `items` under `root`, and the number of files
/// placed. Items at depth 0 are passed over; each other item is placed at its
/// depth under the nearest earlier node one level up.
pub open spec fn grow(root: Seq<char>, items: Seq<(Seq<char>, usize, bool)>) -> (
    Seq<(Seq<char>, usize, usize)>,
    nat,
)
    decreases items.len(),
{
    if items.len() == 0 {
        (seq![(root, 0usize, 0usize)], 0)
    } else {
        let prev = grow(root, items.drop_last());
        let item = items.last();
        if item.1 == 0 {
            prev
        } else {
            (
                prev.0.push((item.0, item.1, parent_for(prev.0, item.1))),
                if item.2 {
                    prev.1
                } else {
                    prev.1 + 1
                },
            )
        }
    }
}

/// The number of files among `items` below the root.
pub open spec fn file_count(items: Seq<(Seq<char>, usize, bool)>) -> nat
    decreases items.len(),
{
    if items.len() == 0 {
        0
    } else {
        file_count(items.drop_last()) + if items.last().1 != 0 && !items.last().2 {
            1nat
        } else {
            0nat
        }
    }
}

/// Every node but the root sits one level below its parent, which comes
/// before it; only when no earlier node is one level up does the node hang
/// from the root instead.
pub open spec fn parents_one_level_up(nodes: Seq<(Seq<char>, usize, usize)>) -> bool {
    &&& nodes.len() > 0
    &&& nodes[0].1 == 0
    &&& forall|i: int| 1 <= i < nodes.len() ==> #[trigger] node_placed(nodes, i)
}

/// Node `i` sits one level below its parent, which comes before it, or hangs
/// from the root when no earlier node is one level up.
pub open spec fn node_placed(nodes: Seq<(Seq<char>, usize, usize)>, i: int) -> bool {
    &&& nodes[i].1 >= 1
    &&& nodes[i].2 < i
    &&& (nodes[nodes[i].2 as int].1 + 1 == nodes[i].1 || (nodes[i].2 == 0 && latest(
        nodes.take(i),
        nodes[i].1 - 1,
    ) < 0))
}

proof fn lemma_latest_bounds(nodes: Seq<(Seq<char>, usize, usize)>, level: int)
    ensures
        -1 <= latest(nodes, level) < nodes.len(),
        latest(nodes, level) >= 0 ==> nodes[latest(nodes, level)].1 == level,
    decreases nodes.len(),
{
    if nodes.len() > 0 && nodes.last().1 != level {
        lemma_latest_bounds(nodes.drop_last(), level);
    }
}

proof fn lemma_grow_bounds(root: Seq<char>, items: Seq<(Seq<char>, usize, bool)>)
    ensures
        0 < grow(root, items).0.len() <= items.len() + 1,
        grow(root, items).0[0] == (root, 0usize, 0usize),
        grow(root, items).1 == file_count(items),
        grow(root, items).1 <= items.len(),
    decreases items.len(),
{
    if items.len() > 0 {
        lemma_grow_bounds(root, items.drop_last());
    }
}

/// In every listing (of items that a `Vec` can hold), each node but the root
/// sits one level below its parent, or hangs from the root when no earlier
/// node is one level up.
pub proof fn lemma_listing_parents(root: Seq<char>, items: Seq<(Seq<char>, usize, bool)>)
    requires
        items.len() <= usize::MAX,
    ensures
        parents_one_level_up(grow(root, items).0),
    decreases items.len(),
{
    lemma_grow_bounds(root, items);
    if items.len() > 0 {
        lemma_listing_parents(root, items.drop_last());
        let prev = grow(root, items.drop_last()).0;
        let item = items.last();
        if item.1 != 0 {
            let nodes = grow(root, items).0;
            lemma_grow_bounds(root, items.drop_last());
            lemma_latest_bounds(prev, item.1 - 1);
            assert(nodes[prev.len() as int] == (item.0, item.1, parent_for(prev, item.1)));
            assert(nodes.take(prev.len() as int) =~= prev);
            assert forall|i: int| 1 <= i < nodes.len() implies #[trigger] node_placed(nodes, i) by {
                if i < prev.len() {
                    assert(node_placed(prev, i));
                    assert(nodes[i] == prev[i]);
                    assert(prev[i].2 < i);
                    assert(nodes.take(i) =~= prev.take(i));
                    assert(nodes[nodes[i].2 as int] == prev[prev[i].2 as int]);
                } else {
                    assert(i == prev.len());
                    assert(nodes.take(i) =~= prev);
                    let p = latest(prev, item.1 - 1);
                    assert(nodes[i].1 >= 1);
                    if p >= 0 {
                        assert(nodes[p] == prev[p]);
                        assert(nodes[i].2 == p);
                        assert(nodes[nodes[i].2 as int].1 + 1 == nodes[i].1);
                    } else {
                        assert(nodes[i].2 == 0);
                        assert(latest(nodes.take(i), nodes[i].1 - 1) < 0);
                    }
                    assert(nodes[i].2 < i);
                }
            }
        }
    }
}

/// A listing whose items all lie at depth 0 holds the root alone.
proof fn lemma_grow_root_only(root: Seq<char>, items: Seq<(Seq<char>, usize, bool)>)
    requires
        forall|i: int| 0 <= i < items.len() ==> (#[trigger] items[i]).1 == 0,
    ensures
        grow(root, items).0 == seq![(root, 0usize, 0usize)],
        file_count(items) == 0,
    decreases items.len(),
{
    if items.len() > 0 {
        assert(items.last() == items[items.len() - 1]);
        lemma_grow_root_only(root, items.drop_last());
    }
}

proof fn lemma_latest_root(root: Seq<char>)
    ensures
        forall|k: int| #[trigger]
            latest(seq![(root, 0usize, 0usize)], k) == if k == 0 {
                0int
            } else {
                -1int
            },
{
    let one = seq![(root, 0usize, 0usize)];
    assert(one.drop_last() =~= Seq::<(Seq<char>, usize, usize)>::empty());
    assert(one.last() == (root, 0usize, 0usize));
    assert forall|k: int| #[trigger]
        latest(one, k) == if k == 0 {
            0int
        } else {
            -1int
        } by {
        assert(latest(one.drop_last(), k) == -1);
    }
}

/// The listing of `items` under a root labelled `root`: the rendered tree and
/// the number of files below the root.
pub fn render_listing(root: &str, items: &Vec<TreeItem>) -> (r: (String, usize))
    ensures
        r.0@ == rendered_tree(grow(root@, items@.map_values(|t: TreeItem| t@)).0),
        r.1 == file_count(items@.map_values(|t: TreeItem| t@)),
        grow(root@, items@.map_values(|t: TreeItem| t@)).0.len() == 1 ==> r.0@ == seq!['.', ' ']
            + root@ + seq!['\n'],
{
    broadcast use vstd::std_specs::hash::group_hash_axioms;

    let ghost all = items@.map_values(|t: TreeItem| t@);
    let mut tree = tree_new(root.to_owned());
    let mut last_at: HashMap<usize, usize> = HashMap::new();
    last_at.insert(0, 0);
    let mut count: usize = 0;
    let mut i: usize = 0;
    proof {
        assert(all.take(0) =~= Seq::<(Seq<char>, usize, bool)>::empty());
        lemma_latest_root(root@);
    }
    while i < items.len()
        invariant
            i <= items@.len(),
            all == items@.map_values(|t: TreeItem| t@),
            tree_nodes(tree) == grow(root@, all.take(i as int)).0,
            count == grow(root@, all.take(i as int)).1,
            forall|k: usize| #[trigger]
                last_at@.contains_key(k) <==> latest(tree_nodes(tree), k as int) >= 0,
            forall|k: usize| #[trigger]
                last_at@.contains_key(k) ==> last_at@[k] as int == latest(
                    tree_nodes(tree),
                    k as int,
                ),
        decreases items@.len() - i,
    {
        proof {
            lemma_grow_bounds(root@, all.take(i as int));
            assert(all.take(i + 1).drop_last() =~= all.take(i as int));
        }
        let item = &items[i];
        if item.depth != 0 {
            let ghost before = tree_nodes(tree);
            proof {
                lemma_latest_bounds(before, item.depth - 1);
            }
            let parent: usize = match last_at.get(&(item.depth - 1)) {
                Some(p) => *p,
                None => 0,
            };
            let id = tree_push(&mut tree, item.label.clone(), item.depth, parent);
            last_at.insert(item.depth, id);
            proof {
                let after = tree_nodes(tree);
                assert(after.drop_last() =~= before);
                assert forall|k: usize| #[trigger] last_at@.contains_key(k) <==> latest(
                    after,
                    k as int,
                ) >= 0 by {}
                assert forall|k: usize| #[trigger] last_at@.contains_key(k) implies last_at@[k] as int
                    == latest(after, k as int) by {}
            }
            if !item.is_dir {
                count = count + 1;
            }
        }
        i = i + 1;
    }
    proof {
        lemma_grow_bounds(root@, all);
        assert(all.take(i as int) =~= all);
    }
    (tree_render(&tree), count)
}

/// How a source entry stands against the replica.
#[derive(Debug, Clone, Copy, PartialEq, Eq, Structural)]
pub enum Classification {
    /// A directory: never classified.
    Directory,
    /// A file with no counterpart in the replica.
    New,
    /// A file whose counterpart has another fingerprint.
    Changed,
    /// A file whose counterpart has the same fingerprint.
    Unchanged,
}

/// The tag put before the name of a new file.
pub open spec fn new_tag() -> Seq<char> {
    seq!['[', 'N', 'E', 'W', ']', ' ']
}

/// The tag put before the name of a changed file.
pub open spec fn changed_tag() -> Seq<char> {
    seq!['[', 'C', 'H', 'A', 'N', 'G', 'E', 'D', ']', ' ']
}

/// How a source entry stands against the replica's fingerprints `dest`: a
/// file's fingerprint, where one was taken, is held against its counterpart's.
pub open spec fn classification(dest: Map<Seq<Seq<char>>, u64>, e: SourceEntry) -> Classification {
    if e.entry.is_dir {
        Classification::Directory
    } else if !dest.contains_key(e.entry.rel@) {
        Classification::New
    } else if e.fingerprint == Some(dest[e.entry.rel@]) {
        Classification::Unchanged
    } else {
        Classification::Changed
    }
}

/// The tag that a classification puts before an entry's name.
pub open spec fn tag(c: Classification) -> Seq<char> {
    match c {
        Classification::New => new_tag(),
        Classification::Changed => changed_tag(),
        _ => Seq::empty(),
    }
}

/// The item a compared source entry becomes in the listing.
pub open spec fn compared_item(dest: Map<Seq<Seq<char>>, u64>, e: SourceEntry) -> (
    Seq<char>,
    usize,
    bool,
) {
    (tag(classification(dest, e)) + e.entry.name@, e.entry.depth, e.entry.is_dir)
}

/// The item a walked entry becomes in a plain listing.
pub open spec fn walked_item(e: WalkEntry) -> (Seq<char>, usize, bool) {
    (e.name@, e.depth, e.is_dir)
}

/// Whether a walked source entry needs its content's fingerprint for the
/// comparison: it is a file with a counterpart in the replica.
pub fn needs_fingerprint(dest: &FingerprintMap, e: &WalkEntry) -> (r: bool)
    requires
        dest.wf(),
    ensures
        r == (!e.is_dir && dest@.contains_key(e.rel@)),
{
    !e.is_dir && dest.get(&e.rel).is_some()
}

/// Classifies a source entry against the replica's fingerprints.
pub fn classify(dest: &FingerprintMap, e: &SourceEntry) -> (r: Classification)
    requires
        dest.wf(),
    ensures
        r == classification(dest@, *e),
{
    if e.entry.is_dir {
        return Classification::Directory;
    }
    match dest.get(&e.entry.rel) {
        None => Classification::New,
        Some(h) => match e.fingerprint {
            Some(f) => if f == h {
                Classification::Unchanged
            } else {
                Classification::Changed
            },
            None => Classification::Changed,
        },
    }
}

/// The label of a source entry: its name after the tag of its classification.
pub fn label_for(dest: &FingerprintMap, e: &SourceEntry) -> (r: String)
    requires
        dest.wf(),
    ensures
        r@ == compared_item(dest@, *e).0,
{
    let c = classify(dest, e);
    let mut r = match c {
        Classification::New => {
            proof {
                reveal_strlit("[NEW] ");
            }
            String::from_str("[NEW] ")
        },
        Classification::Changed => {
            proof {
                reveal_strlit("[CHANGED] ");
            }
            String::from_str("[CHANGED] ")
        },
        _ => String::new(),
    };
    r.append(e.entry.name.as_str());
    r
}

/// The listing of a walked tree: its rendered text, rooted at `root`, and the
/// number of files below the root. Entries at depth 0 are passed over.
pub fn get_files_tree(root: &str, entries: &Vec<WalkEntry>) -> (r: (String, usize))
    ensures
        r.0@ == rendered_tree(grow(root@, entries@.map_values(|e: WalkEntry| walked_item(e))).0),
        r.1 == file_count(entries@.map_values(|e: WalkEntry| walked_item(e))),
        (forall|i: int| 0 <= i < entries@.len() ==> (#[trigger] entries@[i]).depth == 0) ==> r.0@
            == seq!['.', ' '] + root@ + seq!['\n'] && r.1 == 0,
{
    let mut items: Vec<TreeItem> = Vec::new();
    let mut i: usize = 0;
    while i < entries.len()
        invariant
            i <= entries@.len(),
            items@.map_values(|t: TreeItem| t@) =~= entries@.take(i as int).map_values(
                |e: WalkEntry| walked_item(e),
            ),
        decreases entries@.len() - i,
    {
        let e = &entries[i];
        let ghost before = items@;
        items.push(TreeItem { label: e.name.clone(), depth: e.depth, is_dir: e.is_dir });
        assert(items@ == before.push(items@.last()));
        assert(entries@.take(i + 1) =~= entries@.take(i as int).push(entries@[i as int]));
        assert(items@.map_values(|t: TreeItem| t@) =~= before.map_values(|t: TreeItem| t@).push(
            walked_item(entries@[i as int]),
        ));
        i = i + 1;
    }
    assert(entries@.take(i as int) =~= entries@);
    proof {
        let all = entries@.map_values(|e: WalkEntry| walked_item(e));
        if forall|j: int| 0 <= j < entries@.len() ==> (#[trigger] entries@[j]).depth == 0 {
            assert forall|j: int| 0 <= j < all.len() implies (#[trigger] all[j]).1 == 0 by {
                assert(entries@[j].depth == 0);
            }
            lemma_grow_root_only(root@, all);
        }
    }
    render_listing(root, &items)
}

/// Compares a walked source tree with the fingerprints of its replica's files:
/// the listing rooted at `root` with each file labelled by its classification,
/// and the number of files below the root. Relative paths are matched as they
/// are, so the replica is expected to be a plain mirror, without the codec
/// suffix on its names.
pub fn folder_compare(root: &str, dest: &FingerprintMap, source: &Vec<SourceEntry>) -> (r: (
    String,
    usize,
))
    requires
        dest.wf(),
    ensures
        r.0@ == rendered_tree(
            grow(root@, source@.map_values(|e: SourceEntry| compared_item(dest@, e))).0,
        ),
        r.1 == file_count(source@.map_values(|e: SourceEntry| compared_item(dest@, e))),
{
    let mut items: Vec<TreeItem> = Vec::new();
    let mut i: usize = 0;
    while i < source.len()
        invariant
            dest.wf(),
            i <= source@.len(),
            items@.map_values(|t: TreeItem| t@) =~= source@.take(i as int).map_values(
                |e: SourceEntry| compared_item(dest@, e),
            ),
        decreases source@.len() - i,
    {
        let e = &source[i];
        let label = label_for(dest, e);
        let ghost before = items@;
        items.push(TreeItem { label, depth: e.entry.depth, is_dir: e.entry.is_dir });
        assert(items@ == before.push(items@.last()));
        assert(source@.take(i + 1) =~= source@.take(i as int).push(source@[i as int]));
        assert(items@.map_values(|t: TreeItem| t@) =~= before.map_values(|t: TreeItem| t@).push(
            compared_item(dest@, source@[i as int]),
        ));
        i = i + 1;
    }
    assert(source@.take(i as int) =~= source@);
    render_listing(root, &items)
}

} // verus!
