use vstd::prelude::*;

verus! {

/// How an arch is placed in its cell.
#[derive(PartialEq, Eq, Structural, Clone, Copy, Debug)]
pub enum ArchPlacement {
    /// Turned a quarter, shifted west and south (the arch at row 29, column 22).
    QuarterWest,
    /// Turned a quarter, shifted east and north (the arch at row 30, column 22).
    QuarterEast,
    /// Facing the default way, shifted west and south.
    Straight,
}

/// How the arch in row `i`, column `j` is placed.
pub open spec fn arch_placement_spec(i: usize, j: usize) -> ArchPlacement {
    if i == 29 && j == 22 {
        ArchPlacement::QuarterWest
    } else if i == 30 && j == 22 {
        ArchPlacement::QuarterEast
    } else {
        ArchPlacement::Straight
    }
}

/// How the arch in row `i`, column `j` is placed.
pub fn arch_placement(i: usize, j: usize) -> (p: ArchPlacement)
    ensures
        p == arch_placement_spec(i, j),
{
    if i == 29 && j == 22 {
        ArchPlacement::QuarterWest
    } else if i == 30 && j == 22 {
        ArchPlacement::QuarterEast
    } else {
        ArchPlacement::Straight
    }
}

/// Which of the eight house facades the house at `x` (column), `z` (row) wears.
pub open spec fn house_style_spec(x: usize, z: usize) -> u8 {
    if x == 7 && z == 29 {
        2
    } else if (x == 2 && z == 16) || (x == 7 && z == 16) {
        3
    } else if x == 4 && z == 34 {
        4
    } else if (x == 2 && z == 2) || (x == 17 && z == 8) || (x == 20 && z == 2) || (x == 10 && z
        == 8) {
        5
    } else if x == 4 && z == 12 {
        6
    } else if x == 9 && z == 36 {
        8
    } else if x == 12 && z == 36 {
        7
    } else {
        1
    }
}

/// Which of the eight house facades the house at `x` (column), `z` (row) wears.
pub fn house_style(x: usize, z: usize) -> (s: u8)
    ensures
        s == house_style_spec(x, z),
        1 <= s <= 8,
{
    if x == 7 && z == 29 {
        2
    } else if (x == 2 && z == 16) || (x == 7 && z == 16) {
        3
    } else if x == 4 && z == 34 {
        4
    } else if (x == 2 && z == 2) || (x == 17 && z == 8) || (x == 20 && z == 2) || (x == 10 && z
        == 8) {
        5
    } else if x == 4 && z == 12 {
        6
    } else if x == 9 && z == 36 {
        8
    } else if x == 12 && z == 36 {
        7
    } else {
        1
    }
}

/// Number of branches each branch of a tree grows.
pub const TREE_CHILDREN: u8 = 3;

/// Number of branch levels of a tree.
pub const TREE_LEVELS: u8 = 5;

/// One element of a procedural tree: the element it hangs from, which child
/// of that element it is (its place among its siblings), and whether it is a
/// leaf. The root hangs from nothing.
#[derive(PartialEq, Eq, Structural, Clone, Copy, Debug)]
pub struct TreeNode {
    pub parent: Option<usize>,
    pub child_index: u8,
    pub is_leaf: bool,
}

/// The elements that the branches `i` to `children - 1` at `level` add under
/// the element `parent`, each branch followed by what grows on it (its own
/// branches up to `levels`, or one leaf at the last level), when the tree has
/// `start` elements before them.
pub open spec fn level_nodes(children: u8, level: u8, levels: u8, parent: nat, start: nat, i: u8) -> Seq<TreeNode>
    decreases (if level < levels { levels - level } else { 0 }), children - i,
{
    if i >= children {
        seq![]
    } else {
        let node = TreeNode { parent: Some(parent as usize), child_index: i, is_leaf: false };
        let grown = if level < levels {
            level_nodes(children, (level + 1) as u8, levels, start, start + 1, 0)
        } else {
            seq![TreeNode { parent: Some(start as usize), child_index: 0, is_leaf: true }]
        };
        let first = seq![node] + grown;
        first + level_nodes(children, level, levels, parent, start + first.len(), (i + 1) as u8)
    }
}

/// The elements of a tree whose branches grow `children` branches each,
/// over `levels` levels: the root, then its branches depth first.
pub open spec fn tree_nodes(children: u8, levels: u8) -> Seq<TreeNode> {
    seq![TreeNode { parent: None, child_index: 0, is_leaf: false }] + level_nodes(
        children,
        1,
        levels,
        0,
        1,
        0,
    )
}

proof fn lemma_level_nodes_parents(children: u8, level: u8, levels: u8, parent: nat, start: nat, i: u8)
    requires
        parent < start,
    ensures
        forall|k: int|
            0 <= k < level_nodes(children, level, levels, parent, start, i).len() ==> match (
            #[trigger] level_nodes(children, level, levels, parent, start, i)[k]).parent {
                Some(p) => p < start + k,
                None => false,
            },
    decreases (if level < levels { levels - level } else { 0 }), children - i,
{
    if i < children {
        let node = TreeNode { parent: Some(parent as usize), child_index: i, is_leaf: false };
        let grown = if level < levels {
            level_nodes(children, (level + 1) as u8, levels, start, start + 1, 0)
        } else {
            seq![TreeNode { parent: Some(start as usize), child_index: 0, is_leaf: true }]
        };
        let first = seq![node] + grown;
        let rest = level_nodes(children, level, levels, parent, start + first.len(), (i + 1) as u8);
        if level < levels {
            lemma_level_nodes_parents(children, (level + 1) as u8, levels, start, start + 1, 0);
        }
        lemma_level_nodes_parents(children, level, levels, parent, start + first.len(), (i + 1) as u8);
        let all = level_nodes(children, level, levels, parent, start, i);
        assert(all == first + rest);
        assert forall|k: int| 0 <= k < all.len() implies match (#[trigger] all[k]).parent {
            Some(p) => p < start + k,
            None => false,
        } by {
            if k == 0 {
                assert(all[k] == node);
            } else if k < first.len() {
                assert(all[k] == grown[k - 1]);
            } else {
                assert(all[k] == rest[k - first.len()]);
            }
        }
    }
}

/// In every tree, the root is the first element and the only one that hangs
/// from nothing; every other element hangs from an element that comes before it.
pub proof fn law_tree_parents_come_first(children: u8, levels: u8)
    ensures
        tree_nodes(children, levels)[0].parent is None,
        forall|k: int|
            0 < k < tree_nodes(children, levels).len() ==> match (#[trigger] tree_nodes(
                children,
                levels,
            )[k]).parent {
                Some(p) => p < k,
                None => false,
            },
{
    lemma_level_nodes_parents(children, 1, levels, 0, 1, 0);
    let t = tree_nodes(children, levels);
    let rest = level_nodes(children, 1, levels, 0, 1, 0);
    assert forall|k: int| 0 < k < t.len() implies match (#[trigger] t[k]).parent {
        Some(p) => p < k,
        None => false,
    } by {
        assert(t[k] == rest[k - 1]);
    }
}

/// The depths of the elements that [`level_nodes`] lists, in the same order:
/// a branch at `level` has depth `level`, and the leaf on a branch one more.
pub open spec fn level_depths(children: u8, level: u8, levels: u8, i: u8) -> Seq<nat>
    decreases (if level < levels { levels - level } else { 0 }), children - i,
{
    if i >= children {
        seq![]
    } else {
        let grown = if level < levels {
            level_depths(children, (level + 1) as u8, levels, 0)
        } else {
            seq![level as nat + 1]
        };
        seq![level as nat] + grown + level_depths(children, level, levels, (i + 1) as u8)
    }
}

/// The depth of each element of [`tree_nodes`]: 0 for the root, and one more
/// than the element it hangs from for every other (see [`law_tree_shape`]).
pub open spec fn tree_depths(children: u8, levels: u8) -> Seq<nat> {
    seq![0nat] + level_depths(children, 1, levels, 0)
}

/// The depth of the deepest branches of a tree of `levels` levels: at least one.
pub open spec fn branch_depth(levels: u8) -> nat {
    if levels >= 1 {
        levels as nat
    } else {
        1
    }
}

/// How many elements of `t` hang from the element at position `p`.
pub open spec fn child_count(t: Seq<TreeNode>, p: int) -> nat
    decreases t.len(),
{
    if t.len() == 0 {
        0
    } else {
        child_count(t.drop_last(), p) + match t.last().parent {
            Some(x) => if x as int == p {
                1nat
            } else {
                0nat
            },
            None => 0nat,
        }
    }
}

/// How many elements of `t` are leaves.
pub open spec fn leaf_count(t: Seq<TreeNode>) -> nat
    decreases t.len(),
{
    if t.len() == 0 {
        0
    } else {
        leaf_count(t.drop_last()) + if t.last().is_leaf {
            1nat
        } else {
            0nat
        }
    }
}

/// `base` to the power `exp`.
pub open spec fn power(base: nat, exp: nat) -> nat
    decreases exp,
{
    if exp == 0 {
        1
    } else {
        base * power(base, (exp - 1) as nat)
    }
}

/// How many leaves grow on one branch at `level` of a tree of `levels` levels
/// whose branches grow `children` branches each.
pub open spec fn branch_leaves(children: u8, level: u8, levels: u8) -> nat
    decreases (if level < levels { levels - level } else { 0 }),
{
    if level < levels {
        children as nat * branch_leaves(children, (level + 1) as u8, levels)
    } else {
        1
    }
}

proof fn lemma_count_concat(a: Seq<TreeNode>, b: Seq<TreeNode>, p: int)
    ensures
        child_count(a + b, p) == child_count(a, p) + child_count(b, p),
        leaf_count(a + b) == leaf_count(a) + leaf_count(b),
    decreases b.len(),
{
    if b.len() == 0 {
        assert(a + b =~= a);
    } else {
        lemma_count_concat(a, b.drop_last(), p);
        assert((a + b).drop_last() =~= a + b.drop_last());
        assert((a + b).last() == b.last());
    }
}

proof fn lemma_count_single(n: TreeNode, p: int)
    ensures
        child_count(seq![n], p) == match n.parent {
            Some(x) => if x as int == p {
                1nat
            } else {
                0nat
            },
            None => 0nat,
        },
        leaf_count(seq![n]) == if n.is_leaf {
            1nat
        } else {
            0nat
        },
{
    assert(seq![n].drop_last() =~= Seq::<TreeNode>::empty());
    assert(seq![n].last() == n);
    assert(child_count(Seq::<TreeNode>::empty(), p) == 0);
    assert(leaf_count(Seq::<TreeNode>::empty()) == 0);
}

proof fn lemma_depths_len(children: u8, level: u8, levels: u8, parent: nat, start: nat, i: u8)
    ensures
        level_depths(children, level, levels, i).len() == level_nodes(children, level, levels, parent, start, i).len(),
    decreases (if level < levels { levels - level } else { 0 }), children - i,
{
    if i < children {
        let node = TreeNode { parent: Some(parent as usize), child_index: i, is_leaf: false };
        let grown = if level < levels {
            level_nodes(children, (level + 1) as u8, levels, start, start + 1, 0)
        } else {
            seq![TreeNode { parent: Some(start as usize), child_index: 0, is_leaf: true }]
        };
        let first = seq![node] + grown;
        if level < levels {
            lemma_depths_len(children, (level + 1) as u8, levels, start, start + 1, 0);
        }
        lemma_depths_len(children, level, levels, parent, start + first.len(), (i + 1) as u8);
    }
}

proof fn lemma_branch_leaves(children: u8, level: u8, levels: u8)
    ensures
        level < levels ==> branch_leaves(children, level, levels) == power(children as nat, (levels - level) as nat),
        level >= levels ==> branch_leaves(children, level, levels) == 1,
    decreases (if level < levels { levels - level } else { 0 }),
{
    if level < levels {
        lemma_branch_leaves(children, (level + 1) as u8, levels);
        if level + 1 == levels {
            assert(power(children as nat, 0) == 1);
        }
    }
}

/// The elements that the branches `i` onward at `level` add under `parent`,
/// at positions `start` onward, all hang from something: the branches
/// themselves from `parent`, every other element from a branch added before
/// it in the same run, never from a leaf. An element is a leaf exactly when
/// the branch it hangs from sits at depth `levels` or deeper, and its depth is
/// one more than that branch's; branches lie between `level` and the last
/// level, leaves one below it.
pub proof fn law_branches_hang_from_branches(
    children: u8,
    level: u8,
    levels: u8,
    parent: nat,
    start: nat,
    i: u8,
)
    requires
        parent < start,
        start + level_nodes(children, level, levels, parent, start, i).len() <= usize::MAX,
    ensures
        ({
            let seg = level_nodes(children, level, levels, parent, start, i);
            let d = level_depths(children, level, levels, i);
            let top = if level < levels {
                levels as nat
            } else {
                level as nat
            };
            &&& d.len() == seg.len()
            &&& forall|k: int|
                0 <= k < seg.len() ==> {
                    &&& (#[trigger] seg[k]).parent is Some
                    &&& seg[k].parent->0 as int == parent ==> !seg[k].is_leaf && d[k] == level
                    &&& seg[k].parent->0 as int != parent ==> {
                        &&& start <= seg[k].parent->0 as int
                        &&& seg[k].parent->0 as int - start < k
                        &&& !seg[seg[k].parent->0 as int - start].is_leaf
                        &&& d[k] == d[seg[k].parent->0 as int - start] + 1
                        &&& (seg[k].is_leaf <==> d[seg[k].parent->0 as int - start] >= levels)
                    }
                    &&& seg[k].is_leaf ==> d[k] == top + 1
                    &&& !seg[k].is_leaf ==> level <= d[k] <= top
                }
        }),
    decreases (if level < levels { levels - level } else { 0 }), children - i,
{
    lemma_depths_len(children, level, levels, parent, start, i);
    if i < children {
        let seg = level_nodes(children, level, levels, parent, start, i);
        let d = level_depths(children, level, levels, i);
        let top = if level < levels {
            levels as nat
        } else {
            level as nat
        };
        let node = TreeNode { parent: Some(parent as usize), child_index: i, is_leaf: false };
        let grown = if level < levels {
            level_nodes(children, (level + 1) as u8, levels, start, start + 1, 0)
        } else {
            seq![TreeNode { parent: Some(start as usize), child_index: 0, is_leaf: true }]
        };
        let dgrown = if level < levels {
            level_depths(children, (level + 1) as u8, levels, 0)
        } else {
            seq![level as nat + 1]
        };
        let first = seq![node] + grown;
        let s2 = start + first.len();
        let rest = level_nodes(children, level, levels, parent, s2, (i + 1) as u8);
        let drest = level_depths(children, level, levels, (i + 1) as u8);
        if level < levels {
            lemma_depths_len(children, (level + 1) as u8, levels, start, start + 1, 0);
            law_branches_hang_from_branches(children, (level + 1) as u8, levels, start, start + 1, 0);
        }
        lemma_depths_len(children, level, levels, parent, s2, (i + 1) as u8);
        law_branches_hang_from_branches(children, level, levels, parent, s2, (i + 1) as u8);
        assert(seg == first + rest);
        assert(d == seq![level as nat] + dgrown + drest);
        assert(dgrown.len() == grown.len());
        assert forall|k: int| 0 <= k < seg.len() implies {
            &&& (#[trigger] seg[k]).parent is Some
            &&& seg[k].parent->0 as int == parent ==> !seg[k].is_leaf && d[k] == level
            &&& seg[k].parent->0 as int != parent ==> {
                &&& start <= seg[k].parent->0 as int
                &&& seg[k].parent->0 as int - start < k
                &&& !seg[seg[k].parent->0 as int - start].is_leaf
                &&& d[k] == d[seg[k].parent->0 as int - start] + 1
                &&& (seg[k].is_leaf <==> d[seg[k].parent->0 as int - start] >= levels)
            }
            &&& seg[k].is_leaf ==> d[k] == top + 1
            &&& !seg[k].is_leaf ==> level <= d[k] <= top
        } by {
            if k == 0 {
                assert(seg[k] == node);
                assert(d[k] == level);
            } else if k < first.len() {
                let j = k - 1;
                assert(seg[k] == grown[j]);
                assert(d[k] == dgrown[j]);
                assert(seg[0] == node);
                assert(d[0] == level);
                if level < levels {
                    if grown[j].parent->0 as int != start {
                        let q = grown[j].parent->0 as int;
                        assert(seg[q - start] == grown[q - start - 1]);
                        assert(d[q - start] == dgrown[q - start - 1]);
                    }
                } else {
                    assert(grown[j].parent->0 as int == start);
                }
            } else {
                let j = k - first.len();
                assert(seg[k] == rest[j]);
                assert(d[k] == drest[j]);
                if rest[j].parent->0 as int != parent {
                    let q = rest[j].parent->0 as int;
                    assert(seg[q - start] == rest[q - s2]);
                    assert(d[q - start] == drest[q - s2]);
                }
            }
        }
    }
}

proof fn lemma_children_counts(children: u8, level: u8, levels: u8, parent: nat, start: nat, i: u8)
    requires
        parent < start,
        i <= children,
        start + level_nodes(children, level, levels, parent, start, i).len() <= usize::MAX,
    ensures
        ({
            let seg = level_nodes(children, level, levels, parent, start, i);
            let d = level_depths(children, level, levels, i);
            forall|q: int|
                #[trigger] child_count(seg, q) == if q == parent {
                    (children - i) as nat
                } else if start <= q < start + seg.len() && !seg[q - start].is_leaf {
                    if d[q - start] < levels {
                        children as nat
                    } else {
                        1nat
                    }
                } else {
                    0nat
                }
        }),
    decreases (if level < levels { levels - level } else { 0 }), children - i,
{
    lemma_depths_len(children, level, levels, parent, start, i);
    let seg = level_nodes(children, level, levels, parent, start, i);
    let d = level_depths(children, level, levels, i);
    if i >= children {
        assert forall|q: int| #[trigger] child_count(seg, q) == 0 by {
            assert(seg.len() == 0);
        }
    } else {
        let node = TreeNode { parent: Some(parent as usize), child_index: i, is_leaf: false };
        let leaf = TreeNode { parent: Some(start as usize), child_index: 0, is_leaf: true };
        let grown = if level < levels {
            level_nodes(children, (level + 1) as u8, levels, start, start + 1, 0)
        } else {
            seq![leaf]
        };
        let dgrown = if level < levels {
            level_depths(children, (level + 1) as u8, levels, 0)
        } else {
            seq![level as nat + 1]
        };
        let first = seq![node] + grown;
        let s2 = start + first.len();
        let rest = level_nodes(children, level, levels, parent, s2, (i + 1) as u8);
        let drest = level_depths(children, level, levels, (i + 1) as u8);
        if level < levels {
            lemma_depths_len(children, (level + 1) as u8, levels, start, start + 1, 0);
            lemma_children_counts(children, (level + 1) as u8, levels, start, start + 1, 0);
        }
        lemma_depths_len(children, level, levels, parent, s2, (i + 1) as u8);
        lemma_children_counts(children, level, levels, parent, s2, (i + 1) as u8);
        assert(seg == first + rest);
        assert(d == seq![level as nat] + dgrown + drest);
        assert forall|q: int|
            #[trigger] child_count(seg, q) == if q == parent {
                (children - i) as nat
            } else if start <= q < start + seg.len() && !seg[q - start].is_leaf {
                if d[q - start] < levels {
                    children as nat
                } else {
                    1nat
                }
            } else {
                0nat
            } by {
            lemma_count_concat(first, rest, q);
            lemma_count_concat(seq![node], grown, q);
            lemma_count_single(node, q);
            lemma_count_single(leaf, q);
            assert(seg[0] == node);
            assert(d[0] == level);
            if start < q < s2 {
                assert(seg[q - start] == grown[q - start - 1]);
                assert(d[q - start] == dgrown[q - start - 1]);
            }
            if s2 <= q < start + seg.len() {
                assert(seg[q - start] == rest[q - s2]);
                assert(d[q - start] == drest[q - s2]);
            }
        }
    }
}

proof fn lemma_leaf_counts(children: u8, level: u8, levels: u8, parent: nat, start: nat, i: u8)
    requires
        i <= children,
    ensures
        leaf_count(level_nodes(children, level, levels, parent, start, i)) == (children - i) as nat
            * branch_leaves(children, level, levels),
    decreases (if level < levels { levels - level } else { 0 }), children - i,
{
    let seg = level_nodes(children, level, levels, parent, start, i);
    if i >= children {
        assert(seg.len() == 0);
    } else {
        let node = TreeNode { parent: Some(parent as usize), child_index: i, is_leaf: false };
        let leaf = TreeNode { parent: Some(start as usize), child_index: 0, is_leaf: true };
        let grown = if level < levels {
            level_nodes(children, (level + 1) as u8, levels, start, start + 1, 0)
        } else {
            seq![leaf]
        };
        let first = seq![node] + grown;
        let rest = level_nodes(children, level, levels, parent, start + first.len(), (i + 1) as u8);
        if level < levels {
            lemma_leaf_counts(children, (level + 1) as u8, levels, start, start + 1, 0);
        }
        lemma_leaf_counts(children, level, levels, parent, start + first.len(), (i + 1) as u8);
        assert(seg == first + rest);
        lemma_count_concat(first, rest, 0);
        lemma_count_concat(seq![node], grown, 0);
        lemma_count_single(node, 0);
        lemma_count_single(leaf, 0);
        let b = branch_leaves(children, level, levels);
        let m = (children - i - 1) as nat;
        assert(leaf_count(grown) == b);
        assert(leaf_count(seg) == b + m * b);
        assert(b + m * b == (m + 1) * b) by (nonlinear_arith);
    }
}

/// The shape of every tree that fits in memory: the root, at depth 0, is the
/// only element that hangs from nothing; every other element hangs from an
/// earlier branch, never from a leaf, and lies one level deeper; branches lie
/// at depths 0 to [`branch_depth`]`(levels)` and leaves one below. A branch
/// above that depth has `children` elements hanging from it, a branch at it
/// exactly one, which is a leaf, and a leaf none; and the tree has `children`
/// to the power [`branch_depth`]`(levels)` leaves.
pub proof fn law_tree_shape(children: u8, levels: u8)
    requires
        tree_nodes(children, levels).len() <= usize::MAX,
    ensures
        ({
            let t = tree_nodes(children, levels);
            let d = tree_depths(children, levels);
            let top = branch_depth(levels);
            &&& d.len() == t.len()
            &&& t[0].parent is None
            &&& !t[0].is_leaf
            &&& d[0] == 0
            &&& forall|k: int|
                0 < k < t.len() ==> {
                    &&& (#[trigger] t[k]).parent is Some
                    &&& t[k].parent->0 < k
                    &&& !t[t[k].parent->0 as int].is_leaf
                    &&& d[k] == d[t[k].parent->0 as int] + 1
                    &&& (t[k].is_leaf <==> d[t[k].parent->0 as int] == top)
                }
            &&& forall|k: int| 0 <= k < t.len() && (#[trigger] t[k]).is_leaf ==> d[k] == top + 1
            &&& forall|k: int| 0 <= k < t.len() && !(#[trigger] t[k]).is_leaf ==> d[k] <= top
            &&& forall|k: int|
                0 <= k < t.len() ==> #[trigger] child_count(t, k) == if t[k].is_leaf {
                    0nat
                } else if d[k] < top {
                    children as nat
                } else {
                    1nat
                }
            &&& leaf_count(t) == power(children as nat, top)
        }),
{
    let t = tree_nodes(children, levels);
    let d = tree_depths(children, levels);
    let top = branch_depth(levels);
    let root = TreeNode { parent: None, child_index: 0, is_leaf: false };
    let seg = level_nodes(children, 1, levels, 0, 1, 0);
    let dseg = level_depths(children, 1, levels, 0);
    assert(t == seq![root] + seg);
    law_branches_hang_from_branches(children, 1, levels, 0, 1, 0);
    lemma_children_counts(children, 1, levels, 0, 1, 0);
    lemma_leaf_counts(children, 1, levels, 0, 1, 0);
    lemma_branch_leaves(children, 1, levels);
    assert(t[0] == root);
    assert(d[0] == 0);
    assert forall|k: int|
        0 < k < t.len() implies {
            &&& (#[trigger] t[k]).parent is Some
            &&& t[k].parent->0 < k
            &&& !t[t[k].parent->0 as int].is_leaf
            &&& d[k] == d[t[k].parent->0 as int] + 1
            &&& (t[k].is_leaf <==> d[t[k].parent->0 as int] == top)
        } by {
        assert(t[k] == seg[k - 1]);
        assert(d[k] == dseg[k - 1]);
        let p = seg[k - 1].parent->0 as int;
        if p != 0 {
            assert(t[p] == seg[p - 1]);
            assert(d[p] == dseg[p - 1]);
        }
    }
    assert forall|k: int| 0 <= k < t.len() && (#[trigger] t[k]).is_leaf implies d[k] == top + 1 by {
        assert(t[k] == seg[k - 1]);
        assert(d[k] == dseg[k - 1]);
    }
    assert forall|k: int| 0 <= k < t.len() && !(#[trigger] t[k]).is_leaf implies d[k] <= top by {
        if k > 0 {
            assert(t[k] == seg[k - 1]);
            assert(d[k] == dseg[k - 1]);
        }
    }
    assert forall|k: int|
        0 <= k < t.len() implies #[trigger] child_count(t, k) == if t[k].is_leaf {
            0nat
        } else if d[k] < top {
            children as nat
        } else {
            1nat
        } by {
        lemma_count_concat(seq![root], seg, k);
        lemma_count_single(root, k);
        if k > 0 {
            assert(t[k] == seg[k - 1]);
            assert(d[k] == dseg[k - 1]);
        }
    }
    lemma_count_concat(seq![root], seg, 0);
    lemma_count_single(root, 0);
    let c = children as nat;
    if 1 < levels {
        assert(power(c, levels as nat) == c * power(c, (levels - 1) as nat));
    } else {
        assert(power(c, 1) == c * power(c, 0));
    }
}

/// Adds the branches `i` onward at `level` under `parent`, with what grows on them.
fn generate_branches(children: u8, levels: u8, level: u8, parent: usize, i: u8, all: &mut Vec<TreeNode>)
    requires
        1 <= level,
        i <= children,
    ensures
        final(all)@ == old(all)@ + level_nodes(children, level, levels, parent as nat, old(all)@.len(), i),
    decreases (if level < levels { levels - level } else { 0 }), children - i,
{
    if i >= children {
        assert(old(all)@ + level_nodes(children, level, levels, parent as nat, old(all)@.len(), i) =~= old(all)@);
        return;
    }
    let child_idx = all.len();
    all.push(TreeNode { parent: Some(parent), child_index: i, is_leaf: false });
    if level < levels {
        generate_branches(children, levels, level + 1, child_idx, 0, all);
    } else {
        all.push(TreeNode { parent: Some(child_idx), child_index: 0, is_leaf: true });
    }
    let ghost mid = all@;
    generate_branches(children, levels, level, parent, i + 1, all);
    proof {
        let start = old(all)@.len();
        let node = TreeNode { parent: Some(parent), child_index: i, is_leaf: false };
        let grown = if level < levels {
            level_nodes(children, (level + 1) as u8, levels, start, start + 1, 0)
        } else {
            seq![TreeNode { parent: Some(start as usize), child_index: 0, is_leaf: true }]
        };
        let first = seq![node] + grown;
        assert(mid =~= old(all)@ + first);
        assert(all@ =~= old(all)@ + level_nodes(children, level, levels, parent as nat, start, i));
    }
}

/// The elements of a procedural tree with `children` branches per branch over
/// `levels` levels, root first; see [`tree_nodes`].
pub fn generate_tree(children: u8, levels: u8) -> (tree: Vec<TreeNode>)
    ensures
        tree@ == tree_nodes(children, levels),
{
    let mut all: Vec<TreeNode> = Vec::new();
    all.push(TreeNode { parent: None, child_index: 0, is_leaf: false });
    generate_branches(children, levels, 1, 0, 0, &mut all);
    assert(all@ =~= tree_nodes(children, levels));
    all
}

} // verus!
