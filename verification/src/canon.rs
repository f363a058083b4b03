//! Why the forest of a key set does not depend on the order in which the
//! keys were listed: the forest is settled by the leaves it holds.

use vstd::prelude::*;
use crate::leaves::kind_at;
use crate::leaves::lemma_fold_agrees;
use crate::leaves::lemma_fold_distinct;
use crate::leaves::lemma_insert_kinds;
use crate::leaves::lemma_no_path;
use crate::leaves::lemma_sort_agrees;
use crate::leaves::paths_agree;
use crate::models::redis::Node;
use crate::order::distinct;
use crate::order::level_strict;
use crate::order::lemma_before_asymmetric;
use crate::order::lemma_insert_at_slot;
use crate::order::lemma_sort_strict;
use crate::order::node_before;
use crate::order::slot;
use crate::order::sort_forest;
use crate::order::sort_from;
use crate::order::sort_node;
use crate::order::strictly_ordered;
use crate::projector::build_forest;
use crate::text::lemma_join_split;
use crate::text::lemma_split_shape;
use crate::text::split_on;
use crate::tree::fold_keys;
use crate::tree::insert_path;
use crate::tree::is_kind;
use crate::tree::lemma_position;
use crate::tree::lemma_position_found;
use crate::tree::position;
use crate::tree::DELIMITER;

verus! {

/// The wire type that the entries give the key with the given path: that of
/// the first entry whose key has this path.
pub open spec fn kind_of_path(entries: Seq<(Seq<char>, Seq<char>)>, path: Seq<Seq<char>>)
    -> Option<Seq<char>>
    decreases entries.len(),
{
    if entries.len() == 0 {
        None
    } else {
        let front = kind_of_path(entries.drop_last(), path);
        if front is Some {
            front
        } else if split_on(entries.last().0, DELIMITER) == path {
            Some(entries.last().1)
        } else {
            None
        }
    }
}

/// The forest of the entries holds a leaf at the end of a path exactly if
/// an entry's key has that path, with the wire type of the first such entry.
pub proof fn lemma_fold_kinds(entries: Seq<(Seq<char>, Seq<char>)>, path: Seq<Seq<char>>)
    ensures
        kind_at(fold_keys(entries), path) == kind_of_path(entries, path),
    decreases entries.len(),
{
    if entries.len() == 0 {
        lemma_no_path(path);
    } else {
        let entry = entries.last();
        lemma_fold_kinds(entries.drop_last(), path);
        lemma_fold_kinds(entries.drop_last(), split_on(entry.0, DELIMITER));
        lemma_split_shape(entry.0, DELIMITER);
        lemma_insert_kinds(
            fold_keys(entries.drop_last()),
            split_on(entry.0, DELIMITER),
            path,
            entry.0,
            entry.1,
        );
    }
}

/// No key comes with two wire types.
pub open spec fn consistent(entries: Seq<(Seq<char>, Seq<char>)>) -> bool {
    forall|i: int, j: int|
        0 <= i < entries.len() && 0 <= j < entries.len() && entries[i].0 == entries[j].0
            ==> entries[i].1 == entries[j].1
}

/// The two lists hold the same entries, in whatever order and however often.
pub open spec fn same_entries(a: Seq<(Seq<char>, Seq<char>)>, b: Seq<(Seq<char>, Seq<char>)>)
    -> bool {
    forall|e: (Seq<char>, Seq<char>)| a.contains(e) <==> b.contains(e)
}

/// The wire type that the entries give a path is that of an entry with the
/// path, and there is none only where no entry has the path.
proof fn lemma_kind_witness(entries: Seq<(Seq<char>, Seq<char>)>, path: Seq<Seq<char>>)
    ensures
        match kind_of_path(entries, path) {
            Some(kind) => exists|i: int|
                0 <= i < entries.len() && split_on((#[trigger] entries[i]).0, DELIMITER) == path
                    && entries[i].1 == kind,
            None => forall|i: int|
                0 <= i < entries.len() ==> split_on((#[trigger] entries[i]).0, DELIMITER) != path,
        },
    decreases entries.len(),
{
    if entries.len() > 0 {
        let front = entries.drop_last();
        lemma_kind_witness(front, path);
        match kind_of_path(front, path) {
            Some(kind) => {
                let i = choose|i: int|
                    0 <= i < front.len() && split_on((#[trigger] front[i]).0, DELIMITER) == path
                        && front[i].1 == kind;
                assert(entries[i] == front[i]);
            },
            None => {
                if split_on(entries.last().0, DELIMITER) == path {
                    assert(entries[entries.len() - 1] == entries.last());
                } else {
                    assert forall|i: int| 0 <= i < entries.len() implies split_on(
                        (#[trigger] entries[i]).0,
                        DELIMITER,
                    ) != path by {
                        if i < front.len() {
                            assert(entries[i] == front[i]);
                        }
                    }
                }
            },
        }
    }
}

/// Lists of the same entries, no key with two wire types, give every path
/// the same wire type.
pub proof fn lemma_kinds_agree(
    a: Seq<(Seq<char>, Seq<char>)>,
    b: Seq<(Seq<char>, Seq<char>)>,
    path: Seq<Seq<char>>,
)
    requires
        consistent(a),
        same_entries(a, b),
    ensures
        kind_of_path(a, path) == kind_of_path(b, path),
{
    lemma_kind_witness(a, path);
    lemma_kind_witness(b, path);
    match kind_of_path(a, path) {
        Some(kind) => {
            let i = choose|i: int|
                0 <= i < a.len() && split_on((#[trigger] a[i]).0, DELIMITER) == path && a[i].1
                    == kind;
            assert(a.contains(a[i]));
            assert(b.contains(a[i]));
            let j = choose|j: int| 0 <= j < b.len() && b[j] == a[i];
            assert(split_on(b[j].0, DELIMITER) == path);
            let other = kind_of_path(b, path)->0;
            let k = choose|k: int|
                0 <= k < b.len() && split_on((#[trigger] b[k]).0, DELIMITER) == path && b[k].1
                    == other;
            assert(b.contains(b[k]));
            assert(a.contains(b[k]));
            let m = choose|m: int| 0 <= m < a.len() && a[m] == b[k];
            lemma_join_split(a[m].0, DELIMITER);
            lemma_join_split(a[i].0, DELIMITER);
        },
        None => {
            if kind_of_path(b, path) is Some {
                let other = kind_of_path(b, path)->0;
                let k = choose|k: int|
                    0 <= k < b.len() && split_on((#[trigger] b[k]).0, DELIMITER) == path && b[k].1
                        == other;
                assert(b.contains(b[k]));
                assert(a.contains(b[k]));
                let m = choose|m: int| 0 <= m < a.len() && a[m] == b[k];
                assert(split_on(a[m].0, DELIMITER) == path);
            }
        },
    }
}

/// Every group, at every depth, has an empty key and wire type and at least
/// one node below it.
pub open spec fn plain(level: Seq<Node>) -> bool
    decreases level,
{
    forall|i: int|
        0 <= i < level.len() ==> match (#[trigger] level[i]).children {
            Some(below) => level[i].key == Seq::<char>::empty() && level[i].item_type
                == Seq::<char>::empty() && below.len() > 0 && plain(below),
            None => true,
        }
}

/// Folding a key in leaves the groups plain, and the level not empty.
pub proof fn lemma_insert_plain(
    level: Seq<Node>,
    path: Seq<Seq<char>>,
    key: Seq<char>,
    item_type: Seq<char>,
)
    requires
        plain(level),
        path.len() >= 1,
    ensures
        plain(insert_path(level, path, key, item_type)),
        insert_path(level, path, key, item_type).len() > 0,
    decreases path.len(),
{
    let after = insert_path(level, path, key, item_type);
    if path.len() == 1 {
        lemma_position_found(level, path[0], false);
        assert forall|i: int| 0 <= i < after.len() implies match (#[trigger] after[i]).children {
            Some(below) => after[i].key == Seq::<char>::empty() && after[i].item_type
                == Seq::<char>::empty() && below.len() > 0 && plain(below),
            None => true,
        } by {
            if i < level.len() {
                assert(after[i] == level[i]);
            }
        }
    } else {
        let rest = path.drop_first();
        let i = position(level, path[0], true);
        lemma_position_found(level, path[0], true);
        if i < level.len() {
            lemma_insert_plain(level[i].children->0, rest, key, item_type);
            assert forall|j: int| 0 <= j < after.len() implies match (#[trigger] after[j]).children {
                Some(below) => after[j].key == Seq::<char>::empty() && after[j].item_type
                    == Seq::<char>::empty() && below.len() > 0 && plain(below),
                None => true,
            } by {
                if j != i {
                    assert(after[j] == level[j]);
                }
            }
        } else {
            lemma_insert_plain(Seq::empty(), rest, key, item_type);
            assert forall|j: int| 0 <= j < after.len() implies match (#[trigger] after[j]).children {
                Some(below) => after[j].key == Seq::<char>::empty() && after[j].item_type
                    == Seq::<char>::empty() && below.len() > 0 && plain(below),
                None => true,
            } by {
                if j < level.len() {
                    assert(after[j] == level[j]);
                }
            }
        }
    }
}

/// In the forest of any entries the groups are plain.
pub proof fn lemma_fold_plain(entries: Seq<(Seq<char>, Seq<char>)>)
    ensures
        plain(fold_keys(entries)),
    decreases entries.len(),
{
    if entries.len() > 0 {
        let entry = entries.last();
        lemma_fold_plain(entries.drop_last());
        lemma_split_shape(entry.0, DELIMITER);
        lemma_insert_plain(
            fold_keys(entries.drop_last()),
            split_on(entry.0, DELIMITER),
            entry.0,
            entry.1,
        );
    }
}

/// Sorting keeps the number of nodes.
pub proof fn lemma_sort_len(level: Seq<Node>, from: nat)
    requires
        from <= level.len(),
    ensures
        sort_from(level, from).len() == level.len() - from,
    decreases level.len() - from,
{
    if from < level.len() {
        lemma_sort_len(level, from + 1);
        lemma_insert_at_slot(sort_node(level[from as int]), sort_from(level, from + 1));
    }
}

/// Sorting leaves the groups plain.
pub proof fn lemma_sort_plain(level: Seq<Node>, from: nat)
    requires
        plain(level),
    ensures
        plain(sort_from(level, from)),
    decreases level, level.len() - from,
{
    if from < level.len() {
        let node = level[from as int];
        let x = sort_node(node);
        let rest = sort_from(level, from + 1);
        lemma_sort_plain(level, from + 1);
        match node.children {
            Some(below) => {
                lemma_sort_plain(below, 0);
                lemma_sort_len(below, 0);
            },
            None => {},
        }
        lemma_insert_at_slot(x, rest);
        let k = slot(x, rest);
        let r = rest.insert(k, x);
        assert forall|i: int| 0 <= i < r.len() implies match (#[trigger] r[i]).children {
            Some(below) => r[i].key == Seq::<char>::empty() && r[i].item_type
                == Seq::<char>::empty() && below.len() > 0 && plain(below),
            None => true,
        } by {
            if i < k {
                assert(r[i] == rest[i]);
            } else if i > k {
                assert(r[i] == rest[i - 1]);
            }
        }
    }
}

/// `sorted` holds the node, sorted below.
pub open spec fn holds_sorted(sorted: Seq<Node>, node: Node) -> bool {
    exists|i: int| 0 <= i < sorted.len() && #[trigger] sorted[i] == sort_node(node)
}

/// Sorting drops no node: every node from `from` on is found, sorted below,
/// among the sorted ones.
pub proof fn lemma_sort_covers(level: Seq<Node>, from: nat)
    ensures
        forall|j: int|
            from <= j < level.len() ==> holds_sorted(sort_from(level, from), #[trigger] level[j]),
    decreases level.len() - from,
{
    if from < level.len() {
        let x = sort_node(level[from as int]);
        let rest = sort_from(level, from + 1);
        lemma_sort_covers(level, from + 1);
        lemma_insert_at_slot(x, rest);
        let k = slot(x, rest);
        let r = rest.insert(k, x);
        assert(sort_from(level, from) == r);
        assert forall|j: int| from <= j < level.len() implies holds_sorted(
            r,
            #[trigger] level[j],
        ) by {
            if j == from {
                assert(r[k] == sort_node(level[j]));
            } else {
                assert(holds_sorted(rest, level[j]));
                let i = choose|i: int|
                    0 <= i < rest.len() && #[trigger] rest[i] == sort_node(level[j]);
                let to = if i < k { i } else { i + 1 };
                assert(r[to] == rest[i]);
            }
        }
    }
}

/// In a sorted level a node of a kind and label is found exactly if one is
/// found in the level as it was, and it is that node, sorted below.
pub proof fn lemma_sort_position(level: Seq<Node>, label: Seq<char>, group: bool)
    requires
        distinct(level),
    ensures
        0 <= position(level, label, group) <= level.len(),
        0 <= position(sort_forest(level), label, group) <= sort_forest(level).len(),
        (position(sort_forest(level), label, group) < sort_forest(level).len()) == (position(
            level,
            label,
            group,
        ) < level.len()),
        position(level, label, group) < level.len() ==> sort_forest(level)[position(
            sort_forest(level),
            label,
            group,
        )] == sort_node(level[position(level, label, group)]),
{
    let sorted = sort_forest(level);
    lemma_sort_strict(level, 0);
    lemma_sort_covers(level, 0);
    lemma_position_found(level, label, group);
    lemma_position_found(sorted, label, group);
    let at = position(level, label, group);
    let to = position(sorted, label, group);
    if at < level.len() {
        assert(holds_sorted(sorted, level[at]));
        let i = choose|i: int|
            0 <= i < sorted.len() && #[trigger] sorted[i] == sort_node(level[at]);
        assert(is_kind(sorted[i], label, group));
        assert(to <= i);
        let back = choose|j: int| 0 <= j < level.len() && sorted[to] == sort_node(level[j]);
        assert(is_kind(level[back], label, group));
        if back < at {
            assert(!is_kind(level[back], label, group));
        } else if back > at {
            assert(!((level[at].children is Some) == (level[back].children is Some)
                && level[at].label == level[back].label));
        }
    } else {
        if to < sorted.len() {
            let back = choose|j: int| 0 <= j < level.len() && sorted[to] == sort_node(level[j]);
            assert(is_kind(level[back], label, group));
            assert(!is_kind(level[back], label, group));
        }
    }
}

/// Sorting moves no leaf to another path and changes no wire type.
pub proof fn lemma_sort_kinds(level: Seq<Node>, path: Seq<Seq<char>>)
    requires
        distinct(level),
    ensures
        kind_at(sort_forest(level), path) == kind_at(level, path),
    decreases path.len(),
{
    if path.len() == 1 {
        lemma_sort_position(level, path[0], false);
    } else if path.len() >= 2 {
        lemma_sort_position(level, path[0], true);
        let at = position(level, path[0], true);
        if at < level.len() {
            lemma_position_found(level, path[0], true);
            lemma_sort_kinds(level[at].children->0, path.drop_first());
        }
    }
}

/// Two nodes are of one kind with one label.
pub open spec fn same_rank(a: Node, b: Node) -> bool {
    (a.children is Some) == (b.children is Some) && a.label == b.label
}

/// `level` holds a node of the kind and label of `node`.
pub open spec fn has_rank(level: Seq<Node>, node: Node) -> bool {
    exists|j: int| 0 <= j < level.len() && #[trigger] same_rank(node, level[j])
}

/// Every node of `a` has one of its kind and label in `b`.
pub open spec fn covered(a: Seq<Node>, b: Seq<Node>) -> bool {
    forall|i: int| 0 <= i < a.len() ==> has_rank(b, #[trigger] a[i])
}

/// Two levels in strict display order that hold nodes of the same kinds and
/// labels hold them at the same places.
pub proof fn lemma_same_ranks(a: Seq<Node>, b: Seq<Node>)
    requires
        level_strict(a),
        level_strict(b),
        covered(a, b),
        covered(b, a),
    ensures
        a.len() == b.len(),
        forall|i: int| 0 <= i < a.len() ==> same_rank(#[trigger] a[i], b[i]),
    decreases a.len(),
{
    if a.len() == 0 {
        if b.len() > 0 {
            assert(has_rank(a, b[0]));
        }
    } else {
        assert(has_rank(b, a[0]));
        let j = choose|j: int| 0 <= j < b.len() && #[trigger] same_rank(a[0], b[j]);
        assert(has_rank(a, b[0]));
        let i = choose|i: int| 0 <= i < a.len() && #[trigger] same_rank(b[0], a[i]);
        if j > 0 {
            assert(node_before(b[0], b[j]));
            if i == 0 {
                lemma_before_asymmetric(b[0], b[j]);
            } else {
                assert(node_before(a[0], a[i]));
                lemma_before_asymmetric(a[0], a[i]);
            }
        }
        assert(same_rank(a[0], b[0]));
        let a_rest = a.drop_first();
        let b_rest = b.drop_first();
        assert forall|m: int| 0 <= m < a_rest.len() implies has_rank(
            b_rest,
            #[trigger] a_rest[m],
        ) by {
            assert(has_rank(b, a[m + 1]));
            let n = choose|n: int| 0 <= n < b.len() && #[trigger] same_rank(a[m + 1], b[n]);
            if n == 0 {
                assert(node_before(a[0], a[m + 1]));
                lemma_before_asymmetric(a[0], a[m + 1]);
            }
            assert(same_rank(a_rest[m], b_rest[n - 1]));
        }
        assert forall|m: int| 0 <= m < b_rest.len() implies has_rank(
            a_rest,
            #[trigger] b_rest[m],
        ) by {
            assert(has_rank(a, b[m + 1]));
            let n = choose|n: int| 0 <= n < a.len() && #[trigger] same_rank(b[m + 1], a[n]);
            if n == 0 {
                assert(node_before(b[0], b[m + 1]));
                lemma_before_asymmetric(b[0], b[m + 1]);
            }
            assert(same_rank(b_rest[m], a_rest[n - 1]));
        }
        lemma_same_ranks(a_rest, b_rest);
        assert forall|m: int| 0 <= m < a.len() implies same_rank(#[trigger] a[m], b[m]) by {
            if m > 0 {
                assert(same_rank(a_rest[m - 1], b_rest[m - 1]));
            }
        }
    }
}

/// In a level in strict display order every node is the first of its kind
/// and label.
pub proof fn lemma_strict_position(level: Seq<Node>, i: int)
    requires
        level_strict(level),
        0 <= i < level.len(),
    ensures
        position(level, level[i].label, level[i].children is Some) == i,
{
    assert forall|j: int| 0 <= j < i implies !is_kind(
        #[trigger] level[j],
        level[i].label,
        level[i].children is Some,
    ) by {
        assert(node_before(level[j], level[i]));
        lemma_before_asymmetric(level[j], level[i]);
    }
    lemma_position(level, level[i].label, level[i].children is Some, i);
}

/// A path to a leaf of a level that is not empty: always by the first node.
pub open spec fn some_path(level: Seq<Node>) -> Seq<Seq<char>>
    decreases level,
{
    if level.len() == 0 {
        Seq::empty()
    } else {
        match level[0].children {
            Some(below) => seq![level[0].label] + some_path(below),
            None => seq![level[0].label],
        }
    }
}

/// A level with plain groups that is not empty holds a leaf.
pub proof fn lemma_some_path(level: Seq<Node>)
    requires
        plain(level),
        level.len() > 0,
    ensures
        some_path(level).len() >= 1,
        kind_at(level, some_path(level)) is Some,
    decreases level,
{
    match level[0].children {
        Some(below) => {
            lemma_some_path(below);
            let path = seq![level[0].label] + some_path(below);
            assert(path.drop_first() =~= some_path(below));
            assert(position(level, path[0], true) == 0);
        },
        None => {
            assert(position(level, level[0].label, false) == 0);
        },
    }
}

/// The forest is in strict display order, its groups are plain, and every
/// leaf's key is the join of the labels on the way to it.
#[verifier::opaque]
pub open spec fn canonical(level: Seq<Node>, prefix: Seq<Seq<char>>) -> bool {
    &&& strictly_ordered(level)
    &&& plain(level)
    &&& paths_agree(level, prefix)
}

/// Every node of `a` has one of its kind and label in `b`, where `b` holds a
/// leaf of the same wire type wherever `a` holds one.
proof fn lemma_covered(a: Seq<Node>, b: Seq<Node>)
    requires
        level_strict(a),
        plain(a),
        forall|path: Seq<Seq<char>>| #[trigger] kind_at(a, path) == kind_at(b, path),
    ensures
        covered(a, b),
{
    assert forall|i: int| 0 <= i < a.len() implies has_rank(b, #[trigger] a[i]) by {
        lemma_strict_position(a, i);
        match a[i].children {
            Some(below) => {
                lemma_some_path(below);
                let path = seq![a[i].label] + some_path(below);
                assert(path.drop_first() =~= some_path(below));
                assert(path[0] == a[i].label);
                assert(kind_at(a, path) is Some);
                assert(kind_at(b, path) is Some);
                lemma_position_found(b, a[i].label, true);
                assert(same_rank(a[i], b[position(b, a[i].label, true)]));
            },
            None => {
                let path = seq![a[i].label];
                assert(kind_at(a, path) is Some);
                assert(kind_at(b, path) is Some);
                lemma_position_found(b, a[i].label, false);
                assert(same_rank(a[i], b[position(b, a[i].label, false)]));
            },
        }
    }
}

/// Nodes of one kind and label at one place of two canonical levels are the
/// same node, where the levels hold leaves of the same wire types and, if
/// the nodes are groups, the same nodes stand below them.
proof fn lemma_same_node(a: Seq<Node>, b: Seq<Node>, prefix: Seq<Seq<char>>, i: int)
    requires
        0 <= i < a.len(),
        i < b.len(),
        canonical(a, prefix),
        canonical(b, prefix),
        same_rank(a[i], b[i]),
        a[i].children is Some ==> a[i].children->0 == b[i].children->0,
        kind_at(a, seq![a[i].label]) == kind_at(b, seq![a[i].label]),
    ensures
        a[i] == b[i],
{
    reveal(canonical);
    if a[i].children is None {
        lemma_strict_position(a, i);
        lemma_strict_position(b, i);
        let path = seq![a[i].label];
        assert(path[0] == a[i].label);
        assert(kind_at(a, path) == Some(a[i].item_type));
        assert(kind_at(b, path) == Some(b[i].item_type));
    }
}

/// Below a group of a canonical level stands a canonical level.
proof fn lemma_below_canonical(a: Seq<Node>, prefix: Seq<Seq<char>>, i: int)
    requires
        0 <= i < a.len(),
        canonical(a, prefix),
        a[i].children is Some,
    ensures
        canonical(a[i].children->0, prefix.push(a[i].label)),
{
    reveal(canonical);
}

/// Below groups of one label at one place of two levels the same leaves are
/// found, where the levels hold the same leaves.
proof fn lemma_below_kinds(a: Seq<Node>, b: Seq<Node>, i: int, path: Seq<Seq<char>>)
    requires
        0 <= i < a.len(),
        i < b.len(),
        level_strict(a),
        level_strict(b),
        same_rank(a[i], b[i]),
        a[i].children is Some,
        kind_at(a, seq![a[i].label] + path) == kind_at(b, seq![a[i].label] + path),
    ensures
        kind_at(a[i].children->0, path) == kind_at(b[i].children->0, path),
{
    lemma_strict_position(a, i);
    lemma_strict_position(b, i);
    if path.len() > 0 {
        let longer = seq![a[i].label] + path;
        assert(longer.drop_first() =~= path);
        assert(longer[0] == a[i].label);
        assert(kind_at(a, longer) == kind_at(a[i].children->0, path));
        assert(kind_at(b, longer) == kind_at(b[i].children->0, path));
    }
}

/// Canonical levels that hold the same leaves hold nodes of the same kinds
/// and labels at the same places.
proof fn lemma_canonical_ranks(a: Seq<Node>, b: Seq<Node>, prefix: Seq<Seq<char>>)
    requires
        canonical(a, prefix),
        canonical(b, prefix),
        forall|path: Seq<Seq<char>>| #[trigger] kind_at(a, path) == kind_at(b, path),
    ensures
        a.len() == b.len(),
        level_strict(a),
        level_strict(b),
        forall|i: int| 0 <= i < a.len() ==> same_rank(#[trigger] a[i], b[i]),
{
    reveal(canonical);
    lemma_covered(a, b);
    lemma_covered(b, a);
    lemma_same_ranks(a, b);
}

/// Two forests in strict display order, with plain groups and keys in line
/// with their paths, that hold leaves of the same wire types at the ends of
/// the same paths, are the same forest.
pub proof fn lemma_settled_by_leaves(a: Seq<Node>, b: Seq<Node>, prefix: Seq<Seq<char>>)
    requires
        canonical(a, prefix),
        canonical(b, prefix),
        forall|path: Seq<Seq<char>>| #[trigger] kind_at(a, path) == kind_at(b, path),
    ensures
        a == b,
    decreases a,
{
    lemma_canonical_ranks(a, b, prefix);
    assert forall|i: int| 0 <= i < a.len() implies a[i] == b[i] by {
        assert(same_rank(a[i], b[i]));
        let label = a[i].label;
        assert(kind_at(a, seq![label]) == kind_at(b, seq![label]));
        if a[i].children is Some {
            let below = a[i].children->0;
            let other = b[i].children->0;
            assert forall|path: Seq<Seq<char>>| #[trigger]
                kind_at(below, path) == kind_at(other, path) by {
                assert(kind_at(a, seq![label] + path) == kind_at(b, seq![label] + path));
                lemma_below_kinds(a, b, i, path);
            }
            lemma_below_canonical(a, prefix, i);
            lemma_below_canonical(b, prefix, i);
            lemma_settled_by_leaves(below, other, prefix.push(label));
        }
        lemma_same_node(a, b, prefix, i);
    }
    assert(a =~= b);
}

/// The forest of any entries is in strict display order, its groups are
/// plain, and its keys are in line with their paths.
pub proof fn lemma_forest_canonical(entries: Seq<(Seq<char>, Seq<char>)>)
    ensures
        canonical(build_forest(entries), Seq::empty()),
{
    reveal(canonical);
    lemma_fold_distinct(entries);
    lemma_sort_strict(fold_keys(entries), 0);
    lemma_fold_plain(entries);
    lemma_sort_plain(fold_keys(entries), 0);
    lemma_fold_agrees(entries);
    lemma_sort_agrees(fold_keys(entries), 0, Seq::empty());
}

/// The forest of a key set does not depend on the order in which the keys
/// were listed, nor on how often: lists of the same entries, no key with two
/// wire types, give the same forest.
pub proof fn lemma_order_free(a: Seq<(Seq<char>, Seq<char>)>, b: Seq<(Seq<char>, Seq<char>)>)
    requires
        consistent(a),
        same_entries(a, b),
    ensures
        build_forest(a) == build_forest(b),
{
    lemma_forest_canonical(a);
    lemma_forest_canonical(b);
    lemma_fold_distinct(a);
    lemma_fold_distinct(b);
    assert forall|path: Seq<Seq<char>>| #[trigger]
        kind_at(build_forest(a), path) == kind_at(build_forest(b), path) by {
        lemma_sort_kinds(fold_keys(a), path);
        lemma_sort_kinds(fold_keys(b), path);
        lemma_fold_kinds(a, path);
        lemma_fold_kinds(b, path);
        lemma_kinds_agree(a, b, path);
    }
    lemma_settled_by_leaves(build_forest(a), build_forest(b), Seq::empty());
}

} // verus!
