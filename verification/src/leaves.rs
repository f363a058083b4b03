//! What a forest holds: the keys of its leaves and the paths that lead to them.

use vstd::prelude::*;
use vstd::multiset::Multiset;
use crate::models::redis::Node;
use crate::order::distinct;
use crate::order::lemma_insert_at_slot;
use crate::order::slot;
use crate::order::sort_from;
use crate::order::sort_node;
use crate::text::join;
use crate::text::split_on;
use crate::text::lemma_join_split;
use crate::text::lemma_split_shape;
use crate::tree::DELIMITER;
use crate::tree::fold_keys;
use crate::tree::group_node;
use crate::tree::insert_path;
use crate::tree::is_kind;
use crate::tree::leaf_node;
use crate::tree::lemma_position;
use crate::tree::lemma_position_found;
use crate::tree::position;

verus! {

/// The keys of the leaves at and below `node`, each as often as it occurs.
pub open spec fn node_keys(node: Node) -> Multiset<Seq<char>>
    decreases node, 0nat,
{
    match node.children {
        Some(below) => keys_upto(below, below.len()),
        None => Multiset::singleton(node.key),
    }
}

/// The keys of the leaves at and below the first `n` nodes of `level`.
pub open spec fn keys_upto(level: Seq<Node>, n: nat) -> Multiset<Seq<char>>
    decreases level, n,
{
    if n == 0 || n > level.len() {
        Multiset::empty()
    } else {
        keys_upto(level, (n - 1) as nat).add(node_keys(level[n - 1]))
    }
}

/// The keys of all leaves of the forest, each as often as it occurs.
pub open spec fn leaf_keys(level: Seq<Node>) -> Multiset<Seq<char>> {
    keys_upto(level, level.len())
}

/// Levels that agree on their first `n` nodes hold the same keys there.
pub proof fn lemma_keys_agree(a: Seq<Node>, b: Seq<Node>, n: nat)
    requires
        n <= a.len(),
        n <= b.len(),
        forall|i: int| 0 <= i < n ==> a[i] == b[i],
    ensures
        keys_upto(a, n) == keys_upto(b, n),
    decreases n,
{
    if n > 0 {
        lemma_keys_agree(a, b, (n - 1) as nat);
    }
}

/// A node added at the end adds its keys.
pub proof fn lemma_keys_push(level: Seq<Node>, x: Node)
    ensures
        leaf_keys(level.push(x)) == leaf_keys(level).add(node_keys(x)),
{
    lemma_keys_agree(level, level.push(x), level.len());
}

/// A node put in at any place adds its keys.
pub proof fn lemma_keys_insert(level: Seq<Node>, k: int, x: Node)
    requires
        0 <= k <= level.len(),
    ensures
        leaf_keys(level.insert(k, x)) == leaf_keys(level).add(node_keys(x)),
    decreases level.len() - k,
{
    let grown = level.insert(k, x);
    if k == level.len() {
        assert(grown =~= level.push(x));
        lemma_keys_push(level, x);
    } else {
        let front = level.drop_last();
        lemma_keys_insert(front, k, x);
        assert(grown =~= front.insert(k, x).push(level.last()));
        lemma_keys_push(front.insert(k, x), level.last());
        assert(level =~= front.push(level.last()));
        lemma_keys_push(front, level.last());
        assert(leaf_keys(front).add(node_keys(x)).add(node_keys(level.last())) =~= leaf_keys(
            front,
        ).add(node_keys(level.last())).add(node_keys(x)));
    }
}

/// A node replaced by one that holds `extra` more keys adds `extra`.
pub proof fn lemma_keys_update(level: Seq<Node>, i: int, y: Node, extra: Multiset<Seq<char>>)
    requires
        0 <= i < level.len(),
        node_keys(y) == node_keys(level[i]).add(extra),
    ensures
        leaf_keys(level.update(i, y)) == leaf_keys(level).add(extra),
    decreases level.len() - i,
{
    let changed = level.update(i, y);
    let front = level.drop_last();
    assert(level =~= front.push(level.last()));
    lemma_keys_push(front, level.last());
    if i == level.len() - 1 {
        assert(changed =~= front.push(y));
        lemma_keys_push(front, y);
        assert(leaf_keys(front).add(node_keys(level[i]).add(extra)) =~= leaf_keys(front).add(
            node_keys(level[i]),
        ).add(extra));
    } else {
        lemma_keys_update(front, i, y, extra);
        assert(changed =~= front.update(i, y).push(level.last()));
        lemma_keys_push(front.update(i, y), level.last());
        assert(leaf_keys(front).add(extra).add(node_keys(level.last())) =~= leaf_keys(front).add(
            node_keys(level.last()),
        ).add(extra));
    }
}

/// The wire type of the leaf at the end of `path`, if `level` holds one:
/// there must be a group for every segment but the last, each the first of
/// its label among its siblings, and a leaf for the last.
pub open spec fn kind_at(level: Seq<Node>, path: Seq<Seq<char>>) -> Option<Seq<char>>
    decreases path.len(),
{
    if path.len() == 0 {
        None
    } else if path.len() == 1 {
        let i = position(level, path[0], false);
        if i < level.len() {
            Some(level[i].item_type)
        } else {
            None
        }
    } else {
        let i = position(level, path[0], true);
        if i < level.len() {
            kind_at(level[i].children->0, path.drop_first())
        } else {
            None
        }
    }
}

/// Whether `level` holds a leaf at the end of `path`.
pub open spec fn has_path(level: Seq<Node>, path: Seq<Seq<char>>) -> bool {
    kind_at(level, path) is Some
}

/// Where a node of a kind and label is first found after a node was added at
/// the end.
pub proof fn lemma_position_push(level: Seq<Node>, x: Node, label: Seq<char>, group: bool)
    ensures
        position(level.push(x), label, group) == if position(level, label, group) < level.len() {
            position(level, label, group)
        } else if is_kind(x, label, group) {
            level.len() as int
        } else {
            level.len() as int + 1
        },
{
    lemma_position_found(level, label, group);
    let grown = level.push(x);
    let p = position(level, label, group);
    if p < level.len() {
        assert(grown[p] == level[p]);
        assert forall|j: int| 0 <= j < p implies !is_kind(#[trigger] grown[j], label, group) by {
            assert(grown[j] == level[j]);
        }
        lemma_position(grown, label, group, p);
    } else {
        assert forall|j: int| 0 <= j < level.len() implies !is_kind(
            #[trigger] grown[j],
            label,
            group,
        ) by {
            assert(grown[j] == level[j]);
        }
        if is_kind(x, label, group) {
            lemma_position(grown, label, group, level.len() as int);
        } else {
            lemma_position(grown, label, group, level.len() as int + 1);
        }
    }
}

/// Replacing a node by one of its kind and label moves no first place.
pub proof fn lemma_position_update(
    level: Seq<Node>,
    i: int,
    y: Node,
    label: Seq<char>,
    group: bool,
)
    requires
        0 <= i < level.len(),
        y.label == level[i].label,
        (y.children is Some) == (level[i].children is Some),
    ensures
        position(level.update(i, y), label, group) == position(level, label, group),
{
    lemma_position_found(level, label, group);
    let changed = level.update(i, y);
    let p = position(level, label, group);
    assert forall|j: int| 0 <= j < p implies !is_kind(#[trigger] changed[j], label, group) by {
        assert(!is_kind(level[j], label, group));
    }
    lemma_position(changed, label, group, p);
}

/// Folding a key in adds its key to the leaves, unless a leaf stood at the
/// end of its path already.
pub proof fn lemma_insert_keys(
    level: Seq<Node>,
    path: Seq<Seq<char>>,
    key: Seq<char>,
    item_type: Seq<char>,
)
    requires
        path.len() >= 1,
    ensures
        leaf_keys(insert_path(level, path, key, item_type)) == if has_path(level, path) {
            leaf_keys(level)
        } else {
            leaf_keys(level).insert(key)
        },
    decreases path.len(),
{
    if path.len() == 1 {
        if position(level, path[0], false) >= level.len() {
            lemma_keys_push(level, leaf_node(key, path[0], item_type));
        }
    } else {
        let rest = path.drop_first();
        let i = position(level, path[0], true);
        lemma_position_found(level, path[0], true);
        if i < level.len() {
            let below = level[i].children->0;
            lemma_insert_keys(below, rest, key, item_type);
            let grown = Node {
                children: Some(insert_path(below, rest, key, item_type)),
                ..level[i]
            };
            if has_path(below, rest) {
                assert(node_keys(grown) =~= node_keys(level[i]).add(Multiset::empty()));
                lemma_keys_update(level, i, grown, Multiset::empty());
                assert(leaf_keys(level).add(Multiset::empty()) =~= leaf_keys(level));
            } else {
                lemma_keys_update(level, i, grown, Multiset::singleton(key));
            }
        } else {
            let none = Seq::<Node>::empty();
            lemma_insert_keys(none, rest, key, item_type);
            lemma_no_path(rest);
            lemma_keys_push(level, group_node(path[0], insert_path(none, rest, key, item_type)));
            assert(Multiset::<Seq<char>>::empty().insert(key) =~= Multiset::singleton(key));
        }
    }
}

/// An empty level holds no leaf.
pub proof fn lemma_no_path(path: Seq<Seq<char>>)
    ensures
        !has_path(Seq::empty(), path),
{
}

/// After a key was folded in, a leaf of its wire type stands at the end of
/// its path, unless one stood there before; the leaf at the end of any other
/// path is as it was.
pub proof fn lemma_insert_kinds(
    level: Seq<Node>,
    p: Seq<Seq<char>>,
    q: Seq<Seq<char>>,
    key: Seq<char>,
    item_type: Seq<char>,
)
    requires
        p.len() >= 1,
    ensures
        kind_at(insert_path(level, p, key, item_type), q) == if p == q && kind_at(level, p) is None {
            Some(item_type)
        } else {
            kind_at(level, q)
        },
    decreases p.len(),
{
    let after = insert_path(level, p, key, item_type);
    if q.len() == 0 {
    } else if p.len() == 1 {
        let x = leaf_node(key, p[0], item_type);
        lemma_position_found(level, p[0], false);
        if position(level, p[0], false) < level.len() {
        } else {
            if q.len() == 1 {
                lemma_position_push(level, x, q[0], false);
                lemma_position_found(level, q[0], false);
                let j = position(level, q[0], false);
                if j < level.len() {
                    assert(after[j] == level[j]);
                }
                if q[0] == p[0] {
                    assert(p =~= q);
                }
            } else {
                lemma_position_push(level, x, q[0], true);
                lemma_position_found(level, q[0], true);
                let j = position(level, q[0], true);
                if j < level.len() {
                    assert(after[j] == level[j]);
                }
            }
        }
    } else {
        let i = position(level, p[0], true);
        lemma_position_found(level, p[0], true);
        let p_rest = p.drop_first();
        if i < level.len() {
            let below = level[i].children->0;
            let grown = Node {
                children: Some(insert_path(below, p_rest, key, item_type)),
                ..level[i]
            };
            if q.len() == 1 {
                lemma_position_update(level, i, grown, q[0], false);
                lemma_position_found(level, q[0], false);
                let j = position(level, q[0], false);
                if j < level.len() {
                    assert(j != i);
                    assert(after[j] == level[j]);
                }
            } else {
                let q_rest = q.drop_first();
                lemma_position_update(level, i, grown, q[0], true);
                lemma_position_found(level, q[0], true);
                let j = position(level, q[0], true);
                if j < level.len() {
                    if j == i {
                        lemma_insert_kinds(below, p_rest, q_rest, key, item_type);
                        if p_rest == q_rest {
                            assert(p =~= seq![p[0]] + p_rest);
                            assert(q =~= seq![q[0]] + q_rest);
                        }
                    } else {
                        assert(after[j] == level[j]);
                    }
                }
            }
        } else {
            let none = Seq::<Node>::empty();
            let x = group_node(p[0], insert_path(none, p_rest, key, item_type));
            if q.len() == 1 {
                lemma_position_push(level, x, q[0], false);
                lemma_position_found(level, q[0], false);
                let j = position(level, q[0], false);
                if j < level.len() {
                    assert(after[j] == level[j]);
                }
            } else {
                let q_rest = q.drop_first();
                lemma_position_push(level, x, q[0], true);
                lemma_position_found(level, q[0], true);
                let j = position(level, q[0], true);
                if j < level.len() {
                    assert(after[j] == level[j]);
                } else if q[0] == p[0] {
                    lemma_insert_kinds(none, p_rest, q_rest, key, item_type);
                    lemma_no_path(q_rest);
                    lemma_no_path(p_rest);
                    if p_rest == q_rest {
                        assert(p =~= seq![p[0]] + p_rest);
                        assert(q =~= seq![q[0]] + q_rest);
                    }
                }
            }
        }
    }
}

/// After a key was folded in, a leaf stands at the end of its path, and
/// at the end of no other path where none stood before.
pub proof fn lemma_insert_paths(
    level: Seq<Node>,
    p: Seq<Seq<char>>,
    q: Seq<Seq<char>>,
    key: Seq<char>,
    item_type: Seq<char>,
)
    requires
        p.len() >= 1,
    ensures
        has_path(insert_path(level, p, key, item_type), q) == (has_path(level, q) || p == q),
{
    lemma_insert_kinds(level, p, q, key, item_type);
}

/// Whether `key` is the key of one of the entries.
pub open spec fn has_key(entries: Seq<(Seq<char>, Seq<char>)>, key: Seq<char>) -> bool {
    exists|j: int| 0 <= j < entries.len() && (#[trigger] entries[j]).0 == key
}

/// In the forest of the entries a leaf stands at the end of a key's path
/// exactly if the key is among the entries.
pub proof fn lemma_fold_paths(entries: Seq<(Seq<char>, Seq<char>)>, key: Seq<char>)
    ensures
        has_path(fold_keys(entries), split_on(key, DELIMITER)) == has_key(entries, key),
    decreases entries.len(),
{
    lemma_split_shape(key, DELIMITER);
    if entries.len() == 0 {
        lemma_no_path(split_on(key, DELIMITER));
    } else {
        let front = entries.drop_last();
        let entry = entries.last();
        lemma_fold_paths(front, key);
        lemma_split_shape(entry.0, DELIMITER);
        lemma_insert_paths(
            fold_keys(front),
            split_on(entry.0, DELIMITER),
            split_on(key, DELIMITER),
            entry.0,
            entry.1,
        );
        if split_on(entry.0, DELIMITER) == split_on(key, DELIMITER) {
            lemma_join_split(entry.0, DELIMITER);
            lemma_join_split(key, DELIMITER);
        }
        if has_key(front, key) {
            let j = choose|j: int| 0 <= j < front.len() && (#[trigger] front[j]).0 == key;
            assert(entries[j] == front[j]);
        }
        if has_key(entries, key) {
            let j = choose|j: int| 0 <= j < entries.len() && (#[trigger] entries[j]).0 == key;
            if j < front.len() {
                assert(front[j] == entries[j]);
            }
        }
    }
}

/// Every key among the entries is the key of exactly one leaf of their
/// forest, and no leaf has another key.
pub proof fn lemma_fold_keys_once(entries: Seq<(Seq<char>, Seq<char>)>, key: Seq<char>)
    ensures
        leaf_keys(fold_keys(entries)).count(key) == if has_key(entries, key) {
            1nat
        } else {
            0nat
        },
    decreases entries.len(),
{
    if entries.len() > 0 {
        let front = entries.drop_last();
        let entry = entries.last();
        lemma_fold_keys_once(front, key);
        lemma_split_shape(entry.0, DELIMITER);
        lemma_insert_keys(fold_keys(front), split_on(entry.0, DELIMITER), entry.0, entry.1);
        lemma_fold_paths(front, entry.0);
        if has_key(front, key) {
            let j = choose|j: int| 0 <= j < front.len() && (#[trigger] front[j]).0 == key;
            assert(entries[j] == front[j]);
        }
        if has_key(entries, key) && !has_key(front, key) {
            let j = choose|j: int| 0 <= j < entries.len() && (#[trigger] entries[j]).0 == key;
            if j < front.len() {
                assert(front[j] == entries[j]);
            }
        }
        if entry.0 == key {
            assert(entries[entries.len() - 1].0 == key);
        }
    }
}

/// Every leaf's key is the join of the labels on the way to it, `prefix`
/// being the labels above `level`.
pub open spec fn paths_agree(level: Seq<Node>, prefix: Seq<Seq<char>>) -> bool
    decreases level,
{
    forall|i: int|
        0 <= i < level.len() ==> match (#[trigger] level[i]).children {
            Some(below) => paths_agree(below, prefix.push(level[i].label)),
            None => level[i].key == join(prefix.push(level[i].label), DELIMITER),
        }
}

/// Folding in a key that is the join of its path keeps the keys in line with
/// the labels.
pub proof fn lemma_insert_agrees(
    level: Seq<Node>,
    prefix: Seq<Seq<char>>,
    path: Seq<Seq<char>>,
    key: Seq<char>,
    item_type: Seq<char>,
)
    requires
        path.len() >= 1,
        paths_agree(level, prefix),
        key == join(prefix + path, DELIMITER),
    ensures
        paths_agree(insert_path(level, path, key, item_type), prefix),
    decreases path.len(),
{
    let after = insert_path(level, path, key, item_type);
    if path.len() == 1 {
        assert(prefix.push(path[0]) =~= prefix + path);
        assert forall|i: int| 0 <= i < after.len() implies match (#[trigger] after[i]).children {
            Some(below) => paths_agree(below, prefix.push(after[i].label)),
            None => after[i].key == join(prefix.push(after[i].label), DELIMITER),
        } by {
            if i < level.len() {
                assert(after[i] == level[i]);
            }
        }
    } else {
        let rest = path.drop_first();
        let deeper = prefix.push(path[0]);
        assert(deeper + rest =~= prefix + path);
        let i = position(level, path[0], true);
        lemma_position_found(level, path[0], true);
        if i < level.len() {
            lemma_insert_agrees(level[i].children->0, deeper, rest, key, item_type);
            assert forall|j: int| 0 <= j < after.len() implies match (#[trigger] after[j]).children {
                Some(below) => paths_agree(below, prefix.push(after[j].label)),
                None => after[j].key == join(prefix.push(after[j].label), DELIMITER),
            } by {
                if j != i {
                    assert(after[j] == level[j]);
                }
            }
        } else {
            lemma_insert_agrees(Seq::empty(), deeper, rest, key, item_type);
            assert forall|j: int| 0 <= j < after.len() implies match (#[trigger] after[j]).children {
                Some(below) => paths_agree(below, prefix.push(after[j].label)),
                None => after[j].key == join(prefix.push(after[j].label), DELIMITER),
            } by {
                if j < level.len() {
                    assert(after[j] == level[j]);
                }
            }
        }
    }
}

/// In the forest of any entries every leaf's key is the join of the labels on
/// the way to it.
pub proof fn lemma_fold_agrees(entries: Seq<(Seq<char>, Seq<char>)>)
    ensures
        paths_agree(fold_keys(entries), Seq::empty()),
    decreases entries.len(),
{
    if entries.len() > 0 {
        let entry = entries.last();
        lemma_fold_agrees(entries.drop_last());
        lemma_split_shape(entry.0, DELIMITER);
        lemma_join_split(entry.0, DELIMITER);
        let path = split_on(entry.0, DELIMITER);
        assert(Seq::<Seq<char>>::empty() + path =~= path);
        lemma_insert_agrees(fold_keys(entries.drop_last()), Seq::empty(), path, entry.0, entry.1);
    }
}

/// Folding a key in leaves no two siblings of one kind with one label.
pub proof fn lemma_insert_distinct(
    level: Seq<Node>,
    path: Seq<Seq<char>>,
    key: Seq<char>,
    item_type: Seq<char>,
)
    requires
        distinct(level),
    ensures
        distinct(insert_path(level, path, key, item_type)),
    decreases path.len(),
{
    let after = insert_path(level, path, key, item_type);
    if path.len() == 0 {
    } else if path.len() == 1 {
        lemma_position_found(level, path[0], false);
        if position(level, path[0], false) >= level.len() {
            assert forall|i: int| 0 <= i < after.len() implies match (#[trigger] after[i]).children {
                Some(below) => distinct(below),
                None => true,
            } by {
                if i < level.len() {
                    assert(after[i] == level[i]);
                }
            }
            assert forall|i: int, j: int| 0 <= i < j < after.len() implies !(is_kind(
                after[i],
                after[j].label,
                after[j].children is Some,
            )) by {
                assert(after[i] == level[i]);
                if j < level.len() {
                    assert(after[j] == level[j]);
                } else {
                    assert(!is_kind(level[i], path[0], false));
                }
            }
        }
    } else {
        let rest = path.drop_first();
        let i = position(level, path[0], true);
        lemma_position_found(level, path[0], true);
        if i < level.len() {
            assert(level[i].children is Some);
            lemma_insert_distinct(level[i].children->0, rest, key, item_type);
            assert forall|j: int| 0 <= j < after.len() implies match (#[trigger] after[j]).children {
                Some(below) => distinct(below),
                None => true,
            } by {
                if j != i {
                    assert(after[j] == level[j]);
                }
            }
            assert forall|a: int, b: int| 0 <= a < b < after.len() implies !(is_kind(
                after[a],
                after[b].label,
                after[b].children is Some,
            )) by {
                assert(!is_kind(level[a], level[b].label, level[b].children is Some));
            }
        } else {
            lemma_insert_distinct(Seq::empty(), rest, key, item_type);
            assert forall|j: int| 0 <= j < after.len() implies match (#[trigger] after[j]).children {
                Some(below) => distinct(below),
                None => true,
            } by {
                if j < level.len() {
                    assert(after[j] == level[j]);
                }
            }
            assert forall|a: int, b: int| 0 <= a < b < after.len() implies !(is_kind(
                after[a],
                after[b].label,
                after[b].children is Some,
            )) by {
                assert(after[a] == level[a]);
                if b < level.len() {
                    assert(after[b] == level[b]);
                } else {
                    assert(!is_kind(level[a], path[0], true));
                }
            }
        }
    }
}

/// In the forest of any entries no two siblings are of one kind with one
/// label.
pub proof fn lemma_fold_distinct(entries: Seq<(Seq<char>, Seq<char>)>)
    ensures
        distinct(fold_keys(entries)),
    decreases entries.len(),
{
    if entries.len() > 0 {
        let entry = entries.last();
        lemma_fold_distinct(entries.drop_last());
        lemma_insert_distinct(
            fold_keys(entries.drop_last()),
            split_on(entry.0, DELIMITER),
            entry.0,
            entry.1,
        );
    }
}

/// Sorting below a node changes none of its keys.
pub proof fn lemma_sort_node_keys(node: Node)
    ensures
        node_keys(sort_node(node)) == node_keys(node),
    decreases node, 0nat,
{
    match node.children {
        Some(below) => {
            lemma_sort_keys(below, 0);
            assert(leaf_keys(sort_from(below, 0)).add(Multiset::empty()) =~= leaf_keys(
                sort_from(below, 0),
            ));
        },
        None => {},
    }
}

/// Sorting neither adds nor drops a key: the sorted nodes from `from` on and
/// the nodes before `from` hold together what the level holds.
pub proof fn lemma_sort_keys(level: Seq<Node>, from: nat)
    requires
        from <= level.len(),
    ensures
        leaf_keys(sort_from(level, from)).add(keys_upto(level, from)) == leaf_keys(level),
    decreases level, level.len() - from,
{
    if from == level.len() {
        assert(leaf_keys(Seq::empty()).add(keys_upto(level, from)) =~= leaf_keys(level));
    } else {
        let x = sort_node(level[from as int]);
        let rest = sort_from(level, from + 1);
        lemma_sort_keys(level, from + 1);
        lemma_sort_node_keys(level[from as int]);
        lemma_insert_at_slot(x, rest);
        lemma_keys_insert(rest, slot(x, rest), x);
        assert(leaf_keys(rest).add(node_keys(x)).add(keys_upto(level, from)) =~= leaf_keys(
            rest,
        ).add(keys_upto(level, from).add(node_keys(level[from as int]))));
    }
}

/// Sorting keeps every leaf's key in line with the labels on the way to it.
pub proof fn lemma_sort_agrees(level: Seq<Node>, from: nat, prefix: Seq<Seq<char>>)
    requires
        paths_agree(level, prefix),
    ensures
        paths_agree(sort_from(level, from), prefix),
    decreases level, level.len() - from,
{
    if from < level.len() {
        let node = level[from as int];
        let x = sort_node(node);
        let rest = sort_from(level, from + 1);
        lemma_sort_agrees(level, from + 1, prefix);
        match node.children {
            Some(below) => {
                lemma_sort_agrees(below, 0, prefix.push(node.label));
            },
            None => {},
        }
        lemma_insert_at_slot(x, rest);
        let k = slot(x, rest);
        let r = rest.insert(k, x);
        assert forall|i: int| 0 <= i < r.len() implies match (#[trigger] r[i]).children {
            Some(below) => paths_agree(below, prefix.push(r[i].label)),
            None => r[i].key == join(prefix.push(r[i].label), DELIMITER),
        } by {
            if i < k {
                assert(r[i] == rest[i]);
            } else if i > k {
                assert(r[i] == rest[i - 1]);
            }
        }
    }
}

} // verus!
