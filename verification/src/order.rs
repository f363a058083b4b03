//! The display order of a forest: groups before leaves, then by label.

use vstd::prelude::*;
use crate::models::redis::Node;
use crate::models::redis::RedisTreeItem;
use crate::models::redis::lemma_children_view;
use crate::text::lemma_lex_asymmetric;
use crate::text::lemma_lex_total;
use crate::text::lemma_lex_transitive;
use crate::text::lex_lt;
use crate::text::text_lt;

verus! {

/// Whether `a` is shown strictly before `b`: a group comes before a leaf, and
/// of two nodes of one kind the one with the lexically smaller label.
pub open spec fn node_before(a: Node, b: Node) -> bool {
    if (a.children is Some) != (b.children is Some) {
        a.children is Some
    } else {
        lex_lt(a.label, b.label)
    }
}

/// `sorted` with `x` put in front of the first node that is not before it.
pub open spec fn insert_sorted(x: Node, sorted: Seq<Node>) -> Seq<Node>
    decreases sorted.len(),
{
    if sorted.len() == 0 {
        seq![x]
    } else if node_before(sorted[0], x) {
        seq![sorted[0]] + insert_sorted(x, sorted.drop_first())
    } else {
        seq![x] + sorted
    }
}

/// `node` with everything below it in display order.
pub open spec fn sort_node(node: Node) -> Node
    decreases node, 0nat,
{
    match node.children {
        Some(below) => Node { children: Some(sort_from(below, 0)), ..node },
        None => node,
    }
}

/// The nodes of `level` from place `from` on, in display order at every
/// depth. Nodes that neither is before the other keep their order.
pub open spec fn sort_from(level: Seq<Node>, from: nat) -> Seq<Node>
    decreases level, level.len() - from,
{
    if from >= level.len() {
        Seq::empty()
    } else {
        insert_sorted(sort_node(level[from as int]), sort_from(level, from + 1))
    }
}

/// `level` in display order at every depth.
pub open spec fn sort_forest(level: Seq<Node>) -> Seq<Node> {
    sort_from(level, 0)
}

/// The first place in `sorted` whose node is not before `x`.
pub open spec fn slot(x: Node, sorted: Seq<Node>) -> int
    decreases sorted.len(),
{
    if sorted.len() == 0 || !node_before(sorted[0], x) {
        0
    } else {
        1 + slot(x, sorted.drop_first())
    }
}

/// `insert_sorted` puts the node at its slot.
pub proof fn lemma_insert_at_slot(x: Node, sorted: Seq<Node>)
    ensures
        0 <= slot(x, sorted) <= sorted.len(),
        insert_sorted(x, sorted) == sorted.insert(slot(x, sorted), x),
    decreases sorted.len(),
{
    if sorted.len() == 0 {
        assert(seq![x] =~= sorted.insert(0, x));
    } else if node_before(sorted[0], x) {
        let rest = sorted.drop_first();
        lemma_insert_at_slot(x, rest);
        assert(seq![sorted[0]] + rest.insert(slot(x, rest), x) =~= sorted.insert(
            slot(x, rest) + 1,
            x,
        ));
    } else {
        assert(seq![x] + sorted =~= sorted.insert(0, x));
    }
}

/// The slot is the first place that does not come before the node.
proof fn lemma_slot(x: Node, sorted: Seq<Node>, i: int)
    requires
        0 <= i <= sorted.len(),
        forall|j: int| 0 <= j < i ==> node_before(#[trigger] sorted[j], x),
        i < sorted.len() ==> !node_before(sorted[i], x),
    ensures
        slot(x, sorted) == i,
    decreases i,
{
    if i > 0 {
        let rest = sorted.drop_first();
        assert forall|j: int| 0 <= j < i - 1 implies node_before(#[trigger] rest[j], x) by {
            assert(rest[j] == sorted[j + 1]);
        }
        lemma_slot(x, rest, i - 1);
        assert(node_before(sorted[0], x));
    }
}

/// The slot has only nodes before `x` in front of it, and holds a node that
/// is not before `x`, unless it is the end.
pub proof fn lemma_slot_found(x: Node, sorted: Seq<Node>)
    ensures
        0 <= slot(x, sorted) <= sorted.len(),
        forall|j: int| 0 <= j < slot(x, sorted) ==> node_before(#[trigger] sorted[j], x),
        slot(x, sorted) < sorted.len() ==> !node_before(sorted[slot(x, sorted)], x),
    decreases sorted.len(),
{
    if sorted.len() > 0 && node_before(sorted[0], x) {
        let rest = sorted.drop_first();
        lemma_slot_found(x, rest);
        assert forall|j: int| 0 <= j < slot(x, sorted) implies node_before(
            #[trigger] sorted[j],
            x,
        ) by {
            if j > 0 {
                assert(sorted[j] == rest[j - 1]);
            }
        }
    }
}

/// No node is before itself, and two nodes are never each before the other.
pub proof fn lemma_before_asymmetric(a: Node, b: Node)
    ensures
        !(node_before(a, b) && node_before(b, a)),
{
    if node_before(a, b) && node_before(b, a) {
        lemma_lex_asymmetric(a.label, b.label);
    }
}

/// Where `a` is before `c`, any node has `a` before it or is itself before `c`.
pub proof fn lemma_before_between(a: Node, b: Node, c: Node)
    requires
        node_before(a, c),
    ensures
        node_before(a, b) || node_before(b, c),
{
    if (a.children is Some) == (c.children is Some) && (a.children is Some) == (b.children is Some)
    {
        lemma_lex_total(a.label, b.label);
        if lex_lt(b.label, a.label) {
            lemma_lex_transitive(b.label, a.label, c.label);
        }
    }
}

/// Two nodes of one kind with different labels: one is before the other.
pub proof fn lemma_before_total(a: Node, b: Node)
    ensures
        node_before(a, b) || node_before(b, a) || ((a.children is Some) == (b.children is Some)
            && a.label == b.label),
{
    lemma_lex_total(a.label, b.label);
}

/// No node of `level` is before one that stands earlier.
pub open spec fn level_ordered(level: Seq<Node>) -> bool {
    forall|i: int, j: int| 0 <= i < j < level.len() ==> !node_before(level[j], level[i])
}

/// Every level of the forest is in display order.
pub open spec fn ordered(level: Seq<Node>) -> bool
    decreases level,
{
    &&& level_ordered(level)
    &&& forall|i: int|
        0 <= i < level.len() ==> match (#[trigger] level[i]).children {
            Some(below) => ordered(below),
            None => true,
        }
}

/// Putting a node into an ordered level leaves the level ordered.
pub proof fn lemma_insert_keeps_order(x: Node, sorted: Seq<Node>)
    requires
        level_ordered(sorted),
    ensures
        level_ordered(insert_sorted(x, sorted)),
{
    lemma_insert_at_slot(x, sorted);
    lemma_slot_found(x, sorted);
    let k = slot(x, sorted);
    let r = sorted.insert(k, x);
    assert forall|i: int, j: int| 0 <= i < j < r.len() implies !node_before(r[j], r[i]) by {
        if j == k {
            assert(node_before(sorted[i], x));
            lemma_before_asymmetric(sorted[i], x);
        } else if i == k {
            if node_before(sorted[j - 1], x) {
                lemma_before_between(sorted[j - 1], sorted[k], x);
                lemma_before_asymmetric(sorted[k], sorted[k]);
            }
        } else {
        }
    }
}

/// Sorting puts every level in display order.
pub proof fn lemma_sort_ordered(level: Seq<Node>, from: nat)
    ensures
        ordered(sort_from(level, from)),
    decreases level, level.len() - from,
{
    if from < level.len() {
        let x = sort_node(level[from as int]);
        let rest = sort_from(level, from + 1);
        lemma_sort_ordered(level, from + 1);
        match level[from as int].children {
            Some(below) => {
                lemma_sort_ordered(below, 0);
            },
            None => {},
        }
        lemma_insert_keeps_order(x, rest);
        lemma_insert_at_slot(x, rest);
        let k = slot(x, rest);
        let r = rest.insert(k, x);
        assert forall|i: int| 0 <= i < r.len() implies match (#[trigger] r[i]).children {
            Some(below) => ordered(below),
            None => true,
        } by {
            if i < k {
                assert(r[i] == rest[i]);
            } else if i > k {
                assert(r[i] == rest[i - 1]);
            }
        }
    }
}

/// The order is transitive.
pub proof fn lemma_before_transitive(a: Node, b: Node, c: Node)
    requires
        node_before(a, b),
        node_before(b, c),
    ensures
        node_before(a, c),
{
    if (a.children is Some) == (b.children is Some) && (b.children is Some) == (c.children is Some)
    {
        lemma_lex_transitive(a.label, b.label, c.label);
    }
}

/// No two nodes of `level` are of one kind with one label.
pub open spec fn level_distinct(level: Seq<Node>) -> bool {
    forall|i: int, j: int|
        0 <= i < j < level.len() ==> !((level[i].children is Some) == (level[j].children is Some)
            && level[i].label == level[j].label)
}

/// On no level of the forest are two siblings of one kind with one label.
pub open spec fn distinct(level: Seq<Node>) -> bool
    decreases level,
{
    &&& level_distinct(level)
    &&& forall|i: int|
        0 <= i < level.len() ==> match (#[trigger] level[i]).children {
            Some(below) => distinct(below),
            None => true,
        }
}

/// Every node of `level` is before all that stand later.
pub open spec fn level_strict(level: Seq<Node>) -> bool {
    forall|i: int, j: int| 0 <= i < j < level.len() ==> node_before(level[i], level[j])
}

/// On every level of the forest every node is before all that stand later:
/// groups first, then leaves, each kind in strict lexical order of its labels.
pub open spec fn strictly_ordered(level: Seq<Node>) -> bool
    decreases level,
{
    &&& level_strict(level)
    &&& forall|i: int|
        0 <= i < level.len() ==> match (#[trigger] level[i]).children {
            Some(below) => strictly_ordered(below),
            None => true,
        }
}

/// Sorting a forest without two siblings of one kind and label puts every
/// level in strict display order. Each sorted node is the sorted form of a
/// node of the level.
pub proof fn lemma_sort_strict(level: Seq<Node>, from: nat)
    requires
        distinct(level),
    ensures
        strictly_ordered(sort_from(level, from)),
        forall|i: int|
            0 <= i < sort_from(level, from).len() ==> exists|j: int|
                from <= j < level.len() && (#[trigger] sort_from(level, from)[i]) == sort_node(
                    level[j],
                ),
    decreases level, level.len() - from,
{
    if from < level.len() {
        let node = level[from as int];
        let x = sort_node(node);
        let rest = sort_from(level, from + 1);
        lemma_sort_strict(level, from + 1);
        match node.children {
            Some(below) => {
                lemma_sort_strict(below, 0);
            },
            None => {},
        }
        lemma_insert_at_slot(x, rest);
        lemma_slot_found(x, rest);
        let k = slot(x, rest);
        let r = rest.insert(k, x);
        assert forall|i: int| 0 <= i < r.len() implies exists|j: int|
            from <= j < level.len() && (#[trigger] r[i]) == sort_node(level[j]) by {
            if i == k {
                assert(r[i] == sort_node(level[from as int]));
            } else {
                let at = if i < k { i } else { i - 1 };
                assert(r[i] == rest[at]);
                let j = choose|j: int|
                    from + 1 <= j < level.len() && rest[at] == sort_node(level[j]);
                assert(r[i] == sort_node(level[j]));
            }
        }
        assert forall|i: int| 0 <= i < r.len() implies match (#[trigger] r[i]).children {
            Some(below) => strictly_ordered(below),
            None => true,
        } by {
            if i < k {
                assert(r[i] == rest[i]);
            } else if i > k {
                assert(r[i] == rest[i - 1]);
            }
        }
        assert forall|i: int, j: int| 0 <= i < j < r.len() implies node_before(r[i], r[j]) by {
            if j == k {
                assert(node_before(rest[i], x));
            } else if i == k {
                let y = rest[j - 1];
                let m = choose|m: int|
                    from + 1 <= m < level.len() && rest[j - 1] == sort_node(level[m]);
                assert(!((level[from as int].children is Some) == (level[m].children is Some)
                    && level[from as int].label == level[m].label));
                lemma_before_total(x, y);
                if node_before(y, x) {
                    if j - 1 > k {
                        assert(node_before(rest[k], y));
                        lemma_before_transitive(rest[k], y, x);
                    }
                }
            } else {
            }
        }
    }
}

/// Whether `a` is shown strictly before `b`.
pub fn item_before(a: &RedisTreeItem, b: &RedisTreeItem) -> (r: bool)
    ensures
        r == node_before(a@, b@),
{
    proof {
        lemma_children_view(*a);
        lemma_children_view(*b);
    }
    let a_group = a.children.is_some();
    let b_group = b.children.is_some();
    if a_group != b_group {
        a_group
    } else {
        text_lt(a.label.as_str(), b.label.as_str())
    }
}

/// Puts `item` into `sorted` in front of the first node that is not before it.
fn insert_item(sorted: &mut Vec<RedisTreeItem>, item: RedisTreeItem)
    ensures
        final(sorted).deep_view() == insert_sorted(item@, old(sorted).deep_view()),
{
    let ghost before = sorted.deep_view();
    let n: usize = sorted.len();
    let mut i: usize = 0;
    while i < n && item_before(&sorted[i], &item)
        invariant
            n == sorted.len(),
            i <= n,
            sorted.deep_view() == before,
            forall|j: int| 0 <= j < i ==> node_before(#[trigger] before[j], item@),
        decreases n - i,
    {
        i = i + 1;
    }
    proof {
        lemma_slot(item@, before, i as int);
        lemma_insert_at_slot(item@, before);
    }
    sorted.insert(i, item);
    assert(sorted.deep_view() =~= before.insert(i as int, item@));
}

/// Puts `level` in display order at every depth: groups before leaves, then
/// by label; nodes that neither is before the other keep their order.
pub fn sort_tree(level: Vec<RedisTreeItem>) -> (sorted: Vec<RedisTreeItem>)
    ensures
        sorted.deep_view() == sort_forest(level.deep_view()),
        ordered(sorted.deep_view()),
    decreases level,
{
    let ghost whole = level.deep_view();
    let mut rest = level;
    let mut sorted: Vec<RedisTreeItem> = Vec::new();
    assert(sorted.deep_view() =~= Seq::<Node>::empty());
    while rest.len() > 0
        invariant
            rest@ == level@.take(rest.len() as int),
            rest.len() <= level.len(),
            whole == level.deep_view(),
            sorted.deep_view() == sort_from(whole, rest.len() as nat),
        decreases rest.len(),
    {
        let ghost at = rest.len() - 1;
        let item = rest.pop().unwrap();
        proof {
            assert(item == level@[at]);
            assert(decreases_to!(level => level[at]));
            lemma_children_view(item);
        }
        let RedisTreeItem { key, label, children, item_type } = item;
        let node = match children {
            Some(below) => {
                let below_sorted = sort_tree(below);
                RedisTreeItem { key, label, children: Some(below_sorted), item_type }
            },
            None => RedisTreeItem { key, label, children: None, item_type },
        };
        proof {
            lemma_children_view(node);
            assert(node@ == sort_node(whole[at]));
        }
        insert_item(&mut sorted, node);
    }
    proof {
        lemma_sort_ordered(whole, 0);
    }
    sorted
}

} // verus!
