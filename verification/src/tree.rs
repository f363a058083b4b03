//! Folding flat keys into a forest.

use vstd::prelude::*;
use crate::models::redis::Node;
use crate::models::redis::RedisTreeItem;
use crate::models::redis::lemma_children_view;
use crate::text::split_on;
use crate::text::split_text;
use crate::text::lemma_split_shape;

verus! {

/// The character that parts a key into path segments.
pub const DELIMITER: char = ':';

/// Whether `node` is of the given kind (group or leaf) and has the given label.
pub open spec fn is_kind(node: Node, label: Seq<char>, group: bool) -> bool {
    (node.children is Some) == group && node.label == label
}

/// The first place in `level` that holds a node of the given kind with the
/// given label; the length of `level` when there is none.
pub open spec fn position(level: Seq<Node>, label: Seq<char>, group: bool) -> int
    decreases level.len(),
{
    if level.len() == 0 {
        0
    } else if is_kind(level[0], label, group) {
        0
    } else {
        1 + position(level.drop_first(), label, group)
    }
}

/// The leaf that stands for `key`.
pub open spec fn leaf_node(key: Seq<char>, label: Seq<char>, item_type: Seq<char>) -> Node {
    Node { key, label, children: None, item_type }
}

/// The group with the given label over the nodes `below`.
pub open spec fn group_node(label: Seq<char>, below: Seq<Node>) -> Node {
    Node { key: Seq::empty(), label, children: Some(below), item_type: Seq::empty() }
}

/// `level` after the key with the given path has been folded in.
///
/// Every segment but the last finds the first group of its label among the
/// siblings, or adds one at the end, and goes on below it. The last segment
/// adds a leaf at the end, unless a leaf of that label is there already. A
/// group and a leaf of one label stand side by side.
pub open spec fn insert_path(
    level: Seq<Node>,
    path: Seq<Seq<char>>,
    key: Seq<char>,
    item_type: Seq<char>,
) -> Seq<Node>
    decreases path.len(),
{
    if path.len() == 0 {
        level
    } else if path.len() == 1 {
        if position(level, path[0], false) < level.len() {
            level
        } else {
            level.push(leaf_node(key, path[0], item_type))
        }
    } else {
        let i = position(level, path[0], true);
        if i < level.len() {
            level.update(
                i,
                Node {
                    children: Some(
                        insert_path(level[i].children->0, path.drop_first(), key, item_type),
                    ),
                    ..level[i]
                },
            )
        } else {
            level.push(
                group_node(
                    path[0],
                    insert_path(Seq::empty(), path.drop_first(), key, item_type),
                ),
            )
        }
    }
}

/// The forest that the entries, each a key with its wire type, fold into, in
/// the order in which they were folded in.
pub open spec fn fold_keys(entries: Seq<(Seq<char>, Seq<char>)>) -> Seq<Node>
    decreases entries.len(),
{
    if entries.len() == 0 {
        Seq::empty()
    } else {
        let entry = entries.last();
        insert_path(fold_keys(entries.drop_last()), split_on(entry.0, DELIMITER), entry.0, entry.1)
    }
}

/// `position` is the first place that matches.
pub proof fn lemma_position(level: Seq<Node>, label: Seq<char>, group: bool, i: int)
    requires
        0 <= i <= level.len(),
        forall|j: int| 0 <= j < i ==> !is_kind(#[trigger] level[j], label, group),
        i < level.len() ==> is_kind(level[i], label, group),
    ensures
        position(level, label, group) == i,
    decreases i,
{
    if i > 0 {
        let rest = level.drop_first();
        assert forall|j: int| 0 <= j < i - 1 implies !is_kind(#[trigger] rest[j], label, group) by {
            assert(rest[j] == level[j + 1]);
        }
        lemma_position(rest, label, group, i - 1);
        assert(!is_kind(level[0], label, group));
    }
}

/// What `position` returns: a match with none before it, or the length.
pub proof fn lemma_position_found(level: Seq<Node>, label: Seq<char>, group: bool)
    ensures
        0 <= position(level, label, group) <= level.len(),
        position(level, label, group) < level.len() ==> is_kind(
            level[position(level, label, group)],
            label,
            group,
        ),
        forall|j: int|
            0 <= j < position(level, label, group) ==> !is_kind(#[trigger] level[j], label, group),
    decreases level.len(),
{
    if level.len() > 0 && !is_kind(level[0], label, group) {
        let rest = level.drop_first();
        lemma_position_found(rest, label, group);
        let p = position(rest, label, group);
        assert forall|j: int| 0 <= j < p + 1 implies !is_kind(
            #[trigger] level[j],
            label,
            group,
        ) by {
            if j > 0 {
                assert(level[j] == rest[j - 1]);
            }
        }
    }
}

/// The first node of the given kind and label in `level`, or its length.
fn find_node(level: &Vec<RedisTreeItem>, label: &String, group: bool) -> (i: usize)
    ensures
        i == position(level.deep_view(), label@, group),
        i <= level.len(),
{
    let n: usize = level.len();
    let mut i: usize = 0;
    while i < n
        invariant
            n == level.len(),
            i <= n,
            forall|j: int| 0 <= j < i ==> !is_kind(#[trigger] level.deep_view()[j], label@, group),
        decreases n - i,
    {
        proof {
            lemma_children_view(level[i as int]);
        }
        if level[i].children.is_some() == group && level[i].label == *label {
            proof {
                lemma_position(level.deep_view(), label@, group, i as int);
            }
            return i;
        }
        i = i + 1;
    }
    proof {
        lemma_position(level.deep_view(), label@, group, n as int);
    }
    n
}

/// Folds the key with path `path`, from segment `depth` on, into `level`.
fn insert_segments(
    level: &mut Vec<RedisTreeItem>,
    path: &Vec<String>,
    depth: usize,
    key: &String,
    item_type: &String,
)
    requires
        depth < path.len(),
    ensures
        final(level).deep_view() == insert_path(
            old(level).deep_view(),
            path.deep_view().skip(depth as int),
            key@,
            item_type@,
        ),
    decreases path.len() - depth,
{
    let ghost before = level.deep_view();
    let ghost rest = path.deep_view().skip(depth as int);
    let label = &path[depth];
    assert(rest[0] == label@);
    if depth + 1 == path.len() {
        let i = find_node(level, label, false);
        if i == level.len() {
            let item = RedisTreeItem {
                key: key.clone(),
                label: label.clone(),
                children: None,
                item_type: item_type.clone(),
            };
            level.push(item);
            proof {
                lemma_children_view(item);
                assert(level.deep_view() =~= before.push(leaf_node(key@, label@, item_type@)));
            }
        }
    } else {
        assert(rest.drop_first() =~= path.deep_view().skip(depth + 1));
        let i = find_node(level, label, true);
        if i < level.len() {
            proof {
                lemma_position_found(before, label@, true);
                lemma_children_view(level[i as int]);
            }
            let ghost old_items = level@;
            let node = &mut level[i];
            match &mut node.children {
                Some(below) => {
                    insert_segments(below, path, depth + 1, key, item_type);
                },
                None => {},
            }
            proof {
                lemma_children_view(level[i as int]);
                let grown = insert_path(
                    before[i as int].children->0,
                    rest.drop_first(),
                    key@,
                    item_type@,
                );
                let expected = before.update(
                    i as int,
                    Node { children: Some(grown), ..before[i as int] },
                );
                assert(level@.len() == old_items.len());
                assert forall|j: int| 0 <= j < level@.len() implies level.deep_view()[j]
                    == expected[j] by {
                    if j != i {
                        assert(level@[j] == old_items[j]);
                    }
                }
                assert(level.deep_view() =~= expected);
            }
        } else {
            let mut below: Vec<RedisTreeItem> = Vec::new();
            assert(below.deep_view() =~= Seq::<Node>::empty());
            insert_segments(&mut below, path, depth + 1, key, item_type);
            let item = RedisTreeItem {
                key: String::new(),
                label: label.clone(),
                children: Some(below),
                item_type: String::new(),
            };
            level.push(item);
            proof {
                lemma_children_view(item);
                assert(level.deep_view() =~= before.push(
                    group_node(label@, below.deep_view()),
                ));
            }
        }
    }
}

/// Folds the entries, each a key with its wire type, into a forest. Keys are
/// parted on `:`; a key that occurs twice is kept once, with the wire type of
/// its first occurrence.
pub fn convert_keys_to_tree(entries: &Vec<(String, String)>) -> (tree: Vec<RedisTreeItem>)
    ensures
        tree.deep_view() == fold_keys(entries.deep_view()),
{
    let mut tree: Vec<RedisTreeItem> = Vec::new();
    let n: usize = entries.len();
    let mut i: usize = 0;
    assert(entries.deep_view().take(0) =~= Seq::empty());
    assert(tree.deep_view() =~= Seq::<Node>::empty());
    while i < n
        invariant
            n == entries.len(),
            i <= n,
            tree.deep_view() == fold_keys(entries.deep_view().take(i as int)),
        decreases n - i,
    {
        let entry = &entries[i];
        let path = split_text(entry.0.as_str(), DELIMITER);
        proof {
            lemma_split_shape(entry.0@, DELIMITER);
            assert(path.deep_view().skip(0) =~= path.deep_view());
            let upto = entries.deep_view().take(i + 1);
            assert(upto.drop_last() =~= entries.deep_view().take(i as int));
            assert(upto.last() == (entry.0@, entry.1@));
        }
        insert_segments(&mut tree, &path, 0, &entry.0, &entry.1);
        i = i + 1;
    }
    assert(entries.deep_view().take(n as int) =~= entries.deep_view());
    tree
}

} // verus!
