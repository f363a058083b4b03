//! The keyspace projector: from a flat list of keys to the tree that is shown.

use vstd::prelude::*;
use crate::canon::lemma_fold_plain;
use crate::canon::lemma_sort_plain;
use crate::canon::plain;
use crate::leaves::has_key;
use crate::leaves::leaf_keys;
use crate::leaves::lemma_fold_agrees;
use crate::leaves::lemma_fold_distinct;
use crate::leaves::lemma_fold_keys_once;
use crate::leaves::lemma_sort_agrees;
use crate::leaves::lemma_sort_keys;
use crate::leaves::paths_agree;
use crate::models::redis::Node;
use crate::models::redis::RedisTreeItem;
use crate::order::lemma_sort_strict;
use crate::order::sort_forest;
use crate::order::sort_tree;
use crate::order::strictly_ordered;
use crate::tree::convert_keys_to_tree;
use crate::tree::fold_keys;

verus! {

/// The forest shown for the entries, each a key with its wire type: the keys
/// folded into groups and leaves, every level in display order.
pub open spec fn build_forest(entries: Seq<(Seq<char>, Seq<char>)>) -> Seq<Node> {
    sort_forest(fold_keys(entries))
}

/// The forest of any entries is in strict display order on every level:
/// groups before leaves, each kind by label.
pub proof fn lemma_forest_ordered(entries: Seq<(Seq<char>, Seq<char>)>)
    ensures
        strictly_ordered(build_forest(entries)),
{
    lemma_fold_distinct(entries);
    lemma_sort_strict(fold_keys(entries), 0);
}

/// In the forest of any entries every leaf's key is the join of the labels
/// from the root down to the leaf.
pub proof fn lemma_forest_paths(entries: Seq<(Seq<char>, Seq<char>)>)
    ensures
        paths_agree(build_forest(entries), Seq::empty()),
{
    lemma_fold_agrees(entries);
    lemma_sort_agrees(fold_keys(entries), 0, Seq::empty());
}

/// In the forest of any entries a node is a group or a leaf, never both and
/// never neither: a group has nodes below it and neither key nor wire type, a
/// leaf has none below it.
pub proof fn lemma_forest_plain(entries: Seq<(Seq<char>, Seq<char>)>)
    ensures
        plain(build_forest(entries)),
{
    lemma_fold_plain(entries);
    lemma_sort_plain(fold_keys(entries), 0);
}

/// Every key among the entries is the key of exactly one leaf of their
/// forest, however often it occurs among them, and no leaf has a key that is
/// not among them.
pub proof fn lemma_forest_keys(entries: Seq<(Seq<char>, Seq<char>)>, key: Seq<char>)
    ensures
        leaf_keys(build_forest(entries)).count(key) == if has_key(entries, key) {
            1nat
        } else {
            0nat
        },
{
    lemma_fold_keys_once(entries, key);
    lemma_sort_keys(fold_keys(entries), 0);
}

/// Builds the tree shown for the entries, each a key with its wire type.
pub fn build_tree(entries: &Vec<(String, String)>) -> (tree: Vec<RedisTreeItem>)
    ensures
        tree.deep_view() == build_forest(entries.deep_view()),
        strictly_ordered(tree.deep_view()),
        plain(tree.deep_view()),
        paths_agree(tree.deep_view(), Seq::empty()),
        forall|key: Seq<char>|
            #![trigger leaf_keys(tree.deep_view()).count(key)]
            leaf_keys(tree.deep_view()).count(key) == if has_key(entries.deep_view(), key) {
                1nat
            } else {
                0nat
            },
{
    let tree = sort_tree(convert_keys_to_tree(entries));
    proof {
        lemma_forest_ordered(entries.deep_view());
        lemma_forest_plain(entries.deep_view());
        lemma_forest_paths(entries.deep_view());
        assert forall|key: Seq<char>|
            #![trigger leaf_keys(tree.deep_view()).count(key)]
            leaf_keys(tree.deep_view()).count(key) == if has_key(entries.deep_view(), key) {
                1nat
            } else {
                0nat
            } by {
            lemma_forest_keys(entries.deep_view(), key);
        }
    }
    tree
}

} // verus!
