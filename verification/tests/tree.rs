use madis::models::redis::RedisTreeItem;
use madis::order::item_before;
use madis::order::sort_tree;
use madis::projector::build_tree;
use madis::tree::convert_keys_to_tree;

fn entry(key: &str, kind: &str) -> (String, String) {
    (key.to_string(), kind.to_string())
}

fn leaf(key: &str, label: &str, kind: &str) -> RedisTreeItem {
    RedisTreeItem {
        key: key.to_string(),
        label: label.to_string(),
        children: None,
        item_type: kind.to_string(),
    }
}

fn group(label: &str, children: Vec<RedisTreeItem>) -> RedisTreeItem {
    RedisTreeItem {
        key: String::new(),
        label: label.to_string(),
        children: Some(children),
        item_type: String::new(),
    }
}

fn leaf_keys(level: &Vec<RedisTreeItem>, out: &mut Vec<String>) {
    for node in level {
        match &node.children {
            Some(below) => leaf_keys(below, out),
            None => out.push(node.key.clone()),
        }
    }
}

fn paths_agree(level: &Vec<RedisTreeItem>, prefix: &Vec<String>) -> bool {
    level.iter().all(|node| {
        let mut path = prefix.clone();
        path.push(node.label.clone());
        match &node.children {
            Some(below) => node.key.is_empty() && paths_agree(below, &path),
            None => node.key == path.join(":"),
        }
    })
}

#[test]
fn builds_groups_before_leaves() {
    let tree = build_tree(&vec![
        entry("banana", "string"),
        entry("user:2", "hash"),
        entry("Apple", "list"),
        entry("user:1", "hash"),
    ]);
    assert_eq!(
        tree,
        vec![
            group("user", vec![leaf("user:1", "1", "hash"), leaf("user:2", "2", "hash")]),
            leaf("Apple", "Apple", "list"),
            leaf("banana", "banana", "string"),
        ]
    );
}

#[test]
fn empty_listing_gives_empty_tree() {
    assert_eq!(build_tree(&vec![]), vec![]);
}

#[test]
fn fold_keeps_the_order_of_arrival() {
    let tree = convert_keys_to_tree(&vec![
        entry("b:y", "set"),
        entry("a", "string"),
        entry("b:x", "zset"),
    ]);
    assert_eq!(
        tree,
        vec![
            group("b", vec![leaf("b:y", "y", "set"), leaf("b:x", "x", "zset")]),
            leaf("a", "a", "string"),
        ]
    );
}

#[test]
fn group_and_leaf_of_one_label_stand_side_by_side() {
    let expected = vec![
        group("a", vec![leaf("a:b", "b", "hash")]),
        leaf("a", "a", "string"),
    ];
    assert_eq!(build_tree(&vec![entry("a", "string"), entry("a:b", "hash")]), expected);
    assert_eq!(build_tree(&vec![entry("a:b", "hash"), entry("a", "string")]), expected);
}

#[test]
fn a_key_listed_twice_is_kept_once_with_its_first_type() {
    let tree = build_tree(&vec![entry("k:1", "list"), entry("k:1", "set")]);
    assert_eq!(tree, vec![group("k", vec![leaf("k:1", "1", "list")])]);
}

#[test]
fn empty_segments_are_segments() {
    let tree = build_tree(&vec![entry("", "string"), entry(":", "list"), entry("a::b", "set")]);
    assert_eq!(
        tree,
        vec![
            group("", vec![leaf(":", "", "list")]),
            group("a", vec![group("", vec![leaf("a::b", "b", "set")])]),
            leaf("", "", "string"),
        ]
    );
}

#[test]
fn deep_levels_are_sorted_too() {
    let tree = build_tree(&vec![
        entry("app:z:2", "string"),
        entry("app:b", "string"),
        entry("app:z:1", "string"),
        entry("app:a:x", "string"),
    ]);
    assert_eq!(
        tree,
        vec![group(
            "app",
            vec![
                group("a", vec![leaf("app:a:x", "x", "string")]),
                group(
                    "z",
                    vec![leaf("app:z:1", "1", "string"), leaf("app:z:2", "2", "string")]
                ),
                leaf("app:b", "b", "string"),
            ]
        )]
    );
}

#[test]
fn every_key_is_the_key_of_exactly_one_leaf() {
    let keys = vec!["s:1:a", "s:1:b", "s:2", "s", "t", "s:1", "u:v:w:x"];
    let entries: Vec<(String, String)> = keys.iter().map(|k| entry(k, "string")).collect();
    let tree = build_tree(&entries);
    let mut found = Vec::new();
    leaf_keys(&tree, &mut found);
    found.sort();
    let mut expected: Vec<String> = keys.iter().map(|k| k.to_string()).collect();
    expected.sort();
    assert_eq!(found, expected);
    assert!(paths_agree(&tree, &vec![]));
}

#[test]
fn the_tree_does_not_depend_on_the_order_of_the_listing() {
    let one = vec![
        entry("a:1", "string"),
        entry("b", "list"),
        entry("a:2:x", "hash"),
        entry("a", "set"),
        entry("C", "zset"),
    ];
    let mut other = one.clone();
    other.reverse();
    other.push(entry("b", "list"));
    assert_eq!(build_tree(&one), build_tree(&other));
    assert_eq!(build_tree(&one), build_tree(&one));
}

#[test]
fn upper_case_sorts_before_lower_case() {
    let tree = build_tree(&vec![entry("banana", "string"), entry("Apple", "string")]);
    assert_eq!(tree[0].label, "Apple");
    assert_eq!(tree[1].label, "banana");
    assert!(item_before(&leaf("Apple", "Apple", ""), &leaf("banana", "banana", "")));
    assert!(!item_before(&leaf("banana", "banana", ""), &leaf("Apple", "Apple", "")));
}

#[test]
fn a_group_is_before_any_leaf() {
    assert!(item_before(&group("z", vec![]), &leaf("a", "a", "")));
    assert!(!item_before(&leaf("a", "a", ""), &group("z", vec![])));
    assert!(!item_before(&leaf("a", "a", ""), &leaf("a", "a", "")));
    assert!(item_before(&leaf("a", "a", ""), &leaf("ab", "ab", "")));
}

#[test]
fn sorting_keeps_the_order_of_nodes_that_rank_alike() {
    let sorted = sort_tree(vec![
        leaf("k2", "same", "list"),
        leaf("k0", "aaa", "set"),
        leaf("k1", "same", "string"),
    ]);
    assert_eq!(
        sorted,
        vec![
            leaf("k0", "aaa", "set"),
            leaf("k2", "same", "list"),
            leaf("k1", "same", "string"),
        ]
    );
}
