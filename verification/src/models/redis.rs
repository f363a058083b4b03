//! The data shown for a keyspace: tree nodes and typed values.

use std::collections::HashMap;
use vstd::prelude::*;

verus! {

/// The mathematical form of a tree node.
pub struct Node {
    /// The full key; empty on a group.
    pub key: Seq<char>,
    /// One path segment.
    pub label: Seq<char>,
    /// The nodes below a group; `None` on a leaf.
    pub children: Option<Seq<Node>>,
    /// The wire type of a leaf's key; empty on a group.
    pub item_type: Seq<char>,
}

/// A node of the keyspace tree.
#[derive(Debug, PartialEq, Eq)]
pub struct RedisTreeItem {
    pub key: String,
    pub label: String,
    pub children: Option<Vec<RedisTreeItem>>,
    pub item_type: String,
}

/// The nodes that the first `n` of `items` stand for.
pub open spec fn nodes_of(items: Seq<RedisTreeItem>, n: nat) -> Seq<Node>
    decreases items, n,
{
    if n == 0 || n > items.len() {
        Seq::empty()
    } else {
        nodes_of(items, (n - 1) as nat).push(items[n - 1].deep_view())
    }
}

impl DeepView for RedisTreeItem {
    type V = Node;

    open spec fn deep_view(&self) -> Node
        decreases self, 0nat,
    {
        Node {
            key: self.key@,
            label: self.label@,
            children: match self.children {
                Some(below) => Some(nodes_of(below@, below@.len())),
                None => None,
            },
            item_type: self.item_type@,
        }
    }
}

impl View for RedisTreeItem {
    type V = Node;

    open spec fn view(&self) -> Node {
        self.deep_view()
    }
}

/// `nodes_of` goes item by item.
pub proof fn lemma_nodes_of(items: Seq<RedisTreeItem>, n: nat)
    requires
        n <= items.len(),
    ensures
        nodes_of(items, n).len() == n,
        forall|i: int| 0 <= i < n ==> (#[trigger] nodes_of(items, n)[i]) == items[i].deep_view(),
    decreases n,
{
    if n > 0 {
        lemma_nodes_of(items, (n - 1) as nat);
        assert(nodes_of(items, n) == nodes_of(items, (n - 1) as nat).push(
            items[n - 1].deep_view(),
        ));
    } else {
        assert(nodes_of(items, n) == Seq::<Node>::empty());
    }
}

/// The children of a node's view are the views of its children.
pub broadcast proof fn lemma_children_view(item: RedisTreeItem)
    ensures
        (#[trigger] item.deep_view()).children == match item.children {
            Some(below) => Some(below.deep_view()),
            None => None,
        },
{
    match item.children {
        Some(below) => {
            lemma_nodes_of(below@, below@.len());
            assert(nodes_of(below@, below@.len()) =~= below.deep_view());
        },
        None => {},
    }
}

/// The kinds of value that can be shown.
#[derive(Debug, Clone, Copy, PartialEq, Eq, Structural)]
pub enum WireType {
    StringType,
    ListType,
    SetType,
    HashType,
    ZSetType,
    StreamType,
}

/// A value as it was fetched, in the shape of its wire type. A score of a
/// sorted set is carried as the bit pattern of its 64-bit floating point
/// value. A stream is a list of entries, each a map from the entry's id to its
/// fields.
#[derive(Debug, Clone, PartialEq, Eq)]
pub enum RedisItemValue {
    StringValue(String),
    HashValue(HashMap<String, String>),
    ListValue(Vec<String>),
    SetValue(Vec<String>),
    ZSetValue(Vec<(String, u64)>),
    StreamValue(Vec<HashMap<String, HashMap<String, String>>>),
}

/// The wire type whose shape a value has.
pub open spec fn shape_of(value: RedisItemValue) -> WireType {
    match value {
        RedisItemValue::StringValue(_) => WireType::StringType,
        RedisItemValue::HashValue(_) => WireType::HashType,
        RedisItemValue::ListValue(_) => WireType::ListType,
        RedisItemValue::SetValue(_) => WireType::SetType,
        RedisItemValue::ZSetValue(_) => WireType::ZSetType,
        RedisItemValue::StreamValue(_) => WireType::StreamType,
    }
}

impl RedisItemValue {
    /// The wire type whose shape the value has.
    pub fn shape(&self) -> (r: WireType)
        ensures
            r == shape_of(*self),
    {
        match self {
            RedisItemValue::StringValue(_) => WireType::StringType,
            RedisItemValue::HashValue(_) => WireType::HashType,
            RedisItemValue::ListValue(_) => WireType::ListType,
            RedisItemValue::SetValue(_) => WireType::SetType,
            RedisItemValue::ZSetValue(_) => WireType::ZSetType,
            RedisItemValue::StreamValue(_) => WireType::StreamType,
        }
    }
}

/// A key's value with what the store reports about the key: the seconds it
/// has left to live, -1 where it does not expire, and its approximate size in
/// bytes. It is a snapshot taken when it was fetched.
#[derive(Debug, Clone, PartialEq, Eq)]
pub struct RedisItem {
    pub redis_key: String,
    pub value: RedisItemValue,
    pub ttl: i64,
    pub size: i64,
}

/// The end of a list at which items are added.
#[derive(Debug, Clone, Copy, PartialEq, Eq, Structural)]
pub enum ListDirection {
    Start,
    End,
}

} // verus!
