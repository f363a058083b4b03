//! Browsing: the keys that match a pattern, then the wire type of each, then
//! the tree.

use vstd::prelude::*;
use vstd::string::StringExecFns;
use crate::commands::detail::UNEXPECTED_REPLY;
use crate::commands::redis::get_key_type;
use crate::models::command::Answer;
use crate::models::command::Command;
use crate::models::command::CommandError;
use crate::models::command::CommandErrorView;
use crate::models::command::CommandView;
use crate::models::command::Mode;
use crate::models::command::Reply;
use crate::models::command::Request;
use crate::models::command::RequestView;
use crate::models::redis::RedisTreeItem;
use crate::projector::build_forest;
use crate::projector::build_tree;
use crate::session::AppState;

verus! {

/// One command for each key, asking for its wire type.
pub open spec fn type_lookups(keys: Seq<Seq<char>>) -> Seq<CommandView> {
    Seq::new(keys.len(), |i: int| CommandView::Type { key: keys[i] })
}

/// Each key with the wire type in its place.
pub open spec fn entries_of(keys: Seq<Seq<char>>, types: Seq<Seq<char>>) -> Seq<
    (Seq<char>, Seq<char>),
> {
    Seq::new(keys.len(), |i: int| (keys[i], types[i]))
}

/// The glob pattern that a browse lists: every key, or the keys whose names
/// hold the search term.
pub open spec fn pattern_of(search_term: Option<String>) -> Seq<char> {
    match search_term {
        Some(term) => "*"@ + term@ + "*"@,
        None => "*"@,
    }
}

/// A browse of the keyspace, between two requests. While `keys` is `None` the
/// key names are awaited, afterwards the wire types of the keys it holds.
#[derive(Debug, Clone, PartialEq, Eq)]
pub struct TreeScan {
    pub session: String,
    pub keys: Option<Vec<String>>,
}

/// What a browse does next.
#[derive(Debug, PartialEq, Eq)]
pub enum ScanStep {
    /// Send the request and hand its reply to `next`.
    Send { next: TreeScan, request: Request },
    /// The tree is built.
    Ready { tree: Vec<RedisTreeItem> },
    /// The browse failed; no part of a tree is returned.
    Failed { error: CommandError },
}

/// The step `r` fails with `error`.
pub open spec fn scan_fails(r: ScanStep, error: CommandErrorView) -> bool {
    r is Failed && r->error@ == error
}

/// What the browse `scan` does with `reply`.
///
/// A failure of the transport, in the listing or in any type lookup, ends it.
/// The key names are followed by one type lookup for each key; no key at all
/// gives the empty tree at once. The wire types, one for each key, give the
/// tree of the keys. Any reply that was not asked for ends the browse with a
/// failure.
pub open spec fn scan_step(scan: TreeScan, reply: Reply, r: ScanStep) -> bool {
    let unexpected = CommandErrorView::TransportError { step: 0, message: UNEXPECTED_REPLY@ };
    match reply {
        Reply::Failed { step, message } => scan_fails(
            r,
            CommandErrorView::TransportError { step, message: message@ },
        ),
        Reply::Keys(keys) => if scan.keys is Some {
            scan_fails(r, unexpected)
        } else if keys@.len() == 0 {
            r is Ready && r->tree.deep_view() == Seq::<crate::models::redis::Node>::empty()
        } else {
            &&& r is Send
            &&& r->next.session@ == scan.session@
            &&& r->next.keys is Some
            &&& r->next.keys->0.deep_view() == keys.deep_view()
            &&& r->request@ == (RequestView {
                session: scan.session@,
                mode: Mode::Sequence,
                answer: Answer::Types,
                commands: type_lookups(keys.deep_view()),
            })
        },
        Reply::Types(types) => if scan.keys is Some && scan.keys->0@.len() == types@.len() {
            r is Ready && r->tree.deep_view() == build_forest(
                entries_of(scan.keys->0.deep_view(), types.deep_view()),
            )
        } else {
            scan_fails(r, unexpected)
        },
        _ => scan_fails(r, unexpected),
    }
}

/// The failure that a reply did not fit the request.
fn unexpected() -> (r: ScanStep)
    ensures
        scan_fails(r, CommandErrorView::TransportError { step: 0, message: UNEXPECTED_REPLY@ }),
{
    ScanStep::Failed {
        error: CommandError::TransportError { step: 0, message: String::from_str(UNEXPECTED_REPLY) },
    }
}

/// The type lookups for the keys.
fn lookups(keys: &Vec<String>) -> (commands: Vec<Command>)
    ensures
        commands.deep_view() == type_lookups(keys.deep_view()),
{
    let n: usize = keys.len();
    let mut commands: Vec<Command> = Vec::new();
    let mut i: usize = 0;
    while i < n
        invariant
            n == keys.len(),
            i <= n,
            commands.len() == i,
            forall|j: int|
                0 <= j < i ==> (#[trigger] commands[j])@ == (CommandView::Type { key: keys[j]@ }),
        decreases n - i,
    {
        commands.push(get_key_type(keys[i].clone()));
        i = i + 1;
    }
    assert(commands.deep_view() =~= type_lookups(keys.deep_view()));
    commands
}

/// Each key with the wire type in its place.
fn pair_up(keys: Vec<String>, types: Vec<String>) -> (entries: Vec<(String, String)>)
    requires
        keys.len() == types.len(),
    ensures
        entries.deep_view() == entries_of(keys.deep_view(), types.deep_view()),
{
    let n: usize = keys.len();
    let mut entries: Vec<(String, String)> = Vec::new();
    let mut i: usize = 0;
    while i < n
        invariant
            n == keys.len(),
            n == types.len(),
            i <= n,
            entries.len() == i,
            forall|j: int|
                0 <= j < i ==> (#[trigger] entries[j]).0@ == keys[j]@ && entries[j].1@
                    == types[j]@,
        decreases n - i,
    {
        entries.push((keys[i].clone(), types[i].clone()));
        i = i + 1;
    }
    assert(entries.deep_view() =~= entries_of(keys.deep_view(), types.deep_view()));
    entries
}

impl TreeScan {
    /// Starts a browse of the selected session: lists the keys whose names
    /// hold the search term, or all keys where none is given.
    pub fn start(state: &AppState, search_term: Option<String>) -> (r: Result<
        (TreeScan, Request),
        CommandError,
    >)
        ensures
            match state@.selected {
                Some(session) => {
                    &&& r is Ok
                    &&& r->Ok_0.0.session@ == session
                    &&& r->Ok_0.0.keys is None
                    &&& r->Ok_0.1@ == (RequestView {
                        session,
                        mode: Mode::Sequence,
                        answer: Answer::Keys,
                        commands: seq![CommandView::Keys { pattern: pattern_of(search_term) }],
                    })
                },
                None => r is Err && r->Err_0@ == CommandErrorView::NoActiveConnection,
            },
    {
        let request = match search_term {
            Some(term) => crate::commands::redis::search_keys_as_tree(state, term),
            None => crate::commands::redis::get_all_keys_as_tree(state),
        };
        match request {
            Ok(request) => Ok((TreeScan { session: request.session.clone(), keys: None }, request)),
            Err(error) => Err(error),
        }
    }

    /// Takes the reply to the last request and says what to do next.
    pub fn advance(self, reply: Reply) -> (r: ScanStep)
        ensures
            scan_step(self, reply, r),
    {
        let TreeScan { session, keys } = self;
        match reply {
            Reply::Failed { step, message } => ScanStep::Failed {
                error: CommandError::TransportError { step, message },
            },
            Reply::Keys(found) => {
                if keys.is_some() {
                    unexpected()
                } else if found.len() == 0 {
                    let tree: Vec<RedisTreeItem> = Vec::new();
                    assert(tree.deep_view() =~= Seq::empty());
                    ScanStep::Ready { tree }
                } else {
                    let commands = lookups(&found);
                    let request = Request {
                        session: session.clone(),
                        mode: Mode::Sequence,
                        answer: Answer::Types,
                        commands,
                    };
                    ScanStep::Send { next: TreeScan { session, keys: Some(found) }, request }
                }
            },
            Reply::Types(types) => {
                match keys {
                    Some(keys) => {
                        if keys.len() == types.len() {
                            let entries = pair_up(keys, types);
                            ScanStep::Ready { tree: build_tree(&entries) }
                        } else {
                            unexpected()
                        }
                    },
                    None => unexpected(),
                }
            },
            _ => unexpected(),
        }
    }
}

} // verus!
