//! Removing one element of a list.
//!
//! The store removes list elements by value, not by place. So the element at
//! the place is first overwritten with a marker and then every element equal
//! to the marker is removed. The list is read beforehand, and the marker is
//! chosen so that no element of the list equals it.

use vstd::prelude::*;
use vstd::string::StringExecFns;
use vstd::string::StrSliceExecFns;
use crate::commands::detail::UNEXPECTED_REPLY;
use crate::commands::redis::get_list;
use crate::commands::redis::LIST_DELETED_VALUE_PLACEHOLDER;
use crate::models::command::Answer;
use crate::models::command::Command;
use crate::models::command::CommandError;
use crate::models::command::CommandErrorView;
use crate::models::command::CommandView;
use crate::models::command::Mode;
use crate::models::command::Reply;
use crate::models::command::Request;
use crate::models::command::RequestView;
use crate::models::redis::RedisItemValue;
use crate::session::AppState;
use crate::text::text_eq;

verus! {

/// `list` without the elements equal to `value`.
pub open spec fn without_value(list: Seq<Seq<char>>, value: Seq<char>) -> Seq<Seq<char>>
    decreases list.len(),
{
    if list.len() == 0 {
        list
    } else if list.last() == value {
        without_value(list.drop_last(), value)
    } else {
        without_value(list.drop_last(), value).push(list.last())
    }
}

/// The place of a list that an index names: from the start when it is not
/// negative, else from the end, -1 being the last.
pub open spec fn place(len: nat, index: i64) -> int {
    if index < 0 {
        len + index
    } else {
        index as int
    }
}

/// The list after one command, for the commands that are read here: `LSet`
/// at a place that the list has overwrites the element there, `LRem` with
/// count zero removes every element equal to its value, `RPush` adds the
/// items at the end in their order, `LPush` at the start, the last item
/// first. Of any other command, and of `LSet` at a place that the list does
/// not have, nothing is said.
pub open spec fn list_after(command: CommandView, list: Seq<Seq<char>>) -> Option<Seq<Seq<char>>> {
    match command {
        CommandView::LSet { key, index, value } => if 0 <= place(list.len(), index) < list.len() {
            Some(list.update(place(list.len(), index), value))
        } else {
            None
        },
        CommandView::LRem { key, count, value } => if count == 0 {
            Some(without_value(list, value))
        } else {
            None
        },
        CommandView::RPush { key, items } => Some(list + items),
        CommandView::LPush { key, items } => Some(items.reverse() + list),
        _ => None,
    }
}

/// The list after the commands, one after the other, as far as each of them
/// is read here.
pub open spec fn list_after_all(commands: Seq<CommandView>, list: Seq<Seq<char>>) -> Option<
    Seq<Seq<char>>,
>
    decreases commands.len(),
{
    if commands.len() == 0 {
        Some(list)
    } else {
        match list_after_all(commands.drop_last(), list) {
            Some(before) => list_after(commands.last(), before),
            None => None,
        }
    }
}

/// A list that does not hold the value loses nothing.
pub proof fn lemma_without_absent(list: Seq<Seq<char>>, value: Seq<char>)
    requires
        !list.contains(value),
    ensures
        without_value(list, value) == list,
    decreases list.len(),
{
    if list.len() > 0 {
        let front = list.drop_last();
        assert(list[list.len() - 1] != value);
        assert forall|i: int| 0 <= i < front.len() implies front[i] != value by {
            assert(list[i] == front[i]);
        }
        lemma_without_absent(front, value);
        assert(front.push(list.last()) =~= list);
    }
}

/// Overwriting one element with a value that the list does not hold, and
/// removing that value, removes that element and no other.
pub proof fn lemma_overwrite_then_remove(list: Seq<Seq<char>>, at: int, value: Seq<char>)
    requires
        0 <= at < list.len(),
        !list.contains(value),
    ensures
        without_value(list.update(at, value), value) == list.remove(at),
    decreases list.len(),
{
    let marked = list.update(at, value);
    let front = list.drop_last();
    assert forall|i: int| 0 <= i < front.len() implies front[i] != value by {
        assert(list[i] == front[i]);
    }
    if at == list.len() - 1 {
        assert(marked.drop_last() =~= front);
        lemma_without_absent(front, value);
        assert(front =~= list.remove(at));
    } else {
        assert(list[list.len() - 1] != value);
        assert(marked.drop_last() =~= front.update(at, value));
        lemma_overwrite_then_remove(front, at, value);
        assert(front.remove(at).push(list.last()) =~= list.remove(at));
    }
}

/// The length of the longest element; 0 for the empty list.
pub open spec fn longest(list: Seq<Seq<char>>) -> nat
    decreases list.len(),
{
    if list.len() == 0 {
        0
    } else if list.last().len() > longest(list.drop_last()) {
        list.last().len()
    } else {
        longest(list.drop_last())
    }
}

/// `text` with underscores added at its end until it has `len` characters;
/// `text` itself where it has that many.
pub open spec fn padded(text: Seq<char>, len: nat) -> Seq<char>
    decreases len - text.len(),
{
    if text.len() >= len {
        text
    } else {
        padded(text.push('_'), len)
    }
}

/// The marker for a list: the placeholder where the list does not hold it,
/// else the placeholder with underscores added until it is longer than every
/// element of the list.
pub open spec fn marker_for(list: Seq<Seq<char>>) -> Seq<char> {
    if list.contains(LIST_DELETED_VALUE_PLACEHOLDER@) {
        padded(LIST_DELETED_VALUE_PLACEHOLDER@, longest(list) + 1)
    } else {
        LIST_DELETED_VALUE_PLACEHOLDER@
    }
}

/// No element is longer than the longest.
pub proof fn lemma_longest(list: Seq<Seq<char>>, i: int)
    requires
        0 <= i < list.len(),
    ensures
        list[i].len() <= longest(list),
    decreases list.len(),
{
    if i < list.len() - 1 {
        lemma_longest(list.drop_last(), i);
    }
}

/// Padding gives at least the length asked for.
pub proof fn lemma_padded_len(text: Seq<char>, len: nat)
    ensures
        padded(text, len).len() >= len,
    decreases len - text.len(),
{
    if text.len() < len {
        lemma_padded_len(text.push('_'), len);
    }
}

/// No element of a list equals the list's marker.
pub proof fn lemma_marker_fresh(list: Seq<Seq<char>>)
    ensures
        !list.contains(marker_for(list)),
{
    if list.contains(LIST_DELETED_VALUE_PLACEHOLDER@) {
        lemma_padded_len(LIST_DELETED_VALUE_PLACEHOLDER@, longest(list) + 1);
        assert forall|i: int| 0 <= i < list.len() implies list[i] != marker_for(list) by {
            lemma_longest(list, i);
        }
    }
}

/// The two commands that remove the element at place `index` of a list: the
/// element is overwritten with the marker, then every element equal to the
/// marker is removed.
pub open spec fn delete_at(key: Seq<char>, index: i64, marker: Seq<char>) -> Seq<CommandView> {
    seq![
        CommandView::LSet { key, index, value: marker },
        CommandView::LRem { key, count: 0, value: marker },
    ]
}

/// The commands that remove the element at `index`, with the marker of the
/// list, remove exactly that element, whatever the list holds and however
/// often: afterwards the list is the list without the element at that place.
pub proof fn lemma_delete_at_removes_one(key: Seq<char>, index: i64, list: Seq<Seq<char>>)
    requires
        0 <= place(list.len(), index) < list.len(),
    ensures
        list_after_all(delete_at(key, index, marker_for(list)), list) == Some(
            list.remove(place(list.len(), index)),
        ),
{
    let marker = marker_for(list);
    let commands = delete_at(key, index, marker);
    let first = commands.drop_last();
    assert(first.drop_last() =~= Seq::<CommandView>::empty());
    assert(list_after_all(first.drop_last(), list) == Some(list));
    assert(first.last() == commands[0]);
    assert(list_after_all(first, list) == Some(list.update(place(list.len(), index), marker)));
    lemma_marker_fresh(list);
    lemma_overwrite_then_remove(list, place(list.len(), index), marker);
}

/// Whether the list holds the text.
fn holds(list: &Vec<String>, text: &str) -> (r: bool)
    ensures
        r == list.deep_view().contains(text@),
{
    let n: usize = list.len();
    let mut i: usize = 0;
    while i < n
        invariant
            n == list.len(),
            i <= n,
            forall|j: int| 0 <= j < i ==> list.deep_view()[j] != text@,
        decreases n - i,
    {
        if text_eq(list[i].as_str(), text) {
            assert(list.deep_view()[i as int] == text@);
            return true;
        }
        i = i + 1;
    }
    false
}

/// The length of the longest element.
fn longest_len(list: &Vec<String>) -> (n: usize)
    ensures
        n == longest(list.deep_view()),
{
    let count: usize = list.len();
    let mut n: usize = 0;
    let mut i: usize = 0;
    assert(list.deep_view().take(0) =~= Seq::empty());
    while i < count
        invariant
            count == list.len(),
            i <= count,
            n == longest(list.deep_view().take(i as int)),
        decreases count - i,
    {
        proof {
            let upto = list.deep_view().take(i + 1);
            assert(upto.drop_last() =~= list.deep_view().take(i as int));
            assert(upto.last() == list[i as int]@);
        }
        let len = list[i].as_str().unicode_len();
        if len > n {
            n = len;
        }
        i = i + 1;
    }
    assert(list.deep_view().take(count as int) =~= list.deep_view());
    n
}

/// The marker for a list: a text that no element of the list equals.
pub fn fresh_marker(list: &Vec<String>) -> (marker: String)
    ensures
        marker@ == marker_for(list.deep_view()),
        !list.deep_view().contains(marker@),
{
    proof {
        lemma_marker_fresh(list.deep_view());
    }
    let mut marker = String::from_str(LIST_DELETED_VALUE_PLACEHOLDER);
    if !holds(list, LIST_DELETED_VALUE_PLACEHOLDER) {
        return marker;
    }
    let target: u128 = longest_len(list) as u128 + 1;
    let mut len: u128 = LIST_DELETED_VALUE_PLACEHOLDER.unicode_len() as u128;
    while len < target
        invariant
            len == marker@.len(),
            target == longest(list.deep_view()) + 1,
            padded(marker@, target as nat) == padded(
                LIST_DELETED_VALUE_PLACEHOLDER@,
                target as nat,
            ),
        decreases target - len,
    {
        let ghost before = marker@;
        marker.append("_");
        proof {
            reveal_strlit("_");
            assert(marker@ =~= before.push('_'));
        }
        len = len + 1;
    }
    marker
}

/// How far the removal of a list element has come.
#[derive(Debug, Clone, Copy, PartialEq, Eq, Structural)]
pub enum RemovalStage {
    /// The list was asked for.
    Reading,
    /// The two commands that remove the element were sent.
    Writing,
}

/// The removal of one list element, between two requests.
#[derive(Debug, Clone, PartialEq, Eq)]
pub struct ListRemoval {
    pub session: String,
    pub key: String,
    pub index: i64,
    pub stage: RemovalStage,
}

/// What the removal of a list element does next.
#[derive(Debug, Clone, PartialEq, Eq)]
pub enum RemovalStep {
    /// Send the request and hand its reply to `next`.
    Send { next: ListRemoval, request: Request },
    /// The element is removed.
    Removed,
    /// The removal failed. A failure at step 1 of the second request leaves
    /// the marker in the list.
    Failed { error: CommandError },
}

/// The step `r` fails with `error`.
pub open spec fn removal_fails(r: RemovalStep, error: CommandErrorView) -> bool {
    r is Failed && r->error@ == error
}

/// What the removal `q` does with `reply`.
///
/// A failure of the transport ends it. The list that was asked for is
/// followed by the two commands that remove the element, with the marker of
/// that list. The word that they were carried out ends the removal. Any
/// reply that the stage did not ask for ends it with a failure.
pub open spec fn removal_step(q: ListRemoval, reply: Reply, r: RemovalStep) -> bool {
    let unexpected = CommandErrorView::TransportError { step: 0, message: UNEXPECTED_REPLY@ };
    match reply {
        Reply::Failed { step, message } => removal_fails(
            r,
            CommandErrorView::TransportError { step, message: message@ },
        ),
        Reply::Value(RedisItemValue::ListValue(list)) => if q.stage is Reading {
            &&& r is Send
            &&& r->next.session@ == q.session@
            &&& r->next.key@ == q.key@
            &&& r->next.index == q.index
            &&& r->next.stage is Writing
            &&& r->request@ == (RequestView {
                session: q.session@,
                mode: Mode::Sequence,
                answer: Answer::Nothing,
                commands: delete_at(q.key@, q.index, marker_for(list.deep_view())),
            })
        } else {
            removal_fails(r, unexpected)
        },
        Reply::Done => if q.stage is Writing {
            r is Removed
        } else {
            removal_fails(r, unexpected)
        },
        _ => removal_fails(r, unexpected),
    }
}

/// The failure that a reply did not fit the request.
fn unexpected() -> (r: RemovalStep)
    ensures
        removal_fails(r, CommandErrorView::TransportError { step: 0, message: UNEXPECTED_REPLY@ }),
{
    RemovalStep::Failed {
        error: CommandError::TransportError { step: 0, message: String::from_str(UNEXPECTED_REPLY) },
    }
}

/// Starts removing the element at place `index` of a list in the selected
/// session: asks for the list.
pub fn list_delete_value(state: &AppState, key: String, index: i64) -> (r: Result<
    (ListRemoval, Request),
    CommandError,
>)
    ensures
        match state@.selected {
            Some(session) => {
                &&& r is Ok
                &&& r->Ok_0.0.session@ == session
                &&& r->Ok_0.0.key@ == key@
                &&& r->Ok_0.0.index == index
                &&& r->Ok_0.0.stage is Reading
                &&& r->Ok_0.1@ == (RequestView {
                    session,
                    mode: Mode::Sequence,
                    answer: Answer::Value,
                    commands: seq![CommandView::LRange { key: key@, start: 0, stop: -1i64 }],
                })
            },
            None => r is Err && r->Err_0@ == CommandErrorView::NoActiveConnection,
        },
{
    match state.current() {
        Some(session) => {
            let mut commands: Vec<Command> = Vec::new();
            let first = get_list(key.clone());
            commands.push(first);
            assert(commands.deep_view() =~= seq![first@]);
            let request = Request {
                session: session.clone(),
                mode: Mode::Sequence,
                answer: Answer::Value,
                commands,
            };
            Ok((ListRemoval { session, key, index, stage: RemovalStage::Reading }, request))
        },
        None => Err(CommandError::NoActiveConnection),
    }
}

impl ListRemoval {
    /// Takes the reply to the last request and says what to do next.
    pub fn advance(self, reply: Reply) -> (r: RemovalStep)
        ensures
            removal_step(self, reply, r),
    {
        let ListRemoval { session, key, index, stage } = self;
        match reply {
            Reply::Failed { step, message } => RemovalStep::Failed {
                error: CommandError::TransportError { step, message },
            },
            Reply::Value(RedisItemValue::ListValue(list)) => {
                match stage {
                    RemovalStage::Reading => {
                        let marker = fresh_marker(&list);
                        let first = Command::LSet {
                            key: key.clone(),
                            index,
                            value: marker.clone(),
                        };
                        let second = Command::LRem { key: key.clone(), count: 0, value: marker };
                        let mut commands: Vec<Command> = Vec::new();
                        commands.push(first);
                        commands.push(second);
                        assert(commands.deep_view() =~= seq![first@, second@]);
                        let request = Request {
                            session: session.clone(),
                            mode: Mode::Sequence,
                            answer: Answer::Nothing,
                            commands,
                        };
                        RemovalStep::Send {
                            next: ListRemoval { session, key, index, stage: RemovalStage::Writing },
                            request,
                        }
                    },
                    RemovalStage::Writing => unexpected(),
                }
            },
            Reply::Done => {
                match stage {
                    RemovalStage::Writing => RemovalStep::Removed,
                    RemovalStage::Reading => unexpected(),
                }
            },
            _ => unexpected(),
        }
    }
}

} // verus!
