//! The data operations: which commands each sends to the selected session.

use vstd::prelude::*;
use vstd::string::StringExecFns;
use crate::models::command::Answer;
use crate::models::command::Command;
use crate::models::command::CommandError;
use crate::models::command::CommandErrorView;
use crate::models::command::CommandView;
use crate::models::command::Mode;
use crate::models::command::Request;
use crate::models::command::RequestView;
use crate::models::command::Reply;
use crate::models::redis::ListDirection;
use crate::session::AppState;
use crate::session::Sessions;

verus! {

/// The value written to a list element that is about to be removed, unless
/// the list holds it already; then a longer one is taken.
pub const LIST_DELETED_VALUE_PLACEHOLDER: &'static str = "__MADIS_DELETED_VALUE_PLACEHOLDER__";

/// What a data operation returns: the commands for the selected session, or
/// the failure that none is selected.
pub open spec fn planned(
    r: Result<Request, CommandError>,
    sessions: Sessions,
    mode: Mode,
    answer: Answer,
    commands: Seq<CommandView>,
) -> bool {
    match sessions.selected {
        Some(session) => r is Ok && r->Ok_0@ == (RequestView { session, mode, answer, commands }),
        None => r is Err && r->Err_0@ == CommandErrorView::NoActiveConnection,
    }
}

/// The commands, followed by one that sets the key's time to live where a
/// strictly positive number of seconds is given. Any other number changes
/// nothing.
pub open spec fn with_expiry(commands: Seq<CommandView>, key: Seq<char>, ttl: Option<i64>) -> Seq<
    CommandView,
> {
    if ttl is Some && ttl->0 > 0 {
        commands.push(CommandView::Expire { key, seconds: ttl->0 })
    } else {
        commands
    }
}

fn plan(state: &AppState, mode: Mode, answer: Answer, commands: Vec<Command>) -> (r: Result<
    Request,
    CommandError,
>)
    ensures
        planned(r, state@, mode, answer, commands.deep_view()),
{
    match state.current() {
        Some(session) => Ok(Request { session, mode, answer, commands }),
        None => Err(CommandError::NoActiveConnection),
    }
}

fn one(first: Command) -> (v: Vec<Command>)
    ensures
        v.deep_view() == seq![first@],
{
    let mut v: Vec<Command> = Vec::new();
    v.push(first);
    assert(v.deep_view() =~= seq![first@]);
    v
}

fn two(first: Command, second: Command) -> (v: Vec<Command>)
    ensures
        v.deep_view() == seq![first@, second@],
{
    let mut v: Vec<Command> = Vec::new();
    v.push(first);
    v.push(second);
    assert(v.deep_view() =~= seq![first@, second@]);
    v
}

fn expiring(first: Command, key: String, ttl: Option<i64>) -> (v: Vec<Command>)
    ensures
        v.deep_view() == with_expiry(seq![first@], key@, ttl),
{
    match ttl {
        Some(seconds) => {
            if seconds > 0 {
                two(first, Command::Expire { key, seconds })
            } else {
                one(first)
            }
        },
        None => one(first),
    }
}

/// Lists every key of the selected session.
pub fn get_all_keys_as_tree(state: &AppState) -> (r: Result<Request, CommandError>)
    ensures
        planned(r, state@, Mode::Sequence, Answer::Keys, seq![CommandView::Keys { pattern: "*"@ }]),
{
    plan(state, Mode::Sequence, Answer::Keys, one(Command::Keys { pattern: String::from_str("*") }))
}

/// Lists the keys of the selected session whose names hold `search_term`.
pub fn search_keys_as_tree(state: &AppState, search_term: String) -> (r: Result<
    Request,
    CommandError,
>)
    ensures
        planned(
            r,
            state@,
            Mode::Sequence,
            Answer::Keys,
            seq![CommandView::Keys { pattern: "*"@ + search_term@ + "*"@ }],
        ),
{
    let mut pattern = String::from_str("*");
    pattern.append(search_term.as_str());
    pattern.append("*");
    plan(state, Mode::Sequence, Answer::Keys, one(Command::Keys { pattern }))
}

/// Removes a key.
pub fn delete_key(state: &AppState, key: String) -> (r: Result<Request, CommandError>)
    ensures
        planned(r, state@, Mode::Sequence, Answer::Nothing, seq![CommandView::Del { key: key@ }]),
{
    plan(state, Mode::Sequence, Answer::Nothing, one(Command::Del { key }))
}

/// Appends items to the end of a list, and sets the key's time to live where
/// a strictly positive one is given.
pub fn add_list(state: &AppState, key: String, items: Vec<String>, ttl: Option<i64>) -> (r: Result<
    Request,
    CommandError,
>)
    ensures
        planned(
            r,
            state@,
            Mode::Pipeline,
            Answer::Nothing,
            with_expiry(
                seq![CommandView::RPush { key: key@, items: items.deep_view() }],
                key@,
                ttl,
            ),
        ),
{
    let first = Command::RPush { key: key.clone(), items };
    plan(state, Mode::Pipeline, Answer::Nothing, expiring(first, key, ttl))
}

/// Overwrites a string key, and sets the key's time to live where a strictly
/// positive one is given.
pub fn save_string(state: &AppState, key: String, value: String, ttl: Option<i64>) -> (r: Result<
    Request,
    CommandError,
>)
    ensures
        planned(
            r,
            state@,
            Mode::Pipeline,
            Answer::Nothing,
            with_expiry(seq![CommandView::SetString { key: key@, value: value@ }], key@, ttl),
        ),
{
    let first = Command::SetString { key: key.clone(), value };
    plan(state, Mode::Pipeline, Answer::Nothing, expiring(first, key, ttl))
}

/// The command that adds `items` at the given end of a list.
pub open spec fn push_at(key: Seq<char>, items: Seq<Seq<char>>, direction: ListDirection)
    -> CommandView {
    match direction {
        ListDirection::Start => CommandView::LPush { key, items },
        ListDirection::End => CommandView::RPush { key, items },
    }
}

/// Adds items at the start or the end of a list, and sets the key's time to
/// live where a strictly positive one is given.
pub fn list_add_items(
    state: &AppState,
    key: String,
    items: Vec<String>,
    direction: ListDirection,
    ttl: Option<i64>,
) -> (r: Result<Request, CommandError>)
    ensures
        planned(
            r,
            state@,
            Mode::Pipeline,
            Answer::Nothing,
            with_expiry(seq![push_at(key@, items.deep_view(), direction)], key@, ttl),
        ),
{
    let first = match direction {
        ListDirection::Start => Command::LPush { key: key.clone(), items },
        ListDirection::End => Command::RPush { key: key.clone(), items },
    };
    plan(state, Mode::Pipeline, Answer::Nothing, expiring(first, key, ttl))
}

/// Overwrites the element at place `index` of a list.
pub fn list_update_value(state: &AppState, key: String, index: i64, value: String) -> (r: Result<
    Request,
    CommandError,
>)
    ensures
        planned(
            r,
            state@,
            Mode::Sequence,
            Answer::Nothing,
            seq![CommandView::LSet { key: key@, index, value: value@ }],
        ),
{
    plan(state, Mode::Sequence, Answer::Nothing, one(Command::LSet { key, index, value }))
}

/// Adds members to a set, and sets the key's time to live where a strictly
/// positive one is given.
pub fn set_add_items(state: &AppState, key: String, items: Vec<String>, ttl: Option<i64>) -> (r:
    Result<Request, CommandError>)
    ensures
        planned(
            r,
            state@,
            Mode::Pipeline,
            Answer::Nothing,
            with_expiry(
                seq![CommandView::SAdd { key: key@, members: items.deep_view() }],
                key@,
                ttl,
            ),
        ),
{
    let first = Command::SAdd { key: key.clone(), members: items };
    plan(state, Mode::Pipeline, Answer::Nothing, expiring(first, key, ttl))
}

/// Replaces a member of a set: the old one is removed, then the new one
/// added, in two steps.
pub fn set_update_value(state: &AppState, key: String, value: String, new_value: String) -> (r:
    Result<Request, CommandError>)
    ensures
        planned(
            r,
            state@,
            Mode::Sequence,
            Answer::Nothing,
            seq![
                CommandView::SRem { key: key@, member: value@ },
                CommandView::SAdd { key: key@, members: seq![new_value@] },
            ],
        ),
{
    let mut members: Vec<String> = Vec::new();
    members.push(new_value);
    assert(members.deep_view() =~= seq![new_value@]);
    let first = Command::SRem { key: key.clone(), member: value };
    let second = Command::SAdd { key, members };
    plan(state, Mode::Sequence, Answer::Nothing, two(first, second))
}

/// Removes a member from a set.
pub fn set_delete_value(state: &AppState, key: String, value: String) -> (r: Result<
    Request,
    CommandError,
>)
    ensures
        planned(
            r,
            state@,
            Mode::Sequence,
            Answer::Nothing,
            seq![CommandView::SRem { key: key@, member: value@ }],
        ),
{
    plan(state, Mode::Sequence, Answer::Nothing, one(Command::SRem { key, member: value }))
}

/// Sets fields of a hash, and sets the key's time to live where a strictly
/// positive one is given.
pub fn hash_add_items(
    state: &AppState,
    key: String,
    items: Vec<(String, String)>,
    ttl: Option<i64>,
) -> (r: Result<Request, CommandError>)
    ensures
        planned(
            r,
            state@,
            Mode::Pipeline,
            Answer::Nothing,
            with_expiry(
                seq![CommandView::HSetMultiple { key: key@, items: items.deep_view() }],
                key@,
                ttl,
            ),
        ),
{
    let first = Command::HSetMultiple { key: key.clone(), items };
    plan(state, Mode::Pipeline, Answer::Nothing, expiring(first, key, ttl))
}

/// Removes a field from a hash.
pub fn hash_delete_field(state: &AppState, key: String, field: String) -> (r: Result<
    Request,
    CommandError,
>)
    ensures
        planned(
            r,
            state@,
            Mode::Sequence,
            Answer::Nothing,
            seq![CommandView::HDel { key: key@, field: field@ }],
        ),
{
    plan(state, Mode::Sequence, Answer::Nothing, one(Command::HDel { key, field }))
}

/// Sets the value of one field of a hash.
pub fn hash_update_value(state: &AppState, key: String, field: String, value: String) -> (r:
    Result<Request, CommandError>)
    ensures
        planned(
            r,
            state@,
            Mode::Sequence,
            Answer::Nothing,
            seq![CommandView::HSet { key: key@, field: field@, value: value@ }],
        ),
{
    plan(state, Mode::Sequence, Answer::Nothing, one(Command::HSet { key, field, value }))
}

/// Renames a field of a hash: the old field is removed, then the new one set,
/// in two steps.
pub fn hash_update_field(
    state: &AppState,
    key: String,
    old_field: String,
    new_field: String,
    value: String,
) -> (r: Result<Request, CommandError>)
    ensures
        planned(
            r,
            state@,
            Mode::Sequence,
            Answer::Nothing,
            seq![
                CommandView::HDel { key: key@, field: old_field@ },
                CommandView::HSet { key: key@, field: new_field@, value: value@ },
            ],
        ),
{
    let first = Command::HDel { key: key.clone(), field: old_field };
    let second = Command::HSet { key, field: new_field, value };
    plan(state, Mode::Sequence, Answer::Nothing, two(first, second))
}

/// Adds members with their scores to a sorted set, replacing the scores of
/// members that are present, and sets the key's time to live where a strictly
/// positive one is given.
pub fn add_zset_items(
    state: &AppState,
    key: String,
    items: Vec<(u64, String)>,
    ttl: Option<i64>,
) -> (r: Result<Request, CommandError>)
    ensures
        planned(
            r,
            state@,
            Mode::Pipeline,
            Answer::Nothing,
            with_expiry(
                seq![CommandView::ZAddMultiple { key: key@, items: items.deep_view() }],
                key@,
                ttl,
            ),
        ),
{
    let first = Command::ZAddMultiple { key: key.clone(), items };
    plan(state, Mode::Pipeline, Answer::Nothing, expiring(first, key, ttl))
}

/// The command that adds members to a sorted set: with `replace` the scores
/// of members that are present are replaced, without it they are left alone.
pub open spec fn zset_add(key: Seq<char>, items: Seq<(u64, Seq<char>)>, replace: bool)
    -> CommandView {
    if replace {
        CommandView::ZAddMultiple { key, items }
    } else {
        CommandView::ZAddIfAbsent { key, items }
    }
}

/// Adds members with their scores to a sorted set.
pub fn zset_add_items(
    state: &AppState,
    key: String,
    items: Vec<(u64, String)>,
    replace: bool,
) -> (r: Result<Request, CommandError>)
    ensures
        planned(
            r,
            state@,
            Mode::Sequence,
            Answer::Nothing,
            seq![zset_add(key@, items.deep_view(), replace)],
        ),
{
    let first = if replace {
        Command::ZAddMultiple { key, items }
    } else {
        Command::ZAddIfAbsent { key, items }
    };
    plan(state, Mode::Sequence, Answer::Nothing, one(first))
}

/// Removes a member from a sorted set.
pub fn zset_delete_value(state: &AppState, key: String, value: String) -> (r: Result<
    Request,
    CommandError,
>)
    ensures
        planned(
            r,
            state@,
            Mode::Sequence,
            Answer::Nothing,
            seq![CommandView::ZRem { key: key@, member: value@ }],
        ),
{
    plan(state, Mode::Sequence, Answer::Nothing, one(Command::ZRem { key, member: value }))
}

/// Sets the score of a member of a sorted set.
pub fn zset_update_score(state: &AppState, key: String, member: String, score: u64) -> (r: Result<
    Request,
    CommandError,
>)
    ensures
        planned(
            r,
            state@,
            Mode::Sequence,
            Answer::Nothing,
            seq![CommandView::ZAdd { key: key@, member: member@, score }],
        ),
{
    plan(state, Mode::Sequence, Answer::Nothing, one(Command::ZAdd { key, member, score }))
}

/// Renames a member of a sorted set: the old member is removed, then the new
/// one added with the score, in two steps.
pub fn zset_update_member(
    state: &AppState,
    key: String,
    old_member: String,
    new_member: String,
    score: u64,
) -> (r: Result<Request, CommandError>)
    ensures
        planned(
            r,
            state@,
            Mode::Sequence,
            Answer::Nothing,
            seq![
                CommandView::ZRem { key: key@, member: old_member@ },
                CommandView::ZAdd { key: key@, member: new_member@, score },
            ],
        ),
{
    let first = Command::ZRem { key: key.clone(), member: old_member };
    let second = Command::ZAdd { key, member: new_member, score };
    plan(state, Mode::Sequence, Answer::Nothing, two(first, second))
}

/// The id under which an entry is appended: the one given, or `*`, which lets
/// the store assign one from the current time.
pub open spec fn entry_id(id: Option<String>) -> Seq<char> {
    match id {
        Some(given) => given@,
        None => "*"@,
    }
}

/// Appends an entry to a stream, and sets the key's time to live where a
/// strictly positive one is given.
pub fn stream_add_items(
    state: &AppState,
    key: String,
    id: Option<String>,
    items: Vec<(String, String)>,
    ttl: Option<i64>,
) -> (r: Result<Request, CommandError>)
    ensures
        planned(
            r,
            state@,
            Mode::Pipeline,
            Answer::Nothing,
            with_expiry(
                seq![CommandView::XAdd { key: key@, id: entry_id(id), items: items.deep_view() }],
                key@,
                ttl,
            ),
        ),
{
    let id = match id {
        Some(given) => given,
        None => String::from_str("*"),
    };
    let first = Command::XAdd { key: key.clone(), id, items };
    plan(state, Mode::Pipeline, Answer::Nothing, expiring(first, key, ttl))
}

/// Removes an entry from a stream.
pub fn stream_delete_value(state: &AppState, key: String, id: String) -> (r: Result<
    Request,
    CommandError,
>)
    ensures
        planned(
            r,
            state@,
            Mode::Sequence,
            Answer::Nothing,
            seq![CommandView::XDel { key: key@, id: id@ }],
        ),
{
    plan(state, Mode::Sequence, Answer::Nothing, one(Command::XDel { key, id }))
}

/// The command that sets a key's expiry: -1 clears it, any other number of
/// seconds replaces it.
pub open spec fn expiry(key: Seq<char>, ttl: i64) -> CommandView {
    if ttl == -1 {
        CommandView::Persist { key }
    } else {
        CommandView::Expire { key, seconds: ttl }
    }
}

/// Sets or clears a key's expiry.
pub fn update_ttl(state: &AppState, key: String, ttl: i64) -> (r: Result<Request, CommandError>)
    ensures
        planned(r, state@, Mode::Sequence, Answer::Nothing, seq![expiry(key@, ttl)]),
{
    let first = if ttl == -1 {
        Command::Persist { key }
    } else {
        Command::Expire { key, seconds: ttl }
    };
    plan(state, Mode::Sequence, Answer::Nothing, one(first))
}

/// The command that asks for a key's wire type.
pub fn get_key_type(key: String) -> (c: Command)
    ensures
        c@ == (CommandView::Type { key: key@ }),
{
    Command::Type { key }
}

/// The command that fetches the text under a string key.
pub fn get_string(key: String) -> (c: Command)
    ensures
        c@ == (CommandView::Get { key: key@ }),
{
    Command::Get { key }
}

/// The command that fetches a whole list.
pub fn get_list(key: String) -> (c: Command)
    ensures
        c@ == (CommandView::LRange { key: key@, start: 0, stop: -1i64 }),
{
    Command::LRange { key, start: 0, stop: -1 }
}

/// The command that fetches all members of a set.
pub fn get_set(key: String) -> (c: Command)
    ensures
        c@ == (CommandView::SMembers { key: key@ }),
{
    Command::SMembers { key }
}

/// The command that fetches all fields of a hash.
pub fn get_hash(key: String) -> (c: Command)
    ensures
        c@ == (CommandView::HGetAll { key: key@ }),
{
    Command::HGetAll { key }
}

/// The command that fetches all entries of a stream.
pub fn get_stream(key: String) -> (c: Command)
    ensures
        c@ == (CommandView::XRange { key: key@, start: "-"@, end: "+"@ }),
{
    Command::XRange { key, start: String::from_str("-"), end: String::from_str("+") }
}

/// The command that fetches all members of a sorted set with their scores.
pub fn get_zset(key: String) -> (c: Command)
    ensures
        c@ == (CommandView::ZRangeWithScores { key: key@, start: 0, stop: -1i64 }),
{
    Command::ZRangeWithScores { key, start: 0, stop: -1 }
}

/// What a mutation reports once its request was run: success where every
/// command was carried out, else the transport's failure with the place of
/// the command that failed.
pub open spec fn settled(reply: Reply) -> Result<(), CommandErrorView> {
    match reply {
        Reply::Failed { step, message } => Err(
            CommandErrorView::TransportError { step, message: message@ },
        ),
        _ => Ok(()),
    }
}

/// Turns what came back for a mutation's request into the mutation's result.
pub fn settle(reply: Reply) -> (r: Result<(), CommandError>)
    ensures
        match settled(reply) {
            Ok(_) => r is Ok,
            Err(e) => r is Err && r->Err_0@ == e,
        },
{
    match reply {
        Reply::Failed { step, message } => Err(CommandError::TransportError { step, message }),
        _ => Ok(()),
    }
}

} // verus!
