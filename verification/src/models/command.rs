//! Requests to the backing store, stated as values.

use vstd::prelude::*;
use vstd::string::StringExecFns;
use crate::models::redis::RedisItemValue;
use crate::text::decimal;
use crate::text::decimal_text;

verus! {

/// The mathematical form of a command.
pub enum CommandView {
    Keys { pattern: Seq<char> },
    Type { key: Seq<char> },
    MemoryUsage { key: Seq<char> },
    Ttl { key: Seq<char> },
    Get { key: Seq<char> },
    LRange { key: Seq<char>, start: i64, stop: i64 },
    SMembers { key: Seq<char> },
    HGetAll { key: Seq<char> },
    XRange { key: Seq<char>, start: Seq<char>, end: Seq<char> },
    ZRangeWithScores { key: Seq<char>, start: i64, stop: i64 },
    Del { key: Seq<char> },
    SetString { key: Seq<char>, value: Seq<char> },
    Expire { key: Seq<char>, seconds: i64 },
    Persist { key: Seq<char> },
    RPush { key: Seq<char>, items: Seq<Seq<char>> },
    LPush { key: Seq<char>, items: Seq<Seq<char>> },
    LSet { key: Seq<char>, index: i64, value: Seq<char> },
    LRem { key: Seq<char>, count: i64, value: Seq<char> },
    SAdd { key: Seq<char>, members: Seq<Seq<char>> },
    SRem { key: Seq<char>, member: Seq<char> },
    HSet { key: Seq<char>, field: Seq<char>, value: Seq<char> },
    HSetMultiple { key: Seq<char>, items: Seq<(Seq<char>, Seq<char>)> },
    HDel { key: Seq<char>, field: Seq<char> },
    ZAdd { key: Seq<char>, member: Seq<char>, score: u64 },
    ZAddMultiple { key: Seq<char>, items: Seq<(u64, Seq<char>)> },
    ZAddIfAbsent { key: Seq<char>, items: Seq<(u64, Seq<char>)> },
    ZRem { key: Seq<char>, member: Seq<char> },
    XAdd { key: Seq<char>, id: Seq<char>, items: Seq<(Seq<char>, Seq<char>)> },
    XDel { key: Seq<char>, id: Seq<char> },
}

/// One call to the backing store. A score of a sorted set is carried as the
/// bit pattern of its 64-bit floating point value.
#[derive(Debug, Clone, PartialEq, Eq)]
pub enum Command {
    /// All key names that match a glob pattern.
    Keys { pattern: String },
    /// The wire type of a key.
    Type { key: String },
    /// The approximate size of a key's value in bytes.
    MemoryUsage { key: String },
    /// The seconds a key has left to live.
    Ttl { key: String },
    /// The text under a string key.
    Get { key: String },
    /// The elements of a list from place `start` to place `stop`, both counted.
    LRange { key: String, start: i64, stop: i64 },
    /// All members of a set.
    SMembers { key: String },
    /// All fields of a hash with their values.
    HGetAll { key: String },
    /// The entries of a stream with ids from `start` to `end`.
    XRange { key: String, start: String, end: String },
    /// The members of a sorted set by rank, with their scores.
    ZRangeWithScores { key: String, start: i64, stop: i64 },
    /// Removes a key.
    Del { key: String },
    /// Overwrites a string key.
    SetString { key: String, value: String },
    /// Sets the seconds a key has left to live.
    Expire { key: String, seconds: i64 },
    /// Clears a key's expiry.
    Persist { key: String },
    /// Appends to the end of a list.
    RPush { key: String, items: Vec<String> },
    /// Prepends to the start of a list.
    LPush { key: String, items: Vec<String> },
    /// Overwrites the element at a place of a list.
    LSet { key: String, index: i64, value: String },
    /// Removes elements equal to `value` from a list; all of them when
    /// `count` is zero.
    LRem { key: String, count: i64, value: String },
    /// Adds members to a set.
    SAdd { key: String, members: Vec<String> },
    /// Removes a member from a set.
    SRem { key: String, member: String },
    /// Sets one field of a hash.
    HSet { key: String, field: String, value: String },
    /// Sets several fields of a hash.
    HSetMultiple { key: String, items: Vec<(String, String)> },
    /// Removes a field from a hash.
    HDel { key: String, field: String },
    /// Adds a member to a sorted set, or replaces its score.
    ZAdd { key: String, member: String, score: u64 },
    /// Adds members to a sorted set, replacing the scores of those present.
    ZAddMultiple { key: String, items: Vec<(u64, String)> },
    /// Adds to a sorted set the members that are not present yet.
    ZAddIfAbsent { key: String, items: Vec<(u64, String)> },
    /// Removes a member from a sorted set.
    ZRem { key: String, member: String },
    /// Appends an entry to a stream; the id `*` lets the store assign one.
    XAdd { key: String, id: String, items: Vec<(String, String)> },
    /// Removes an entry from a stream.
    XDel { key: String, id: String },
}

impl DeepView for Command {
    type V = CommandView;

    open spec fn deep_view(&self) -> CommandView {
        match *self {
            Command::Keys { pattern } => CommandView::Keys { pattern: pattern@ },
            Command::Type { key } => CommandView::Type { key: key@ },
            Command::MemoryUsage { key } => CommandView::MemoryUsage { key: key@ },
            Command::Ttl { key } => CommandView::Ttl { key: key@ },
            Command::Get { key } => CommandView::Get { key: key@ },
            Command::LRange { key, start, stop } => CommandView::LRange { key: key@, start, stop },
            Command::SMembers { key } => CommandView::SMembers { key: key@ },
            Command::HGetAll { key } => CommandView::HGetAll { key: key@ },
            Command::XRange { key, start, end } => CommandView::XRange {
                key: key@,
                start: start@,
                end: end@,
            },
            Command::ZRangeWithScores { key, start, stop } => CommandView::ZRangeWithScores {
                key: key@,
                start,
                stop,
            },
            Command::Del { key } => CommandView::Del { key: key@ },
            Command::SetString { key, value } => CommandView::SetString { key: key@, value: value@ },
            Command::Expire { key, seconds } => CommandView::Expire { key: key@, seconds },
            Command::Persist { key } => CommandView::Persist { key: key@ },
            Command::RPush { key, items } => CommandView::RPush {
                key: key@,
                items: items.deep_view(),
            },
            Command::LPush { key, items } => CommandView::LPush {
                key: key@,
                items: items.deep_view(),
            },
            Command::LSet { key, index, value } => CommandView::LSet {
                key: key@,
                index,
                value: value@,
            },
            Command::LRem { key, count, value } => CommandView::LRem {
                key: key@,
                count,
                value: value@,
            },
            Command::SAdd { key, members } => CommandView::SAdd {
                key: key@,
                members: members.deep_view(),
            },
            Command::SRem { key, member } => CommandView::SRem { key: key@, member: member@ },
            Command::HSet { key, field, value } => CommandView::HSet {
                key: key@,
                field: field@,
                value: value@,
            },
            Command::HSetMultiple { key, items } => CommandView::HSetMultiple {
                key: key@,
                items: items.deep_view(),
            },
            Command::HDel { key, field } => CommandView::HDel { key: key@, field: field@ },
            Command::ZAdd { key, member, score } => CommandView::ZAdd {
                key: key@,
                member: member@,
                score,
            },
            Command::ZAddMultiple { key, items } => CommandView::ZAddMultiple {
                key: key@,
                items: items.deep_view(),
            },
            Command::ZAddIfAbsent { key, items } => CommandView::ZAddIfAbsent {
                key: key@,
                items: items.deep_view(),
            },
            Command::ZRem { key, member } => CommandView::ZRem { key: key@, member: member@ },
            Command::XAdd { key, id, items } => CommandView::XAdd {
                key: key@,
                id: id@,
                items: items.deep_view(),
            },
            Command::XDel { key, id } => CommandView::XDel { key: key@, id: id@ },
        }
    }
}

impl View for Command {
    type V = CommandView;

    open spec fn view(&self) -> CommandView {
        self.deep_view()
    }
}

/// How the commands of a request reach the store.
#[derive(Debug, Clone, Copy, PartialEq, Eq, Structural)]
pub enum Mode {
    /// One round trip for each command, in order; the first failure ends the
    /// request, and what went before it stays done.
    Sequence,
    /// All commands in one round trip.
    Pipeline,
    /// All commands in one round trip, run by the store as one step.
    Atomic,
}

/// What is to be handed back for a request that was carried out.
#[derive(Debug, Clone, Copy, PartialEq, Eq, Structural)]
pub enum Answer {
    /// Nothing but that it was carried out.
    Nothing,
    /// The key names that the one command lists.
    Keys,
    /// The wire types, one for each command.
    Types,
    /// The size and the time to live that the two commands ask for.
    Usage,
    /// The value that the one command fetches.
    Value,
}

/// The mathematical form of a request.
pub struct RequestView {
    pub session: Seq<char>,
    pub mode: Mode,
    pub answer: Answer,
    pub commands: Seq<CommandView>,
}

/// Commands for the session of the given name, with what is to be handed
/// back for them.
#[derive(Debug, Clone, PartialEq, Eq)]
pub struct Request {
    pub session: String,
    pub mode: Mode,
    pub answer: Answer,
    pub commands: Vec<Command>,
}

impl DeepView for Request {
    type V = RequestView;

    open spec fn deep_view(&self) -> RequestView {
        RequestView {
            session: self.session@,
            mode: self.mode,
            answer: self.answer,
            commands: self.commands.deep_view(),
        }
    }
}

impl View for Request {
    type V = RequestView;

    open spec fn view(&self) -> RequestView {
        self.deep_view()
    }
}

/// The mathematical form of a failed data operation.
pub enum CommandErrorView {
    NoActiveConnection,
    UnsupportedType(Seq<char>),
    KeyNotFound,
    TransportError { step: usize, message: Seq<char> },
}

/// Why a data operation failed.
#[derive(Debug, Clone, PartialEq, Eq)]
pub enum CommandError {
    /// No session is selected.
    NoActiveConnection,
    /// The key's wire type, given here, is none of those that can be shown.
    UnsupportedType(String),
    /// The key is gone.
    KeyNotFound,
    /// The store or the way to it failed at the command in place `step` of
    /// the request; the message is the transport's own. The commands before
    /// that place stay done.
    TransportError { step: usize, message: String },
}

impl DeepView for CommandError {
    type V = CommandErrorView;

    open spec fn deep_view(&self) -> CommandErrorView {
        match *self {
            CommandError::NoActiveConnection => CommandErrorView::NoActiveConnection,
            CommandError::UnsupportedType(tag) => CommandErrorView::UnsupportedType(tag@),
            CommandError::KeyNotFound => CommandErrorView::KeyNotFound,
            CommandError::TransportError { step, message } => CommandErrorView::TransportError {
                step,
                message: message@,
            },
        }
    }
}

impl View for CommandError {
    type V = CommandErrorView;

    open spec fn view(&self) -> CommandErrorView {
        self.deep_view()
    }
}

/// The text shown for a failure: its kind, then what the kind carries. A
/// failure of the transport names the place of the command that failed, the
/// first command being at place 0, so that the reader knows how much of a
/// change in several steps was done.
pub open spec fn error_text(error: CommandErrorView) -> Seq<char> {
    match error {
        CommandErrorView::NoActiveConnection => "No client selected"@,
        CommandErrorView::UnsupportedType(tag) => "Unsupported key type: "@ + tag,
        CommandErrorView::KeyNotFound => "Key not found"@,
        CommandErrorView::TransportError { step, message } => "Transport error at step "@
            + decimal(step as nat) + ": "@ + message,
    }
}

impl CommandError {
    /// The text shown for the failure.
    pub fn message(&self) -> (r: String)
        ensures
            r@ == error_text(self@),
    {
        match self {
            CommandError::NoActiveConnection => String::from_str("No client selected"),
            CommandError::UnsupportedType(tag) => {
                let mut r = String::from_str("Unsupported key type: ");
                r.append(tag.as_str());
                r
            },
            CommandError::KeyNotFound => String::from_str("Key not found"),
            CommandError::TransportError { step, message } => {
                let mut r = String::from_str("Transport error at step ");
                let place = decimal_text(*step as u64);
                r.append(place.as_str());
                r.append(": ");
                r.append(message.as_str());
                r
            },
        }
    }
}

/// What came back for a request.
#[derive(Debug, Clone, PartialEq, Eq)]
pub enum Reply {
    /// Nothing to hand back: every command was carried out.
    Done,
    /// The key names that matched.
    Keys(Vec<String>),
    /// The wire types asked for, one for each command of the request.
    Types(Vec<String>),
    /// The approximate size in bytes and the seconds left to live.
    Usage { size: i64, ttl: i64 },
    /// A key's value.
    Value(RedisItemValue),
    /// The command in place `step` failed; the message is the transport's own.
    Failed { step: usize, message: String },
}

} // verus!
