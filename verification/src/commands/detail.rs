//! Reading one key: its wire type, then its size and time to live, then its
//! value in the shape of its type.

use vstd::prelude::*;
use vstd::string::StringExecFns;
use crate::commands::redis::get_hash;
use crate::commands::redis::get_key_type;
use crate::commands::redis::get_list;
use crate::commands::redis::get_set;
use crate::commands::redis::get_stream;
use crate::commands::redis::get_string;
use crate::commands::redis::get_zset;
use crate::models::command::Answer;
use crate::models::command::Command;
use crate::models::command::CommandError;
use crate::models::command::CommandErrorView;
use crate::models::command::CommandView;
use crate::models::command::Mode;
use crate::models::command::Reply;
use crate::models::command::Request;
use crate::models::command::RequestView;
use crate::models::redis::shape_of;
use crate::models::redis::RedisItem;
use crate::models::redis::WireType;
use crate::session::AppState;
use crate::text::text_eq;

verus! {

/// The time to live that the store reports of a key that is gone.
pub const KEY_GONE: i64 = -2;

/// The message of the failure that a reply did not fit the request.
pub const UNEXPECTED_REPLY: &'static str = "unexpected reply";

/// The wire type that a type tag of the store names, if it is one that can be
/// shown.
pub open spec fn wire_type_of(tag: Seq<char>) -> Option<WireType> {
    if tag == "string"@ {
        Some(WireType::StringType)
    } else if tag == "list"@ {
        Some(WireType::ListType)
    } else if tag == "set"@ {
        Some(WireType::SetType)
    } else if tag == "hash"@ {
        Some(WireType::HashType)
    } else if tag == "zset"@ {
        Some(WireType::ZSetType)
    } else if tag == "stream"@ {
        Some(WireType::StreamType)
    } else {
        None
    }
}

/// Why a key with a tag that names no wire type cannot be shown: the tag
/// `none` says that the key is gone, any other that its type is not supported.
pub open spec fn tag_failure(tag: Seq<char>) -> CommandErrorView {
    if tag == "none"@ {
        CommandErrorView::KeyNotFound
    } else {
        CommandErrorView::UnsupportedType(tag)
    }
}

/// Resolves a type tag of the store.
pub fn wire_type(tag: &str) -> (r: Result<WireType, CommandError>)
    ensures
        match wire_type_of(tag@) {
            Some(kind) => r is Ok && r->Ok_0 == kind,
            None => r is Err && r->Err_0@ == tag_failure(tag@),
        },
{
    if text_eq(tag, "string") {
        Ok(WireType::StringType)
    } else if text_eq(tag, "list") {
        Ok(WireType::ListType)
    } else if text_eq(tag, "set") {
        Ok(WireType::SetType)
    } else if text_eq(tag, "hash") {
        Ok(WireType::HashType)
    } else if text_eq(tag, "zset") {
        Ok(WireType::ZSetType)
    } else if text_eq(tag, "stream") {
        Ok(WireType::StreamType)
    } else if text_eq(tag, "none") {
        Err(CommandError::KeyNotFound)
    } else {
        Err(CommandError::UnsupportedType(String::from_str(tag)))
    }
}

/// The command that fetches the whole value of a key of the given wire type.
pub open spec fn fetch_of(kind: WireType, key: Seq<char>) -> CommandView {
    match kind {
        WireType::StringType => CommandView::Get { key },
        WireType::ListType => CommandView::LRange { key, start: 0, stop: -1i64 },
        WireType::SetType => CommandView::SMembers { key },
        WireType::HashType => CommandView::HGetAll { key },
        WireType::ZSetType => CommandView::ZRangeWithScores { key, start: 0, stop: -1i64 },
        WireType::StreamType => CommandView::XRange { key, start: "-"@, end: "+"@ },
    }
}

/// The command that fetches the whole value of a key of the given wire type.
pub fn fetch_command(kind: WireType, key: String) -> (c: Command)
    ensures
        c@ == fetch_of(kind, key@),
{
    match kind {
        WireType::StringType => get_string(key),
        WireType::ListType => get_list(key),
        WireType::SetType => get_set(key),
        WireType::HashType => get_hash(key),
        WireType::ZSetType => get_zset(key),
        WireType::StreamType => get_stream(key),
    }
}

/// How far the reading of a key has come.
#[derive(Debug, Clone, PartialEq, Eq)]
pub enum DetailStage {
    /// The wire type was asked for.
    Kind,
    /// The size and the time to live were asked for.
    Usage { kind: WireType },
    /// The value was asked for.
    Value { kind: WireType, size: i64, ttl: i64 },
}

/// The reading of one key, between two requests.
#[derive(Debug, Clone, PartialEq, Eq)]
pub struct KeyDetailQuery {
    pub session: String,
    pub key: String,
    pub stage: DetailStage,
}

/// What the reading of a key does next.
#[derive(Debug, Clone, PartialEq, Eq)]
pub enum DetailStep {
    /// Send the request and hand its reply to `next`.
    Send { next: KeyDetailQuery, request: Request },
    /// The key was read.
    Ready { item: RedisItem },
    /// The reading failed; nothing of the key is returned.
    Failed { error: CommandError },
}

/// The step `r` sends exactly `commands` to the session of `q`, and goes on
/// at `stage` with the same key.
pub open spec fn sends(
    r: DetailStep,
    q: KeyDetailQuery,
    stage: DetailStage,
    mode: Mode,
    answer: Answer,
    commands: Seq<CommandView>,
) -> bool {
    &&& r is Send
    &&& r->next.session@ == q.session@
    &&& r->next.key@ == q.key@
    &&& r->next.stage == stage
    &&& r->request@ == (RequestView { session: q.session@, mode, answer, commands })
}

/// The step `r` fails with `error`.
pub open spec fn fails(r: DetailStep, error: CommandErrorView) -> bool {
    r is Failed && r->error@ == error
}

/// What the reading `q` of a key does with `reply`.
///
/// A failure of the transport ends it. The type tag decides whether the key
/// can be shown; if so the size and the time to live are asked for in one
/// atomic request. A time to live of -2 is the store's word that the key is
/// gone, and ends the reading so. Else the value is asked for by the command
/// of its wire type. A value in the shape of that type ends the reading with
/// the item. Any reply that the stage did not ask for ends it with a failure.
pub open spec fn detail_step(q: KeyDetailQuery, reply: Reply, r: DetailStep) -> bool {
    let unexpected = CommandErrorView::TransportError { step: 0, message: UNEXPECTED_REPLY@ };
    match reply {
        Reply::Failed { step, message } => fails(
            r,
            CommandErrorView::TransportError { step, message: message@ },
        ),
        Reply::Types(tags) => if q.stage is Kind && tags@.len() == 1 {
            match wire_type_of(tags@[0]@) {
                Some(kind) => sends(
                    r,
                    q,
                    DetailStage::Usage { kind },
                    Mode::Atomic,
                    Answer::Usage,
                    seq![
                        CommandView::MemoryUsage { key: q.key@ },
                        CommandView::Ttl { key: q.key@ },
                    ],
                ),
                None => fails(r, tag_failure(tags@[0]@)),
            }
        } else {
            fails(r, unexpected)
        },
        Reply::Usage { size, ttl } => match q.stage {
            DetailStage::Usage { kind } => if ttl == KEY_GONE {
                fails(r, CommandErrorView::KeyNotFound)
            } else {
                sends(
                    r,
                    q,
                    DetailStage::Value { kind, size, ttl },
                    Mode::Sequence,
                    Answer::Value,
                    seq![fetch_of(kind, q.key@)],
                )
            },
            _ => fails(r, unexpected),
        },
        Reply::Value(value) => match q.stage {
            DetailStage::Value { kind, size, ttl } => if shape_of(value) == kind {
                &&& r is Ready
                &&& r->item.redis_key@ == q.key@
                &&& r->item.value == value
                &&& r->item.ttl == ttl
                &&& r->item.size == size
            } else {
                fails(r, unexpected)
            },
            _ => fails(r, unexpected),
        },
        _ => fails(r, unexpected),
    }
}

/// The failure that a reply did not fit the request.
fn unexpected() -> (r: DetailStep)
    ensures
        fails(r, CommandErrorView::TransportError { step: 0, message: UNEXPECTED_REPLY@ }),
{
    DetailStep::Failed {
        error: CommandError::TransportError { step: 0, message: String::from_str(UNEXPECTED_REPLY) },
    }
}

/// Starts reading `key` in the selected session: asks for its wire type.
pub fn get_key_detail(state: &AppState, key: String) -> (r: Result<
    (KeyDetailQuery, Request),
    CommandError,
>)
    ensures
        match state@.selected {
            Some(session) => {
                &&& r is Ok
                &&& r->Ok_0.0.session@ == session
                &&& r->Ok_0.0.key@ == key@
                &&& r->Ok_0.0.stage == DetailStage::Kind
                &&& r->Ok_0.1@ == (RequestView {
                    session,
                    mode: Mode::Sequence,
                    answer: Answer::Types,
                    commands: seq![CommandView::Type { key: key@ }],
                })
            },
            None => r is Err && r->Err_0@ == CommandErrorView::NoActiveConnection,
        },
{
    match state.current() {
        Some(session) => {
            let mut commands: Vec<Command> = Vec::new();
            let first = get_key_type(key.clone());
            commands.push(first);
            assert(commands.deep_view() =~= seq![first@]);
            let request = Request {
                session: session.clone(),
                mode: Mode::Sequence,
                answer: Answer::Types,
                commands,
            };
            Ok((KeyDetailQuery { session, key, stage: DetailStage::Kind }, request))
        },
        None => Err(CommandError::NoActiveConnection),
    }
}

impl KeyDetailQuery {
    /// Takes the reply to the last request and says what to do next.
    pub fn advance(self, reply: Reply) -> (r: DetailStep)
        ensures
            detail_step(self, reply, r),
    {
        let KeyDetailQuery { session, key, stage } = self;
        match reply {
            Reply::Failed { step, message } => DetailStep::Failed {
                error: CommandError::TransportError { step, message },
            },
            Reply::Types(tags) => {
                match stage {
                    DetailStage::Kind => {
                        if tags.len() != 1 {
                            return unexpected();
                        }
                        match wire_type(tags[0].as_str()) {
                            Ok(kind) => {
                                let mut commands: Vec<Command> = Vec::new();
                                let first = Command::MemoryUsage { key: key.clone() };
                                let second = Command::Ttl { key: key.clone() };
                                commands.push(first);
                                commands.push(second);
                                assert(commands.deep_view() =~= seq![first@, second@]);
                                let request = Request {
                                    session: session.clone(),
                                    mode: Mode::Atomic,
                                    answer: Answer::Usage,
                                    commands,
                                };
                                DetailStep::Send {
                                    next: KeyDetailQuery {
                                        session,
                                        key,
                                        stage: DetailStage::Usage { kind },
                                    },
                                    request,
                                }
                            },
                            Err(error) => DetailStep::Failed { error },
                        }
                    },
                    _ => unexpected(),
                }
            },
            Reply::Usage { size, ttl } => {
                match stage {
                    DetailStage::Usage { kind } => {
                        if ttl == KEY_GONE {
                            return DetailStep::Failed { error: CommandError::KeyNotFound };
                        }
                        let mut commands: Vec<Command> = Vec::new();
                        let first = fetch_command(kind, key.clone());
                        commands.push(first);
                        assert(commands.deep_view() =~= seq![first@]);
                        let request = Request {
                            session: session.clone(),
                            mode: Mode::Sequence,
                            answer: Answer::Value,
                            commands,
                        };
                        DetailStep::Send {
                            next: KeyDetailQuery {
                                session,
                                key,
                                stage: DetailStage::Value { kind, size, ttl },
                            },
                            request,
                        }
                    },
                    _ => unexpected(),
                }
            },
            Reply::Value(value) => {
                match stage {
                    DetailStage::Value { kind, size, ttl } => {
                        if value.shape() == kind {
                            DetailStep::Ready {
                                item: RedisItem { redis_key: key, value, ttl, size },
                            }
                        } else {
                            unexpected()
                        }
                    },
                    _ => unexpected(),
                }
            },
            _ => unexpected(),
        }
    }
}

} // verus!
