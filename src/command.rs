//! The commands the engine accepts and the replies it gives, with their
//! mathematical models.
use vstd::prelude::*;

verus! {

/// The name under which a value is stored.
#[derive(Clone, Debug, PartialEq, Eq)]
pub struct Key(pub String);

/// A stored payload; a counter is a value that holds a base-10 integer.
#[derive(Clone, Debug, PartialEq, Eq)]
pub struct Value(pub String);

/// A request to the engine.
#[derive(Clone, Debug, PartialEq, Eq)]
pub enum Command {
    /// Read the value under `key`.
    Get { key: Key },
    /// Write `value` under `key`, replacing what was there.
    SetValue { key: Key, value: Value },
    /// Add one to the integer under `key`; an absent key counts as zero.
    Incr { key: Key },
    /// The connection handshake; it touches no data.
    Client,
}

/// The engine's answer to one command.
#[derive(Clone, Debug, PartialEq, Eq)]
pub enum Reply {
    /// An acknowledgement with no payload.
    Ack,
    BulkString(String),
    Null,
    Integer(i64),
    Error(String),
}

/// A command as the contracts see it.
pub enum CommandModel {
    Get(Seq<char>),
    SetValue(Seq<char>, Seq<char>),
    Incr(Seq<char>),
    Client,
}

/// A reply as the contracts see it.
pub enum ReplyModel {
    Ack,
    BulkString(Seq<char>),
    Null,
    Integer(i64),
    Error(Seq<char>),
}

impl View for Command {
    type V = CommandModel;

    open spec fn view(&self) -> CommandModel {
        match self {
            Command::Get { key } => CommandModel::Get(key.0@),
            Command::SetValue { key, value } => CommandModel::SetValue(key.0@, value.0@),
            Command::Incr { key } => CommandModel::Incr(key.0@),
            Command::Client => CommandModel::Client,
        }
    }
}

impl View for Reply {
    type V = ReplyModel;

    open spec fn view(&self) -> ReplyModel {
        match self {
            Reply::Ack => ReplyModel::Ack,
            Reply::BulkString(s) => ReplyModel::BulkString(s@),
            Reply::Null => ReplyModel::Null,
            Reply::Integer(n) => ReplyModel::Integer(*n),
            Reply::Error(s) => ReplyModel::Error(s@),
        }
    }
}

} // verus!
