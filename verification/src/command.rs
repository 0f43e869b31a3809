//! The command layer: from the name of a command to the handler that
//! answers it.

pub mod del;
pub mod echo;
pub mod get;
pub mod ping;
pub mod set;

use crate::command::del::DelCommand;
use crate::command::echo::EchoCommand;
use crate::command::get::GetCommand;
use crate::command::ping::PingCommand;
use crate::command::set::SetCommand;
use crate::error::RedisError;
use crate::storage::{Database, Store, Timestamp};
use crate::text::{matches_word, same_ignoring_case};
use crate::value::bulk_string::BulkString;
use crate::value::simple_error::{ErrorType, SimpleError};
use crate::value::{Resp, Value};
use vstd::prelude::*;
use vstd::std_specs::convert::TryFromSpecImpl;
use vstd::string::*;

verus! {

/// The commands that the server answers.
pub enum Command {
    ECHO(EchoCommand),
    PING(PingCommand),
    GET(GetCommand),
    SET(SetCommand),
    DEL(DelCommand),
}

/// Implemented by every command: how it answers, given its arguments, the
/// store and the time.
pub trait Execute: Sized {
    /// The reply to a call with the arguments `args` at the time `now`, and
    /// the store after it.
    spec fn outcome(&self, args: Seq<Seq<char>>, store: Store, now: Timestamp) -> (Resp, Store);

    /// Answers a call with the arguments `options` at the time `now`.
    fn execute(self, options: Vec<BulkString>, db: &mut Database, now: Timestamp) -> (reply: Value)
        ensures
            reply@ == self.outcome(arg_views(options@), old(db)@, now).0,
            final(db)@ == self.outcome(arg_views(options@), old(db)@, now).1,
    ;
}

/// The texts of a run of arguments, in order.
pub open spec fn arg_views(options: Seq<BulkString>) -> Seq<Seq<char>> {
    Seq::new(options.len(), |i: int| options[i]@)
}

/// The command that `name` names, up to the case of its letters.
pub open spec fn command_named(name: Seq<char>) -> Result<Command, RedisError> {
    if same_ignoring_case(name, "echo"@) {
        Ok(Command::ECHO(EchoCommand))
    } else if same_ignoring_case(name, "ping"@) {
        Ok(Command::PING(PingCommand))
    } else if same_ignoring_case(name, "get"@) {
        Ok(Command::GET(GetCommand))
    } else if same_ignoring_case(name, "set"@) {
        Ok(Command::SET(SetCommand))
    } else if same_ignoring_case(name, "del"@) {
        Ok(Command::DEL(DelCommand))
    } else {
        Err(RedisError::UnknownCommand)
    }
}

/// An error reply of the general kind with the given message.
pub fn error_reply(message: &str) -> (reply: Value)
    ensures
        reply@ == Resp::SimpleError(ErrorType::ERR, message@),
{
    Value::SimpleError(
        SimpleError { message: String::from_str(message), error_type: ErrorType::ERR },
    )
}

impl TryFrom<BulkString> for Command {
    type Error = RedisError;

    /// The command that the text of `s` names, up to the case of its
    /// letters.
    fn try_from(s: BulkString) -> (command: Result<Command, RedisError>) {
        proof {
            reveal_strlit("echo");
            reveal_strlit("ping");
            reveal_strlit("get");
            reveal_strlit("set");
            reveal_strlit("del");
        }
        let name = s.0.as_str();
        if matches_word(name, "echo") {
            Ok(Command::ECHO(EchoCommand))
        } else if matches_word(name, "ping") {
            Ok(Command::PING(PingCommand))
        } else if matches_word(name, "get") {
            Ok(Command::GET(GetCommand))
        } else if matches_word(name, "set") {
            Ok(Command::SET(SetCommand))
        } else if matches_word(name, "del") {
            Ok(Command::DEL(DelCommand))
        } else {
            Err(RedisError::UnknownCommand)
        }
    }
}

impl TryFromSpecImpl<BulkString> for Command {
    open spec fn obeys_try_from_spec() -> bool {
        true
    }

    open spec fn try_from_spec(s: BulkString) -> Result<Command, RedisError> {
        command_named(s@)
    }
}

impl Execute for Command {
    open spec fn outcome(&self, args: Seq<Seq<char>>, store: Store, now: Timestamp) -> (
        Resp,
        Store,
    ) {
        match self {
            Command::ECHO(command) => command.outcome(args, store, now),
            Command::PING(command) => command.outcome(args, store, now),
            Command::GET(command) => command.outcome(args, store, now),
            Command::SET(command) => command.outcome(args, store, now),
            Command::DEL(command) => command.outcome(args, store, now),
        }
    }

    fn execute(self, options: Vec<BulkString>, db: &mut Database, now: Timestamp) -> (reply:
        Value) {
        match self {
            Command::ECHO(command) => command.execute(options, db, now),
            Command::PING(command) => command.execute(options, db, now),
            Command::GET(command) => command.execute(options, db, now),
            Command::SET(command) => command.execute(options, db, now),
            Command::DEL(command) => command.execute(options, db, now),
        }
    }
}

} // verus!
