//! `PING [message]`.

use crate::command::{error_reply, Execute};
use crate::storage::{Database, Store, Timestamp};
use crate::value::bulk_string::BulkString;
use crate::value::simple_error::ErrorType;
use crate::value::simple_string::SimpleString;
use crate::value::{Resp, Value};
use vstd::prelude::*;
use vstd::string::*;

verus! {

/// The handler of `PING`.
pub struct PingCommand;

/// The reply to `PING`: `PONG` where no message is given, the message where
/// one is, an error where there are more arguments.
pub open spec fn ping_reply(args: Seq<Seq<char>>) -> Resp {
    if args.len() == 0 {
        Resp::SimpleString("PONG"@)
    } else if args.len() == 1 {
        Resp::BulkString(args[0])
    } else {
        Resp::SimpleError(ErrorType::ERR, "wrong number of arguments for 'ping' command"@)
    }
}

impl Execute for PingCommand {
    open spec fn outcome(&self, args: Seq<Seq<char>>, store: Store, now: Timestamp) -> (
        Resp,
        Store,
    ) {
        (ping_reply(args), store)
    }

    fn execute(self, options: Vec<BulkString>, db: &mut Database, now: Timestamp) -> (reply:
        Value) {
        let count = options.len();
        if count > 1 {
            error_reply("wrong number of arguments for 'ping' command")
        } else if count == 1 {
            Value::BulkString(options[0].clone())
        } else {
            Value::SimpleString(SimpleString(String::from_str("PONG")))
        }
    }
}

} // verus!
