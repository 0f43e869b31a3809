//! `ECHO message`.

use crate::command::{error_reply, Execute};
use crate::storage::{Database, Store, Timestamp};
use crate::value::bulk_string::BulkString;
use crate::value::simple_error::ErrorType;
use crate::value::{Resp, Value};
use vstd::prelude::*;

verus! {

/// The handler of `ECHO`.
pub struct EchoCommand;

/// The reply to `ECHO`: the message where exactly one is given, an error
/// otherwise.
pub open spec fn echo_reply(args: Seq<Seq<char>>) -> Resp {
    if args.len() == 1 {
        Resp::BulkString(args[0])
    } else {
        Resp::SimpleError(ErrorType::ERR, "wrong number of arguments for 'echo' command"@)
    }
}

impl Execute for EchoCommand {
    open spec fn outcome(&self, args: Seq<Seq<char>>, store: Store, now: Timestamp) -> (
        Resp,
        Store,
    ) {
        (echo_reply(args), store)
    }

    fn execute(self, options: Vec<BulkString>, db: &mut Database, now: Timestamp) -> (reply:
        Value) {
        if options.len() != 1 {
            error_reply("wrong number of arguments for 'echo' command")
        } else {
            Value::BulkString(options[0].clone())
        }
    }
}

} // verus!
