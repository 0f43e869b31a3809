//! `GET key`.

use crate::command::{error_reply, Execute};
use crate::storage::{get, store_get, Database, Store, Timestamp};
use crate::value::bulk_string::BulkString;
use crate::value::nulls::Nulls;
use crate::value::simple_error::ErrorType;
use crate::value::{Resp, Value};
use vstd::prelude::*;

verus! {

/// The handler of `GET`.
pub struct GetCommand;

/// The reply to `GET` and the store after it: the value under the key where
/// there is one that has not expired, the null reply where there is not, an
/// error where the number of arguments is not one. A read that finds the
/// entry past its expiry removes it.
pub open spec fn get_outcome(args: Seq<Seq<char>>, store: Store, now: Timestamp) -> (
    Resp,
    Store,
) {
    if args.len() != 1 {
        (
            Resp::SimpleError(ErrorType::ERR, "wrong number of arguments for 'get' command"@),
            store,
        )
    } else {
        let (found, after) = store_get(store, args[0], now);
        match found {
            Ok(value) => (Resp::BulkString(value), after),
            Err(_) => (Resp::Nulls, after),
        }
    }
}

impl Execute for GetCommand {
    open spec fn outcome(&self, args: Seq<Seq<char>>, store: Store, now: Timestamp) -> (
        Resp,
        Store,
    ) {
        get_outcome(args, store, now)
    }

    fn execute(self, options: Vec<BulkString>, db: &mut Database, now: Timestamp) -> (reply:
        Value) {
        if options.len() != 1 {
            return error_reply("wrong number of arguments for 'get' command");
        }
        match get(db, options[0].0.clone(), now) {
            Ok(value) => Value::BulkString(BulkString(value)),
            Err(_) => Value::Nulls(Nulls),
        }
    }
}

} // verus!
