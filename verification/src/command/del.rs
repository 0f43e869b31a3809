//! `DEL key [key ...]`.

use crate::command::{arg_views, Execute};
use crate::storage::{delete, key_views, store_delete, Database, Store, Timestamp};
use crate::value::bulk_string::BulkString;
use crate::value::integer::Integer;
use crate::value::{Resp, Value};
use vstd::prelude::*;

verus! {

/// The handler of `DEL`.
pub struct DelCommand;

/// The reply to `DEL` and the store after it: every key that is in the
/// store is removed, and the reply is the number of keys removed, as a
/// 64-bit integer.
pub open spec fn del_outcome(args: Seq<Seq<char>>, store: Store) -> (Resp, Store) {
    let (removed, after) = store_delete(store, args);
    (Resp::Integer(removed as i64), after)
}

impl Execute for DelCommand {
    open spec fn outcome(&self, args: Seq<Seq<char>>, store: Store, now: Timestamp) -> (
        Resp,
        Store,
    ) {
        del_outcome(args, store)
    }

    fn execute(self, options: Vec<BulkString>, db: &mut Database, now: Timestamp) -> (reply:
        Value) {
        let mut keys: Vec<String> = Vec::new();
        let mut i: usize = 0;
        while i < options.len()
            invariant
                0 <= i <= options.len(),
                keys.len() == i,
                forall|j: int| 0 <= j < i ==> keys[j]@ == options[j]@,
            decreases options.len() - i,
        {
            keys.push(options[i].0.clone());
            i = i + 1;
        }
        assert(key_views(keys@) =~= arg_views(options@));
        let removed = delete(db, keys);
        Value::Integer(Integer(#[verifier::truncate] (removed as i64)))
    }
}

} // verus!
