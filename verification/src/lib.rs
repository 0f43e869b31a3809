//! A small in-memory key-value server core that speaks a subset of RESP.
//!
//! The crate holds the three parts that decide what the server does: the
//! codec for the wire format, the command layer, and the store with its
//! expiry rules. Reading sockets and clocks is left to the caller, who hands
//! in bytes and the current time.

pub mod command;
pub mod constants;
pub mod decimal;
pub mod error;
pub mod storage;
pub mod text;
pub mod value;

use crate::command::{arg_views, command_named, error_reply, Command, Execute};
use crate::constants::{CR, LF};
use crate::error::RedisError;
use crate::storage::{Database, Store, Timestamp};
use crate::value::array::Array;
use crate::value::bulk_string::BulkString;
use crate::value::serialize::Serialize;
use crate::value::simple_error::{ErrorType, SimpleError};
use crate::value::{decode, decode_value, encode, Resp, Value};
use vstd::prelude::*;
use vstd::string::*;
use vstd::utf8::*;

verus! {

/// True where a frame terminator starts at position `i` of `bytes`.
pub open spec fn crlf_at(bytes: Seq<u8>, i: int) -> bool {
    &&& 0 <= i
    &&& i + 1 < bytes.len()
    &&& bytes[i] == CR
    &&& bytes[i + 1] == LF
}

/// True where `bytes` holds a frame terminator at or after position `from`.
pub open spec fn has_crlf(bytes: Seq<u8>, from: int) -> bool {
    exists|i: int| from <= i && crlf_at(bytes, i)
}

/// True where the first frame terminator at or after `from` starts at `i`.
pub open spec fn is_first_crlf(bytes: Seq<u8>, from: int, i: int) -> bool {
    &&& from <= i
    &&& crlf_at(bytes, i)
    &&& forall|j: int| from <= j < i ==> !crlf_at(bytes, j)
}

/// Start of the first frame terminator at or after `from`, where there is
/// one.
pub open spec fn first_crlf(bytes: Seq<u8>, from: int) -> int {
    choose|i: int| is_first_crlf(bytes, from, i)
}

/// Number of frame terminators that start before position `end`.
pub open spec fn crlf_count(bytes: Seq<u8>, end: int) -> nat
    decreases end,
{
    if end <= 0 {
        0
    } else {
        crlf_count(bytes, end - 1) + if crlf_at(bytes, end - 1) {
            1nat
        } else {
            0nat
        }
    }
}

/// True where the `count`-th frame terminator of `bytes`, counted from one,
/// starts at `i`.
pub open spec fn is_nth_crlf(bytes: Seq<u8>, count: nat, i: int) -> bool {
    crlf_at(bytes, i) && crlf_count(bytes, i) + 1 == count
}

/// What `check_crlf` answers: whether a frame terminator starts at `index`,
/// or an error where the input ends before that can be told.
pub open spec fn spec_check_crlf(bytes: Seq<u8>, index: int) -> Result<bool, RedisError> {
    if 0 <= index < bytes.len() {
        if bytes[index] != CR {
            Ok(false)
        } else if index + 1 < bytes.len() {
            Ok(bytes[index + 1] == LF)
        } else {
            Err(RedisError::IndexOutOfBoundError)
        }
    } else {
        Err(RedisError::IndexOutOfBoundError)
    }
}

/// The first frame terminator at or after a position is unique.
pub proof fn lemma_first_crlf_unique(bytes: Seq<u8>, from: int, i: int)
    requires
        is_first_crlf(bytes, from, i),
    ensures
        has_crlf(bytes, from),
        first_crlf(bytes, from) == i,
{
    let j = first_crlf(bytes, from);
    assert(is_first_crlf(bytes, from, j));
    if j < i {
        assert(!crlf_at(bytes, j));
    }
    if i < j {
        assert(!crlf_at(bytes, i));
    }
}

/// Where a frame terminator exists at or after `from`, `first_crlf` names
/// the first one.
pub proof fn lemma_first_crlf_exists(bytes: Seq<u8>, from: int)
    requires
        has_crlf(bytes, from),
    ensures
        is_first_crlf(bytes, from, first_crlf(bytes, from)),
{
    let k = choose|i: int| from <= i && crlf_at(bytes, i);
    lemma_first_crlf_before(bytes, from, k);
}

/// A frame terminator at `k` bounds the search for the first one.
proof fn lemma_first_crlf_before(bytes: Seq<u8>, from: int, k: int)
    requires
        from <= k,
        crlf_at(bytes, k),
    ensures
        exists|i: int| is_first_crlf(bytes, from, i),
    decreases k - from,
{
    if exists|j: int| from <= j < k && crlf_at(bytes, j) {
        let j = choose|j: int| from <= j < k && crlf_at(bytes, j);
        lemma_first_crlf_before(bytes, from, j);
    } else {
        assert(is_first_crlf(bytes, from, k));
    }
}

/// No terminator before `end` means a count of zero, and the other way
/// round.
pub proof fn lemma_crlf_count_zero(bytes: Seq<u8>, end: int)
    ensures
        crlf_count(bytes, end) == 0 <==> forall|j: int| 0 <= j < end ==> !crlf_at(bytes, j),
    decreases end,
{
    if end > 0 {
        lemma_crlf_count_zero(bytes, end - 1);
    }
}

/// The count of terminators grows with the position, and grows past every
/// terminator.
pub proof fn lemma_crlf_count_monotonic(bytes: Seq<u8>, i: int, j: int)
    requires
        i <= j,
    ensures
        crlf_count(bytes, i) <= crlf_count(bytes, j),
        i < j && crlf_at(bytes, i) ==> crlf_count(bytes, i) < crlf_count(bytes, j),
    decreases j - i,
{
    if i < j {
        lemma_crlf_count_monotonic(bytes, i, j - 1);
    }
}

/// The `count`-th frame terminator is unique.
pub proof fn law_nth_crlf_unique(bytes: Seq<u8>, count: nat, i: int, j: int)
    requires
        is_nth_crlf(bytes, count, i),
        is_nth_crlf(bytes, count, j),
    ensures
        i == j,
{
    if i < j {
        lemma_crlf_count_monotonic(bytes, i, j);
    }
    if j < i {
        lemma_crlf_count_monotonic(bytes, j, i);
    }
}

/// A line that holds no frame terminator ends at the frame terminator
/// written behind it, whatever follows.
pub proof fn lemma_line_end(lead: Seq<u8>, line: Seq<u8>, rest: Seq<u8>)
    requires
        forall|i: int| !crlf_at(line, i),
    ensures
        is_first_crlf(
            lead + line + seq![CR, LF] + rest,
            lead.len() as int,
            (lead.len() + line.len()) as int,
        ),
{
    let all = lead + line + seq![CR, LF] + rest;
    let from = lead.len() as int;
    let end = (lead.len() + line.len()) as int;
    assert(all[end] == CR);
    assert(all[end + 1] == LF);
    assert forall|j: int| from <= j < end implies !crlf_at(all, j) by {
        assert(all[j] == line[j - from]);
        if j + 1 < end {
            assert(all[j + 1] == line[j + 1 - from]);
            assert(!crlf_at(line, j - from));
        }
    }
}

/// A line that holds no carriage return holds no frame terminator.
pub proof fn lemma_plain_line(line: Seq<u8>)
    requires
        forall|i: int| 0 <= i < line.len() ==> #[trigger] line[i] != CR,
    ensures
        forall|i: int| !crlf_at(line, i),
{
}

/// Tells whether a frame terminator starts at `index`.
///
/// Fails where `index` is past the end, or where a carriage return is the
/// last byte of the input, so that nothing can follow it.
pub fn check_crlf(value: &[u8], index: usize) -> (found: Result<bool, RedisError>)
    ensures
        found == spec_check_crlf(value@, index as int),
        found == Ok::<bool, RedisError>(true) <==> crlf_at(value@, index as int),
{
    if index >= value.len() {
        return Err(RedisError::IndexOutOfBoundError);
    }
    if value[index] != CR {
        return Ok(false);
    }
    if index + 1 >= value.len() {
        return Err(RedisError::IndexOutOfBoundError);
    }
    Ok(value[index + 1] == LF)
}

/// Finds the start of the `count`-th frame terminator of `item`, counted
/// from one.
///
/// Where there is none, the error tells why the scan ended: on a carriage
/// return that is the last byte of the input, or on the end of the input.
pub fn read_until_crlf(item: &[u8], count: usize) -> (found: Result<usize, RedisError>)
    ensures
        match found {
            Ok(i) => is_nth_crlf(item@, count as nat, i as int),
            Err(e) => {
                &&& forall|i: int| !is_nth_crlf(item@, count as nat, i)
                &&& e == if item@.len() > 0 && item@.last() == CR {
                    RedisError::IndexOutOfBoundError
                } else {
                    RedisError::CRLFNotFoundError
                }
            },
        },
{
    let len = item.len();
    let mut local_count: usize = 0;
    let mut index: usize = 0;
    while index < len
        invariant
            len == item@.len(),
            0 <= index <= len,
            local_count == crlf_count(item@, index as int),
            local_count <= index,
            forall|i: int| 0 <= i < index ==> !is_nth_crlf(item@, count as nat, i),
            forall|i: int| 0 <= i < index && item@[i] == CR ==> i + 1 < len,
        decreases len - index,
    {
        match check_crlf(item, index) {
            Err(e) => {
                proof {
                    assert forall|i: int| !is_nth_crlf(item@, count as nat, i) by {
                        if i >= index {
                            assert(!crlf_at(item@, i));
                        }
                    }
                }
                return Err(e);
            },
            Ok(true) => {
                if local_count + 1 == count {
                    return Ok(index);
                }
                local_count = local_count + 1;
            },
            Ok(false) => {},
        }
        index = index + 1;
    }
    proof {
        assert forall|i: int| !is_nth_crlf(item@, count as nat, i) by {
            if i >= index {
                assert(!crlf_at(item@, i));
            }
        }
    }
    Err(RedisError::CRLFNotFoundError)
}

/// Finds the start of the first frame terminator at or after `from`, the
/// end of the line that starts there.
///
/// Fails with `IndexOutOfBoundError` where the input ends before a frame
/// terminator is met.
pub fn line_end(bytes: &[u8], from: usize) -> (found: Result<usize, RedisError>)
    ensures
        match found {
            Ok(i) => is_first_crlf(bytes@, from as int, i as int),
            Err(e) => !has_crlf(bytes@, from as int) && e == RedisError::IndexOutOfBoundError,
        },
{
    let len = bytes.len();
    let mut i: usize = from;
    while i < len
        invariant
            len == bytes@.len(),
            from <= i,
            forall|j: int| from <= j < i ==> !crlf_at(bytes@, j),
        decreases len - i,
    {
        match check_crlf(bytes, i) {
            Err(e) => {
                assert(!has_crlf(bytes@, from as int));
                return Err(e);
            },
            Ok(true) => {
                return Ok(i);
            },
            Ok(false) => {},
        }
        i = i + 1;
    }
    assert(!has_crlf(bytes@, from as int));
    Err(RedisError::IndexOutOfBoundError)
}

/// The text of a bulk string; nothing for a value of another kind.
pub open spec fn bulk_text(v: Resp) -> Option<Seq<char>> {
    match v {
        Resp::BulkString(s) => Some(s),
        _ => None,
    }
}

/// The texts of the bulk strings among `items`, in order.
pub open spec fn bulk_texts(items: Seq<Resp>) -> Seq<Seq<char>> {
    items.filter_map(|v: Resp| bulk_text(v))
}

/// The arguments as an error message shows them: each between single
/// quotes and followed by a blank.
pub open spec fn quoted_args(args: Seq<Seq<char>>) -> Seq<char>
    decreases args.len(),
{
    if args.len() == 0 {
        Seq::<char>::empty()
    } else {
        quoted_args(args.drop_last()) + "'"@ + args.last() + "' "@
    }
}

/// The message of the reply to a command that is not known.
pub open spec fn unknown_command_message(name: Seq<char>, args: Seq<Seq<char>>) -> Seq<char> {
    "unknown command '"@ + name + "', with args beginning with: "@ + quoted_args(args)
}

/// The reply to a request at the time `now`, and the store after it.
///
/// The first item of the request names the command; the bulk strings among
/// the other items are its arguments. A request that is empty, or whose
/// first item is not a bulk string, names no command.
pub open spec fn reply_to(request: Seq<Resp>, store: Store, now: Timestamp) -> (Resp, Store) {
    if request.len() == 0 {
        (Resp::SimpleError(ErrorType::ERR, "unknown command ''"@), store)
    } else {
        match request[0] {
            Resp::BulkString(name) => {
                let args = bulk_texts(request.drop_first());
                match command_named(name) {
                    Ok(command) => command.outcome(args, store, now),
                    Err(_) => (
                        Resp::SimpleError(ErrorType::ERR, unknown_command_message(name, args)),
                        store,
                    ),
                }
            },
            _ => (Resp::SimpleError(ErrorType::ERR, "unknown command ''"@), store),
        }
    }
}

/// Builds the message of the reply to a command that is not known.
fn describe_unknown(name: &str, options: &Vec<BulkString>) -> (message: String)
    ensures
        message@ == unknown_command_message(name@, arg_views(options@)),
{
    let ghost args = arg_views(options@);
    let mut message = String::from_str("unknown command '");
    message.append(name);
    message.append("', with args beginning with: ");
    let ghost head = message@;
    let mut i: usize = 0;
    assert(args.take(0) =~= Seq::<Seq<char>>::empty());
    while i < options.len()
        invariant
            0 <= i <= options.len(),
            args == arg_views(options@),
            head == "unknown command '"@ + name@ + "', with args beginning with: "@,
            message@ == head + quoted_args(args.take(i as int)),
        decreases options.len() - i,
    {
        proof {
            assert(args.take(i + 1).drop_last() =~= args.take(i as int));
            assert(args.take(i + 1).last() == options[i as int]@);
        }
        let ghost before = message@;
        message.append("'");
        message.append(options[i].0.as_str());
        message.append("' ");
        assert(message@ =~= head + quoted_args(args.take(i + 1)));
        i = i + 1;
    }
    assert(args.take(i as int) =~= args);
    message
}

/// Answers a request at the time `now`: finds the command that the first
/// item names, hands it the bulk strings among the other items, and gives
/// back its reply.
pub fn respond(request: Array, db: &mut Database, now: Timestamp) -> (reply: Value)
    ensures
        reply@ == reply_to(request@, old(db)@, now).0,
        final(db)@ == reply_to(request@, old(db)@, now).1,
{
    let items = &request.0;
    let ghost all = request@;
    if items.len() == 0 {
        return error_reply("unknown command ''");
    }
    let name = match &items[0] {
        Value::BulkString(name) => name,
        _ => {
            return error_reply("unknown command ''");
        },
    };
    let mut options: Vec<BulkString> = Vec::new();
    let mut i: usize = 1;
    assert(all.subrange(1, 1) =~= Seq::<Resp>::empty());
    while i < items.len()
        invariant
            1 <= i <= items.len(),
            all == request@,
            items == &request.0,
            arg_views(options@) == bulk_texts(all.subrange(1, i as int)),
        decreases items.len() - i,
    {
        let ghost before = arg_views(options@);
        proof {
            assert(all.subrange(1, i + 1).drop_last() =~= all.subrange(1, i as int));
            assert(all.subrange(1, i + 1).last() == items[i as int]@);
        }
        match &items[i] {
            Value::BulkString(x) => {
                options.push(x.clone());
                assert(arg_views(options@) =~= before.push(x@));
            },
            _ => {},
        }
        i = i + 1;
    }
    assert(all.subrange(1, i as int) =~= all.drop_first());
    match Command::try_from(name.clone()) {
        Ok(command) => command.execute(options, db, now),
        Err(_) => {
            let message = describe_unknown(name.0.as_str(), &options);
            Value::SimpleError(SimpleError { message, error_type: ErrorType::ERR })
        },
    }
}

/// Answers a request at the time `now` and writes the reply as text: the
/// text whose UTF-8 bytes are the frame of the reply.
pub fn execute(request: Array, db: &mut Database, now: Timestamp) -> (reply: String)
    ensures
        encode_utf8(reply@) == encode(reply_to(request@, old(db)@, now).0),
        final(db)@ == reply_to(request@, old(db)@, now).1,
{
    let reply = respond(request, db, now);
    reply.serialize()
}

/// What the server does with the bytes of one read at the time `now`, and
/// the store after it.
///
/// Bytes that do not start with a frame are an error. A frame that is an
/// array is a request and gets its reply, as a frame. A frame of another kind
/// is passed over without a reply. Either way the store is only touched by
/// the command of a request.
pub open spec fn handled(input: Seq<u8>, store: Store, now: Timestamp) -> (
    Result<Option<Seq<u8>>, RedisError>,
    Store,
) {
    match decode(input) {
        Err(e) => (Err(e), store),
        Ok((Resp::Array(request), _)) => {
            let (reply, after) = reply_to(request, store, now);
            (Ok(Some(encode(reply))), after)
        },
        Ok(_) => (Ok(None), store),
    }
}

/// Takes the bytes of one read at the time `now`: decodes the frame at
/// their front and, where it is a request, answers it and gives the reply as
/// text.
pub fn handle_request(input: &[u8], db: &mut Database, now: Timestamp) -> (outcome: Result<
    Option<String>,
    RedisError,
>)
    ensures
        match handled(input@, old(db)@, now).0 {
            Err(reason) => outcome matches Err(e) && e == reason,
            Ok(None) => outcome matches Ok(None),
            Ok(Some(frame)) => outcome matches Ok(Some(text)) && encode_utf8(text@) == frame,
        },
        final(db)@ == handled(input@, old(db)@, now).1,
{
    match decode_value(input) {
        Err(e) => Err(e),
        Ok(found) => match found.value {
            Value::Array(request) => Ok(Some(execute(request, db, now))),
            _ => Ok(None),
        },
    }
}

} // verus!
