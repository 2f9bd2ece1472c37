//! What travels between this library and the log store: commands out, replies in.
//!
//! The log store is a Redis server. Commands are built here as `redis::Cmd`
//! values and handed to the caller, who runs them; the replies come back as
//! [`Reply`] values, which hold what a `redis::Value` holds.

use vstd::prelude::*;
use vstd::string::*;
use vstd::utf8::*;
use crate::text::{decimal, decimal_string};

verus! {

/// A reply of the log store, as it came off the wire.
#[derive(Debug, PartialEq, Eq)]
pub enum Reply {
    /// No value; a blocking read that timed out answers so.
    Nil,
    /// An integer.
    Int(i64),
    /// A byte string.
    Data(Vec<u8>),
    /// A list of replies.
    Bulk(Vec<Reply>),
    /// A status line.
    Status(String),
    /// The status line `OK`.
    Okay,
}

/// The log that carries the lifecycle events of every workflow.
pub open spec fn events_stream() -> Seq<char> {
    "tasks:events"@
}

/// The log that carries the ingest requests for the worker.
pub open spec fn requests_stream() -> Seq<char> {
    "ingest:requests"@
}

/// The position before the first entry of a log.
pub open spec fn origin() -> Seq<u8> {
    encode_utf8("0-0"@)
}

/// Where the log store is reached when nothing else is configured.
pub open spec fn default_endpoint() -> Seq<char> {
    "redis://cp-redis:6379"@
}

/// The endpoint of the log store: the configured one, or the default where
/// none is configured.
pub fn store_endpoint(configured: Option<String>) -> (url: String)
    ensures
        url@ == match configured {
            Some(u) => u@,
            None => default_endpoint(),
        },
{
    match configured {
        Some(u) => u,
        None => String::from_str("redis://cp-redis:6379"),
    }
}

/// How long one blocking read waits, in milliseconds.
pub const READ_WAIT_MS: u64 = 5000;

/// How many entries one read returns at most.
pub const READ_BATCH: u64 = 50;

/// `redis::Cmd`, a command for the log store, carried as it is. Its fields are
/// not looked at here.
#[verifier::external_type_specification]
#[verifier::external_body]
pub struct ExCmd(redis::Cmd);

/// The arguments that a command holds, in order, the command's name first.
/// Every command of this library is made of plain arguments alone.
pub uninterp spec fn cmd_args(c: redis::Cmd) -> Seq<Seq<u8>>;

/// `redis::cmd` makes a command whose only argument is the name, as its UTF-8 bytes.
pub assume_specification[ redis::cmd ](name: &str) -> (c: redis::Cmd)
    ensures
        cmd_args(c) == seq![name.spec_bytes()],
;

/// `redis::Cmd::arg` with a byte slice adds the slice as one argument at the end
/// and leaves the earlier arguments as they were.
#[verifier::external_body]
fn push_arg(c: &mut redis::Cmd, arg: &[u8])
    ensures
        cmd_args(*final(c)) == cmd_args(*old(c)).push(arg@),
{
    c.arg(arg);
}

/// The two arguments that one field contributes to an append: its name, then its value.
pub open spec fn field_args(field: (Seq<char>, Seq<char>)) -> Seq<Seq<u8>> {
    seq![encode_utf8(field.0), encode_utf8(field.1)]
}

/// The arguments of the command that appends an entry with these fields to
/// `stream` and lets the store assign the entry's id.
pub open spec fn append_args(stream: Seq<char>, fields: Seq<(Seq<char>, Seq<char>)>) -> Seq<
    Seq<u8>,
> {
    seq![encode_utf8("XADD"@), encode_utf8(stream), encode_utf8("*"@)] + fields.flat_map(
        |f: (Seq<char>, Seq<char>)| field_args(f),
    )
}

/// The arguments of the command that reads from `stream` the entries after
/// `cursor`, at most `count` of them, waiting up to `wait_ms` milliseconds for
/// the first.
pub open spec fn read_args(stream: Seq<char>, cursor: Seq<u8>, wait_ms: nat, count: nat) -> Seq<
    Seq<u8>,
> {
    seq![
        encode_utf8("XREAD"@),
        encode_utf8("BLOCK"@),
        encode_utf8(decimal(wait_ms)),
        encode_utf8("COUNT"@),
        encode_utf8(decimal(count)),
        encode_utf8("STREAMS"@),
        encode_utf8(stream),
        cursor,
    ]
}

/// An entry to be appended to a named log: the fields in the order in which
/// they are written.
#[derive(Clone, Debug, PartialEq, Eq)]
pub struct Append {
    pub stream: String,
    pub fields: Vec<(String, String)>,
}

/// What an [`Append`] holds, as plain sequences.
pub struct AppendView {
    pub stream: Seq<char>,
    pub fields: Seq<(Seq<char>, Seq<char>)>,
}

impl View for Append {
    type V = AppendView;

    open spec fn view(&self) -> AppendView {
        AppendView {
            stream: self.stream@,
            fields: self.fields@.map_values(|f: (String, String)| (f.0@, f.1@)),
        }
    }
}

impl Append {
    /// The command that performs this append.
    pub fn command(&self) -> (c: redis::Cmd)
        ensures
            cmd_args(c) == append_args(self@.stream, self@.fields),
    {
        let mut c = redis::cmd("XADD");
        push_arg(&mut c, self.stream.as_str().as_bytes());
        push_arg(&mut c, "*".as_bytes());
        let ghost head = cmd_args(c);
        let ghost fields = self@.fields;
        let ghost each = |f: (Seq<char>, Seq<char>)| field_args(f);
        let mut i: usize = 0;
        assert(fields.take(0).flat_map(each) =~= Seq::<Seq<u8>>::empty());
        while i < self.fields.len()
            invariant
                i <= self.fields.len(),
                fields == self@.fields,
                each == |f: (Seq<char>, Seq<char>)| field_args(f),
                cmd_args(c) == head + fields.take(i as int).flat_map(each),
            decreases self.fields.len() - i,
        {
            let field = &self.fields[i];
            push_arg(&mut c, field.0.as_str().as_bytes());
            push_arg(&mut c, field.1.as_str().as_bytes());
            proof {
                fields.lemma_flat_map_take_append(each, i as int);
                assert(fields[i as int] == (field.0@, field.1@));
                assert(each(fields[i as int]) =~= seq![
                    encode_utf8(field.0@),
                    encode_utf8(field.1@),
                ]);
                assert(cmd_args(c) =~= head + fields.take(i as int + 1).flat_map(each));
            }
            i += 1;
        }
        assert(fields.take(i as int) =~= fields);
        c
    }
}

/// The command that reads the entries of the events log after `cursor`.
pub fn read_command(cursor: &[u8]) -> (c: redis::Cmd)
    ensures
        cmd_args(c) == read_args(events_stream(), cursor@, READ_WAIT_MS as nat, READ_BATCH as nat),
{
    let mut c = redis::cmd("XREAD");
    push_arg(&mut c, "BLOCK".as_bytes());
    let wait = decimal_string(READ_WAIT_MS as u128);
    push_arg(&mut c, wait.as_str().as_bytes());
    push_arg(&mut c, "COUNT".as_bytes());
    let count = decimal_string(READ_BATCH as u128);
    push_arg(&mut c, count.as_str().as_bytes());
    push_arg(&mut c, "STREAMS".as_bytes());
    push_arg(&mut c, "tasks:events".as_bytes());
    push_arg(&mut c, cursor);
    assert(cmd_args(c) =~= read_args(
        events_stream(),
        cursor@,
        READ_WAIT_MS as nat,
        READ_BATCH as nat,
    ));
    c
}

} // verus!
