//! Entries of the shared log: how the reply to a read is taken apart into
//! entries, and which entries are events of a given workflow.

use vstd::prelude::*;
use vstd::slice::slice_to_vec;
use vstd::string::*;
use vstd::utf8::*;
use crate::text::bytes_equal;
use crate::wire::Reply;

verus! {

/// `core::str::Utf8Error`, the error of a failed decoding, carried as it is.
#[verifier::external_type_specification]
#[verifier::external_body]
pub struct ExUtf8Error(core::str::Utf8Error);

/// `core::str::from_utf8` accepts the byte strings that are well-formed UTF-8,
/// and no others, and hands an accepted one back as text with the same bytes.
pub assume_specification[ core::str::from_utf8 ](v: &[u8]) -> (r: Result<
    &str,
    core::str::Utf8Error,
>)
    ensures
        r is Ok <==> valid_utf8(v@),
        r matches Ok(s) ==> s.spec_bytes() == v@,
;

/// One record of the log: the id that the store gave it, and its fields in the
/// order in which they were written. Names and values are byte strings.
#[derive(Clone, Debug, PartialEq, Eq)]
pub struct LogEntry {
    pub id: Vec<u8>,
    pub fields: Vec<(Vec<u8>, Vec<u8>)>,
}

/// What a [`LogEntry`] holds, as plain sequences.
pub struct Entry {
    pub id: Seq<u8>,
    pub fields: Seq<(Seq<u8>, Seq<u8>)>,
}

/// The fields of an entry as pairs of byte sequences.
pub open spec fn field_views(fields: Seq<(Vec<u8>, Vec<u8>)>) -> Seq<(Seq<u8>, Seq<u8>)> {
    fields.map_values(|f: (Vec<u8>, Vec<u8>)| (f.0@, f.1@))
}

impl View for LogEntry {
    type V = Entry;

    open spec fn view(&self) -> Entry {
        Entry { id: self.id@, fields: field_views(self.fields@) }
    }
}

/// The entries of a vector, each by its view.
pub open spec fn entry_views(entries: Seq<LogEntry>) -> Seq<Entry> {
    entries.map_values(|e: LogEntry| e@)
}

/// The members of a list reply; no members for a reply that is not a list.
pub open spec fn items_of(r: Reply) -> Seq<Reply> {
    match r {
        Reply::Bulk(items) => items@,
        _ => Seq::empty(),
    }
}

/// A name and a value that are both byte strings make a field.
pub open spec fn pair_of(name: Reply, value: Reply) -> Option<(Seq<u8>, Seq<u8>)> {
    match name {
        Reply::Data(n) => match value {
            Reply::Data(v) => Some((n@, v@)),
            _ => None,
        },
        _ => None,
    }
}

/// The members of a flat list taken two by two; a last member without a
/// partner is left out.
pub open spec fn raw_pairs(items: Seq<Reply>) -> Seq<Option<(Seq<u8>, Seq<u8>)>> {
    Seq::new((items.len() / 2) as nat, |i: int| pair_of(items[2 * i], items[2 * i + 1]))
}

/// The fields that a flat list of names and values spells. A pair in which the
/// name or the value is not a byte string is no field.
pub open spec fn fields_of(r: Reply) -> Seq<(Seq<u8>, Seq<u8>)> {
    raw_pairs(items_of(r)).filter_map(|p: Option<(Seq<u8>, Seq<u8>)>| p)
}

/// The entry that a reply frames: a list of exactly two members, the id as a
/// byte string and then the fields.
pub open spec fn entry_of(r: Reply) -> Option<Entry> {
    let parts = items_of(r);
    if parts.len() == 2 {
        match parts[0] {
            Reply::Data(id) => Some(Entry { id: id@, fields: fields_of(parts[1]) }),
            _ => None,
        }
    } else {
        None
    }
}

/// The entries of one log within a read's reply: a list that starts with the
/// log's name and the list of its entries. What frames no entry is passed over.
pub open spec fn stream_entries(r: Reply) -> Seq<Entry> {
    let parts = items_of(r);
    if parts.len() >= 2 && parts[0] is Data {
        items_of(parts[1]).filter_map(|e: Reply| entry_of(e))
    } else {
        Seq::empty()
    }
}

/// All entries that the reply to a read holds, in the order of the reply.
/// A reply that is no list (a timeout, say) holds none.
pub open spec fn reply_entries(r: Reply) -> Seq<Entry> {
    items_of(r).flat_map(|s: Reply| stream_entries(s))
}

/// The value of the last field called `name`, if there is such a field.
pub open spec fn lookup(fields: Seq<(Seq<u8>, Seq<u8>)>, name: Seq<u8>) -> Option<Seq<u8>>
    decreases fields.len(),
{
    if fields.len() == 0 {
        None
    } else if fields.last().0 == name {
        Some(fields.last().1)
    } else {
        lookup(fields.drop_last(), name)
    }
}

/// The phase and the note of an event, before it is given its time.
#[derive(Clone, Debug, PartialEq, Eq)]
pub struct EventBody {
    pub phase: String,
    pub note: String,
}

/// What an [`EventBody`] holds, as plain sequences.
pub struct Body {
    pub phase: Seq<char>,
    pub note: Seq<char>,
}

impl View for EventBody {
    type V = Body;

    open spec fn view(&self) -> Body {
        Body { phase: self.phase@, note: self.note@ }
    }
}

/// The bodies of a vector, each by its view.
pub open spec fn body_views(bodies: Seq<EventBody>) -> Seq<Body> {
    bodies.map_values(|b: EventBody| b@)
}

/// The event that an entry carries for `workflow`. An entry is an event of the
/// workflow when its field `wf` is the workflow's id and it has the fields
/// `phase` and `note`, both well-formed text. Every other entry, a malformed
/// one too, carries none.
pub open spec fn body_of(e: Entry, workflow: Seq<char>) -> Option<Body> {
    let wf = lookup(e.fields, encode_utf8("wf"@));
    let phase = lookup(e.fields, encode_utf8("phase"@));
    let note = lookup(e.fields, encode_utf8("note"@));
    if wf == Some(encode_utf8(workflow)) && phase is Some && note is Some && valid_utf8(phase->0)
        && valid_utf8(note->0) {
        Some(Body { phase: decode_utf8(phase->0), note: decode_utf8(note->0) })
    } else {
        None
    }
}

/// The events of `workflow` among `entries`, in the order of the entries.
pub open spec fn matching(entries: Seq<Entry>, workflow: Seq<char>) -> Seq<Body> {
    entries.filter_map(|e: Entry| body_of(e, workflow))
}

fn decode_fields(r: &Reply) -> (out: Vec<(Vec<u8>, Vec<u8>)>)
    ensures
        field_views(out@) == fields_of(*r),
{
    let mut out: Vec<(Vec<u8>, Vec<u8>)> = Vec::new();
    let ghost keep = |p: Option<(Seq<u8>, Seq<u8>)>| p;
    match r {
        Reply::Bulk(items) => {
            let n: usize = items.len() / 2;
            let ghost raw = raw_pairs(items@);
            let mut i: usize = 0;
            assert(field_views(out@) =~= raw.take(0).filter_map(keep));
            while i < n
                invariant
                    n == items.len() / 2,
                    i <= n,
                    raw == raw_pairs(items@),
                    keep == |p: Option<(Seq<u8>, Seq<u8>)>| p,
                    field_views(out@) == raw.take(i as int).filter_map(keep),
                decreases n - i,
            {
                proof {
                    raw.lemma_filter_map_take_succ(keep, i as int);
                }
                let ghost before = out@;
                match &items[2 * i] {
                    Reply::Data(name) => match &items[2 * i + 1] {
                        Reply::Data(value) => {
                            let pair = (slice_to_vec(name.as_slice()), slice_to_vec(value.as_slice()));
                            out.push(pair);
                            assert(field_views(out@) =~= field_views(before).push((name@, value@)));
                        },
                        _ => {},
                    },
                    _ => {},
                }
                i += 1;
            }
            assert(raw.take(n as int) =~= raw);
        },
        _ => {
            assert(raw_pairs(items_of(*r)) =~= Seq::empty());
            assert(field_views(out@) =~= Seq::empty());
        },
    }
    out
}

fn decode_entry(r: &Reply) -> (out: Option<LogEntry>)
    ensures
        match out {
            Some(e) => entry_of(*r) == Some(e@),
            None => entry_of(*r) is None,
        },
{
    match r {
        Reply::Bulk(parts) => {
            if parts.len() != 2 {
                return None;
            }
            match &parts[0] {
                Reply::Data(id) => {
                    let fields = decode_fields(&parts[1]);
                    Some(LogEntry { id: slice_to_vec(id.as_slice()), fields })
                },
                _ => None,
            }
        },
        _ => None,
    }
}

fn decode_stream(r: &Reply, out: &mut Vec<LogEntry>)
    ensures
        entry_views(final(out)@) == entry_views(old(out)@) + stream_entries(*r),
{
    let ghost start = entry_views(out@);
    let ghost frame = |e: Reply| entry_of(e);
    match r {
        Reply::Bulk(parts) => {
            if parts.len() < 2 {
                assert(entry_views(out@) =~= start + stream_entries(*r));
                return ;
            }
            match &parts[0] {
                Reply::Data(_) => {},
                _ => {
                    assert(entry_views(out@) =~= start + stream_entries(*r));
                    return ;
                },
            }
            match &parts[1] {
                Reply::Bulk(entries) => {
                    let ghost all = entries@;
                    let mut i: usize = 0;
                    assert(entry_views(out@) =~= start + all.take(0).filter_map(frame));
                    while i < entries.len()
                        invariant
                            i <= entries.len(),
                            all == entries@,
                            frame == |e: Reply| entry_of(e),
                            entry_views(out@) == start + all.take(i as int).filter_map(frame),
                        decreases entries.len() - i,
                    {
                        proof {
                            all.lemma_filter_map_take_succ(frame, i as int);
                        }
                        let ghost before = out@;
                        match decode_entry(&entries[i]) {
                            Some(e) => {
                                out.push(e);
                                assert(entry_views(out@) =~= entry_views(before).push(e@));
                            },
                            None => {},
                        }
                        assert(entry_views(out@) =~= start + all.take(i as int + 1).filter_map(
                            frame,
                        ));
                        i += 1;
                    }
                    assert(all.take(i as int) =~= all);
                },
                _ => {
                    assert(items_of(parts@[1]).filter_map(frame) =~= Seq::empty());
                    assert(entry_views(out@) =~= start + stream_entries(*r));
                },
            }
        },
        _ => {
            assert(entry_views(out@) =~= start + stream_entries(*r));
        },
    }
}

/// Takes the reply to a read apart into its entries.
pub fn decode_reply(r: &Reply) -> (out: Vec<LogEntry>)
    ensures
        entry_views(out@) == reply_entries(*r),
{
    let mut out: Vec<LogEntry> = Vec::new();
    let ghost each = |s: Reply| stream_entries(s);
    match r {
        Reply::Bulk(streams) => {
            let ghost all = streams@;
            let mut i: usize = 0;
            assert(all.take(0).flat_map(each) =~= Seq::empty());
            assert(entry_views(out@) =~= all.take(0).flat_map(each));
            while i < streams.len()
                invariant
                    i <= streams.len(),
                    all == streams@,
                    each == |s: Reply| stream_entries(s),
                    entry_views(out@) == all.take(i as int).flat_map(each),
                decreases streams.len() - i,
            {
                proof {
                    all.lemma_flat_map_take_append(each, i as int);
                }
                decode_stream(&streams[i], &mut out);
                i += 1;
            }
            assert(all.take(i as int) =~= all);
        },
        _ => {
            assert(items_of(*r).flat_map(each) =~= Seq::empty());
            assert(entry_views(out@) =~= Seq::empty());
        },
    }
    out
}

/// Finds the value of the last field called `name`.
pub fn find_field<'a>(fields: &'a Vec<(Vec<u8>, Vec<u8>)>, name: &[u8]) -> (out: Option<
    &'a Vec<u8>,
>)
    ensures
        match out {
            Some(v) => lookup(field_views(fields@), name@) == Some(v@),
            None => lookup(field_views(fields@), name@) is None,
        },
{
    let ghost all = field_views(fields@);
    let mut i: usize = fields.len();
    assert(all.take(i as int) =~= all);
    while i > 0
        invariant
            i <= fields.len(),
            all == field_views(fields@),
            lookup(all, name@) == lookup(all.take(i as int), name@),
        decreases i,
    {
        i -= 1;
        assert(all.take(i as int + 1).drop_last() =~= all.take(i as int));
        assert(all.take(i as int + 1).last() == all[i as int]);
        if bytes_equal(fields[i].0.as_slice(), name) {
            return Some(&fields[i].1);
        }
    }
    None
}

impl LogEntry {
    /// The event that this entry carries for `workflow`, if it carries one.
    pub fn body_for(&self, workflow: &str) -> (out: Option<EventBody>)
        ensures
            match out {
                Some(b) => body_of(self@, workflow@) == Some(b@),
                None => body_of(self@, workflow@) is None,
            },
    {
        let wf = match find_field(&self.fields, "wf".as_bytes()) {
            Some(v) => v,
            None => {
                return None;
            },
        };
        if !bytes_equal(wf.as_slice(), workflow.as_bytes()) {
            return None;
        }
        let phase = match find_field(&self.fields, "phase".as_bytes()) {
            Some(v) => v,
            None => {
                return None;
            },
        };
        let note = match find_field(&self.fields, "note".as_bytes()) {
            Some(v) => v,
            None => {
                return None;
            },
        };
        let phase_text = match core::str::from_utf8(phase.as_slice()) {
            Ok(s) => s,
            Err(_) => {
                return None;
            },
        };
        let note_text = match core::str::from_utf8(note.as_slice()) {
            Ok(s) => s,
            Err(_) => {
                return None;
            },
        };
        proof {
            encode_utf8_decode_utf8(phase_text@);
            encode_utf8_decode_utf8(note_text@);
        }
        Some(EventBody { phase: phase_text.to_owned(), note: note_text.to_owned() })
    }
}

/// Picks from `entries` the events of `workflow`, in order.
pub fn select_events(entries: &Vec<LogEntry>, workflow: &str) -> (out: Vec<EventBody>)
    ensures
        body_views(out@) == matching(entry_views(entries@), workflow@),
{
    let mut out: Vec<EventBody> = Vec::new();
    let ghost all = entry_views(entries@);
    let ghost pick = |e: Entry| body_of(e, workflow@);
    let mut i: usize = 0;
    assert(body_views(out@) =~= all.take(0).filter_map(pick));
    while i < entries.len()
        invariant
            i <= entries.len(),
            all == entry_views(entries@),
            pick == |e: Entry| body_of(e, workflow@),
            body_views(out@) == all.take(i as int).filter_map(pick),
        decreases entries.len() - i,
    {
        proof {
            all.lemma_filter_map_take_succ(pick, i as int);
        }
        let ghost before = out@;
        match entries[i].body_for(workflow) {
            Some(b) => {
                out.push(b);
                assert(body_views(out@) =~= body_views(before).push(b@));
            },
            None => {},
        }
        i += 1;
    }
    assert(all.take(i as int) =~= all);
    out
}

} // verus!
