use control_plane::log::{decode_reply, find_field, select_events, LogEntry};
use control_plane::wire::Reply;

fn data(s: &str) -> Reply {
    Reply::Data(s.as_bytes().to_vec())
}

fn framed(id: &str, fields: &[(&str, &str)]) -> Reply {
    let mut flat = Vec::new();
    for (k, v) in fields {
        flat.push(data(k));
        flat.push(data(v));
    }
    Reply::Bulk(vec![data(id), Reply::Bulk(flat)])
}

fn read_reply(entries: Vec<Reply>) -> Reply {
    Reply::Bulk(vec![Reply::Bulk(vec![data("tasks:events"), Reply::Bulk(entries)])])
}

fn entry(id: &str, fields: &[(&str, &str)]) -> LogEntry {
    LogEntry {
        id: id.as_bytes().to_vec(),
        fields: fields
            .iter()
            .map(|(k, v)| (k.as_bytes().to_vec(), v.as_bytes().to_vec()))
            .collect(),
    }
}

#[test]
fn decode_reply_of_a_timeout_is_empty() {
    assert_eq!(decode_reply(&Reply::Nil).len(), 0);
}

#[test]
fn decode_reply_of_what_is_no_list_is_empty() {
    assert_eq!(decode_reply(&Reply::Int(3)).len(), 0);
    assert_eq!(decode_reply(&Reply::Okay).len(), 0);
    assert_eq!(decode_reply(&Reply::Status("QUEUED".to_string())).len(), 0);
    assert_eq!(decode_reply(&data("x")).len(), 0);
    assert_eq!(decode_reply(&Reply::Bulk(vec![])).len(), 0);
}

#[test]
fn decode_reply_gives_the_entries_in_order() {
    let r = read_reply(vec![
        framed("1-0", &[("wf", "A"), ("phase", "submitted"), ("note", "n1")]),
        framed("1-1", &[("wf", "B"), ("phase", "done"), ("note", "n2")]),
        framed("2-0", &[]),
    ]);
    let es = decode_reply(&r);
    assert_eq!(es.len(), 3);
    assert_eq!(es[0].id, b"1-0".to_vec());
    assert_eq!(
        es[0].fields,
        vec![
            (b"wf".to_vec(), b"A".to_vec()),
            (b"phase".to_vec(), b"submitted".to_vec()),
            (b"note".to_vec(), b"n1".to_vec()),
        ]
    );
    assert_eq!(es[1].id, b"1-1".to_vec());
    assert_eq!(es[1].fields[0], (b"wf".to_vec(), b"B".to_vec()));
    assert_eq!(es[2].id, b"2-0".to_vec());
    assert!(es[2].fields.is_empty());
}

#[test]
fn decode_reply_joins_the_streams_of_a_reply() {
    let r = Reply::Bulk(vec![
        Reply::Bulk(vec![data("a"), Reply::Bulk(vec![framed("1-0", &[("k", "v")])])]),
        Reply::Nil,
        Reply::Bulk(vec![data("b"), Reply::Bulk(vec![framed("5-0", &[]), framed("6-0", &[])])]),
    ]);
    let es = decode_reply(&r);
    assert_eq!(es.len(), 3);
    assert_eq!(es[0].id, b"1-0".to_vec());
    assert_eq!(es[1].id, b"5-0".to_vec());
    assert_eq!(es[2].id, b"6-0".to_vec());
}

#[test]
fn decode_reply_passes_over_a_stream_that_is_badly_framed() {
    let good = framed("1-0", &[("k", "v")]);
    // too short
    let r = Reply::Bulk(vec![Reply::Bulk(vec![data("a")])]);
    assert_eq!(decode_reply(&r).len(), 0);
    // the name is no byte string
    let r = Reply::Bulk(vec![Reply::Bulk(vec![Reply::Int(1), Reply::Bulk(vec![good])])]);
    assert_eq!(decode_reply(&r).len(), 0);
    // the entries are no list
    let r = Reply::Bulk(vec![Reply::Bulk(vec![data("a"), data("b")])]);
    assert_eq!(decode_reply(&r).len(), 0);
}

#[test]
fn decode_reply_reads_a_stream_with_more_than_two_members() {
    let r = Reply::Bulk(vec![Reply::Bulk(vec![
        data("a"),
        Reply::Bulk(vec![framed("1-0", &[])]),
        Reply::Nil,
    ])]);
    assert_eq!(decode_reply(&r).len(), 1);
}

#[test]
fn decode_reply_passes_over_an_entry_that_is_badly_framed() {
    let r = read_reply(vec![
        framed("1-0", &[]),
        Reply::Nil,
        Reply::Bulk(vec![data("2-0")]),
        Reply::Bulk(vec![data("3-0"), Reply::Bulk(vec![]), Reply::Nil]),
        Reply::Bulk(vec![Reply::Int(4), Reply::Bulk(vec![])]),
        framed("5-0", &[]),
    ]);
    let es = decode_reply(&r);
    assert_eq!(es.len(), 2);
    assert_eq!(es[0].id, b"1-0".to_vec());
    assert_eq!(es[1].id, b"5-0".to_vec());
}

#[test]
fn decode_reply_keeps_an_entry_whose_fields_are_no_list() {
    let r = read_reply(vec![Reply::Bulk(vec![data("1-0"), Reply::Nil])]);
    let es = decode_reply(&r);
    assert_eq!(es.len(), 1);
    assert_eq!(es[0].id, b"1-0".to_vec());
    assert!(es[0].fields.is_empty());
}

#[test]
fn decode_reply_drops_pairs_that_are_no_byte_strings_and_a_lone_last_name() {
    let flat = vec![
        data("a"),
        data("1"),
        Reply::Int(7),
        data("2"),
        data("c"),
        Reply::Nil,
        data("d"),
        data("4"),
        data("lonely"),
    ];
    let r = read_reply(vec![Reply::Bulk(vec![data("1-0"), Reply::Bulk(flat)])]);
    let es = decode_reply(&r);
    assert_eq!(es.len(), 1);
    assert_eq!(
        es[0].fields,
        vec![(b"a".to_vec(), b"1".to_vec()), (b"d".to_vec(), b"4".to_vec())]
    );
}

#[test]
fn decode_reply_keeps_bytes_that_are_no_text() {
    let r = read_reply(vec![Reply::Bulk(vec![
        Reply::Data(vec![0xff, 0xfe]),
        Reply::Bulk(vec![Reply::Data(vec![0x80]), Reply::Data(vec![0xc3])]),
    ])]);
    let es = decode_reply(&r);
    assert_eq!(es.len(), 1);
    assert_eq!(es[0].id, vec![0xff, 0xfe]);
    assert_eq!(es[0].fields, vec![(vec![0x80], vec![0xc3])]);
}

#[test]
fn find_field_takes_the_last_of_a_name() {
    let e = entry("1-0", &[("wf", "A"), ("x", "1"), ("wf", "B"), ("y", "2")]);
    assert_eq!(find_field(&e.fields, b"wf"), Some(&b"B".to_vec()));
    assert_eq!(find_field(&e.fields, b"x"), Some(&b"1".to_vec()));
    assert_eq!(find_field(&e.fields, b"y"), Some(&b"2".to_vec()));
}

#[test]
fn find_field_of_a_missing_name_is_none() {
    let e = entry("1-0", &[("wf", "A")]);
    assert_eq!(find_field(&e.fields, b"phase"), None);
    assert_eq!(find_field(&e.fields, b"w"), None);
    assert_eq!(find_field(&e.fields, b"wff"), None);
    assert_eq!(find_field(&Vec::new(), b"wf"), None);
}

#[test]
fn body_for_gives_phase_and_note_of_its_workflow() {
    let e = entry("1-0", &[("wf", "W1"), ("phase", "progress"), ("note", "half way")]);
    let b = e.body_for("W1").unwrap();
    assert_eq!(b.phase, "progress");
    assert_eq!(b.note, "half way");
}

#[test]
fn body_for_another_workflow_is_none() {
    let e = entry("1-0", &[("wf", "W1"), ("phase", "progress"), ("note", "half way")]);
    assert!(e.body_for("W2").is_none());
    assert!(e.body_for("W").is_none());
    assert!(e.body_for("W11").is_none());
    assert!(e.body_for("w1").is_none());
    assert!(e.body_for("").is_none());
}

#[test]
fn body_for_an_entry_without_workflow_is_none_even_for_the_empty_id() {
    let e = entry("1-0", &[("phase", "progress"), ("note", "half way")]);
    assert!(e.body_for("").is_none());
    assert!(e.body_for("W1").is_none());
}

#[test]
fn body_for_an_entry_that_lacks_phase_or_note_is_none() {
    assert!(entry("1-0", &[("wf", "W1"), ("note", "n")]).body_for("W1").is_none());
    assert!(entry("1-0", &[("wf", "W1"), ("phase", "p")]).body_for("W1").is_none());
    assert!(entry("1-0", &[("wf", "W1")]).body_for("W1").is_none());
    assert!(entry("1-0", &[]).body_for("W1").is_none());
}

#[test]
fn body_for_an_entry_whose_text_cannot_be_decoded_is_none() {
    let mut e = entry("1-0", &[("wf", "W1"), ("phase", "p"), ("note", "n")]);
    e.fields[1].1 = vec![0xff, 0xfe];
    assert!(e.body_for("W1").is_none());
    let mut e = entry("1-0", &[("wf", "W1"), ("phase", "p"), ("note", "n")]);
    e.fields[2].1 = vec![0xc3];
    assert!(e.body_for("W1").is_none());
}

#[test]
fn body_for_takes_empty_phase_and_note_as_they_are() {
    let e = entry("1-0", &[("wf", "W1"), ("phase", ""), ("note", "")]);
    let b = e.body_for("W1").unwrap();
    assert_eq!(b.phase, "");
    assert_eq!(b.note, "");
}

#[test]
fn body_for_goes_by_the_last_field_of_each_name() {
    let e = entry(
        "1-0",
        &[("wf", "W2"), ("phase", "old"), ("wf", "W1"), ("note", "n"), ("phase", "new")],
    );
    let b = e.body_for("W1").unwrap();
    assert_eq!(b.phase, "new");
    assert_eq!(b.note, "n");
    assert!(e.body_for("W2").is_none());
}

#[test]
fn body_for_decodes_text_that_is_not_ascii() {
    let e = entry("1-0", &[("wf", "W\u{e9}"), ("phase", "termin\u{e9}"), ("note", "\u{1f600}")]);
    let b = e.body_for("W\u{e9}").unwrap();
    assert_eq!(b.phase, "termin\u{e9}");
    assert_eq!(b.note, "\u{1f600}");
}

#[test]
fn select_events_keeps_log_order_and_skips_the_rest() {
    let entries = vec![
        entry("1-0", &[("wf", "A"), ("phase", "submitted"), ("note", "a1")]),
        entry("2-0", &[("wf", "B"), ("phase", "submitted"), ("note", "b1")]),
        entry("3-0", &[("wf", "A"), ("phase", "progress"), ("note", "a2")]),
        entry("4-0", &[("wf", "A"), ("phase", "broken")]),
        entry("5-0", &[("other", "x")]),
        entry("6-0", &[("wf", "B"), ("phase", "done"), ("note", "b2")]),
        entry("7-0", &[("wf", "A"), ("phase", "done"), ("note", "a3")]),
    ];
    let a = select_events(&entries, "A");
    let got: Vec<(String, String)> = a.into_iter().map(|b| (b.phase, b.note)).collect();
    assert_eq!(
        got,
        vec![
            ("submitted".to_string(), "a1".to_string()),
            ("progress".to_string(), "a2".to_string()),
            ("done".to_string(), "a3".to_string()),
        ]
    );
    let b = select_events(&entries, "B");
    let got: Vec<(String, String)> = b.into_iter().map(|b| (b.phase, b.note)).collect();
    assert_eq!(
        got,
        vec![
            ("submitted".to_string(), "b1".to_string()),
            ("done".to_string(), "b2".to_string()),
        ]
    );
    assert_eq!(select_events(&entries, "C").len(), 0);
    assert_eq!(select_events(&Vec::new(), "A").len(), 0);
}
