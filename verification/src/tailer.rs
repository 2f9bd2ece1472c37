//! The tailer: the reader that one subscription owns. It follows the events
//! log from a cursor and hands on the events of its workflow, in log order.
//!
//! A tailer performs no I/O. It is a state machine: the caller tells it what
//! happened ([`TailerEvent`]) and is told what to do next ([`TailerAction`]).
//! A tailer reads nothing but its own state and the event it is given, so
//! what happens to one subscription cannot change what another one does.

use vstd::prelude::*;
use vstd::slice::slice_to_vec;
use vstd::string::*;
use vstd::utf8::encode_utf8;
use crate::log::{
    body_of, body_views, decode_reply, lookup, matching, reply_entries, select_events, Body, Entry,
    EventBody,
};
use crate::wire::{
    cmd_args, events_stream, origin, read_args, read_command, Reply, READ_BATCH, READ_WAIT_MS,
};

verus! {

/// Where a tailer stands.
#[derive(Clone, Copy, PartialEq, Eq, Structural, Debug)]
pub enum Phase {
    /// Made, not yet started: the cursor is at the resume position.
    Idle,
    /// Waiting for the log: a read from the cursor is due or under way.
    Reading,
    /// Handing on the events found in the last batch.
    Delivering,
    /// Ended. Nothing follows.
    Closed,
}

/// Whether a tailer has been started and whether it has ended.
#[derive(Clone, Copy, PartialEq, Eq, Structural, Debug)]
pub enum Stage {
    Idle,
    Running,
    Closed,
}

/// What can happen to a tailer.
pub enum TailerEvent {
    /// The subscription begins.
    Start,
    /// The log store answered the read with this reply.
    Batch(Reply),
    /// The read failed: the log store could not be reached.
    ReadFailed,
    /// The delivery channel took the event that was offered.
    Pushed,
    /// The delivery channel is closed: the subscriber is gone.
    ChannelClosed,
    /// The subscription is cancelled.
    Cancel,
}

/// What the caller is to do next for a tailer.
pub enum TailerAction {
    /// Nothing: the tailer was not started.
    Wait,
    /// Run this read and report its outcome.
    Read(redis::Cmd),
    /// Offer this event to the delivery channel and report the outcome.
    Push(EventBody),
    /// Close the delivery channel and let go of the log store.
    Stop,
}

/// What a [`TailerAction`] asks for, as plain values: a read by its arguments.
pub enum ActionView {
    Wait,
    Read(Seq<Seq<u8>>),
    Push(Body),
    Stop,
}

impl View for TailerAction {
    type V = ActionView;

    open spec fn view(&self) -> ActionView {
        match self {
            TailerAction::Wait => ActionView::Wait,
            TailerAction::Read(c) => ActionView::Read(cmd_args(*c)),
            TailerAction::Push(b) => ActionView::Push(b@),
            TailerAction::Stop => ActionView::Stop,
        }
    }
}

/// The state of a tailer: the workflow it serves, the id of the last entry it
/// inspected, and the events found and not yet handed on, oldest first.
pub struct TailerModel {
    pub workflow: Seq<char>,
    pub cursor: Seq<u8>,
    pub stage: Stage,
    pub pending: Seq<Body>,
}

/// A tailer as it is made: idle, at the resume position, with nothing pending.
pub open spec fn init(workflow: Seq<char>, cursor: Seq<u8>) -> TailerModel {
    TailerModel { workflow, cursor, stage: Stage::Idle, pending: Seq::empty() }
}

/// The phase of a tailer. A running tailer delivers while events are pending
/// and reads otherwise.
pub open spec fn phase_of(m: TailerModel) -> Phase {
    match m.stage {
        Stage::Idle => Phase::Idle,
        Stage::Closed => Phase::Closed,
        Stage::Running => if m.pending.len() > 0 {
            Phase::Delivering
        } else {
            Phase::Reading
        },
    }
}

/// The entries that a step inspects: those of a batch that arrives while the
/// tailer reads. A batch at any other time is not looked at.
pub open spec fn inspected(m: TailerModel, e: TailerEvent) -> Seq<Entry> {
    match e {
        TailerEvent::Batch(r) => if phase_of(m) == Phase::Reading {
            reply_entries(r)
        } else {
            Seq::empty()
        },
        _ => Seq::empty(),
    }
}

/// The events that a step hands to the subscriber: the oldest pending one,
/// when the channel reports that it took it.
pub open spec fn delivered(m: TailerModel, e: TailerEvent) -> Seq<Body> {
    match e {
        TailerEvent::Pushed => if phase_of(m) == Phase::Delivering {
            seq![m.pending[0]]
        } else {
            Seq::empty()
        },
        _ => Seq::empty(),
    }
}

/// The state after an event.
///
/// - A closed tailer stays as it is.
/// - `Cancel` and `ChannelClosed` close the tailer, whatever it was doing.
/// - `Start` sets an idle tailer reading.
/// - A batch that arrives while the tailer reads moves the cursor to the id of
///   the batch's last entry, whether or not that entry is of the workflow, and
///   makes the batch's events of the workflow pending. An empty batch changes
///   nothing.
/// - A failed read closes a reading tailer.
/// - `Pushed` takes the oldest pending event off a delivering tailer.
/// - An event that does not fit the phase is passed over.
pub open spec fn transition(m: TailerModel, e: TailerEvent) -> TailerModel {
    match m.stage {
        Stage::Closed => m,
        _ => match e {
            TailerEvent::Cancel => TailerModel { stage: Stage::Closed, ..m },
            TailerEvent::ChannelClosed => TailerModel { stage: Stage::Closed, ..m },
            TailerEvent::Start => if m.stage == Stage::Idle {
                TailerModel { stage: Stage::Running, ..m }
            } else {
                m
            },
            TailerEvent::Batch(r) => if phase_of(m) == Phase::Reading {
                let entries = reply_entries(r);
                TailerModel {
                    cursor: if entries.len() > 0 {
                        entries.last().id
                    } else {
                        m.cursor
                    },
                    pending: matching(entries, m.workflow),
                    ..m
                }
            } else {
                m
            },
            TailerEvent::ReadFailed => if phase_of(m) == Phase::Reading {
                TailerModel { stage: Stage::Closed, ..m }
            } else {
                m
            },
            TailerEvent::Pushed => if phase_of(m) == Phase::Delivering {
                TailerModel { pending: m.pending.drop_first(), ..m }
            } else {
                m
            },
        },
    }
}

/// What a tailer in state `m` asks of its caller: an idle one nothing, a
/// reading one a read of the events log after its cursor, a delivering one
/// the push of its oldest pending event, a closed one to stop.
pub open spec fn action_of(m: TailerModel) -> ActionView {
    match phase_of(m) {
        Phase::Idle => ActionView::Wait,
        Phase::Reading => ActionView::Read(
            read_args(events_stream(), m.cursor, READ_WAIT_MS as nat, READ_BATCH as nat),
        ),
        Phase::Delivering => ActionView::Push(m.pending[0]),
        Phase::Closed => ActionView::Stop,
    }
}

/// The reader of one subscription.
#[derive(Debug)]
pub struct Tailer {
    workflow: String,
    cursor: Vec<u8>,
    stage: Stage,
    pending: Vec<EventBody>,
}

impl View for Tailer {
    type V = TailerModel;

    closed spec fn view(&self) -> TailerModel {
        TailerModel {
            workflow: self.workflow@,
            cursor: self.cursor@,
            stage: self.stage,
            pending: body_views(self.pending@),
        }
    }
}

impl Tailer {
    /// A tailer for `workflow`, idle. It will read after `resume`, or from the
    /// origin of the log where no resume position is given.
    pub fn new(workflow: String, resume: Option<Vec<u8>>) -> (t: Tailer)
        ensures
            t@ == init(
                workflow@,
                match resume {
                    Some(c) => c@,
                    None => origin(),
                },
            ),
    {
        let cursor = match resume {
            Some(c) => c,
            None => slice_to_vec("0-0".as_bytes()),
        };
        let t = Tailer { workflow, cursor, stage: Stage::Idle, pending: Vec::new() };
        assert(body_views(t.pending@) =~= Seq::empty());
        t
    }

    /// The id of the workflow that this tailer serves.
    pub fn workflow(&self) -> (w: &str)
        ensures
            w@ == self@.workflow,
    {
        self.workflow.as_str()
    }

    /// The id of the last entry inspected, or the resume position where none was.
    pub fn cursor(&self) -> (c: &[u8])
        ensures
            c@ == self@.cursor,
    {
        self.cursor.as_slice()
    }

    /// How many events are found and not yet handed on.
    pub fn pending_len(&self) -> (n: usize)
        ensures
            n == self@.pending.len(),
    {
        self.pending.len()
    }

    /// Where the tailer stands.
    pub fn phase(&self) -> (p: Phase)
        ensures
            p == phase_of(self@),
    {
        match self.stage {
            Stage::Idle => Phase::Idle,
            Stage::Closed => Phase::Closed,
            Stage::Running => if self.pending.len() > 0 {
                Phase::Delivering
            } else {
                Phase::Reading
            },
        }
    }

    /// What the caller is to do next.
    pub fn action(&self) -> (a: TailerAction)
        ensures
            a@ == action_of(self@),
    {
        match self.phase() {
            Phase::Idle => TailerAction::Wait,
            Phase::Closed => TailerAction::Stop,
            Phase::Reading => TailerAction::Read(read_command(self.cursor.as_slice())),
            Phase::Delivering => {
                let oldest = &self.pending[0];
                TailerAction::Push(
                    EventBody { phase: oldest.phase.clone(), note: oldest.note.clone() },
                )
            },
        }
    }

    /// Takes in what happened and says what to do next.
    pub fn step(&mut self, event: TailerEvent) -> (a: TailerAction)
        ensures
            final(self)@ == transition(old(self)@, event),
            a@ == action_of(final(self)@),
    {
        match self.stage {
            Stage::Closed => {},
            _ => match event {
                TailerEvent::Cancel => {
                    self.stage = Stage::Closed;
                },
                TailerEvent::ChannelClosed => {
                    self.stage = Stage::Closed;
                },
                TailerEvent::Start => {
                    match self.stage {
                        Stage::Idle => {
                            self.stage = Stage::Running;
                        },
                        _ => {},
                    }
                },
                TailerEvent::Batch(reply) => {
                    match self.phase() {
                        Phase::Reading => {
                            let entries = decode_reply(&reply);
                            let found = select_events(&entries, self.workflow.as_str());
                            let n: usize = entries.len();
                            if n > 0 {
                                self.cursor = slice_to_vec(entries[n - 1].id.as_slice());
                            }
                            self.pending = found;
                        },
                        _ => {},
                    }
                },
                TailerEvent::ReadFailed => {
                    match self.phase() {
                        Phase::Reading => {
                            self.stage = Stage::Closed;
                        },
                        _ => {},
                    }
                },
                TailerEvent::Pushed => {
                    match self.phase() {
                        Phase::Delivering => {
                            let ghost before = self.pending@;
                            let _ = self.pending.remove(0);
                            assert(body_views(self.pending@) =~= body_views(before).drop_first());
                        },
                        _ => {},
                    }
                },
            },
        }
        self.action()
    }
}

/// The state after a sequence of events, taken in order.
pub open spec fn run(m: TailerModel, events: Seq<TailerEvent>) -> TailerModel
    decreases events.len(),
{
    if events.len() == 0 {
        m
    } else {
        transition(run(m, events.drop_last()), events.last())
    }
}

/// All entries that the tailer inspected over a sequence of events, in the
/// order in which it inspected them.
pub open spec fn seen(m: TailerModel, events: Seq<TailerEvent>) -> Seq<Entry>
    decreases events.len(),
{
    if events.len() == 0 {
        Seq::empty()
    } else {
        seen(m, events.drop_last()) + inspected(run(m, events.drop_last()), events.last())
    }
}

/// All events that the tailer handed to its subscriber over a sequence of
/// events, in the order of their delivery.
pub open spec fn sent(m: TailerModel, events: Seq<TailerEvent>) -> Seq<Body>
    decreases events.len(),
{
    if events.len() == 0 {
        Seq::empty()
    } else {
        sent(m, events.drop_last()) + delivered(run(m, events.drop_last()), events.last())
    }
}

/// The events of a workflow among two runs of entries are those of the first
/// run followed by those of the second.
pub proof fn lemma_matching_concat(a: Seq<Entry>, b: Seq<Entry>, workflow: Seq<char>)
    ensures
        matching(a + b, workflow) == matching(a, workflow) + matching(b, workflow),
    decreases b.len(),
{
    if b.len() == 0 {
        assert(a + b =~= a);
        assert(matching(a, workflow) + matching(b, workflow) =~= matching(a, workflow));
    } else {
        assert((a + b).drop_last() =~= a + b.drop_last());
        assert((a + b).last() == b.last());
        lemma_matching_concat(a, b.drop_last(), workflow);
        assert(matching(a + b, workflow) =~= matching(a, workflow) + matching(b, workflow));
    }
}

/// Whatever happens to a tailer, in whatever order: the events it has handed
/// on, followed by those still pending, are the events of its workflow among
/// the entries it has inspected, in the order of inspection. Nothing is left
/// out, nothing comes twice, nothing changes place, and no entry of another
/// workflow comes through. The workflow never changes.
pub proof fn lemma_delivery_follows_inspection(
    workflow: Seq<char>,
    cursor: Seq<u8>,
    events: Seq<TailerEvent>,
)
    ensures
        run(init(workflow, cursor), events).workflow == workflow,
        sent(init(workflow, cursor), events) + run(init(workflow, cursor), events).pending
            == matching(seen(init(workflow, cursor), events), workflow),
    decreases events.len(),
{
    let m0 = init(workflow, cursor);
    if events.len() == 0 {
        assert(sent(m0, events) + run(m0, events).pending =~= Seq::empty());
        assert(matching(seen(m0, events), workflow) =~= Seq::empty());
    } else {
        let before = events.drop_last();
        let e = events.last();
        lemma_delivery_follows_inspection(workflow, cursor, before);
        let m = run(m0, before);
        lemma_matching_concat(seen(m0, before), inspected(m, e), workflow);
        if inspected(m, e).len() > 0 {
            // a batch, taken while reading: nothing was pending
            assert(m.pending =~= Seq::empty());
            assert(delivered(m, e) =~= Seq::empty());
            assert(sent(m0, events) + run(m0, events).pending =~= sent(m0, before) + m.pending
                + matching(inspected(m, e), workflow));
        } else if delivered(m, e).len() > 0 {
            assert(seq![m.pending[0]] + m.pending.drop_first() =~= m.pending);
            assert(sent(m0, events) + run(m0, events).pending =~= sent(m0, before) + m.pending);
            assert(matching(inspected(m, e), workflow) =~= Seq::empty());
            assert(matching(seen(m0, before), workflow) + Seq::<Body>::empty() =~= matching(
                seen(m0, before),
                workflow,
            ));
        } else {
            assert(matching(inspected(m, e), workflow) =~= Seq::empty());
            assert(run(m0, events).pending =~= m.pending);
            assert(sent(m0, events) =~= sent(m0, before));
            assert(matching(seen(m0, before), workflow) + Seq::<Body>::empty() =~= matching(
                seen(m0, before),
                workflow,
            ));
        }
    }
}

/// The cursor of a tailer is the id of the last entry it inspected, and the
/// resume position as long as it has inspected none.
pub proof fn lemma_cursor_is_last_inspected(
    workflow: Seq<char>,
    cursor: Seq<u8>,
    events: Seq<TailerEvent>,
)
    ensures
        run(init(workflow, cursor), events).cursor == if seen(init(workflow, cursor), events).len()
            > 0 {
            seen(init(workflow, cursor), events).last().id
        } else {
            cursor
        },
    decreases events.len(),
{
    if events.len() > 0 {
        lemma_cursor_is_last_inspected(workflow, cursor, events.drop_last());
    }
}

/// A closed tailer is at its end: no event changes it, it inspects nothing,
/// hands on nothing, and all it asks for is to stop. No read is issued for it
/// again.
pub proof fn lemma_closed_is_final(m: TailerModel, events: Seq<TailerEvent>)
    requires
        m.stage == Stage::Closed,
    ensures
        run(m, events) == m,
        seen(m, events) == Seq::<Entry>::empty(),
        sent(m, events) == Seq::<Body>::empty(),
        action_of(run(m, events)) == ActionView::Stop,
    decreases events.len(),
{
    if events.len() > 0 {
        lemma_closed_is_final(m, events.drop_last());
        assert(seen(m, events) =~= Seq::empty());
        assert(sent(m, events) =~= Seq::empty());
    }
}

/// Cancelling ends a tailer from any state: after it the tailer is closed,
/// and so is every tailer whose subscriber is gone.
pub proof fn lemma_cancel_closes(m: TailerModel)
    ensures
        phase_of(transition(m, TailerEvent::Cancel)) == Phase::Closed,
        phase_of(transition(m, TailerEvent::ChannelClosed)) == Phase::Closed,
        action_of(transition(m, TailerEvent::Cancel)) == ActionView::Stop,
        action_of(transition(m, TailerEvent::ChannelClosed)) == ActionView::Stop,
{
}

/// Whether the batches among `events` are what the log store owes a tailer
/// that started at position `from` of `log`: each batch that the tailer
/// inspects holds the entries of the log that follow those already inspected,
/// as many as it likes, in the order of the log.
pub open spec fn served_from(
    log: Seq<Entry>,
    from: int,
    m: TailerModel,
    events: Seq<TailerEvent>,
) -> bool
    decreases events.len(),
{
    events.len() == 0 || {
        let before = events.drop_last();
        let at = from + seen(m, before).len();
        let got = inspected(run(m, before), events.last());
        &&& served_from(log, from, m, before)
        &&& at + got.len() <= log.len()
        &&& got == log.subrange(at, at + got.len())
    }
}

/// A subscriber receives the events of its workflow as the log holds them:
/// where the log store serves the log in order from the resume position, the
/// entries inspected are the stretch of the log from that position on, and
/// the events handed on, followed by those pending, are the events of the
/// workflow in that stretch, in log order.
pub proof fn lemma_subscriber_gets_log_order(
    log: Seq<Entry>,
    from: int,
    workflow: Seq<char>,
    cursor: Seq<u8>,
    events: Seq<TailerEvent>,
)
    requires
        0 <= from <= log.len(),
        served_from(log, from, init(workflow, cursor), events),
    ensures
        from + seen(init(workflow, cursor), events).len() <= log.len(),
        seen(init(workflow, cursor), events) == log.subrange(
            from,
            from + seen(init(workflow, cursor), events).len(),
        ),
        sent(init(workflow, cursor), events) + run(init(workflow, cursor), events).pending
            == matching(
            log.subrange(from, from + seen(init(workflow, cursor), events).len()),
            workflow,
        ),
    decreases events.len(),
{
    let m0 = init(workflow, cursor);
    lemma_delivery_follows_inspection(workflow, cursor, events);
    if events.len() == 0 {
        assert(seen(m0, events) =~= log.subrange(from, from));
    } else {
        let before = events.drop_last();
        lemma_subscriber_gets_log_order(log, from, workflow, cursor, before);
        let at = from + seen(m0, before).len();
        let got = inspected(run(m0, before), events.last());
        assert(log.subrange(from, at) + log.subrange(at, at + got.len()) =~= log.subrange(
            from,
            at + got.len(),
        ));
    }
}

/// The entries inspected only grow: what a tailer has inspected after more
/// events starts with what it had inspected before. Its position in the log
/// never moves back.
pub proof fn lemma_inspection_grows(m: TailerModel, events: Seq<TailerEvent>, n: int)
    requires
        0 <= n <= events.len(),
    ensures
        seen(m, events.take(n)).is_prefix_of(seen(m, events)),
        sent(m, events.take(n)).is_prefix_of(sent(m, events)),
    decreases events.len() - n,
{
    if n == events.len() {
        assert(events.take(n) =~= events);
    } else {
        lemma_inspection_grows(m, events.drop_last(), n);
        assert(events.drop_last().take(n) =~= events.take(n));
    }
}

/// A subscriber that has caught up has it all: once the tailer has inspected
/// the log to its end and nothing is pending, the events handed on are the
/// events of the workflow in the log from the resume position on, all of them
/// and in log order.
pub proof fn lemma_caught_up_subscriber_has_all(
    log: Seq<Entry>,
    from: int,
    workflow: Seq<char>,
    cursor: Seq<u8>,
    events: Seq<TailerEvent>,
)
    requires
        0 <= from <= log.len(),
        served_from(log, from, init(workflow, cursor), events),
        from + seen(init(workflow, cursor), events).len() == log.len(),
        run(init(workflow, cursor), events).pending.len() == 0,
    ensures
        sent(init(workflow, cursor), events) == matching(log.skip(from), workflow),
{
    lemma_subscriber_gets_log_order(log, from, workflow, cursor, events);
    assert(log.subrange(from, log.len() as int) =~= log.skip(from));
    assert(sent(init(workflow, cursor), events) + run(init(workflow, cursor), events).pending
        =~= sent(init(workflow, cursor), events));
}

/// Nothing reaches a subscriber but events of its own workflow: each event
/// handed on is the event that some inspected entry carries for the workflow,
/// and that entry names the workflow in its field `wf`.
pub proof fn lemma_delivered_events_are_of_the_workflow(
    workflow: Seq<char>,
    cursor: Seq<u8>,
    events: Seq<TailerEvent>,
    i: int,
)
    requires
        0 <= i < sent(init(workflow, cursor), events).len(),
    ensures
        exists|e: Entry|
            {
                &&& #[trigger] seen(init(workflow, cursor), events).contains(e)
                &&& body_of(e, workflow) == Some(sent(init(workflow, cursor), events)[i])
                &&& lookup(e.fields, encode_utf8("wf"@)) == Some(encode_utf8(workflow))
            },
{
    let m0 = init(workflow, cursor);
    let all = sent(m0, events) + run(m0, events).pending;
    let b = sent(m0, events)[i];
    lemma_delivery_follows_inspection(workflow, cursor, events);
    assert(all[i] == b);
    assert(all.contains(b));
    seen(m0, events).lemma_filter_map_contains(|e: Entry| body_of(e, workflow), b);
    let e = choose|e: Entry| #[trigger]
        seen(m0, events).contains(e) && body_of(e, workflow) == Some(b);
    assert(seen(m0, events).contains(e));
}

} // verus!
