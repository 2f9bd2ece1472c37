//! The submission handler: which requests are taken, what is written to the
//! log for one that is, and what the client is told.
//!
//! A submission performs no I/O. Checking a request yields a [`Submission`],
//! a state machine that names the appends to run, one after the other, and
//! then the answer for the client.

use vstd::prelude::*;
use vstd::string::*;
use vstd::utf8::*;
use crate::log::{body_of, lookup, Body, Entry};
use crate::text::text_equal;
use crate::wire::{append_args, cmd_args, events_stream, requests_stream, Append, AppendView};

verus! {

/// The kinds of task that can be submitted.
#[derive(Clone, Copy, PartialEq, Eq, Structural, Debug)]
pub enum TaskKind {
    /// Ingest the source named in the payload.
    Ingest,
}

/// Why a submission did not go through.
#[derive(Clone, Debug, PartialEq, Eq)]
pub enum SubmitError {
    /// The request is at fault: an unknown task type or a payload that cannot
    /// be used. Nothing was written.
    InvalidArgument(String),
    /// The log store is at fault: an append failed.
    Internal(String),
}

/// What a [`SubmitError`] holds, as plain values.
pub enum ErrorView {
    InvalidArgument(Seq<char>),
    Internal(Seq<char>),
}

impl View for SubmitError {
    type V = ErrorView;

    open spec fn view(&self) -> ErrorView {
        match self {
            SubmitError::InvalidArgument(m) => ErrorView::InvalidArgument(m@),
            SubmitError::Internal(m) => ErrorView::Internal(m@),
        }
    }
}

impl SubmitError {
    /// The message that goes to the client.
    pub fn message(&self) -> (m: &str)
        ensures
            m@ == match self@ {
                ErrorView::InvalidArgument(t) => t,
                ErrorView::Internal(t) => t,
            },
    {
        match self {
            SubmitError::InvalidArgument(m) => m.as_str(),
            SubmitError::Internal(m) => m.as_str(),
        }
    }

    /// Whether the request, not the log store, is at fault.
    pub fn is_invalid_argument(&self) -> (b: bool)
        ensures
            b == (self@ is InvalidArgument),
    {
        match self {
            SubmitError::InvalidArgument(_) => true,
            SubmitError::Internal(_) => false,
        }
    }
}

/// The payload of an ingest task, decoded.
#[derive(Clone, Debug, PartialEq, Eq)]
pub struct IngestPayload {
    pub source_id: String,
}

/// What `str::to_lowercase` makes of a text.
pub uninterp spec fn lowercase(s: Seq<char>) -> Seq<char>;

/// `str::to_lowercase` gives the lowercase form of a text, by the rules of
/// Unicode. The result depends on the text alone.
pub assume_specification[ str::to_lowercase ](s: &str) -> (r: String)
    ensures
        r@ == lowercase(s@),
;

/// `uuid::Uuid`, a 128-bit identifier, carried as it is.
#[verifier::external_type_specification]
#[verifier::external_body]
pub struct ExUuid(uuid::Uuid);

/// `uuid::Uuid::new_v4` draws a random identifier. Nothing is claimed of the value.
pub assume_specification[ uuid::Uuid::new_v4 ]() -> (u: uuid::Uuid)
;

/// Whether `s` has the hyphenated form of an identifier: 36 characters,
/// hyphens at four fixed places, digits and the letters `a` to `f` elsewhere.
pub open spec fn is_hyphenated(s: Seq<char>) -> bool {
    &&& s.len() == 36
    &&& forall|i: int|
        0 <= i < 36 ==> if i == 8 || i == 13 || i == 18 || i == 23 {
            #[trigger] s[i] == '-'
        } else {
            ('0' <= s[i] <= '9') || ('a' <= s[i] <= 'f')
        }
}

/// The `Display` form of a `uuid::Uuid` is its hyphenated form in lower case.
#[verifier::external_body]
fn uuid_text(u: &uuid::Uuid) -> (s: String)
    ensures
        is_hyphenated(s@),
{
    u.to_string()
}

/// A fresh workflow id: 128 random bits, written in hyphenated form. That no
/// id comes twice rests on chance alone.
pub fn fresh_workflow_id() -> (id: String)
    ensures
        is_hyphenated(id@),
{
    let u = uuid::Uuid::new_v4();
    uuid_text(&u)
}

/// The registry of task kinds, by normalized name.
pub open spec fn kind_of(normalized: Seq<char>) -> Option<TaskKind> {
    if normalized == "ingest"@ {
        Some(TaskKind::Ingest)
    } else {
        None
    }
}

/// What the client is told of a task type that the registry does not hold.
pub open spec fn unknown_kind_message(normalized: Seq<char>) -> Seq<char> {
    "unknown task_type "@ + normalized
}

/// What the client is told of a payload that cannot be used.
pub open spec fn bad_payload_message(reason: Seq<char>) -> Seq<char> {
    "bad payload: "@ + reason
}

/// The reason given for an ingest payload whose `source_id` is empty.
pub open spec fn empty_source_reason() -> Seq<char> {
    "field `source_id` is empty"@
}

/// The outcome of decoding a payload, by the views of its parts.
pub open spec fn payload_view(payload: Result<IngestPayload, String>) -> Result<
    Seq<char>,
    Seq<char>,
> {
    match payload {
        Ok(p) => Ok(p.source_id@),
        Err(e) => Err(e@),
    }
}

/// The check of a request: the source to ingest where the request is taken,
/// the error for the client where it is not. A request is taken when its
/// normalized task type is in the registry and its payload decoded to a
/// `source_id` that is not empty. The payload is looked at only for a task
/// type that is known.
pub open spec fn checked(normalized: Seq<char>, payload: Result<Seq<char>, Seq<char>>) -> Result<
    Seq<char>,
    ErrorView,
> {
    match kind_of(normalized) {
        None => Err(ErrorView::InvalidArgument(unknown_kind_message(normalized))),
        Some(TaskKind::Ingest) => match payload {
            Err(reason) => Err(ErrorView::InvalidArgument(bad_payload_message(reason))),
            Ok(source_id) => if source_id.len() == 0 {
                Err(ErrorView::InvalidArgument(bad_payload_message(empty_source_reason())))
            } else {
                Ok(source_id)
            },
        },
    }
}

/// The entry that asks the worker to ingest a source.
pub open spec fn request_entry(workflow_id: Seq<char>, source_id: Seq<char>) -> AppendView {
    AppendView {
        stream: requests_stream(),
        fields: seq![("wf"@, workflow_id), ("source_id"@, source_id)],
    }
}

/// The note of the event that records a submission.
pub open spec fn submitted_note(source_id: Seq<char>) -> Seq<char> {
    "ingest request for source_id="@ + source_id
}

/// The event that records a submission.
pub open spec fn submitted_entry(workflow_id: Seq<char>, source_id: Seq<char>) -> AppendView {
    AppendView {
        stream: events_stream(),
        fields: seq![
            ("wf"@, workflow_id),
            ("phase"@, "submitted"@),
            ("note"@, submitted_note(source_id)),
        ],
    }
}

/// How far a submission has come.
#[derive(Clone, Copy, PartialEq, Eq, Structural, Debug)]
pub enum SubmitStage {
    /// The request entry is to be appended.
    Request,
    /// The request entry is written; the event is to be appended.
    Event,
    /// Both entries are written.
    Done,
    /// An append failed.
    Failed,
}

/// What the log store answered to an append.
#[derive(Clone, Debug, PartialEq, Eq)]
pub enum AppendOutcome {
    /// The entry is written.
    Appended,
    /// The append failed, for this reason.
    Failed(String),
}

/// What the caller is to do next for a submission.
pub enum SubmitAction {
    /// Run this append and report its outcome.
    Append(redis::Cmd),
    /// Answer the client with this workflow id.
    Accept(String),
    /// Answer the client with this error.
    Reject(SubmitError),
}

/// What a [`SubmitAction`] asks for, as plain values: an append by its arguments.
pub enum SubmitActionView {
    Append(Seq<Seq<u8>>),
    Accept(Seq<char>),
    Reject(ErrorView),
}

impl View for SubmitAction {
    type V = SubmitActionView;

    open spec fn view(&self) -> SubmitActionView {
        match self {
            SubmitAction::Append(c) => SubmitActionView::Append(cmd_args(*c)),
            SubmitAction::Accept(id) => SubmitActionView::Accept(id@),
            SubmitAction::Reject(e) => SubmitActionView::Reject(e@),
        }
    }
}

/// The state of a submission that was taken: its workflow id, the two entries
/// that it writes, how far it has come, and why it failed where it did.
pub struct SubmissionModel {
    pub workflow_id: Seq<char>,
    pub request: AppendView,
    pub event: AppendView,
    pub stage: SubmitStage,
    pub failure: Seq<char>,
}

/// The submission of an ingest task as it starts out.
pub open spec fn planned(workflow_id: Seq<char>, source_id: Seq<char>) -> SubmissionModel {
    SubmissionModel {
        workflow_id,
        request: request_entry(workflow_id, source_id),
        event: submitted_entry(workflow_id, source_id),
        stage: SubmitStage::Request,
        failure: Seq::empty(),
    }
}

/// The state after the log store answered the append that was due. The request
/// entry is written first, the event second; the first failure ends the
/// submission, and nothing more is written after it. A submission that is done
/// or has failed stays as it is.
pub open spec fn after_append(m: SubmissionModel, outcome: AppendOutcome) -> SubmissionModel {
    match m.stage {
        SubmitStage::Request => match outcome {
            AppendOutcome::Appended => SubmissionModel { stage: SubmitStage::Event, ..m },
            AppendOutcome::Failed(why) => SubmissionModel {
                stage: SubmitStage::Failed,
                failure: why@,
                ..m
            },
        },
        SubmitStage::Event => match outcome {
            AppendOutcome::Appended => SubmissionModel { stage: SubmitStage::Done, ..m },
            AppendOutcome::Failed(why) => SubmissionModel {
                stage: SubmitStage::Failed,
                failure: why@,
                ..m
            },
        },
        _ => m,
    }
}

/// The entries that a step leaves in the log: the one whose append was due,
/// where the log store reports it written.
pub open spec fn written(m: SubmissionModel, outcome: AppendOutcome) -> Seq<AppendView> {
    match outcome {
        AppendOutcome::Appended => match m.stage {
            SubmitStage::Request => seq![m.request],
            SubmitStage::Event => seq![m.event],
            _ => Seq::empty(),
        },
        AppendOutcome::Failed(_) => Seq::empty(),
    }
}

/// What a submission in state `m` asks of its caller.
pub open spec fn submit_action_of(m: SubmissionModel) -> SubmitActionView {
    match m.stage {
        SubmitStage::Request => SubmitActionView::Append(
            append_args(m.request.stream, m.request.fields),
        ),
        SubmitStage::Event => SubmitActionView::Append(append_args(m.event.stream, m.event.fields)),
        SubmitStage::Done => SubmitActionView::Accept(m.workflow_id),
        SubmitStage::Failed => SubmitActionView::Reject(ErrorView::Internal(m.failure)),
    }
}

/// Looks a normalized task type up in the registry.
pub fn lookup_kind(normalized: &str) -> (k: Option<TaskKind>)
    ensures
        k == kind_of(normalized@),
{
    if text_equal(normalized, "ingest") {
        Some(TaskKind::Ingest)
    } else {
        None
    }
}

fn invalid(prefix: &str, detail: &str) -> (e: SubmitError)
    ensures
        e@ == ErrorView::InvalidArgument(prefix@ + detail@),
{
    let mut message = String::from_str(prefix);
    message.append(detail);
    SubmitError::InvalidArgument(message)
}

/// Checks a request whose task type is already normalized.
pub fn check_request(normalized: &str, payload: Result<IngestPayload, String>) -> (r: Result<
    IngestPayload,
    SubmitError,
>)
    ensures
        match r {
            Ok(p) => checked(normalized@, payload_view(payload)) == Ok::<Seq<char>, ErrorView>(
                p.source_id@,
            ),
            Err(e) => checked(normalized@, payload_view(payload)) == Err::<Seq<char>, ErrorView>(
                e@,
            ),
        },
{
    match lookup_kind(normalized) {
        None => Err(invalid("unknown task_type ", normalized)),
        Some(TaskKind::Ingest) => match payload {
            Err(reason) => Err(invalid("bad payload: ", reason.as_str())),
            Ok(p) => {
                if p.source_id.as_str().is_empty() {
                    Err(invalid("bad payload: ", "field `source_id` is empty"))
                } else {
                    Ok(p)
                }
            },
        },
    }
}

fn field(name: &str, value: &str) -> (f: (String, String))
    ensures
        f.0@ == name@,
        f.1@ == value@,
{
    (String::from_str(name), String::from_str(value))
}

/// A submission that was taken, on its way through the log.
#[derive(Debug)]
pub struct Submission {
    workflow_id: String,
    request: Append,
    event: Append,
    stage: SubmitStage,
    failure: String,
}

impl View for Submission {
    type V = SubmissionModel;

    closed spec fn view(&self) -> SubmissionModel {
        SubmissionModel {
            workflow_id: self.workflow_id@,
            request: self.request@,
            event: self.event@,
            stage: self.stage,
            failure: self.failure@,
        }
    }
}

impl Submission {
    /// The submission of an ingest task under a given workflow id.
    pub fn ingest(workflow_id: String, payload: &IngestPayload) -> (s: Submission)
        ensures
            s@ == planned(workflow_id@, payload.source_id@),
    {
        let wf = workflow_id.as_str();
        let source = payload.source_id.as_str();
        let mut request_fields: Vec<(String, String)> = Vec::new();
        request_fields.push(field("wf", wf));
        request_fields.push(field("source_id", source));
        let request = Append { stream: String::from_str("ingest:requests"), fields: request_fields };
        let mut note = String::from_str("ingest request for source_id=");
        note.append(source);
        let mut event_fields: Vec<(String, String)> = Vec::new();
        event_fields.push(field("wf", wf));
        event_fields.push(field("phase", "submitted"));
        event_fields.push(field("note", note.as_str()));
        let event = Append { stream: String::from_str("tasks:events"), fields: event_fields };
        assert(request@.fields =~= request_entry(workflow_id@, payload.source_id@).fields);
        assert(event@.fields =~= submitted_entry(workflow_id@, payload.source_id@).fields);
        Submission {
            workflow_id,
            request,
            event,
            stage: SubmitStage::Request,
            failure: String::new(),
        }
    }

    /// The workflow id of this submission.
    pub fn workflow_id(&self) -> (id: &str)
        ensures
            id@ == self@.workflow_id,
    {
        self.workflow_id.as_str()
    }

    /// How far the submission has come.
    pub fn stage(&self) -> (s: SubmitStage)
        ensures
            s == self@.stage,
    {
        self.stage
    }

    /// The entry that asks the worker to ingest the source.
    pub fn request(&self) -> (a: &Append)
        ensures
            a@ == self@.request,
    {
        &self.request
    }

    /// The event that records the submission.
    pub fn event(&self) -> (a: &Append)
        ensures
            a@ == self@.event,
    {
        &self.event
    }

    /// What the caller is to do next.
    pub fn action(&self) -> (a: SubmitAction)
        ensures
            a@ == submit_action_of(self@),
    {
        match self.stage {
            SubmitStage::Request => SubmitAction::Append(self.request.command()),
            SubmitStage::Event => SubmitAction::Append(self.event.command()),
            SubmitStage::Done => SubmitAction::Accept(self.workflow_id.clone()),
            SubmitStage::Failed => SubmitAction::Reject(SubmitError::Internal(self.failure.clone())),
        }
    }

    /// Takes in the log store's answer to the append that was due and says
    /// what to do next.
    pub fn step(&mut self, outcome: AppendOutcome) -> (a: SubmitAction)
        ensures
            final(self)@ == after_append(old(self)@, outcome),
            a@ == submit_action_of(final(self)@),
    {
        match self.stage {
            SubmitStage::Request => match outcome {
                AppendOutcome::Appended => {
                    self.stage = SubmitStage::Event;
                },
                AppendOutcome::Failed(why) => {
                    self.stage = SubmitStage::Failed;
                    self.failure = why;
                },
            },
            SubmitStage::Event => match outcome {
                AppendOutcome::Appended => {
                    self.stage = SubmitStage::Done;
                },
                AppendOutcome::Failed(why) => {
                    self.stage = SubmitStage::Failed;
                    self.failure = why;
                },
            },
            _ => {},
        }
        self.action()
    }
}

/// Checks a request and, where it is taken, starts its submission under the
/// given workflow id.
pub fn plan_submission(
    normalized: &str,
    payload: Result<IngestPayload, String>,
    workflow_id: String,
) -> (r: Result<Submission, SubmitError>)
    ensures
        match r {
            Ok(s) => match checked(normalized@, payload_view(payload)) {
                Ok(source_id) => s@ == planned(workflow_id@, source_id),
                Err(_) => false,
            },
            Err(e) => checked(normalized@, payload_view(payload)) == Err::<Seq<char>, ErrorView>(
                e@,
            ),
        },
{
    match check_request(normalized, payload) {
        Ok(p) => Ok(Submission::ingest(workflow_id, &p)),
        Err(e) => Err(e),
    }
}

/// The state after the log store's answers to the appends, taken in order.
pub open spec fn submit_run(m: SubmissionModel, outcomes: Seq<AppendOutcome>) -> SubmissionModel
    decreases outcomes.len(),
{
    if outcomes.len() == 0 {
        m
    } else {
        after_append(submit_run(m, outcomes.drop_last()), outcomes.last())
    }
}

/// The entries that a submission has left in the log after these answers, in
/// the order in which they were written.
pub open spec fn appended(m: SubmissionModel, outcomes: Seq<AppendOutcome>) -> Seq<AppendView>
    decreases outcomes.len(),
{
    if outcomes.len() == 0 {
        Seq::empty()
    } else {
        appended(m, outcomes.drop_last()) + written(
            submit_run(m, outcomes.drop_last()),
            outcomes.last(),
        )
    }
}

/// All that one request leaves in the log, given the log store's answers to
/// the appends that were run for it: nothing for a request that is refused.
pub open spec fn entries_written(
    normalized: Seq<char>,
    payload: Result<Seq<char>, Seq<char>>,
    workflow_id: Seq<char>,
    outcomes: Seq<AppendOutcome>,
) -> Seq<AppendView> {
    match checked(normalized, payload) {
        Ok(source_id) => appended(planned(workflow_id, source_id), outcomes),
        Err(_) => Seq::empty(),
    }
}

/// What the client of one request is told, given the log store's answers so
/// far; `None` while an append is still due.
pub open spec fn answer(
    normalized: Seq<char>,
    payload: Result<Seq<char>, Seq<char>>,
    workflow_id: Seq<char>,
    outcomes: Seq<AppendOutcome>,
) -> Option<Result<Seq<char>, ErrorView>> {
    match checked(normalized, payload) {
        Err(e) => Some(Err(e)),
        Ok(source_id) => match submit_action_of(
            submit_run(planned(workflow_id, source_id), outcomes),
        ) {
            SubmitActionView::Append(_) => None,
            SubmitActionView::Accept(id) => Some(Ok(id)),
            SubmitActionView::Reject(e) => Some(Err(e)),
        },
    }
}

/// An entry as the log holds it once an append went through: the fields as
/// bytes, in the order written, under the id that the store gave.
pub open spec fn stored(a: AppendView, id: Seq<u8>) -> Entry {
    Entry {
        id,
        fields: a.fields.map_values(|f: (Seq<char>, Seq<char>)| (encode_utf8(f.0), encode_utf8(f.1))),
    }
}

proof fn lemma_run_of_planned(
    workflow_id: Seq<char>,
    source_id: Seq<char>,
    outcomes: Seq<AppendOutcome>,
)
    ensures
        ({
            let m = planned(workflow_id, source_id);
            let end = submit_run(m, outcomes);
            let both = seq![
                request_entry(workflow_id, source_id),
                submitted_entry(workflow_id, source_id),
            ];
            &&& end.workflow_id == workflow_id
            &&& end.request == m.request
            &&& end.event == m.event
            &&& end.stage == SubmitStage::Request ==> appended(m, outcomes) == both.take(0)
            &&& end.stage == SubmitStage::Event ==> appended(m, outcomes) == both.take(1)
            &&& end.stage == SubmitStage::Done ==> appended(m, outcomes) == both
            &&& end.stage == SubmitStage::Failed ==> appended(m, outcomes).len() < 2
                && appended(m, outcomes).is_prefix_of(both)
        }),
    decreases outcomes.len(),
{
    let m = planned(workflow_id, source_id);
    let both = seq![request_entry(workflow_id, source_id), submitted_entry(workflow_id, source_id)];
    if outcomes.len() == 0 {
        assert(appended(m, outcomes) =~= both.take(0));
    } else {
        let before = outcomes.drop_last();
        lemma_run_of_planned(workflow_id, source_id, before);
        let mid = submit_run(m, before);
        let step = written(mid, outcomes.last());
        assert(both.take(0) + seq![m.request] =~= both.take(1));
        assert(both.take(1) + seq![m.event] =~= both);
        assert(both.take(2) =~= both);
        assert(forall|s: Seq<AppendView>| s + Seq::<AppendView>::empty() =~= s);
        match mid.stage {
            SubmitStage::Request => {
                assert(both.take(0).is_prefix_of(both));
            },
            SubmitStage::Event => {
                assert(both.take(1).is_prefix_of(both));
            },
            SubmitStage::Done => {
                assert(step =~= Seq::empty());
            },
            SubmitStage::Failed => {
                assert(step =~= Seq::empty());
            },
        }
    }
}

/// A request that is taken leaves at most two entries in the log, the request
/// entry and then the event, and never one of them twice. The client is given
/// a workflow id when both are written and not before, and the id is the one
/// that both entries carry.
pub proof fn lemma_accepted_means_both_written(
    normalized: Seq<char>,
    payload: Result<Seq<char>, Seq<char>>,
    workflow_id: Seq<char>,
    outcomes: Seq<AppendOutcome>,
)
    requires
        checked(normalized, payload) is Ok,
    ensures
        ({
            let source_id = checked(normalized, payload)->Ok_0;
            let both = seq![
                request_entry(workflow_id, source_id),
                submitted_entry(workflow_id, source_id),
            ];
            let wrote = entries_written(normalized, payload, workflow_id, outcomes);
            let told = answer(normalized, payload, workflow_id, outcomes);
            &&& wrote.is_prefix_of(both)
            &&& told is Some && told->0 is Ok <==> wrote == both
            &&& told is Some && told->0 is Ok ==> told->0->Ok_0 == workflow_id
            &&& told is Some && told->0 is Err ==> told->0->Err_0 is Internal
        }),
{
    let source_id = checked(normalized, payload)->Ok_0;
    lemma_run_of_planned(workflow_id, source_id, outcomes);
    let both = seq![request_entry(workflow_id, source_id), submitted_entry(workflow_id, source_id)];
    assert(both.take(0).is_prefix_of(both));
    assert(both.take(1).is_prefix_of(both));
    assert(both.is_prefix_of(both));
    assert(both.take(0).len() == 0);
    assert(both.take(1).len() == 1);
}

proof fn lemma_done_after_two_appends(m: SubmissionModel, outcomes: Seq<AppendOutcome>)
    requires
        m.stage == SubmitStage::Request,
        outcomes.len() >= 2,
        outcomes[0] is Appended,
        outcomes[1] is Appended,
    ensures
        submit_run(m, outcomes).stage == SubmitStage::Done,
    decreases outcomes.len(),
{
    let before = outcomes.drop_last();
    if outcomes.len() == 2 {
        assert(before.drop_last() =~= Seq::<AppendOutcome>::empty());
        assert(before.last() == outcomes[0]);
        reveal_with_fuel(submit_run, 3);
    } else {
        lemma_done_after_two_appends(m, before);
    }
}

/// A valid ingest request goes through when the log store takes both appends:
/// where the task type is in the registry and the payload holds a source id
/// that is not empty, the request is taken; the client is given the workflow
/// id, and exactly two entries are written, the request entry and the event
/// with phase `submitted`.
pub proof fn lemma_valid_ingest_is_recorded(
    normalized: Seq<char>,
    source_id: Seq<char>,
    workflow_id: Seq<char>,
    outcomes: Seq<AppendOutcome>,
)
    requires
        kind_of(normalized) == Some(TaskKind::Ingest),
        source_id.len() > 0,
        outcomes.len() >= 2,
        outcomes[0] is Appended,
        outcomes[1] is Appended,
    ensures
        checked(normalized, Ok(source_id)) == Ok::<Seq<char>, ErrorView>(source_id),
        entries_written(normalized, Ok(source_id), workflow_id, outcomes) == seq![
            request_entry(workflow_id, source_id),
            submitted_entry(workflow_id, source_id),
        ],
        answer(normalized, Ok(source_id), workflow_id, outcomes) == Some(
            Ok::<Seq<char>, ErrorView>(workflow_id),
        ),
{
    let m = planned(workflow_id, source_id);
    lemma_done_after_two_appends(m, outcomes);
    lemma_run_of_planned(workflow_id, source_id, outcomes);
}

/// A request whose task type is not in the registry is refused as an invalid
/// argument, whatever its payload, and leaves nothing in the log.
pub proof fn lemma_unknown_kind_writes_nothing(
    normalized: Seq<char>,
    payload: Result<Seq<char>, Seq<char>>,
    workflow_id: Seq<char>,
    outcomes: Seq<AppendOutcome>,
)
    requires
        kind_of(normalized) is None,
    ensures
        answer(normalized, payload, workflow_id, outcomes) == Some(
            Err::<Seq<char>, ErrorView>(
                ErrorView::InvalidArgument(unknown_kind_message(normalized)),
            ),
        ),
        entries_written(normalized, payload, workflow_id, outcomes) == Seq::<AppendView>::empty(),
{
}

/// Every request that is refused on its own account is refused as an invalid
/// argument and leaves nothing in the log.
pub proof fn lemma_refused_writes_nothing(
    normalized: Seq<char>,
    payload: Result<Seq<char>, Seq<char>>,
    workflow_id: Seq<char>,
    outcomes: Seq<AppendOutcome>,
)
    requires
        checked(normalized, payload) is Err,
    ensures
        checked(normalized, payload)->Err_0 is InvalidArgument,
        answer(normalized, payload, workflow_id, outcomes) == Some(
            Err::<Seq<char>, ErrorView>(checked(normalized, payload)->Err_0),
        ),
        entries_written(normalized, payload, workflow_id, outcomes) == Seq::<AppendView>::empty(),
{
}

proof fn lemma_field_names_differ()
    ensures
        encode_utf8("wf"@) != encode_utf8("phase"@),
        encode_utf8("wf"@) != encode_utf8("note"@),
        encode_utf8("phase"@) != encode_utf8("note"@),
        encode_utf8("wf"@) != encode_utf8("source_id"@),
{
    reveal_strlit("wf");
    reveal_strlit("phase");
    reveal_strlit("note");
    reveal_strlit("source_id");
    encode_utf8_decode_utf8("wf"@);
    encode_utf8_decode_utf8("phase"@);
    encode_utf8_decode_utf8("note"@);
    encode_utf8_decode_utf8("source_id"@);
    assert("wf"@.len() == 2);
    assert("phase"@.len() == 5);
    assert("note"@.len() == 4);
    assert("source_id"@.len() == 9);
}

/// Both entries of a submission carry its workflow id in their field `wf`.
pub proof fn lemma_entries_carry_workflow_id(
    workflow_id: Seq<char>,
    source_id: Seq<char>,
    id: Seq<u8>,
)
    ensures
        lookup(stored(request_entry(workflow_id, source_id), id).fields, encode_utf8("wf"@))
            == Some(encode_utf8(workflow_id)),
        lookup(stored(submitted_entry(workflow_id, source_id), id).fields, encode_utf8("wf"@))
            == Some(encode_utf8(workflow_id)),
{
    lemma_field_names_differ();
    let r = stored(request_entry(workflow_id, source_id), id).fields;
    let e = stored(submitted_entry(workflow_id, source_id), id).fields;
    reveal_with_fuel(lookup, 4);
    assert(r.drop_last() =~= seq![(encode_utf8("wf"@), encode_utf8(workflow_id))]);
    assert(e.drop_last().drop_last() =~= seq![(encode_utf8("wf"@), encode_utf8(workflow_id))]);
}

/// The event that a submission writes comes back to the subscribers of its
/// workflow, with the phase `submitted` and a note that ends in the source id,
/// and to the subscribers of no other workflow.
pub proof fn lemma_submitted_event_reaches_its_workflow(
    workflow_id: Seq<char>,
    source_id: Seq<char>,
    id: Seq<u8>,
    subscribed: Seq<char>,
)
    ensures
        body_of(stored(submitted_entry(workflow_id, source_id), id), subscribed) == if subscribed
            == workflow_id {
            Some(Body { phase: "submitted"@, note: submitted_note(source_id) })
        } else {
            None
        },
{
    lemma_field_names_differ();
    let e = stored(submitted_entry(workflow_id, source_id), id).fields;
    reveal_with_fuel(lookup, 4);
    assert(e.drop_last().drop_last() =~= seq![(encode_utf8("wf"@), encode_utf8(workflow_id))]);
    assert(e.drop_last() =~= seq![
        (encode_utf8("wf"@), encode_utf8(workflow_id)),
        (encode_utf8("phase"@), encode_utf8("submitted"@)),
    ]);
    assert(lookup(e, encode_utf8("note"@)) == Some(encode_utf8(submitted_note(source_id))));
    assert(lookup(e, encode_utf8("phase"@)) == Some(encode_utf8("submitted"@)));
    assert(lookup(e, encode_utf8("wf"@)) == Some(encode_utf8(workflow_id)));
    encode_utf8_decode_utf8("submitted"@);
    encode_utf8_decode_utf8(submitted_note(source_id));
    encode_utf8_valid_utf8("submitted"@);
    encode_utf8_valid_utf8(submitted_note(source_id));
    encode_utf8_decode_utf8(workflow_id);
    encode_utf8_decode_utf8(subscribed);
}

} // verus!
