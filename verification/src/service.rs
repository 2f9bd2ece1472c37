//! The task service: the three operations that clients call.

use vstd::prelude::*;
use vstd::slice::slice_to_vec;
use vstd::string::*;
use vstd::utf8::*;
use crate::submit::{
    checked, fresh_workflow_id, is_hyphenated, lowercase, payload_view, plan_submission, planned,
    ErrorView, IngestPayload, Submission, SubmitError,
};
use crate::tailer::{init, Tailer};
use crate::wire::origin;

verus! {

/// How many events the delivery channel of one subscription holds at most.
pub const CHANNEL_CAPACITY: usize = 32;

/// The task service.
#[derive(Clone, Copy, Debug)]
pub struct TaskSvc;

impl Default for TaskSvc {
    fn default() -> (svc: TaskSvc)
        ensures
            svc == TaskSvc,
    {
        TaskSvc
    }
}

/// The answer to a lookup of a task's result.
#[derive(Clone, Debug, PartialEq, Eq)]
pub struct TaskResult {
    pub status: String,
    pub data: Vec<u8>,
    pub error: String,
}

/// The text that a result lookup carries as its data.
pub open spec fn see_events_message(workflow_id: Seq<char>) -> Seq<char> {
    "Results stream via events for workflow_id="@ + workflow_id
}

impl TaskSvc {
    /// Takes a task in. The task type is matched without regard to case;
    /// `payload` is the outcome of decoding the request's payload as an
    /// ingest record, and is looked at only where the task type asks for it.
    /// A request that is taken gets a fresh workflow id and comes back as a
    /// submission to run; one that is not comes back as the error for the
    /// client, and nothing is to be written for it.
    pub fn submit_task(&self, task_type: &str, payload: Result<IngestPayload, String>) -> (r:
        Result<Submission, SubmitError>)
        ensures
            match r {
                Ok(s) => match checked(lowercase(task_type@), payload_view(payload)) {
                    Ok(source_id) => is_hyphenated(s@.workflow_id) && s@ == planned(
                        s@.workflow_id,
                        source_id,
                    ),
                    Err(_) => false,
                },
                Err(e) => checked(lowercase(task_type@), payload_view(payload)) == Err::<
                    Seq<char>,
                    ErrorView,
                >(e@),
            },
    {
        let normalized = task_type.to_lowercase();
        let workflow_id = fresh_workflow_id();
        plan_submission(normalized.as_str(), payload, workflow_id)
    }

    /// Answers a lookup of a task's result: always the same placeholder, which
    /// sends the caller to the event stream of the workflow.
    pub fn get_task_result(&self, workflow_id: &str) -> (r: TaskResult)
        ensures
            r.status@ == "SEE_EVENTS"@,
            r.data@ == encode_utf8(see_events_message(workflow_id@)),
            r.error@ == Seq::<char>::empty(),
    {
        let mut message = String::from_str("Results stream via events for workflow_id=");
        message.append(workflow_id);
        TaskResult {
            status: String::from_str("SEE_EVENTS"),
            data: slice_to_vec(message.as_str().as_bytes()),
            error: String::new(),
        }
    }

    /// Opens a subscription to the events of a workflow: a tailer for it, idle,
    /// that will read the events log from its origin.
    pub fn stream_task_events(&self, workflow_id: String) -> (t: Tailer)
        ensures
            t@ == init(workflow_id@, origin()),
    {
        Tailer::new(workflow_id, None)
    }
}

} // verus!
