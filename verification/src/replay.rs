//! The replay engine: sends a stored request again to a target of the caller's
//! choice and reports how that went.

use crate::mapping::lookup;
use crate::models::{StoredRequest, StoredRequestView};
use crate::utils::{forward_request, outbound_call, OutboundCall, OutboundCallView};
use crate::AppState;
use vstd::prelude::*;

verus! {

/// Why a replay did not go through.
#[derive(Debug)]
pub enum ReplayError {
    /// No target address was given.
    InvalidInput,
    /// No request is stored under the identifier.
    NotFound,
    /// The outbound call failed; the cause is carried along.
    Forwarding(String),
}

/// Mathematical value of a [`ReplayError`].
pub enum ReplayErrorView {
    InvalidInput,
    NotFound,
    Forwarding(Seq<char>),
}

impl View for ReplayError {
    type V = ReplayErrorView;

    open spec fn view(&self) -> ReplayErrorView {
        match self {
            ReplayError::InvalidInput => ReplayErrorView::InvalidInput,
            ReplayError::NotFound => ReplayErrorView::NotFound,
            ReplayError::Forwarding(cause) => ReplayErrorView::Forwarding(cause@),
        }
    }
}

/// The text that tells a caller about the error.
pub open spec fn error_text(error: ReplayErrorView) -> Seq<char> {
    match error {
        ReplayErrorView::InvalidInput => "Missing target URL"@,
        ReplayErrorView::NotFound => "Request not found"@,
        ReplayErrorView::Forwarding(cause) => cause,
    }
}

impl ReplayError {
    /// The text that tells a caller about the error.
    pub fn message(&self) -> (text: String)
        ensures
            text@ == error_text(self@),
    {
        match self {
            ReplayError::InvalidInput => "Missing target URL".to_owned(),
            ReplayError::NotFound => "Request not found".to_owned(),
            ReplayError::Forwarding(cause) => cause.clone(),
        }
    }
}

/// How a replay ended: the status the target answered with, or why there is none.
pub type ReplayResult = Result<u16, ReplayError>;

/// Mathematical value of a [`ReplayResult`].
pub open spec fn result_view(result: ReplayResult) -> Result<u16, ReplayErrorView> {
    match result {
        Ok(status) => Ok(status),
        Err(error) => Err(error@),
    }
}

/// Where a replay stands between two pieces of outside work.
#[derive(Debug)]
pub enum ReplayState {
    /// The stored request was asked for; it is to be sent to this target.
    Fetching(String),
    /// The outbound call was handed out; its outcome is awaited.
    Sending,
    /// The replay has ended.
    Done,
}

/// What the outside reports back to a replay.
#[derive(Debug)]
pub enum ReplayEvent {
    /// The stored request.
    Found(StoredRequest),
    /// No request is stored under the identifier.
    Missing,
    /// The target answered with this status.
    Delivered(u16),
    /// The call did not get through, for this reason.
    Failed(String),
}

/// What a replay asks the outside to do next.
#[derive(Debug)]
pub enum ReplayAction {
    /// Fetch the request stored under this identifier.
    Fetch(String),
    /// Make this call.
    Send(OutboundCall),
    /// Report this result.
    Finish(ReplayResult),
    /// The event did not fit the state; nothing is to be done.
    Ignore,
}

/// Mathematical value of a [`ReplayState`].
pub enum ReplayStateView {
    Fetching(Seq<char>),
    Sending,
    Done,
}

/// Mathematical value of a [`ReplayEvent`].
pub enum ReplayEventView {
    Found(StoredRequestView),
    Missing,
    Delivered(u16),
    Failed(Seq<char>),
}

/// Mathematical value of a [`ReplayAction`].
pub enum ReplayActionView {
    Fetch(Seq<char>),
    Send(OutboundCallView),
    Finish(Result<u16, ReplayErrorView>),
    Ignore,
}

impl View for ReplayState {
    type V = ReplayStateView;

    open spec fn view(&self) -> ReplayStateView {
        match self {
            ReplayState::Fetching(target) => ReplayStateView::Fetching(target@),
            ReplayState::Sending => ReplayStateView::Sending,
            ReplayState::Done => ReplayStateView::Done,
        }
    }
}

impl View for ReplayEvent {
    type V = ReplayEventView;

    open spec fn view(&self) -> ReplayEventView {
        match self {
            ReplayEvent::Found(request) => ReplayEventView::Found(request@),
            ReplayEvent::Missing => ReplayEventView::Missing,
            ReplayEvent::Delivered(status) => ReplayEventView::Delivered(*status),
            ReplayEvent::Failed(cause) => ReplayEventView::Failed(cause@),
        }
    }
}

impl View for ReplayAction {
    type V = ReplayActionView;

    open spec fn view(&self) -> ReplayActionView {
        match self {
            ReplayAction::Fetch(request_id) => ReplayActionView::Fetch(request_id@),
            ReplayAction::Send(call) => ReplayActionView::Send(call@),
            ReplayAction::Finish(result) => ReplayActionView::Finish(result_view(*result)),
            ReplayAction::Ignore => ReplayActionView::Ignore,
        }
    }
}

/// How a replay starts: without a target it ends at once as invalid input; with one,
/// the stored request is fetched first.
pub open spec fn replay_start(request_id: Seq<char>, target_url: Seq<char>) -> (ReplayStateView, ReplayActionView) {
    if target_url.len() == 0 {
        (ReplayStateView::Done, ReplayActionView::Finish(Err(ReplayErrorView::InvalidInput)))
    } else {
        (ReplayStateView::Fetching(target_url), ReplayActionView::Fetch(request_id))
    }
}

/// The steps of a replay after its start. A request that is not stored ends it as
/// not found; one that is stored is sent to the target as a POST of its body with the
/// stored headers that can go out; the answer's status, or the cause of the failure,
/// is the result. Nothing is tried twice. An event that does not fit the state
/// changes nothing.
pub open spec fn replay_next(state: ReplayStateView, event: ReplayEventView) -> (ReplayStateView, ReplayActionView) {
    match (state, event) {
        (ReplayStateView::Fetching(target), ReplayEventView::Found(request)) => (
            ReplayStateView::Sending,
            ReplayActionView::Send(outbound_call(target, request)),
        ),
        (ReplayStateView::Fetching(_), ReplayEventView::Missing) => (
            ReplayStateView::Done,
            ReplayActionView::Finish(Err(ReplayErrorView::NotFound)),
        ),
        (ReplayStateView::Sending, ReplayEventView::Delivered(status)) => (
            ReplayStateView::Done,
            ReplayActionView::Finish(Ok(status)),
        ),
        (ReplayStateView::Sending, ReplayEventView::Failed(cause)) => (
            ReplayStateView::Done,
            ReplayActionView::Finish(Err(ReplayErrorView::Forwarding(cause))),
        ),
        (state, _) => (state, ReplayActionView::Ignore),
    }
}

/// Starts the replay of the request `request_id` against `target_url`.
pub fn replay_begin(request_id: &str, target_url: &str) -> (started: (ReplayState, ReplayAction))
    ensures
        (started.0@, started.1@) == replay_start(request_id@, target_url@),
{
    if target_url.is_empty() {
        (ReplayState::Done, ReplayAction::Finish(Err(ReplayError::InvalidInput)))
    } else {
        (ReplayState::Fetching(target_url.to_owned()), ReplayAction::Fetch(request_id.to_owned()))
    }
}

/// Takes a replay one step further: from where it stands and what the outside
/// reported, to where it stands next and what is to be done.
pub fn replay_step(state: ReplayState, event: ReplayEvent) -> (step: (ReplayState, ReplayAction))
    ensures
        (step.0@, step.1@) == replay_next(state@, event@),
{
    match (state, event) {
        (ReplayState::Fetching(target), ReplayEvent::Found(request)) => {
            let call = forward_request(target.as_str(), &request);
            (ReplayState::Sending, ReplayAction::Send(call))
        },
        (ReplayState::Fetching(_), ReplayEvent::Missing) => (
            ReplayState::Done,
            ReplayAction::Finish(Err(ReplayError::NotFound)),
        ),
        (ReplayState::Sending, ReplayEvent::Delivered(status)) => (
            ReplayState::Done,
            ReplayAction::Finish(Ok(status)),
        ),
        (ReplayState::Sending, ReplayEvent::Failed(cause)) => (
            ReplayState::Done,
            ReplayAction::Finish(Err(ReplayError::Forwarding(cause))),
        ),
        (state, _) => (state, ReplayAction::Ignore),
    }
}

/// Whether the action asks for an outbound call.
pub open spec fn is_send(action: ReplayActionView) -> bool {
    action is Send
}

/// A replay that started with a target and found its request asks for exactly one
/// outbound call, that of the stored request to the target, and ends with what the
/// call came to; after that no event makes it act again.
pub proof fn lemma_replay_sends_once(
    request_id: Seq<char>,
    target_url: Seq<char>,
    request: StoredRequestView,
    sent: ReplayEventView,
    later: ReplayEventView,
)
    requires
        target_url.len() != 0,
        sent is Delivered || sent is Failed,
    ensures
        ({
            let start = replay_start(request_id, target_url);
            let found = replay_next(start.0, ReplayEventView::Found(request));
            let ended = replay_next(found.0, sent);
            let after = replay_next(ended.0, later);
            &&& start.1 == ReplayActionView::Fetch(request_id)
            &&& found.1 == ReplayActionView::Send(outbound_call(target_url, request))
            &&& ended.1 == ReplayActionView::Finish(
                match sent {
                    ReplayEventView::Delivered(status) => Ok(status),
                    ReplayEventView::Failed(cause) => Err(ReplayErrorView::Forwarding(cause)),
                    _ => Err(ReplayErrorView::InvalidInput),
                },
            )
            &&& ended.0 == ReplayStateView::Done
            &&& after == (ReplayStateView::Done, ReplayActionView::Ignore)
            &&& !is_send(start.1) && !is_send(ended.1) && !is_send(after.1)
        }),
{
}

/// A replay without a target, or of a request that is not stored, never asks for an
/// outbound call.
pub proof fn lemma_replay_refusals_send_nothing(request_id: Seq<char>, target_url: Seq<char>, later: ReplayEventView)
    ensures
        target_url.len() == 0 ==> {
            let start = replay_start(request_id, target_url);
            &&& start.1 == ReplayActionView::Finish(Err(ReplayErrorView::InvalidInput))
            &&& !is_send(replay_next(start.0, later).1)
        },
        target_url.len() != 0 ==> {
            let start = replay_start(request_id, target_url);
            let missing = replay_next(start.0, ReplayEventView::Missing);
            &&& missing.1 == ReplayActionView::Finish(Err(ReplayErrorView::NotFound))
            &&& !is_send(replay_next(missing.0, later).1)
        },
{
}

/// The capability to make an outbound call. It answers with the status the target
/// returned, or with the cause where the call did not get through. Whoever holds the
/// capability can tell from [`Forwarder::asked`] which calls were handed to it.
pub trait Forwarder {
    /// The calls this forwarder was asked to make so far, the oldest first.
    spec fn asked(&self) -> Seq<OutboundCallView>;

    /// Makes the call. Whatever the answer, the call counts as asked.
    fn forward(&mut self, call: &OutboundCall) -> (answer: Result<u16, String>)
        ensures
            final(self).asked() == old(self).asked().push(call@),
    ;
}

/// The calls that a replay hands to the forwarder: the one call that sends the stored
/// request to the target, where there is a target and the request is stored, and none
/// otherwise.
pub open spec fn replay_calls(target_url: Seq<char>, found: Option<StoredRequestView>) -> Seq<OutboundCallView> {
    match found {
        Some(request) => if target_url.len() != 0 {
            seq![outbound_call(target_url, request)]
        } else {
            Seq::empty()
        },
        None => Seq::empty(),
    }
}

/// Replays the request stored under `req_id` against `target_url`, through the given
/// forwarder. Without a target or without the request the forwarder is not asked.
/// Otherwise it is asked exactly once, for the call that `outbound_call` describes,
/// and what it answers decides between success and a forwarding error; a failed call
/// is not tried again.
pub fn replay_request<F: Forwarder>(state: &AppState, forwarder: &mut F, req_id: &str, target_url: &str) -> (result: ReplayResult)
    ensures
        target_url@.len() == 0 ==> result_view(result) == Err::<u16, ReplayErrorView>(ReplayErrorView::InvalidInput),
        target_url@.len() != 0 && lookup(state.db.requests(), req_id@) is None ==> result_view(result) == Err::<
            u16,
            ReplayErrorView,
        >(ReplayErrorView::NotFound),
        target_url@.len() != 0 && lookup(state.db.requests(), req_id@) is Some ==> (result is Ok
            || result_view(result) matches Err(ReplayErrorView::Forwarding(_))),
        final(forwarder).asked() == old(forwarder).asked() + replay_calls(
            target_url@,
            lookup(state.db.requests(), req_id@),
        ),
{
    let (phase, action) = replay_begin(req_id, target_url);
    let (phase, action) = match action {
        ReplayAction::Fetch(request_id) => {
            let event = match state.db.get_request(request_id.as_str()) {
                Ok(request) => ReplayEvent::Found(request),
                Err(_) => ReplayEvent::Missing,
            };
            replay_step(phase, event)
        },
        other => (phase, other),
    };
    let (_, action) = match action {
        ReplayAction::Send(call) => {
            let event = match forwarder.forward(&call) {
                Ok(status) => ReplayEvent::Delivered(status),
                Err(cause) => ReplayEvent::Failed(cause),
            };
            proof {
                assert(old(forwarder).asked().push(call@) =~= old(forwarder).asked() + seq![call@]);
            }
            replay_step(phase, event)
        },
        other => {
            proof {
                assert(old(forwarder).asked() + Seq::<OutboundCallView>::empty() =~= old(forwarder).asked());
            }
            (phase, other)
        },
    };
    match action {
        ReplayAction::Finish(result) => result,
        _ => vstd::pervasive::unreached(),
    }
}

/// A forwarder that makes no call: it keeps every call it is asked for and gives the
/// answer it was made with. It stands in for the network where a replay is tried out.
pub struct RecordingForwarder {
    calls: Vec<OutboundCall>,
    answer: Result<u16, String>,
}

impl RecordingForwarder {
    /// The answer this forwarder gives to every call.
    pub closed spec fn answer(&self) -> Result<u16, Seq<char>> {
        match self.answer {
            Ok(status) => Ok(status),
            Err(cause) => Err(cause@),
        }
    }

    /// A forwarder that was asked nothing yet and will answer `answer` every time.
    pub fn answering(answer: Result<u16, String>) -> (forwarder: Self)
        ensures
            forwarder.asked() == Seq::<OutboundCallView>::empty(),
            forwarder.answer() == match answer {
                Ok(status) => Ok::<u16, Seq<char>>(status),
                Err(cause) => Err::<u16, Seq<char>>(cause@),
            },
    {
        let forwarder = RecordingForwarder { calls: Vec::new(), answer };
        assert(forwarder.asked() =~= Seq::<OutboundCallView>::empty());
        forwarder
    }

    /// The calls kept so far, the oldest first.
    pub fn calls(&self) -> (calls: &Vec<OutboundCall>)
        ensures
            calls@.len() == self.asked().len(),
            forall|i: int| 0 <= i < calls@.len() ==> (#[trigger] calls@[i])@ == self.asked()[i],
    {
        &self.calls
    }
}

impl Forwarder for RecordingForwarder {
    closed spec fn asked(&self) -> Seq<OutboundCallView> {
        Seq::new(self.calls@.len(), |i: int| self.calls@[i]@)
    }

    fn forward(&mut self, call: &OutboundCall) -> (answer: Result<u16, String>)
        ensures
            final(self).answer() == old(self).answer(),
            match answer {
                Ok(status) => old(self).answer() == Ok::<u16, Seq<char>>(status),
                Err(cause) => old(self).answer() == Err::<u16, Seq<char>>(cause@),
            },
    {
        let ghost before = self.asked();
        self.calls.push(call.clone());
        assert(self.asked() =~= before.push(call@));
        match &self.answer {
            Ok(status) => Ok(*status),
            Err(cause) => Err(cause.clone()),
        }
    }
}

} // verus!
