//! The capture pipeline, and the creation and configuration of webhooks.

use crate::db::{config_in_effect, lemma_store_then_get, StorageError};
use crate::mapping::{binds, lookup, to_mapping, Pairs};
use crate::models::{default_config, text_of, StoredRequest, StoredRequestView, WebhookConfig, WebhookConfigView};
use crate::routes::ws::{broadcast_to_clients, Published};
use crate::utils::{
    accepts_status_code, body_text, collect_mapping, current_timestamp, decode_body, encode_object,
    forward_request, fresh_identifier, header_map, headers_to_json, json_object_text, outbound_call,
    OutboundCall, OutboundCallView,
};
use crate::AppState;
use vstd::prelude::*;
use vstd::string::*;
use vstd::utf8::{encode_utf8, valid_utf8};

verus! {

/// What a client is told about the webhook it asked for.
#[derive(Debug)]
pub struct NewWebhookResponse {
    pub id: String,
    pub webhook_url: String,
    pub dashboard_url: String,
}

/// The body of a request that sets how a webhook answers.
#[derive(Debug)]
pub struct CustomResponsePayload {
    pub status_code: Option<u16>,
    pub response_body: Option<String>,
    pub forward_url: Option<String>,
}

/// The path on which the webhook `id` captures requests.
pub open spec fn webhook_path(id: Seq<char>) -> Seq<char> {
    "/webhook/"@ + id
}

/// The path on which the requests of the webhook `id` are shown.
pub open spec fn dashboard_path(id: Seq<char>) -> Seq<char> {
    "/dashboard/"@ + id
}

impl NewWebhookResponse {
    /// The answer for a webhook with the identifier `id`.
    pub fn for_webhook(id: String) -> (response: Self)
        ensures
            response.id@ == id@,
            response.webhook_url@ == webhook_path(id@),
            response.dashboard_url@ == dashboard_path(id@),
    {
        let mut webhook_url = "/webhook/".to_owned();
        webhook_url.append(id.as_str());
        let mut dashboard_url = "/dashboard/".to_owned();
        dashboard_url.append(id.as_str());
        NewWebhookResponse { id, webhook_url, dashboard_url }
    }

    /// The answer for a webhook under a freshly drawn identifier. Which identifier
    /// was drawn is not known beforehand; the two paths are those of that identifier.
    pub fn fresh() -> (response: Self)
        ensures
            response.webhook_url@ == webhook_path(response.id@),
            response.dashboard_url@ == dashboard_path(response.id@),
    {
        NewWebhookResponse::for_webhook(fresh_identifier())
    }
}

/// The configuration that a payload asks for, for the webhook `id`. The payload names
/// no content type, so none is set.
pub open spec fn payload_config(id: Seq<char>, payload: CustomResponsePayload) -> WebhookConfigView {
    WebhookConfigView {
        webhook_id: id,
        status_code: payload.status_code,
        response_body: text_of(payload.response_body),
        content_type: None,
        forward_url: text_of(payload.forward_url),
    }
}

impl CustomResponsePayload {
    /// Turns the payload into the configuration of the webhook `id`.
    pub fn into_config(self, id: &str) -> (config: WebhookConfig)
        ensures
            config@ == payload_config(id@, self),
    {
        WebhookConfig {
            webhook_id: id.to_owned(),
            status_code: self.status_code,
            response_body: self.response_body,
            content_type: None,
            forward_url: self.forward_url,
        }
    }
}

/// The record of one capture. Headers and query are kept as the JSON text of their
/// mappings; the body is kept as text.
pub open spec fn captured_record(
    id: Seq<char>,
    created_at: Seq<char>,
    webhook_id: Seq<char>,
    method: Seq<char>,
    headers: Seq<(Seq<char>, Seq<u8>)>,
    query: Pairs,
    body: Seq<u8>,
) -> StoredRequestView {
    StoredRequestView {
        id,
        webhook_id,
        method,
        headers: json_object_text(header_map(headers)),
        body: body_text(body),
        query: json_object_text(to_mapping(query)),
        created_at,
    }
}

/// A body that is UTF-8 is kept exactly: the text of the record, written out as
/// bytes again, is the body that was submitted. Any other body is kept as the empty
/// text.
pub proof fn lemma_body_round_trip(
    id: Seq<char>,
    created_at: Seq<char>,
    webhook_id: Seq<char>,
    method: Seq<char>,
    headers: Seq<(Seq<char>, Seq<u8>)>,
    query: Pairs,
    body: Seq<u8>,
)
    ensures
        valid_utf8(body) ==> encode_utf8(
            captured_record(id, created_at, webhook_id, method, headers, query, body).body,
        ) == body,
        !valid_utf8(body) ==> captured_record(id, created_at, webhook_id, method, headers, query, body).body.len()
            == 0,
{
    if valid_utf8(body) {
        vstd::utf8::decode_utf8_encode_utf8(body);
    }
}

/// Builds the record of a capture from its parts.
pub fn build_record(
    id: String,
    created_at: String,
    webhook_id: &str,
    method: &str,
    headers: &Vec<(String, Vec<u8>)>,
    query: &Vec<(String, String)>,
    body: &Vec<u8>,
) -> (record: StoredRequest)
    ensures
        record@ == captured_record(
            id@,
            created_at@,
            webhook_id@,
            method@,
            headers.deep_view(),
            query.deep_view(),
            body@,
        ),
{
    let query_map = collect_mapping(query);
    StoredRequest {
        id,
        webhook_id: webhook_id.to_owned(),
        method: method.to_owned(),
        headers: headers_to_json(headers),
        body: decode_body(body),
        query: encode_object(&query_map),
        created_at,
    }
}

/// Builds the record of a capture that happens now, under a fresh identifier. The
/// identifier and the time are whatever was drawn and read; everything else is fixed
/// by the arguments.
pub fn new_record(
    webhook_id: &str,
    method: &str,
    headers: &Vec<(String, Vec<u8>)>,
    query: &Vec<(String, String)>,
    body: &Vec<u8>,
) -> (record: StoredRequest)
    ensures
        record@ == captured_record(
            record.id@,
            record.created_at@,
            webhook_id@,
            method@,
            headers.deep_view(),
            query.deep_view(),
            body@,
        ),
{
    let id = fresh_identifier();
    let created_at = current_timestamp();
    build_record(id, created_at, webhook_id, method, headers, query, body)
}

/// The answer to the caller of a webhook, and the copy to send on if the webhook
/// forwards.
#[derive(Debug)]
pub struct CaptureResponse {
    pub status_code: u16,
    pub body: String,
    pub forward: Option<OutboundCall>,
}

/// Mathematical value of a [`CaptureResponse`].
pub struct CaptureResponseView {
    pub status_code: u16,
    pub body: Seq<char>,
    pub forward: Option<OutboundCallView>,
}

impl View for CaptureResponse {
    type V = CaptureResponseView;

    open spec fn view(&self) -> CaptureResponseView {
        CaptureResponseView {
            status_code: self.status_code,
            body: self.body@,
            forward: match self.forward {
                Some(call) => Some(call@),
                None => None,
            },
        }
    }
}

/// The status a configuration answers with: the one it names if that is an HTTP
/// status (100 to 999), else 200.
pub open spec fn response_status(config: WebhookConfigView) -> u16 {
    match config.status_code {
        Some(code) => if 100 <= code <= 999 {
            code
        } else {
            200
        },
        None => 200,
    }
}

/// The body a configuration answers with: the one it names, else "OK".
pub open spec fn response_text(config: WebhookConfigView) -> Seq<char> {
    match config.response_body {
        Some(body) => body,
        None => "OK"@,
    }
}

/// What a capture of `record` ends with under `config`: the configured answer, and a
/// copy of the record for the forward address if one is set.
pub open spec fn response_for(config: WebhookConfigView, record: StoredRequestView) -> CaptureResponseView {
    CaptureResponseView {
        status_code: response_status(config),
        body: response_text(config),
        forward: match config.forward_url {
            Some(url) => Some(outbound_call(url, record)),
            None => None,
        },
    }
}

/// Computes how a capture of `record` ends under `config`.
pub fn respond(config: &WebhookConfig, record: &StoredRequest) -> (response: CaptureResponse)
    ensures
        response@ == response_for(config@, record@),
{
    let status_code = match config.status_code {
        Some(code) => if accepts_status_code(code) {
            code
        } else {
            200
        },
        None => 200,
    };
    let body = match &config.response_body {
        Some(body) => body.clone(),
        None => "OK".to_owned(),
    };
    let forward = match &config.forward_url {
        Some(url) => Some(forward_request(url.as_str(), record)),
        None => None,
    };
    CaptureResponse { status_code, body, forward }
}

/// Where a capture stands between two pieces of outside work.
#[derive(Debug)]
pub enum CaptureState {
    /// The record was handed out to be stored; the outcome is awaited.
    Storing(StoredRequest),
    /// The record was handed out to be published to live viewers.
    Publishing(StoredRequest),
    /// The configuration of the webhook was asked for.
    Configuring(StoredRequest),
    /// The caller was answered.
    Done,
}

/// What the outside reports back to a capture.
#[derive(Debug)]
pub enum CaptureEvent {
    /// The record was stored.
    Stored,
    /// Storing the record failed.
    StoreFailed,
    /// The record was handed to the live registry.
    Published,
    /// The configuration in effect for the webhook.
    ConfigLoaded(WebhookConfig),
    /// The configuration could not be read.
    ConfigUnavailable,
}

/// What a capture asks the outside to do next.
#[derive(Debug)]
pub enum CaptureAction {
    /// Store this record.
    Store(StoredRequest),
    /// Publish this record to the live viewers of its webhook.
    Publish(StoredRequest),
    /// Read the configuration of this webhook.
    LoadConfig(String),
    /// Answer the caller, and send the copy on if there is one.
    Respond(CaptureResponse),
    /// The event did not fit the state; nothing is to be done.
    Ignore,
}

/// Mathematical value of a [`CaptureState`].
pub enum CaptureStateView {
    Storing(StoredRequestView),
    Publishing(StoredRequestView),
    Configuring(StoredRequestView),
    Done,
}

/// Mathematical value of a [`CaptureEvent`].
pub enum CaptureEventView {
    Stored,
    StoreFailed,
    Published,
    ConfigLoaded(WebhookConfigView),
    ConfigUnavailable,
}

/// Mathematical value of a [`CaptureAction`].
pub enum CaptureActionView {
    Store(StoredRequestView),
    Publish(StoredRequestView),
    LoadConfig(Seq<char>),
    Respond(CaptureResponseView),
    Ignore,
}

impl View for CaptureState {
    type V = CaptureStateView;

    open spec fn view(&self) -> CaptureStateView {
        match self {
            CaptureState::Storing(record) => CaptureStateView::Storing(record@),
            CaptureState::Publishing(record) => CaptureStateView::Publishing(record@),
            CaptureState::Configuring(record) => CaptureStateView::Configuring(record@),
            CaptureState::Done => CaptureStateView::Done,
        }
    }
}

impl View for CaptureEvent {
    type V = CaptureEventView;

    open spec fn view(&self) -> CaptureEventView {
        match self {
            CaptureEvent::Stored => CaptureEventView::Stored,
            CaptureEvent::StoreFailed => CaptureEventView::StoreFailed,
            CaptureEvent::Published => CaptureEventView::Published,
            CaptureEvent::ConfigLoaded(config) => CaptureEventView::ConfigLoaded(config@),
            CaptureEvent::ConfigUnavailable => CaptureEventView::ConfigUnavailable,
        }
    }
}

impl View for CaptureAction {
    type V = CaptureActionView;

    open spec fn view(&self) -> CaptureActionView {
        match self {
            CaptureAction::Store(record) => CaptureActionView::Store(record@),
            CaptureAction::Publish(record) => CaptureActionView::Publish(record@),
            CaptureAction::LoadConfig(webhook_id) => CaptureActionView::LoadConfig(webhook_id@),
            CaptureAction::Respond(response) => CaptureActionView::Respond(response@),
            CaptureAction::Ignore => CaptureActionView::Ignore,
        }
    }
}

/// The steps of a capture. The record is stored first; whether or not that worked it
/// is published next; then the configuration is read, and the caller is answered as
/// the configuration says, or as the default says where it could not be read. An
/// event that does not fit the state changes nothing.
pub open spec fn capture_next(state: CaptureStateView, event: CaptureEventView) -> (
    CaptureStateView,
    CaptureActionView,
) {
    match (state, event) {
        (CaptureStateView::Storing(record), CaptureEventView::Stored) => (
            CaptureStateView::Publishing(record),
            CaptureActionView::Publish(record),
        ),
        (CaptureStateView::Storing(record), CaptureEventView::StoreFailed) => (
            CaptureStateView::Publishing(record),
            CaptureActionView::Publish(record),
        ),
        (CaptureStateView::Publishing(record), CaptureEventView::Published) => (
            CaptureStateView::Configuring(record),
            CaptureActionView::LoadConfig(record.webhook_id),
        ),
        (CaptureStateView::Configuring(record), CaptureEventView::ConfigLoaded(config)) => (
            CaptureStateView::Done,
            CaptureActionView::Respond(response_for(config, record)),
        ),
        (CaptureStateView::Configuring(record), CaptureEventView::ConfigUnavailable) => (
            CaptureStateView::Done,
            CaptureActionView::Respond(response_for(default_config(), record)),
        ),
        (state, _) => (state, CaptureActionView::Ignore),
    }
}

/// Starts the capture of `record`: the first thing to do is to store it.
pub fn capture_begin(record: StoredRequest) -> (started: (CaptureState, CaptureAction))
    ensures
        started.0@ == CaptureStateView::Storing(record@),
        started.1@ == CaptureActionView::Store(record@),
{
    let copy = record.clone();
    (CaptureState::Storing(record), CaptureAction::Store(copy))
}

/// Takes a capture one step further: from where it stands and what the outside
/// reported, to where it stands next and what is to be done.
pub fn capture_step(state: CaptureState, event: CaptureEvent) -> (step: (CaptureState, CaptureAction))
    ensures
        (step.0@, step.1@) == capture_next(state@, event@),
{
    match (state, event) {
        (CaptureState::Storing(record), CaptureEvent::Stored) => {
            let copy = record.clone();
            (CaptureState::Publishing(record), CaptureAction::Publish(copy))
        },
        (CaptureState::Storing(record), CaptureEvent::StoreFailed) => {
            let copy = record.clone();
            (CaptureState::Publishing(record), CaptureAction::Publish(copy))
        },
        (CaptureState::Publishing(record), CaptureEvent::Published) => {
            let webhook_id = record.webhook_id.clone();
            (CaptureState::Configuring(record), CaptureAction::LoadConfig(webhook_id))
        },
        (CaptureState::Configuring(record), CaptureEvent::ConfigLoaded(config)) => {
            let response = respond(&config, &record);
            (CaptureState::Done, CaptureAction::Respond(response))
        },
        (CaptureState::Configuring(record), CaptureEvent::ConfigUnavailable) => {
            let config = WebhookConfig::new_default();
            let response = respond(&config, &record);
            (CaptureState::Done, CaptureAction::Respond(response))
        },
        (state, _) => (state, CaptureAction::Ignore),
    }
}

/// Whatever storing the record came to, a capture goes on to publish the record, then
/// reads the configuration, and ends by answering as that configuration says: the
/// answer does not depend on whether the record was stored.
pub proof fn lemma_capture_answers_by_config(record: StoredRequestView, stored: bool, config: WebhookConfigView)
    ensures
        ({
            let outcome = if stored {
                CaptureEventView::Stored
            } else {
                CaptureEventView::StoreFailed
            };
            let first = capture_next(CaptureStateView::Storing(record), outcome);
            let second = capture_next(first.0, CaptureEventView::Published);
            let third = capture_next(second.0, CaptureEventView::ConfigLoaded(config));
            &&& first.1 == CaptureActionView::Publish(record)
            &&& second.1 == CaptureActionView::LoadConfig(record.webhook_id)
            &&& third.1 == CaptureActionView::Respond(response_for(config, record))
            &&& third.0 == CaptureStateView::Done
        }),
{
}

/// A webhook without a stored configuration, or whose configuration cannot be read,
/// answers 200 with the body "OK" and forwards nothing.
pub proof fn lemma_default_answer(record: StoredRequestView)
    ensures
        response_for(default_config(), record) == (CaptureResponseView {
            status_code: 200,
            body: "OK"@,
            forward: None,
        }),
        capture_next(CaptureStateView::Configuring(record), CaptureEventView::ConfigUnavailable).1
            == CaptureActionView::Respond(response_for(default_config(), record)),
{
}

/// Once a capture is done, no event makes it act again.
pub proof fn lemma_capture_done_is_final(event: CaptureEventView)
    ensures
        capture_next(CaptureStateView::Done, event) == (CaptureStateView::Done, CaptureActionView::Ignore),
{
}

/// Everything one capture produced.
#[derive(Debug)]
pub struct CaptureOutcome {
    /// The record that was built.
    pub record: StoredRequest,
    /// Whether the record was stored.
    pub stored: bool,
    /// How publishing the record ended.
    pub published: Published,
    /// The answer to the caller, with the copy to forward if there is one.
    pub response: CaptureResponse,
}

/// Captures one request to the webhook `id` against the given database and registry:
/// builds the record, stores it, publishes it whether or not that worked, reads the
/// configuration, and computes the answer. The copy to forward, where the
/// configuration names an address, is handed back for the caller to send; whether
/// that works does not touch the answer.
pub fn webhook_handler(
    state: &mut AppState,
    id: &str,
    method: &str,
    query: &Vec<(String, String)>,
    headers: &Vec<(String, Vec<u8>)>,
    body: &Vec<u8>,
) -> (outcome: CaptureOutcome)
    requires
        old(state).wf(),
    ensures
        final(state).wf(),
        final(state).registry == old(state).registry,
        final(state).db.webhooks() == old(state).db.webhooks(),
        final(state).db.configs() == old(state).db.configs(),
        outcome.record@ == captured_record(
            outcome.record.id@,
            outcome.record.created_at@,
            id@,
            method@,
            headers.deep_view(),
            query.deep_view(),
            body@,
        ),
        outcome.stored == !binds(old(state).db.requests(), outcome.record.id@),
        final(state).db.requests() == if outcome.stored {
            old(state).db.requests().push((outcome.record.id@, outcome.record@))
        } else {
            old(state).db.requests()
        },
        outcome.stored ==> lookup(final(state).db.requests(), outcome.record.id@) == Some(outcome.record@),
        outcome.published is NoChannel <==> !old(state).registry.has_channel(id@),
        outcome.response@ == response_for(config_in_effect(old(state).db.configs(), id@), outcome.record@),
{
    let record = new_record(id, method, headers, query, body);
    proof {
        if !binds(state.db.requests(), record.id@) {
            lemma_store_then_get(state.db.requests(), record@, record.id@);
        }
    }
    let (phase, action) = capture_begin(record);
    let (record, stored) = match action {
        CaptureAction::Store(record) => {
            let stored = state.db.store_request(&record).is_ok();
            (record, stored)
        },
        _ => vstd::pervasive::unreached(),
    };
    let event = if stored {
        CaptureEvent::Stored
    } else {
        CaptureEvent::StoreFailed
    };
    let (phase, action) = capture_step(phase, event);
    let published = match action {
        CaptureAction::Publish(record) => broadcast_to_clients(&state.registry, record.webhook_id.as_str(), &record),
        _ => vstd::pervasive::unreached(),
    };
    let (phase, action) = capture_step(phase, CaptureEvent::Published);
    let event = match action {
        CaptureAction::LoadConfig(webhook_id) => match state.db.get_response_config(webhook_id.as_str()) {
            Ok(config) => CaptureEvent::ConfigLoaded(config),
            Err(_) => CaptureEvent::ConfigUnavailable,
        },
        _ => vstd::pervasive::unreached(),
    };
    let (_, action) = capture_step(phase, event);
    match action {
        CaptureAction::Respond(response) => CaptureOutcome { record, stored, published, response },
        _ => vstd::pervasive::unreached(),
    }
}

/// The status with which a request to set a configuration is answered: 200 where it
/// was saved, 500 where storage failed.
pub fn saved_status(saved: &Result<(), StorageError>) -> (status: u16)
    ensures
        status == if saved is Ok {
            200u16
        } else {
            500u16
        },
{
    match saved {
        Ok(_) => 200,
        Err(_) => 500,
    }
}

/// Sets how the webhook `id` answers from now on, replacing whatever was set before,
/// and tells the status to answer the request with.
pub fn set_custom_response(state: &mut AppState, id: &str, payload: CustomResponsePayload) -> (status: u16)
    requires
        old(state).wf(),
    ensures
        status == 200,
        final(state).wf(),
        final(state).registry == old(state).registry,
        final(state).db.webhooks() == old(state).db.webhooks(),
        final(state).db.requests() == old(state).db.requests(),
        final(state).db.configs() == crate::mapping::put(old(state).db.configs(), id@, payload_config(id@, payload)),
{
    let config = payload.into_config(id);
    let saved = state.set_response_config(&config);
    saved_status(&saved)
}

/// Creates a webhook under a fresh identifier and tells the client where it lives.
/// The webhook is recorded last, after those that were there, which stay as they
/// were. Should the identifier be taken already, nothing is recorded and the client
/// is answered all the same.
pub fn create_webhook(state: &mut AppState) -> (response: NewWebhookResponse)
    requires
        old(state).wf(),
    ensures
        final(state).wf(),
        final(state).registry == old(state).registry,
        final(state).db.requests() == old(state).db.requests(),
        final(state).db.configs() == old(state).db.configs(),
        response.webhook_url@ == webhook_path(response.id@),
        response.dashboard_url@ == dashboard_path(response.id@),
        binds(final(state).db.webhooks(), response.id@),
        final(state).db.webhooks().len() == if binds(old(state).db.webhooks(), response.id@) {
            old(state).db.webhooks().len()
        } else {
            old(state).db.webhooks().len() + 1
        },
        binds(old(state).db.webhooks(), response.id@) ==> final(state).db.webhooks() == old(state).db.webhooks(),
        !binds(old(state).db.webhooks(), response.id@) ==> {
            &&& final(state).db.webhooks().drop_last() == old(state).db.webhooks()
            &&& final(state).db.webhooks().last().0 == response.id@
        },
{
    let response = NewWebhookResponse::fresh();
    let created = state.create_webhook(response.id.as_str());
    proof {
        if created is Ok {
            let rows = state.db.webhooks();
            assert(rows[rows.len() - 1].0 == response.id@);
        }
    }
    response
}

} // verus!
