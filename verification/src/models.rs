//! The data model: stored requests, webhook configurations, and what clients are
//! told. Each type has a view that contracts speak of.

use vstd::prelude::*;

verus! {

/// Mathematical value of a [`StoredRequest`]: every field as a sequence of characters.
pub struct StoredRequestView {
    pub id: Seq<char>,
    pub webhook_id: Seq<char>,
    pub method: Seq<char>,
    pub headers: Seq<char>,
    pub body: Seq<char>,
    pub query: Seq<char>,
    pub created_at: Seq<char>,
}

/// One captured HTTP request. It is never changed after it was built.
#[derive(Debug)]
pub struct StoredRequest {
    pub id: String,
    pub webhook_id: String,
    pub method: String,
    pub headers: String,
    pub body: String,
    pub query: String,
    pub created_at: String,
}

impl View for StoredRequest {
    type V = StoredRequestView;

    open spec fn view(&self) -> StoredRequestView {
        StoredRequestView {
            id: self.id@,
            webhook_id: self.webhook_id@,
            method: self.method@,
            headers: self.headers@,
            body: self.body@,
            query: self.query@,
            created_at: self.created_at@,
        }
    }
}

impl Clone for StoredRequest {
    fn clone(&self) -> (copy: Self)
        ensures
            copy@ == self@,
    {
        StoredRequest {
            id: self.id.clone(),
            webhook_id: self.webhook_id.clone(),
            method: self.method.clone(),
            headers: self.headers.clone(),
            body: self.body.clone(),
            query: self.query.clone(),
            created_at: self.created_at.clone(),
        }
    }
}

/// The text of an optional string.
pub open spec fn text_of(value: Option<String>) -> Option<Seq<char>> {
    match value {
        Some(text) => Some(text@),
        None => None,
    }
}

/// A copy of an optional string.
pub fn clone_text(value: &Option<String>) -> (copy: Option<String>)
    ensures
        text_of(copy) == text_of(*value),
{
    match value {
        Some(text) => Some(text.clone()),
        None => None,
    }
}

/// Mathematical value of a [`WebhookConfig`].
pub struct WebhookConfigView {
    pub webhook_id: Seq<char>,
    pub status_code: Option<u16>,
    pub response_body: Option<Seq<char>>,
    pub content_type: Option<Seq<char>>,
    pub forward_url: Option<Seq<char>>,
}

/// How one webhook answers the requests it captures, and where it forwards them.
#[derive(Debug)]
pub struct WebhookConfig {
    pub webhook_id: String,
    pub status_code: Option<u16>,
    pub response_body: Option<String>,
    pub content_type: Option<String>,
    pub forward_url: Option<String>,
}

impl View for WebhookConfig {
    type V = WebhookConfigView;

    open spec fn view(&self) -> WebhookConfigView {
        WebhookConfigView {
            webhook_id: self.webhook_id@,
            status_code: self.status_code,
            response_body: text_of(self.response_body),
            content_type: text_of(self.content_type),
            forward_url: text_of(self.forward_url),
        }
    }
}

impl Clone for WebhookConfig {
    fn clone(&self) -> (copy: Self)
        ensures
            copy@ == self@,
    {
        WebhookConfig {
            webhook_id: self.webhook_id.clone(),
            status_code: self.status_code,
            response_body: clone_text(&self.response_body),
            content_type: clone_text(&self.content_type),
            forward_url: clone_text(&self.forward_url),
        }
    }
}

/// The configuration of a webhook that has none stored: answer 200 with the plain
/// text "OK", and forward nowhere.
pub open spec fn default_config() -> WebhookConfigView {
    WebhookConfigView {
        webhook_id: Seq::empty(),
        status_code: Some(200u16),
        response_body: Some("OK"@),
        content_type: Some("text/plain"@),
        forward_url: None,
    }
}

impl WebhookConfig {
    /// The default configuration.
    pub fn new_default() -> (config: Self)
        ensures
            config@ == default_config(),
    {
        WebhookConfig {
            webhook_id: String::new(),
            status_code: Some(200),
            response_body: Some("OK".to_owned()),
            content_type: Some("text/plain".to_owned()),
            forward_url: None,
        }
    }
}

impl Default for WebhookConfig {
    fn default() -> (config: Self)
        ensures
            config@ == default_config(),
    {
        WebhookConfig::new_default()
    }
}

/// A webhook that was just created.
#[derive(Debug)]
pub struct NewWebhook {
    pub id: String,
    pub webhook_url: String,
}

impl Clone for NewWebhook {
    fn clone(&self) -> (copy: Self)
        ensures
            copy.id@ == self.id@,
            copy.webhook_url@ == self.webhook_url@,
    {
        NewWebhook { id: self.id.clone(), webhook_url: self.webhook_url.clone() }
    }
}

/// A captured request as it is announced to listeners: the stored record, with its
/// identifier under the name `request_id`.
#[derive(Debug)]
pub struct WebhookEvent {
    pub webhook_id: String,
    pub request_id: String,
    pub method: String,
    pub headers: String,
    pub body: String,
    pub query: String,
    pub created_at: String,
}

impl View for WebhookEvent {
    type V = StoredRequestView;

    /// The record that the event announces.
    open spec fn view(&self) -> StoredRequestView {
        StoredRequestView {
            id: self.request_id@,
            webhook_id: self.webhook_id@,
            method: self.method@,
            headers: self.headers@,
            body: self.body@,
            query: self.query@,
            created_at: self.created_at@,
        }
    }
}

impl Clone for WebhookEvent {
    fn clone(&self) -> (copy: Self)
        ensures
            copy@ == self@,
    {
        WebhookEvent {
            webhook_id: self.webhook_id.clone(),
            request_id: self.request_id.clone(),
            method: self.method.clone(),
            headers: self.headers.clone(),
            body: self.body.clone(),
            query: self.query.clone(),
            created_at: self.created_at.clone(),
        }
    }
}

impl From<StoredRequest> for WebhookEvent {
    /// The event that announces `req`.
    fn from(req: StoredRequest) -> (event: Self)
        ensures
            event@ == req@,
    {
        WebhookEvent {
            webhook_id: req.webhook_id,
            request_id: req.id,
            method: req.method,
            headers: req.headers,
            body: req.body,
            query: req.query,
            created_at: req.created_at,
        }
    }
}

impl vstd::std_specs::convert::FromSpecImpl<StoredRequest> for WebhookEvent {
    open spec fn obeys_from_spec() -> bool {
        true
    }

    open spec fn from_spec(req: StoredRequest) -> Self {
        WebhookEvent {
            webhook_id: req.webhook_id,
            request_id: req.id,
            method: req.method,
            headers: req.headers,
            body: req.body,
            query: req.query,
            created_at: req.created_at,
        }
    }
}

} // verus!
