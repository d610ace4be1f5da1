//! A webhook inspector's core: it captures the HTTP requests sent to a webhook,
//! keeps them, streams them to live viewers and sends them again on demand.
//!
//! The decisions are verified; the waiting is left to the caller. Each pipeline
//! ([`routes::webhook`] for captures, [`replay`] for replays, [`routes::ws`] for a
//! viewer's session) is a step function from a state and an event to the next state
//! and the action to perform, so that a server can run it against a database and a
//! network, and a test against the tables and the registry kept in memory here.
//!
//! What rests on other crates is marked where it stands: the broadcast channels of
//! `tokio` in [`channel`], and in [`utils`] the JSON text of `serde_json`, the header
//! rules of `http`, the identifiers of `uuid` and the clock of `chrono`.

pub mod channel;
pub mod db;
pub mod mapping;
pub mod models;
pub mod replay;
pub mod routes;
pub mod utils;

use crate::db::{
    config_in_effect, newest_first, recent_first, request_views, requests_of, Database, StorageError,
};
use crate::mapping::{binds, put};
use crate::models::{StoredRequest, WebhookConfig};
use crate::routes::ws::LiveRegistry;
use vstd::prelude::*;

verus! {

/// The state that request handlers share: the stored tables and the live registry,
/// owned in one place and handed to whoever needs them.
pub struct AppState {
    pub db: Database,
    pub registry: LiveRegistry,
}

impl AppState {
    /// Well-formedness: both parts are well-formed.
    pub open spec fn wf(&self) -> bool {
        self.db.wf() && self.registry.wf()
    }

    /// A state with empty tables and no channel.
    pub fn new() -> (state: Self)
        ensures
            state.wf(),
            state.db.webhooks().len() == 0,
            state.db.requests().len() == 0,
            state.db.configs().len() == 0,
            state.registry.ids().len() == 0,
    {
        AppState { db: Database::new(), registry: LiveRegistry::new() }
    }

    /// Records the webhook `id` as created now; see [`Database::create_webhook`].
    pub fn create_webhook(&mut self, id: &str) -> (outcome: Result<(), StorageError>)
        requires
            old(self).wf(),
        ensures
            final(self).wf(),
            final(self).registry == old(self).registry,
            final(self).db.requests() == old(self).db.requests(),
            final(self).db.configs() == old(self).db.configs(),
            match outcome {
                Ok(_) => {
                    &&& !binds(old(self).db.webhooks(), id@)
                    &&& final(self).db.webhooks().len() == old(self).db.webhooks().len() + 1
                    &&& final(self).db.webhooks().drop_last() == old(self).db.webhooks()
                    &&& final(self).db.webhooks().last().0 == id@
                },
                Err(error) => error == StorageError::Duplicate && binds(old(self).db.webhooks(), id@)
                    && final(self).db.webhooks() == old(self).db.webhooks(),
            },
    {
        self.db.create_webhook(id)
    }

    /// Stores a captured request; see [`Database::store_request`].
    pub fn store_request(&mut self, req: &StoredRequest) -> (outcome: Result<(), StorageError>)
        requires
            old(self).wf(),
        ensures
            final(self).wf(),
            final(self).registry == old(self).registry,
            final(self).db.webhooks() == old(self).db.webhooks(),
            final(self).db.configs() == old(self).db.configs(),
            match outcome {
                Ok(_) => !binds(old(self).db.requests(), req.id@) && final(self).db.requests() == old(
                    self,
                ).db.requests().push((req.id@, req@)),
                Err(error) => error == StorageError::Duplicate && binds(old(self).db.requests(), req.id@)
                    && final(self).db.requests() == old(self).db.requests(),
            },
    {
        self.db.store_request(req)
    }

    /// Fetches the configuration in effect for `webhook_id`: its row, or the default.
    pub fn get_response_config(&self, webhook_id: &str) -> (outcome: Result<WebhookConfig, StorageError>)
        ensures
            outcome matches Ok(config) && config@ == config_in_effect(self.db.configs(), webhook_id@),
    {
        self.db.get_response_config(webhook_id)
    }

    /// Saves the configuration of a webhook in place of whatever was saved for it.
    pub fn set_response_config(&mut self, config: &WebhookConfig) -> (outcome: Result<(), StorageError>)
        requires
            old(self).wf(),
        ensures
            outcome is Ok,
            final(self).wf(),
            final(self).registry == old(self).registry,
            final(self).db.webhooks() == old(self).db.webhooks(),
            final(self).db.requests() == old(self).db.requests(),
            final(self).db.configs() == put(old(self).db.configs(), config.webhook_id@, config@),
    {
        self.db.set_response_config(config)
    }

    /// Lists the requests captured for `webhook_id`, the newest `created_at` first; of
    /// two with the same `created_at` the one stored later comes first.
    pub fn get_requests(&self, webhook_id: &str) -> (found: Vec<StoredRequest>)
        ensures
            request_views(found@) == recent_first(self.db.requests(), webhook_id@),
            newest_first(request_views(found@)),
            request_views(found@).to_multiset() == requests_of(self.db.requests(), webhook_id@).to_multiset(),
    {
        self.db.get_requests(webhook_id)
    }
}

} // verus!
