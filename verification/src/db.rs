//! Storage kept in memory: the tables of webhooks, captured requests and
//! configurations, with the operations a capture and a replay need.

use crate::mapping::{
    binds, distinct_names, lemma_lookup_binds, lemma_lookup_finds, lemma_put_appends, lemma_put_binds,
    lemma_put_distinct, lemma_put_idempotent, lemma_put_lookup, lemma_put_overwrites, lemma_put_replaces, lookup,
    put, Pairs, Rows,
};
use crate::models::{default_config, StoredRequest, StoredRequestView, WebhookConfig, WebhookConfigView};
use crate::utils::current_timestamp;
use vstd::prelude::*;
use vstd::utf8::encode_utf8;

verus! {

/// Why a storage operation failed.
#[derive(Clone, Copy, Debug, PartialEq, Eq, Structural)]
pub enum StorageError {
    /// A row with the same primary key is already stored.
    Duplicate,
    /// No row has the key that was asked for.
    NotFound,
    /// The store itself failed. The tables kept in memory never do; a store on disk or
    /// across a network reports its failures under this name.
    Unavailable,
}

/// A capture endpoint: its identifier and when it was created.
#[derive(Debug)]
pub struct Webhook {
    pub id: String,
    pub created_at: String,
}

/// The stored state: three tables, each keyed by an identifier that occurs at most
/// once. Rows keep the order in which they were first written.
pub struct Database {
    webhooks: Vec<Webhook>,
    requests: Vec<StoredRequest>,
    configs: Vec<WebhookConfig>,
}

/// The order of two byte strings: byte by byte, a prefix before what it is a prefix of.
pub open spec fn bytes_le(a: Seq<u8>, b: Seq<u8>) -> bool
    decreases a.len(),
{
    if a.len() == 0 {
        true
    } else if b.len() == 0 {
        false
    } else if a[0] != b[0] {
        a[0] < b[0]
    } else {
        bytes_le(a.drop_first(), b.drop_first())
    }
}

/// The order of two texts, as a store compares them: by the bytes of their UTF-8 form.
/// Timestamps written alike, as those of captures are, stand in the order of time.
pub open spec fn text_le(a: Seq<char>, b: Seq<char>) -> bool {
    bytes_le(encode_utf8(a), encode_utf8(b))
}

/// Whether the list runs from the newest to the oldest `created_at`.
pub open spec fn newest_first(listed: Seq<StoredRequestView>) -> bool {
    forall|i: int, j: int|
        0 <= i < j < listed.len() ==> text_le((#[trigger] listed[j]).created_at, (#[trigger] listed[i]).created_at)
}

/// Where `request` goes in a list that runs from newest to oldest: before the first
/// entry that is not newer than it.
pub open spec fn recency_position(listed: Seq<StoredRequestView>, request: StoredRequestView) -> int
    decreases listed.len(),
{
    if listed.len() == 0 {
        0
    } else if text_le(listed[0].created_at, request.created_at) {
        0
    } else {
        1 + recency_position(listed.drop_first(), request)
    }
}

/// The list with `request` put in at its place by recency.
pub open spec fn insert_recent(listed: Seq<StoredRequestView>, request: StoredRequestView) -> Seq<
    StoredRequestView,
> {
    listed.insert(recency_position(listed, request), request)
}

/// The requests captured for `webhook_id`, in the order in which they were stored.
pub open spec fn requests_of(rows: Rows<StoredRequestView>, webhook_id: Seq<char>) -> Seq<StoredRequestView>
    decreases rows.len(),
{
    if rows.len() == 0 {
        Seq::empty()
    } else {
        let earlier = requests_of(rows.drop_last(), webhook_id);
        if rows.last().1.webhook_id == webhook_id {
            earlier.push(rows.last().1)
        } else {
            earlier
        }
    }
}

/// The requests captured for `webhook_id`, the newest `created_at` first. Of two with
/// the same `created_at` the one stored later comes first.
pub open spec fn recent_first(rows: Rows<StoredRequestView>, webhook_id: Seq<char>) -> Seq<StoredRequestView>
    decreases rows.len(),
{
    if rows.len() == 0 {
        Seq::empty()
    } else {
        let earlier = recent_first(rows.drop_last(), webhook_id);
        if rows.last().1.webhook_id == webhook_id {
            insert_recent(earlier, rows.last().1)
        } else {
            earlier
        }
    }
}

/// Of any two byte strings one is at most the other.
pub proof fn lemma_bytes_le_total(a: Seq<u8>, b: Seq<u8>)
    ensures
        bytes_le(a, b) || bytes_le(b, a),
    decreases a.len(),
{
    if a.len() > 0 && b.len() > 0 && a[0] == b[0] {
        lemma_bytes_le_total(a.drop_first(), b.drop_first());
    }
}

/// The order of byte strings is transitive.
pub proof fn lemma_bytes_le_transitive(a: Seq<u8>, b: Seq<u8>, c: Seq<u8>)
    requires
        bytes_le(a, b),
        bytes_le(b, c),
    ensures
        bytes_le(a, c),
    decreases a.len(),
{
    if a.len() > 0 && b.len() > 0 && c.len() > 0 && a[0] == b[0] && b[0] == c[0] {
        lemma_bytes_le_transitive(a.drop_first(), b.drop_first(), c.drop_first());
    }
}

/// What `recency_position` finds: every entry before it is newer than the request,
/// and the entry at it, if there is one, is not.
pub proof fn lemma_recency_position(listed: Seq<StoredRequestView>, request: StoredRequestView)
    ensures
        0 <= recency_position(listed, request) <= listed.len(),
        forall|k: int|
            0 <= k < recency_position(listed, request) ==> !text_le(
                (#[trigger] listed[k]).created_at,
                request.created_at,
            ),
        recency_position(listed, request) < listed.len() ==> text_le(
            listed[recency_position(listed, request)].created_at,
            request.created_at,
        ),
    decreases listed.len(),
{
    if listed.len() > 0 && !text_le(listed[0].created_at, request.created_at) {
        let rest = listed.drop_first();
        lemma_recency_position(rest, request);
        let p = recency_position(rest, request);
        assert forall|k: int| 0 <= k < 1 + p implies !text_le(
            (#[trigger] listed[k]).created_at,
            request.created_at,
        ) by {
            if k > 0 {
                assert(rest[k - 1] == listed[k]);
            }
        }
        if p < rest.len() {
            assert(rest[p] == listed[p + 1]);
        }
    }
}

/// The place that an entry-by-entry search finds is the one `recency_position` names.
pub proof fn lemma_recency_position_is(listed: Seq<StoredRequestView>, request: StoredRequestView, at: int)
    requires
        0 <= at <= listed.len(),
        forall|k: int| 0 <= k < at ==> !text_le((#[trigger] listed[k]).created_at, request.created_at),
        at < listed.len() ==> text_le(listed[at].created_at, request.created_at),
    ensures
        recency_position(listed, request) == at,
    decreases listed.len(),
{
    if listed.len() > 0 {
        if at == 0 {
        } else {
            let rest = listed.drop_first();
            assert(!text_le(listed[0].created_at, request.created_at));
            assert forall|k: int| 0 <= k < at - 1 implies !text_le(
                (#[trigger] rest[k]).created_at,
                request.created_at,
            ) by {
                assert(rest[k] == listed[k + 1]);
            }
            if at - 1 < rest.len() {
                assert(rest[at - 1] == listed[at]);
            }
            lemma_recency_position_is(rest, request, at - 1);
        }
    }
}

/// Putting a request in by recency keeps the list running from newest to oldest, and
/// adds that request and nothing else.
pub proof fn lemma_insert_recent(listed: Seq<StoredRequestView>, request: StoredRequestView)
    requires
        newest_first(listed),
    ensures
        newest_first(insert_recent(listed, request)),
        insert_recent(listed, request).to_multiset() == listed.to_multiset().insert(request),
{
    lemma_recency_position(listed, request);
    let p = recency_position(listed, request);
    let after = insert_recent(listed, request);
    vstd::seq_lib::to_multiset_insert(listed, p, request);
    assert forall|i: int, j: int| 0 <= i < j < after.len() implies text_le(
        (#[trigger] after[j]).created_at,
        (#[trigger] after[i]).created_at,
    ) by {
        if j < p {
            assert(after[i] == listed[i] && after[j] == listed[j]);
        } else if j == p {
            assert(after[i] == listed[i]);
            assert(!text_le(listed[i].created_at, request.created_at));
            lemma_bytes_le_total(encode_utf8(listed[i].created_at), encode_utf8(request.created_at));
        } else if i < p {
            assert(after[i] == listed[i] && after[j] == listed[j - 1]);
        } else if i == p {
            assert(after[j] == listed[j - 1]);
            if j - 1 > p {
                assert(text_le(listed[j - 1].created_at, listed[p].created_at));
                lemma_bytes_le_transitive(
                    encode_utf8(listed[j - 1].created_at),
                    encode_utf8(listed[p].created_at),
                    encode_utf8(request.created_at),
                );
            }
        } else {
            assert(after[i] == listed[i - 1] && after[j] == listed[j - 1]);
        }
    }
}

/// The listing of a webhook's requests holds exactly the requests captured for it,
/// each as often as it is stored, and runs from the newest `created_at` to the oldest.
pub proof fn lemma_recent_first(rows: Rows<StoredRequestView>, webhook_id: Seq<char>)
    ensures
        newest_first(recent_first(rows, webhook_id)),
        recent_first(rows, webhook_id).to_multiset() == requests_of(rows, webhook_id).to_multiset(),
        recent_first(rows, webhook_id).len() == requests_of(rows, webhook_id).len(),
        forall|i: int|
            0 <= i < requests_of(rows, webhook_id).len() ==> (#[trigger] requests_of(
                rows,
                webhook_id,
            )[i]).webhook_id == webhook_id,
    decreases rows.len(),
{
    if rows.len() > 0 {
        lemma_recent_first(rows.drop_last(), webhook_id);
        if rows.last().1.webhook_id == webhook_id {
            let earlier = recent_first(rows.drop_last(), webhook_id);
            lemma_insert_recent(earlier, rows.last().1);
            lemma_recency_position(earlier, rows.last().1);
            vstd::seq_lib::to_multiset_build(requests_of(rows.drop_last(), webhook_id), rows.last().1);
        }
    }
}

/// The configuration in effect for `webhook_id`: its row, or the default without one.
pub open spec fn config_in_effect(rows: Rows<WebhookConfigView>, webhook_id: Seq<char>) -> WebhookConfigView {
    match lookup(rows, webhook_id) {
        Some(config) => config,
        None => default_config(),
    }
}

/// The values of a list of stored requests.
pub open spec fn request_views(requests: Seq<StoredRequest>) -> Seq<StoredRequestView> {
    Seq::new(requests.len(), |i: int| requests[i]@)
}

/// Compares two texts as a store does, by the bytes of their UTF-8 form.
pub fn text_at_most(a: &str, b: &str) -> (le: bool)
    ensures
        le == text_le(a@, b@),
{
    let x = a.as_bytes();
    let y = b.as_bytes();
    let mut i: usize = 0;
    assert(x@.skip(0) =~= x@ && y@.skip(0) =~= y@);
    while i < x.len() && i < y.len()
        invariant
            i <= x.len(),
            i <= y.len(),
            x@ == encode_utf8(a@),
            y@ == encode_utf8(b@),
            bytes_le(x@, y@) == bytes_le(x@.skip(i as int), y@.skip(i as int)),
        decreases x.len() - i,
    {
        proof {
            assert(x@.skip(i as int)[0] == x@[i as int]);
            assert(y@.skip(i as int)[0] == y@[i as int]);
            assert(x@.skip(i as int).drop_first() =~= x@.skip(i as int + 1));
            assert(y@.skip(i as int).drop_first() =~= y@.skip(i as int + 1));
        }
        if x[i] != y[i] {
            return x[i] < y[i];
        }
        i += 1;
    }
    i == x.len()
}

/// Finds where `request` goes in a list that runs from newest to oldest.
pub fn place_by_recency(listed: &Vec<StoredRequest>, request: &StoredRequest) -> (at: usize)
    ensures
        at == recency_position(request_views(listed@), request@),
        at <= listed@.len(),
{
    let mut at: usize = 0;
    while at < listed.len()
        invariant
            at <= listed.len(),
            forall|k: int|
                0 <= k < at ==> !text_le((#[trigger] request_views(listed@)[k]).created_at, request@.created_at),
        decreases listed.len() - at,
    {
        if text_at_most(listed[at].created_at.as_str(), request.created_at.as_str()) {
            proof {
                assert(request_views(listed@)[at as int] == listed@[at as int]@);
                lemma_recency_position_is(request_views(listed@), request@, at as int);
            }
            return at;
        }
        assert(request_views(listed@)[at as int] == listed@[at as int]@);
        at += 1;
    }
    proof {
        lemma_recency_position_is(request_views(listed@), request@, at as int);
    }
    at
}

impl Database {
    /// The webhooks table: identifier and creation time.
    pub closed spec fn webhooks(&self) -> Pairs {
        Seq::new(self.webhooks@.len(), |i: int| (self.webhooks@[i].id@, self.webhooks@[i].created_at@))
    }

    /// The requests table, keyed by request identifier, oldest row first.
    pub closed spec fn requests(&self) -> Rows<StoredRequestView> {
        Seq::new(self.requests@.len(), |i: int| (self.requests@[i].id@, self.requests@[i]@))
    }

    /// The configuration table, keyed by webhook identifier.
    pub closed spec fn configs(&self) -> Rows<WebhookConfigView> {
        Seq::new(self.configs@.len(), |i: int| (self.configs@[i].webhook_id@, self.configs@[i]@))
    }

    /// Well-formedness: in each table no key occurs twice.
    pub open spec fn wf(&self) -> bool {
        &&& distinct_names(self.webhooks())
        &&& distinct_names(self.requests())
        &&& distinct_names(self.configs())
    }

    /// Every request row is filed under its own identifier, and every configuration
    /// row under its webhook's.
    pub proof fn lemma_rows_keyed(&self)
        ensures
            forall|i: int| 0 <= i < self.requests().len() ==> (#[trigger] self.requests()[i]).0 == self.requests()[i].1.id,
            forall|i: int| 0 <= i < self.configs().len() ==> (#[trigger] self.configs()[i]).0 == self.configs()[i].1.webhook_id,
    {
    }

    /// A database with three empty tables.
    pub fn new() -> (db: Self)
        ensures
            db.wf(),
            db.webhooks() == Seq::<(Seq<char>, Seq<char>)>::empty(),
            db.requests() == Seq::<(Seq<char>, StoredRequestView)>::empty(),
            db.configs() == Seq::<(Seq<char>, WebhookConfigView)>::empty(),
    {
        let db = Database { webhooks: Vec::new(), requests: Vec::new(), configs: Vec::new() };
        assert(db.webhooks() =~= Seq::empty());
        assert(db.requests() =~= Seq::empty());
        assert(db.configs() =~= Seq::empty());
        db
    }
}

impl Database {
    /// Where the webhook `id` stands in its table.
    fn webhook_position(&self, id: &String) -> (found: Option<usize>)
        ensures
            match found {
                Some(i) => i < self.webhooks().len() && self.webhooks()[i as int].0 == id@,
                None => !binds(self.webhooks(), id@),
            },
    {
        let mut i: usize = 0;
        while i < self.webhooks.len()
            invariant
                i <= self.webhooks.len(),
                forall|k: int| 0 <= k < i ==> (#[trigger] self.webhooks()[k]).0 != id@,
            decreases self.webhooks.len() - i,
        {
            if self.webhooks[i].id == *id {
                return Some(i);
            }
            i += 1;
        }
        None
    }

    /// Where the request `id` stands in its table: the first row of that key.
    fn request_position(&self, id: &String) -> (found: Option<usize>)
        ensures
            match found {
                Some(i) => {
                    &&& i < self.requests().len()
                    &&& self.requests()[i as int] == (id@, self.requests@[i as int]@)
                    &&& lookup(self.requests(), id@) == Some(self.requests@[i as int]@)
                },
                None => !binds(self.requests(), id@) && lookup(self.requests(), id@) is None,
            },
    {
        let mut i: usize = 0;
        while i < self.requests.len()
            invariant
                i <= self.requests.len(),
                forall|k: int| 0 <= k < i ==> (#[trigger] self.requests()[k]).0 != id@,
            decreases self.requests.len() - i,
        {
            if self.requests[i].id == *id {
                proof {
                    lemma_lookup_finds(self.requests(), i as int, id@);
                }
                return Some(i);
            }
            i += 1;
        }
        proof {
            lemma_lookup_binds(self.requests(), id@);
        }
        None
    }

    /// Where the configuration of `webhook_id` stands in its table: the first row of
    /// that key.
    fn config_position(&self, webhook_id: &String) -> (found: Option<usize>)
        ensures
            match found {
                Some(i) => {
                    &&& i < self.configs().len()
                    &&& self.configs()[i as int] == (webhook_id@, self.configs@[i as int]@)
                    &&& forall|k: int| 0 <= k < i ==> (#[trigger] self.configs()[k]).0 != webhook_id@
                    &&& lookup(self.configs(), webhook_id@) == Some(self.configs@[i as int]@)
                },
                None => {
                    &&& forall|k: int| 0 <= k < self.configs().len() ==> (#[trigger] self.configs()[k]).0 != webhook_id@
                    &&& lookup(self.configs(), webhook_id@) is None
                },
            },
    {
        let mut i: usize = 0;
        while i < self.configs.len()
            invariant
                i <= self.configs.len(),
                forall|k: int| 0 <= k < i ==> (#[trigger] self.configs()[k]).0 != webhook_id@,
            decreases self.configs.len() - i,
        {
            if self.configs[i].webhook_id == *webhook_id {
                proof {
                    lemma_lookup_finds(self.configs(), i as int, webhook_id@);
                }
                return Some(i);
            }
            i += 1;
        }
        proof {
            lemma_lookup_binds(self.configs(), webhook_id@);
        }
        None
    }

    /// Records the webhook `id` as created at `created_at`. A second webhook of the
    /// same identifier is refused and changes nothing.
    pub fn insert_webhook(&mut self, id: &str, created_at: String) -> (outcome: Result<(), StorageError>)
        requires
            old(self).wf(),
        ensures
            final(self).wf(),
            final(self).requests() == old(self).requests(),
            final(self).configs() == old(self).configs(),
            match outcome {
                Ok(_) => !binds(old(self).webhooks(), id@) && final(self).webhooks() == old(self).webhooks().push(
                    (id@, created_at@),
                ),
                Err(error) => error == StorageError::Duplicate && binds(old(self).webhooks(), id@)
                    && final(self).webhooks() == old(self).webhooks(),
            },
    {
        let key = id.to_owned();
        match self.webhook_position(&key) {
            Some(_) => Err(StorageError::Duplicate),
            None => {
                let ghost before = self.webhooks();
                self.webhooks.push(Webhook { id: key, created_at });
                proof {
                    assert(self.webhooks() =~= before.push((id@, created_at@)));
                    lemma_put_appends(before, id@, created_at@);
                    lemma_put_distinct(before, id@, created_at@);
                }
                Ok(())
            },
        }
    }

    /// Records the webhook `id` as created now. What the clock says is not known
    /// beforehand; the rest is: the row is added last under `id`, unless one is there.
    pub fn create_webhook(&mut self, id: &str) -> (outcome: Result<(), StorageError>)
        requires
            old(self).wf(),
        ensures
            final(self).wf(),
            final(self).requests() == old(self).requests(),
            final(self).configs() == old(self).configs(),
            match outcome {
                Ok(_) => {
                    &&& !binds(old(self).webhooks(), id@)
                    &&& final(self).webhooks().len() == old(self).webhooks().len() + 1
                    &&& final(self).webhooks().drop_last() == old(self).webhooks()
                    &&& final(self).webhooks().last().0 == id@
                },
                Err(error) => error == StorageError::Duplicate && binds(old(self).webhooks(), id@)
                    && final(self).webhooks() == old(self).webhooks(),
            },
    {
        let created_at = current_timestamp();
        let outcome = self.insert_webhook(id, created_at);
        proof {
            if outcome is Ok {
                assert(old(self).webhooks().push((id@, created_at@)).drop_last() =~= old(self).webhooks());
            }
        }
        outcome
    }

    /// Whether a webhook `id` was created.
    pub fn has_webhook(&self, id: &str) -> (found: bool)
        ensures
            found == binds(self.webhooks(), id@),
    {
        let key = id.to_owned();
        self.webhook_position(&key).is_some()
    }

    /// Stores a captured request under its identifier. A second request of the same
    /// identifier is refused and changes nothing. The webhook it names need not exist.
    pub fn store_request(&mut self, req: &StoredRequest) -> (outcome: Result<(), StorageError>)
        requires
            old(self).wf(),
        ensures
            final(self).wf(),
            final(self).webhooks() == old(self).webhooks(),
            final(self).configs() == old(self).configs(),
            match outcome {
                Ok(_) => !binds(old(self).requests(), req.id@) && final(self).requests() == old(self).requests().push(
                    (req.id@, req@),
                ),
                Err(error) => error == StorageError::Duplicate && binds(old(self).requests(), req.id@)
                    && final(self).requests() == old(self).requests(),
            },
    {
        match self.request_position(&req.id) {
            Some(_) => Err(StorageError::Duplicate),
            None => {
                let ghost before = self.requests();
                self.requests.push(req.clone());
                proof {
                    assert(self.requests() =~= before.push((req.id@, req@)));
                    lemma_put_appends(before, req.id@, req@);
                    lemma_put_distinct(before, req.id@, req@);
                }
                Ok(())
            },
        }
    }

    /// Fetches the request stored under `req_id`.
    pub fn get_request(&self, req_id: &str) -> (outcome: Result<StoredRequest, StorageError>)
        ensures
            match outcome {
                Ok(request) => lookup(self.requests(), req_id@) == Some(request@) && request.id@ == req_id@,
                Err(error) => error == StorageError::NotFound && lookup(self.requests(), req_id@) is None,
            },
    {
        let key = req_id.to_owned();
        match self.request_position(&key) {
            Some(i) => Ok(self.requests[i].clone()),
            None => Err(StorageError::NotFound),
        }
    }

    /// Lists the requests captured for `webhook_id`, the newest `created_at` first; of
    /// two with the same `created_at` the one stored later comes first. The list holds
    /// every request of that webhook once, and none of another.
    pub fn get_requests(&self, webhook_id: &str) -> (found: Vec<StoredRequest>)
        ensures
            request_views(found@) == recent_first(self.requests(), webhook_id@),
            newest_first(request_views(found@)),
            request_views(found@).to_multiset() == requests_of(self.requests(), webhook_id@).to_multiset(),
    {
        let key = webhook_id.to_owned();
        let mut found: Vec<StoredRequest> = Vec::new();
        let mut i: usize = 0;
        assert(self.requests().take(0) =~= Seq::empty());
        assert(request_views(found@) =~= Seq::empty());
        while i < self.requests.len()
            invariant
                i <= self.requests.len(),
                key@ == webhook_id@,
                request_views(found@) == recent_first(self.requests().take(i as int), webhook_id@),
            decreases self.requests.len() - i,
        {
            let ghost upto = self.requests().take(i as int + 1);
            let ghost so_far = request_views(found@);
            proof {
                assert(upto.drop_last() =~= self.requests().take(i as int));
                assert(upto.last() == self.requests()[i as int]);
            }
            if self.requests[i].webhook_id == key {
                let at = place_by_recency(&found, &self.requests[i]);
                found.insert(at, self.requests[i].clone());
                assert(request_views(found@) =~= so_far.insert(at as int, self.requests@[i as int]@));
            }
            i += 1;
        }
        proof {
            assert(self.requests().take(i as int) =~= self.requests());
            lemma_recent_first(self.requests(), webhook_id@);
        }
        found
    }

    /// Saves the configuration of a webhook. Without a row for the webhook one is
    /// added; with one, the row is replaced whole, field by field, by the new values.
    pub fn set_response_config(&mut self, config: &WebhookConfig) -> (outcome: Result<(), StorageError>)
        requires
            old(self).wf(),
        ensures
            outcome is Ok,
            final(self).wf(),
            final(self).webhooks() == old(self).webhooks(),
            final(self).requests() == old(self).requests(),
            final(self).configs() == put(old(self).configs(), config.webhook_id@, config@),
    {
        let ghost before = self.configs();
        proof {
            lemma_put_distinct(before, config.webhook_id@, config@);
        }
        match self.config_position(&config.webhook_id) {
            Some(i) => {
                self.configs.set(i, config.clone());
                proof {
                    assert(self.configs() =~= before.update(i as int, (config.webhook_id@, config@)));
                    lemma_put_replaces(before, i as int, config.webhook_id@, config@);
                }
            },
            None => {
                self.configs.push(config.clone());
                proof {
                    assert(self.configs() =~= before.push((config.webhook_id@, config@)));
                    lemma_put_appends(before, config.webhook_id@, config@);
                }
            },
        }
        Ok(())
    }

    /// Fetches the configuration in effect for `webhook_id`: its row, or the default
    /// where it has none. A missing row is no error.
    pub fn get_response_config(&self, webhook_id: &str) -> (outcome: Result<WebhookConfig, StorageError>)
        ensures
            outcome matches Ok(config) && config@ == config_in_effect(self.configs(), webhook_id@),
    {
        let key = webhook_id.to_owned();
        match self.config_position(&key) {
            Some(i) => Ok(self.configs[i].clone()),
            None => Ok(WebhookConfig::new_default()),
        }
    }
}

/// Saving a configuration leaves exactly one row for its webhook, holding the values
/// just saved; it leaves every other webhook's configuration as it was; and saving
/// the same configuration again changes nothing.
pub proof fn lemma_config_upsert(rows: Rows<WebhookConfigView>, config: WebhookConfigView, other: Seq<char>)
    requires
        distinct_names(rows),
    ensures
        distinct_names(put(rows, config.webhook_id, config)),
        binds(put(rows, config.webhook_id, config), config.webhook_id),
        put(rows, config.webhook_id, config).len() == if binds(rows, config.webhook_id) {
            rows.len()
        } else {
            rows.len() + 1
        },
        config_in_effect(put(rows, config.webhook_id, config), config.webhook_id) == config,
        other != config.webhook_id ==> config_in_effect(put(rows, config.webhook_id, config), other)
            == config_in_effect(rows, other),
        put(put(rows, config.webhook_id, config), config.webhook_id, config) == put(
            rows,
            config.webhook_id,
            config,
        ),
{
    lemma_put_distinct(rows, config.webhook_id, config);
    lemma_put_binds(rows, config.webhook_id, config, config.webhook_id);
    lemma_put_lookup(rows, config.webhook_id, config, config.webhook_id);
    lemma_put_lookup(rows, config.webhook_id, config, other);
    lemma_put_idempotent(rows, config.webhook_id, config);
}

/// Of two configurations saved for one webhook the later one replaces the earlier
/// whole, not field by field: the table is what it would be had only the later one
/// been saved.
pub proof fn lemma_config_last_write_wins(
    rows: Rows<WebhookConfigView>,
    earlier: WebhookConfigView,
    later: WebhookConfigView,
)
    requires
        earlier.webhook_id == later.webhook_id,
    ensures
        put(put(rows, earlier.webhook_id, earlier), later.webhook_id, later) == put(rows, later.webhook_id, later),
        config_in_effect(put(put(rows, earlier.webhook_id, earlier), later.webhook_id, later), later.webhook_id)
            == later,
{
    lemma_put_overwrites(rows, later.webhook_id, earlier, later);
    lemma_put_lookup(rows, later.webhook_id, later, later.webhook_id);
}

/// A request that was stored is fetched back unchanged under its identifier, and no
/// request stored earlier is lost or altered by it.
pub proof fn lemma_store_then_get(rows: Rows<StoredRequestView>, request: StoredRequestView, other: Seq<char>)
    requires
        !binds(rows, request.id),
    ensures
        lookup(rows.push((request.id, request)), request.id) == Some(request),
        other != request.id ==> lookup(rows.push((request.id, request)), other) == lookup(rows, other),
{
    assert forall|k: int| 0 <= k < rows.len() implies (#[trigger] rows[k]).0 != request.id by {}
    lemma_put_appends(rows, request.id, request);
    lemma_put_lookup(rows, request.id, request, request.id);
    lemma_put_lookup(rows, request.id, request, other);
}

} // verus!
