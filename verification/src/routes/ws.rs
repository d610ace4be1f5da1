//! The live registry, one broadcast channel per watched webhook, and the session of
//! a viewer that streams from it.

use crate::channel::{
    channel_receiver_count, channel_send, channel_subscribe, channel_try_recv, max_channel_capacity,
    open_channel, Delivery,
};
use crate::mapping::{
    binds, lemma_put_appends, lemma_put_lookup, lemma_remove_name_absent, lemma_remove_name_at, lookup,
    remove_name, Rows,
};
use crate::models::{StoredRequest, StoredRequestView};
use crate::utils::{encode_object, json_object_text};
use tokio::sync::broadcast::{Receiver, Sender};
use vstd::prelude::*;
use vstd::string::*;

verus! {

/// Number of pending records a channel is opened for.
pub const DEFAULT_CHANNEL_CAPACITY: usize = 100;

/// One entry of the registry: the channel that carries the records of one webhook.
pub struct LiveChannel {
    webhook_id: String,
    sender: Sender<StoredRequest>,
}

/// A viewer's handle on the channel of one webhook. It yields the records published
/// after it was made; dropping it detaches the viewer.
pub struct Subscription {
    webhook_id: String,
    receiver: Receiver<StoredRequest>,
}

impl Subscription {
    /// The webhook this subscription listens to.
    pub closed spec fn topic(&self) -> Seq<char> {
        self.webhook_id@
    }

    /// The webhook this subscription listens to.
    pub fn webhook_id(&self) -> (id: &str)
        ensures
            id@ == self.topic(),
    {
        self.webhook_id.as_str()
    }

    /// Polls for the next record without waiting.
    pub fn try_next(&mut self) -> (delivery: Delivery)
        ensures
            final(self).topic() == old(self).topic(),
    {
        channel_try_recv(&mut self.receiver)
    }

    /// The receiving half of the channel that this subscription holds.
    pub closed spec fn receiving_half(&self) -> Receiver<StoredRequest> {
        self.receiver
    }

    /// Gives up the handle for the bare receiving half, for callers that wait on it:
    /// the very half this subscription held, still attached to the channel.
    pub fn into_receiver(self) -> (receiver: Receiver<StoredRequest>)
        ensures
            receiver == self.receiving_half(),
    {
        self.receiver
    }

    /// Detaches from the channel and tells which webhook was listened to.
    pub fn release(self) -> (id: String)
        ensures
            id@ == self.topic(),
    {
        self.webhook_id
    }
}

/// The per-webhook publish/subscribe registry: at most one channel per webhook
/// identifier, made when the first viewer subscribes and never by a publish.
///
/// Whatever changes the set of channels takes `&mut self`, so a registry that several
/// tasks share sits behind a lock of the caller's, and creating, finding and removing
/// a channel cannot interleave.
pub struct LiveRegistry {
    channels: Vec<LiveChannel>,
    capacity: usize,
}

/// `ids` with every occurrence of `gone` taken out, the rest in order.
pub open spec fn without(ids: Seq<Seq<char>>, gone: Seq<char>) -> Seq<Seq<char>> {
    ids.filter(|id: Seq<char>| id != gone)
}

/// `ids` with a channel for `id`: unchanged where it has one, else with `id` added
/// last.
pub open spec fn with_channel(ids: Seq<Seq<char>>, id: Seq<char>) -> Seq<Seq<char>> {
    if ids.contains(id) {
        ids
    } else {
        ids.push(id)
    }
}

/// No identifier occurs twice in `ids`.
pub open spec fn distinct(ids: Seq<Seq<char>>) -> bool {
    forall|i: int, j: int| 0 <= i < j < ids.len() ==> ids[i] != ids[j]
}

impl LiveRegistry {
    /// The identifiers that have a channel, oldest channel first.
    pub closed spec fn ids(&self) -> Seq<Seq<char>> {
        Seq::new(self.channels@.len(), |i: int| self.channels@[i].webhook_id@)
    }

    /// The channels held, each under the identifier of its webhook, oldest first. The
    /// sending half stands for the channel: two entries with the same half are the same
    /// channel, with the same subscribers.
    pub closed spec fn channels(&self) -> Rows<Sender<StoredRequest>> {
        Seq::new(self.channels@.len(), |i: int| (self.channels@[i].webhook_id@, self.channels@[i].sender))
    }

    /// The channel of the webhook `id`, if it has one.
    pub open spec fn sender_of(&self, id: Seq<char>) -> Option<Sender<StoredRequest>> {
        lookup(self.channels(), id)
    }

    /// The identifiers are those under which the channels are held, in the same order.
    pub proof fn lemma_ids_name_channels(&self)
        ensures
            self.ids().len() == self.channels().len(),
            forall|i: int| 0 <= i < self.ids().len() ==> (#[trigger] self.ids()[i]) == self.channels()[i].0,
            forall|id: Seq<char>| self.has_channel(id) <==> binds(self.channels(), id),
    {
        assert forall|id: Seq<char>| self.has_channel(id) <==> binds(self.channels(), id) by {
            if self.has_channel(id) {
                let i = choose|i: int| 0 <= i < self.ids().len() && self.ids()[i] == id;
                assert(self.channels()[i].0 == id);
            }
            if binds(self.channels(), id) {
                let i = choose|i: int| 0 <= i < self.channels().len() && (#[trigger] self.channels()[i]).0 == id;
                assert(self.ids()[i] == id);
            }
        }
    }

    /// The buffer length every channel of this registry is opened with.
    pub closed spec fn capacity(&self) -> int {
        self.capacity as int
    }

    /// Whether a channel exists for `id`.
    pub open spec fn has_channel(&self, id: Seq<char>) -> bool {
        self.ids().contains(id)
    }

    /// Well-formedness: no identifier has two channels, and the buffer length is one
    /// a channel can be opened with.
    pub closed spec fn wf(&self) -> bool {
        &&& distinct(self.ids())
        &&& 0 < self.capacity <= max_channel_capacity()
    }

    /// An empty registry whose channels buffer `DEFAULT_CHANNEL_CAPACITY` records.
    pub fn new() -> (registry: Self)
        ensures
            registry.wf(),
            registry.ids() == Seq::<Seq<char>>::empty(),
            registry.capacity() == DEFAULT_CHANNEL_CAPACITY,
    {
        let registry = LiveRegistry { channels: Vec::new(), capacity: DEFAULT_CHANNEL_CAPACITY };
        assert(registry.ids() =~= Seq::<Seq<char>>::empty());
        registry
    }

    /// Position of the channel of `webhook_id`, if there is one.
    fn position(&self, webhook_id: &String) -> (found: Option<usize>)
        ensures
            match found {
                Some(i) => {
                    &&& i < self.ids().len()
                    &&& self.ids()[i as int] == webhook_id@
                    &&& forall|k: int| 0 <= k < i ==> self.ids()[k] != webhook_id@
                },
                None => !self.has_channel(webhook_id@),
            },
    {
        let mut i: usize = 0;
        while i < self.channels.len()
            invariant
                i <= self.channels.len(),
                forall|k: int| 0 <= k < i ==> self.ids()[k] != webhook_id@,
            decreases self.channels.len() - i,
        {
            if self.channels[i].webhook_id == *webhook_id {
                return Some(i);
            }
            i += 1;
        }
        None
    }

    /// Number of channels held.
    pub fn channel_count(&self) -> (count: usize)
        ensures
            count == self.ids().len(),
    {
        self.channels.len()
    }

    /// Makes sure a channel exists for `webhook_id`, opening one if there is none, and
    /// attaches a new subscription to it. Channels of other webhooks are left alone, and
    /// an existing channel is reused, so subscribing again never adds a second entry.
    pub fn subscribe(&mut self, webhook_id: &str) -> (subscription: Subscription)
        requires
            old(self).wf(),
        ensures
            final(self).wf(),
            subscription.topic() == webhook_id@,
            final(self).capacity() == old(self).capacity(),
            final(self).ids() == with_channel(old(self).ids(), webhook_id@),
            old(self).has_channel(webhook_id@) ==> final(self).channels() == old(self).channels(),
            !old(self).has_channel(webhook_id@) ==> {
                &&& final(self).channels().len() == old(self).channels().len() + 1
                &&& final(self).channels().drop_last() == old(self).channels()
                &&& final(self).channels().last().0 == webhook_id@
            },
    {
        let key = webhook_id.to_owned();
        let at = match self.position(&key) {
            Some(i) => i,
            None => {
                let ghost before = self.ids();
                let ghost held = self.channels();
                let sender = open_channel(self.capacity);
                self.channels.push(LiveChannel { webhook_id: key.clone(), sender });
                assert(self.ids() =~= before.push(webhook_id@));
                assert(self.channels().drop_last() =~= held);
                self.channels.len() - 1
            },
        };
        let receiver = channel_subscribe(&self.channels[at].sender);
        Subscription { webhook_id: key, receiver }
    }

    /// Removes the channel of `webhook_id`, if there is one, and says whether it did.
    /// The other channels keep their order.
    pub fn drop_channel(&mut self, webhook_id: &str) -> (removed: bool)
        requires
            old(self).wf(),
        ensures
            final(self).wf(),
            removed == old(self).has_channel(webhook_id@),
            final(self).capacity() == old(self).capacity(),
            !final(self).has_channel(webhook_id@),
            final(self).ids() == without(old(self).ids(), webhook_id@),
            final(self).channels() == remove_name(old(self).channels(), webhook_id@),
    {
        let key = webhook_id.to_owned();
        let ghost before = self.ids();
        let ghost held = self.channels();
        proof {
            self.lemma_ids_name_channels();
        }
        match self.position(&key) {
            Some(i) => {
                self.channels.remove(i);
                proof {
                    assert(self.ids() =~= before.remove(i as int));
                    lemma_filter_out_unique(before, i as int);
                    assert(self.channels() =~= held.remove(i as int));
                    assert(held[i as int].0 == before[i as int]);
                    assert forall|k: int| 0 <= k < i implies (#[trigger] held[k]).0 != webhook_id@ by {
                        assert(held[k].0 == before[k]);
                    }
                    lemma_remove_name_at(held, i as int, webhook_id@);
                }
                true
            },
            None => {
                proof {
                    lemma_filter_out_absent(before, webhook_id@);
                    lemma_remove_name_absent(held, webhook_id@);
                }
                false
            },
        }
    }

    /// Removes the channel of `webhook_id` if it is idle, that is if `subscribers`, the
    /// number of subscribers it was found to have, is zero.
    pub fn reclaim_if_idle(&mut self, webhook_id: &str, subscribers: usize) -> (removed: bool)
        requires
            old(self).wf(),
        ensures
            final(self).wf(),
            removed == (subscribers == 0 && old(self).has_channel(webhook_id@)),
            final(self).capacity() == old(self).capacity(),
            final(self).ids() == if removed {
                without(old(self).ids(), webhook_id@)
            } else {
                old(self).ids()
            },
            final(self).channels() == if removed {
                remove_name(old(self).channels(), webhook_id@)
            } else {
                old(self).channels()
            },
    {
        if subscribers == 0 {
            proof {
                if !self.has_channel(webhook_id@) {
                    self.lemma_ids_name_channels();
                    lemma_filter_out_absent(self.ids(), webhook_id@);
                    lemma_remove_name_absent(self.channels(), webhook_id@);
                }
            }
            self.drop_channel(webhook_id)
        } else {
            false
        }
    }

    /// Number of subscribers attached to the channel of `webhook_id` right now, or
    /// `None` where it has no channel. The number is the channel's own, changing state.
    pub fn subscriber_count(&self, webhook_id: &str) -> (count: Option<usize>)
        ensures
            count is Some <==> self.has_channel(webhook_id@),
    {
        let key = webhook_id.to_owned();
        match self.position(&key) {
            Some(i) => Some(channel_receiver_count(&self.channels[i].sender)),
            None => None,
        }
    }

    /// Best-effort cleanup: removes the channel of `webhook_id` when it has no subscriber
    /// left. Whether it has one is the channel's own, changing state, so either outcome
    /// is possible whenever the channel exists; `removed` tells which one happened.
    pub fn reclaim(&mut self, webhook_id: &str) -> (removed: bool)
        requires
            old(self).wf(),
        ensures
            final(self).wf(),
            removed ==> old(self).has_channel(webhook_id@),
            final(self).capacity() == old(self).capacity(),
            final(self).ids() == if removed {
                without(old(self).ids(), webhook_id@)
            } else {
                old(self).ids()
            },
            final(self).channels() == if removed {
                remove_name(old(self).channels(), webhook_id@)
            } else {
                old(self).channels()
            },
    {
        match self.subscriber_count(webhook_id) {
            Some(subscribers) => self.reclaim_if_idle(webhook_id, subscribers),
            None => false,
        }
    }

    /// Detaches a viewer: gives up its subscription, then reclaims the channel it was
    /// attached to if that left the channel without subscribers.
    pub fn unsubscribe(&mut self, subscription: Subscription) -> (removed: bool)
        requires
            old(self).wf(),
        ensures
            final(self).wf(),
            removed ==> old(self).has_channel(subscription.topic()),
            final(self).capacity() == old(self).capacity(),
            final(self).ids() == if removed {
                without(old(self).ids(), subscription.topic())
            } else {
                old(self).ids()
            },
            final(self).channels() == if removed {
                remove_name(old(self).channels(), subscription.topic())
            } else {
                old(self).channels()
            },
    {
        let webhook_id = subscription.release();
        self.reclaim(webhook_id.as_str())
    }

    /// Whether a channel exists for `webhook_id`.
    pub fn contains(&self, webhook_id: &str) -> (found: bool)
        ensures
            found == self.has_channel(webhook_id@),
    {
        let key = webhook_id.to_owned();
        self.position(&key).is_some()
    }
}

/// How a publish ended.
#[derive(Clone, Copy, Debug, PartialEq, Eq, Structural)]
pub enum Published {
    /// No channel exists for the webhook: nobody ever subscribed, or the channel was
    /// reclaimed. Nothing was done.
    NoChannel,
    /// A channel exists but no subscriber was attached. Nothing was queued.
    NoSubscribers,
    /// The record was queued while this many subscribers were attached (at least one).
    Delivered(usize),
}

/// What a publish reports for the answer the channel gave to the send.
pub open spec fn published_for(sent: Option<usize>) -> Published {
    match sent {
        Some(n) => Published::Delivered(n),
        None => Published::NoSubscribers,
    }
}

/// Names the answer the channel gave to a send.
pub fn publish_outcome(sent: Option<usize>) -> (outcome: Published)
    ensures
        outcome == published_for(sent),
{
    match sent {
        Some(n) => Published::Delivered(n),
        None => Published::NoSubscribers,
    }
}

/// Publishes `request` to the current subscribers of `webhook_id`. Without a channel
/// this does nothing; it never opens one and never fails.
pub fn broadcast_to_clients(registry: &LiveRegistry, webhook_id: &str, request: &StoredRequest) -> (outcome: Published)
    ensures
        outcome is NoChannel <==> !registry.has_channel(webhook_id@),
        outcome matches Published::Delivered(n) ==> n >= 1,
{
    let key = webhook_id.to_owned();
    match registry.position(&key) {
        Some(i) => {
            let sent = channel_send(&registry.channels[i].sender, request.clone());
            publish_outcome(sent)
        },
        None => Published::NoChannel,
    }
}

/// The acknowledgment a viewer gets once it is connected to the webhook `webhook_id`.
pub open spec fn connected_text(webhook_id: Seq<char>) -> Seq<char> {
    "{\"status\":\"connected\",\"webhook_id\":\""@ + webhook_id + "\"}"@
}

/// Writes the acknowledgment for a viewer of the webhook `webhook_id`.
pub fn connected_message(webhook_id: &str) -> (text: String)
    ensures
        text@ == connected_text(webhook_id@),
{
    let mut text = "{\"status\":\"connected\",\"webhook_id\":\"".to_owned();
    text.append(webhook_id);
    text.append("\"}");
    text
}

/// The members of the JSON object that a record goes out as, in order.
pub open spec fn record_members(record: StoredRequestView) -> Seq<(Seq<char>, Seq<char>)> {
    seq![
        ("id"@, record.id),
        ("webhook_id"@, record.webhook_id),
        ("method"@, record.method),
        ("headers"@, record.headers),
        ("body"@, record.body),
        ("query"@, record.query),
        ("created_at"@, record.created_at),
    ]
}

/// The JSON text that a record goes out as to a viewer.
pub open spec fn record_text(record: StoredRequestView) -> Seq<char> {
    json_object_text(record_members(record))
}

/// Writes a record as the JSON message for a viewer.
pub fn record_message(record: &StoredRequest) -> (text: String)
    ensures
        text@ == record_text(record@),
{
    let mut members: Vec<(String, String)> = Vec::new();
    members.push(("id".to_owned(), record.id.clone()));
    members.push(("webhook_id".to_owned(), record.webhook_id.clone()));
    members.push(("method".to_owned(), record.method.clone()));
    members.push(("headers".to_owned(), record.headers.clone()));
    members.push(("body".to_owned(), record.body.clone()));
    members.push(("query".to_owned(), record.query.clone()));
    members.push(("created_at".to_owned(), record.created_at.clone()));
    assert(members.deep_view() =~= record_members(record@));
    encode_object(&members)
}

/// Where a viewer's session stands between two pieces of outside work. Each state
/// carries the identifier of the webhook that is watched.
#[derive(Debug)]
pub enum SessionState {
    /// A subscription was asked for.
    Subscribing(String),
    /// The acknowledgment is on its way to the viewer.
    Greeting(String),
    /// The next record is awaited.
    Streaming(String),
    /// A record is on its way to the viewer.
    Sending(String),
    /// The session is over.
    Closed,
}

/// What the outside reports back to a session.
#[derive(Debug)]
pub enum SessionEvent {
    /// The subscription is in place.
    Subscribed,
    /// The channel delivered this record.
    Received(StoredRequest),
    /// The viewer fell behind and this many records were dropped for it.
    Lagged(u64),
    /// The channel is gone.
    ChannelClosed,
    /// The last message reached the viewer.
    Sent,
    /// The last message could not be sent: the viewer is gone.
    SendFailed,
}

/// What a session asks the outside to do next.
#[derive(Debug)]
pub enum SessionAction {
    /// Subscribe to this webhook.
    Subscribe(String),
    /// Send this text to the viewer.
    SendText(String),
    /// Wait for the next record.
    Wait,
    /// Give up the subscription to this webhook and let the registry reclaim the
    /// channel if nobody is left on it.
    Detach(String),
    /// The event did not fit the state; nothing is to be done.
    Ignore,
}

/// Mathematical value of a [`SessionState`].
pub enum SessionStateView {
    Subscribing(Seq<char>),
    Greeting(Seq<char>),
    Streaming(Seq<char>),
    Sending(Seq<char>),
    Closed,
}

/// Mathematical value of a [`SessionEvent`].
pub enum SessionEventView {
    Subscribed,
    Received(StoredRequestView),
    Lagged(u64),
    ChannelClosed,
    Sent,
    SendFailed,
}

/// Mathematical value of a [`SessionAction`].
pub enum SessionActionView {
    Subscribe(Seq<char>),
    SendText(Seq<char>),
    Wait,
    Detach(Seq<char>),
    Ignore,
}

impl View for SessionState {
    type V = SessionStateView;

    open spec fn view(&self) -> SessionStateView {
        match self {
            SessionState::Subscribing(id) => SessionStateView::Subscribing(id@),
            SessionState::Greeting(id) => SessionStateView::Greeting(id@),
            SessionState::Streaming(id) => SessionStateView::Streaming(id@),
            SessionState::Sending(id) => SessionStateView::Sending(id@),
            SessionState::Closed => SessionStateView::Closed,
        }
    }
}

impl View for SessionEvent {
    type V = SessionEventView;

    open spec fn view(&self) -> SessionEventView {
        match self {
            SessionEvent::Subscribed => SessionEventView::Subscribed,
            SessionEvent::Received(record) => SessionEventView::Received(record@),
            SessionEvent::Lagged(missed) => SessionEventView::Lagged(*missed),
            SessionEvent::ChannelClosed => SessionEventView::ChannelClosed,
            SessionEvent::Sent => SessionEventView::Sent,
            SessionEvent::SendFailed => SessionEventView::SendFailed,
        }
    }
}

impl View for SessionAction {
    type V = SessionActionView;

    open spec fn view(&self) -> SessionActionView {
        match self {
            SessionAction::Subscribe(id) => SessionActionView::Subscribe(id@),
            SessionAction::SendText(text) => SessionActionView::SendText(text@),
            SessionAction::Wait => SessionActionView::Wait,
            SessionAction::Detach(id) => SessionActionView::Detach(id@),
            SessionAction::Ignore => SessionActionView::Ignore,
        }
    }
}

/// The steps of a viewer's session after its start. Once subscribed the viewer is
/// greeted; then every record the channel delivers is sent on as one JSON message, in
/// the order of delivery. Falling behind loses records but not the session. The
/// session ends, and detaches, when a message cannot be sent or the channel is gone.
/// An event that does not fit the state changes nothing.
pub open spec fn session_next(state: SessionStateView, event: SessionEventView) -> (
    SessionStateView,
    SessionActionView,
) {
    match (state, event) {
        (SessionStateView::Subscribing(id), SessionEventView::Subscribed) => (
            SessionStateView::Greeting(id),
            SessionActionView::SendText(connected_text(id)),
        ),
        (SessionStateView::Greeting(id), SessionEventView::Sent) => (
            SessionStateView::Streaming(id),
            SessionActionView::Wait,
        ),
        (SessionStateView::Greeting(id), SessionEventView::SendFailed) => (
            SessionStateView::Closed,
            SessionActionView::Detach(id),
        ),
        (SessionStateView::Streaming(id), SessionEventView::Received(record)) => (
            SessionStateView::Sending(id),
            SessionActionView::SendText(record_text(record)),
        ),
        (SessionStateView::Streaming(id), SessionEventView::Lagged(_)) => (
            SessionStateView::Streaming(id),
            SessionActionView::Wait,
        ),
        (SessionStateView::Streaming(id), SessionEventView::ChannelClosed) => (
            SessionStateView::Closed,
            SessionActionView::Detach(id),
        ),
        (SessionStateView::Sending(id), SessionEventView::Sent) => (
            SessionStateView::Streaming(id),
            SessionActionView::Wait,
        ),
        (SessionStateView::Sending(id), SessionEventView::SendFailed) => (
            SessionStateView::Closed,
            SessionActionView::Detach(id),
        ),
        (state, _) => (state, SessionActionView::Ignore),
    }
}

/// Starts the session of a viewer of the webhook `webhook_id`: the first thing to do
/// is to subscribe.
pub fn session_begin(webhook_id: &str) -> (started: (SessionState, SessionAction))
    ensures
        started.0@ == SessionStateView::Subscribing(webhook_id@),
        started.1@ == SessionActionView::Subscribe(webhook_id@),
{
    (SessionState::Subscribing(webhook_id.to_owned()), SessionAction::Subscribe(webhook_id.to_owned()))
}

/// Takes a session one step further: from where it stands and what the outside
/// reported, to where it stands next and what is to be done.
pub fn session_step(state: SessionState, event: SessionEvent) -> (step: (SessionState, SessionAction))
    ensures
        (step.0@, step.1@) == session_next(state@, event@),
{
    match (state, event) {
        (SessionState::Subscribing(id), SessionEvent::Subscribed) => {
            let greeting = connected_message(id.as_str());
            (SessionState::Greeting(id), SessionAction::SendText(greeting))
        },
        (SessionState::Greeting(id), SessionEvent::Sent) => (SessionState::Streaming(id), SessionAction::Wait),
        (SessionState::Greeting(id), SessionEvent::SendFailed) => (SessionState::Closed, SessionAction::Detach(id)),
        (SessionState::Streaming(id), SessionEvent::Received(record)) => {
            let message = record_message(&record);
            (SessionState::Sending(id), SessionAction::SendText(message))
        },
        (SessionState::Streaming(id), SessionEvent::Lagged(_)) => (SessionState::Streaming(id), SessionAction::Wait),
        (SessionState::Streaming(id), SessionEvent::ChannelClosed) => (
            SessionState::Closed,
            SessionAction::Detach(id),
        ),
        (SessionState::Sending(id), SessionEvent::Sent) => (SessionState::Streaming(id), SessionAction::Wait),
        (SessionState::Sending(id), SessionEvent::SendFailed) => (SessionState::Closed, SessionAction::Detach(id)),
        (state, _) => (state, SessionAction::Ignore),
    }
}

/// A streaming session hands records on in the order in which the channel delivered
/// them: of two records delivered one after the other, the first goes out first, each
/// as its own message. Records lost to lagging in between do not end the session.
pub proof fn lemma_session_keeps_order(id: Seq<char>, first: StoredRequestView, second: StoredRequestView, missed: u64)
    ensures
        ({
            let a = session_next(SessionStateView::Streaming(id), SessionEventView::Received(first));
            let b = session_next(a.0, SessionEventView::Sent);
            let c = session_next(b.0, SessionEventView::Lagged(missed));
            let d = session_next(c.0, SessionEventView::Received(second));
            &&& a.1 == SessionActionView::SendText(record_text(first))
            &&& b.1 == SessionActionView::Wait
            &&& c.1 == SessionActionView::Wait
            &&& d.1 == SessionActionView::SendText(record_text(second))
        }),
{
}

/// A session that cannot reach its viewer, or whose channel is gone, detaches from
/// the webhook it watched and then stays closed.
pub proof fn lemma_session_detaches(id: Seq<char>, later: SessionEventView)
    ensures
        session_next(SessionStateView::Sending(id), SessionEventView::SendFailed) == (
            SessionStateView::Closed,
            SessionActionView::Detach(id),
        ),
        session_next(SessionStateView::Greeting(id), SessionEventView::SendFailed) == (
            SessionStateView::Closed,
            SessionActionView::Detach(id),
        ),
        session_next(SessionStateView::Streaming(id), SessionEventView::ChannelClosed) == (
            SessionStateView::Closed,
            SessionActionView::Detach(id),
        ),
        session_next(SessionStateView::Closed, later) == (SessionStateView::Closed, SessionActionView::Ignore),
{
}

/// The event that a poll of the subscription amounts to, if it amounts to one.
pub open spec fn delivery_event(delivery: Delivery) -> Option<SessionEventView> {
    match delivery {
        Delivery::Record(record) => Some(SessionEventView::Received(record@)),
        Delivery::Empty => None,
        Delivery::Lagged(missed) => Some(SessionEventView::Lagged(missed)),
        Delivery::Closed => Some(SessionEventView::ChannelClosed),
    }
}

/// Turns what a poll of the subscription produced into the event for the session. An
/// empty poll is no event.
pub fn event_of(delivery: Delivery) -> (event: Option<SessionEvent>)
    ensures
        match event {
            Some(e) => delivery_event(delivery) == Some(e@),
            None => delivery_event(delivery) is None,
        },
{
    match delivery {
        Delivery::Record(record) => Some(SessionEvent::Received(record)),
        Delivery::Empty => None,
        Delivery::Lagged(missed) => Some(SessionEvent::Lagged(missed)),
        Delivery::Closed => Some(SessionEvent::ChannelClosed),
    }
}

/// Subscribing is idempotent on the set of channels: a second subscription to the
/// same webhook adds no channel, and the webhook keeps exactly one. A subscription to
/// one webhook leaves the channels of the others as they were.
pub proof fn lemma_subscribe_idempotent(ids: Seq<Seq<char>>, id: Seq<char>, other: Seq<char>)
    requires
        distinct(ids),
    ensures
        with_channel(with_channel(ids, id), id) == with_channel(ids, id),
        distinct(with_channel(ids, id)),
        with_channel(ids, id).contains(id),
        other != id ==> (with_channel(ids, id).contains(other) <==> ids.contains(other)),
{
    let after = with_channel(ids, id);
    if !ids.contains(id) {
        assert(after[ids.len() as int] == id);
        assert forall|i: int, j: int| 0 <= i < j < after.len() implies after[i] != after[j] by {
            if j == ids.len() {
                assert(ids.contains(ids[i]));
            }
        }
        if ids.contains(other) {
            let k = choose|k: int| 0 <= k < ids.len() && ids[k] == other;
            assert(after[k] == other);
        }
        if other != id && after.contains(other) {
            let k = choose|k: int| 0 <= k < after.len() && after[k] == other;
            assert(ids[k] == other);
        }
    }
}

/// A subscription leaves every channel that was held as it was, with its subscribers:
/// the channel of the webhook subscribed to is reused where there is one, and the
/// channels of the other webhooks are not touched.
pub proof fn lemma_subscribe_keeps_channels(
    before: Rows<Sender<StoredRequest>>,
    after: Rows<Sender<StoredRequest>>,
    id: Seq<char>,
    other: Seq<char>,
)
    requires
        binds(before, id) ==> after == before,
        !binds(before, id) ==> after.len() == before.len() + 1 && after.drop_last() == before && after.last().0
            == id,
        binds(before, other),
    ensures
        lookup(after, other) == lookup(before, other),
{
    if !binds(before, id) {
        assert(after =~= before.push((id, after.last().1)));
        assert forall|k: int| 0 <= k < before.len() implies (#[trigger] before[k]).0 != id by {}
        lemma_put_appends(before, id, after.last().1);
        lemma_put_lookup(before, id, after.last().1, other);
    }
}

/// Once the channel of a webhook is reclaimed the webhook has none, so a publish to
/// it finds no channel; the channels of the other webhooks stay, in their order.
pub proof fn lemma_reclaimed_channel_is_gone(ids: Seq<Seq<char>>, id: Seq<char>, other: Seq<char>)
    requires
        distinct(ids),
    ensures
        !without(ids, id).contains(id),
        other != id ==> (without(ids, id).contains(other) <==> ids.contains(other)),
        distinct(without(ids, id)),
{
    if ids.contains(id) {
        let i = choose|i: int| 0 <= i < ids.len() && ids[i] == id;
        lemma_filter_out_unique(ids, i);
        if other != id {
            lemma_remove_keeps_others(ids, i, other);
        }
    } else {
        lemma_filter_out_absent(ids, id);
    }
}

/// Subscribing to a webhook and reclaiming its channel leaves the channels that were
/// there before, less that webhook's.
pub proof fn lemma_subscribe_then_reclaim(ids: Seq<Seq<char>>, id: Seq<char>)
    requires
        distinct(ids),
    ensures
        without(with_channel(ids, id), id) == without(ids, id),
{
    if !ids.contains(id) {
        lemma_filter_out_absent(ids, id);
        let grown = ids.push(id);
        let last = ids.len() as int;
        assert(grown[last] == id);
        assert(distinct(grown)) by {
            assert forall|i: int, j: int| 0 <= i < j < grown.len() implies grown[i] != grown[j] by {
                if j == last {
                    assert(ids.contains(ids[i]));
                }
            }
        }
        lemma_filter_out_unique(grown, last);
        assert(grown.remove(last) =~= ids);
    }
}

/// Removing one position keeps every value that stands elsewhere, and adds none.
proof fn lemma_remove_keeps_others(ids: Seq<Seq<char>>, i: int, other: Seq<char>)
    requires
        0 <= i < ids.len(),
        other != ids[i],
    ensures
        ids.remove(i).contains(other) <==> ids.contains(other),
{
    let rest = ids.remove(i);
    if ids.contains(other) {
        let k = choose|k: int| 0 <= k < ids.len() && ids[k] == other;
        if k < i {
            assert(rest[k] == other);
        } else {
            assert(rest[k - 1] == other);
        }
    }
    if rest.contains(other) {
        let k = choose|k: int| 0 <= k < rest.len() && rest[k] == other;
        if k < i {
            assert(ids[k] == other);
        } else {
            assert(ids[k + 1] == other);
        }
    }
}

/// Removing position `i` from a sequence without repetitions is taking out the value
/// found there.
proof fn lemma_filter_out_unique(ids: Seq<Seq<char>>, i: int)
    requires
        distinct(ids),
        0 <= i < ids.len(),
    ensures
        without(ids, ids[i]) == ids.remove(i),
        !ids.remove(i).contains(ids[i]),
        distinct(ids.remove(i)),
    decreases ids.len(),
{
    reveal(Seq::filter);
    let gone = ids[i];
    let front = ids.drop_last();
    let last = ids.last();
    if i == ids.len() - 1 {
        assert(!front.contains(gone)) by {
            if front.contains(gone) {
                let k = choose|k: int| 0 <= k < front.len() && front[k] == gone;
                assert(ids[k] == ids[i]);
            }
        }
        lemma_filter_out_absent(front, gone);
        assert(ids.remove(i) =~= front);
    } else {
        lemma_filter_out_unique(front, i);
        assert(front[i] == gone);
        assert(ids.remove(i) =~= front.remove(i).push(last));
        assert(last != gone);
    }
    assert(!ids.remove(i).contains(gone)) by {
        if ids.remove(i).contains(gone) {
            let k = choose|k: int| 0 <= k < ids.remove(i).len() && ids.remove(i)[k] == gone;
            if k < i {
                assert(ids[k] == ids[i]);
            } else {
                assert(ids[k + 1] == ids[i]);
            }
        }
    }
}

/// Taking out a value that does not occur changes nothing.
proof fn lemma_filter_out_absent(ids: Seq<Seq<char>>, gone: Seq<char>)
    requires
        !ids.contains(gone),
    ensures
        without(ids, gone) == ids,
    decreases ids.len(),
{
    reveal(Seq::filter);
    if ids.len() > 0 {
        let front = ids.drop_last();
        assert forall|k: int| 0 <= k < front.len() implies front[k] != gone by {
            assert(ids[k] == front[k]);
            assert(ids.contains(ids[k]));
        }
        lemma_filter_out_absent(front, gone);
        assert(ids.contains(ids.last()));
        assert(front.push(ids.last()) =~= ids);
    } else {
        assert(without(ids, gone) =~= ids);
    }
}

} // verus!
