//! The per-connection session: validates and routes publishes (resolving the
//! acting identity through the authorization cache), validates and registers
//! inbox subscriptions, deregisters them, and tears everything down on close.
//!
//! Calls that suspend — the external authorizer, the downstream bus, relay
//! shutdown — are performed by the surrounding runtime: the session decides,
//! the caller performs the action and hands the result back.

use vstd::prelude::*;
use crate::cache::{cache_entries, cache_get, cache_new, cache_put, cache_capacity, spec_put,
    lemma_put_shape, AuthCache, DeviceCacheEntry};
use crate::kvseq::{distinct_keys, has_key, key_find, lemma_key_find, lemma_key_find_present,
    lemma_promote_distinct};
use crate::registry::{InboxRegistry, InboxSubscription, InboxSubscriptionShape};
use crate::topic::{classify_publish, classify_subscribe, classify_publish_topic,
    classify_subscribe_topic, PublishClass, PublishShape, SubscribeClass, SubscribeShape};
use crate::types::{opt_string_view, CommandFilter, CommandFilterShape, DeviceIdentity,
    GatewayOutcome, Id, PublishError, PublishOutcome, QoS, SubscribeAck, UnsubscribeAck};

verus! {

/// Default bound of the authorization cache.
pub const DEFAULT_CACHE_CAPACITY: usize = 128;

/// View of a sequence of owned strings.
pub open spec fn strings_view(v: Seq<String>) -> Seq<Seq<char>> {
    v.map_values(|t: String| t@)
}

/// First step of handling a publish: either the acting identity is already
/// known (or the publish is rejected outright), or the external authorizer
/// must be asked about the named proxied device.
pub enum EvalStep {
    Resolved { channel: String, device: DeviceIdentity },
    NeedAuthorization { channel: String, as_device: String },
    Rejected { error: PublishError },
}

/// Mathematical shape of an `EvalStep`.
pub enum EvalStepShape {
    Resolved { channel: Seq<char>, device: Seq<char> },
    NeedAuthorization { channel: Seq<char>, as_device: Seq<char> },
    Rejected { error: PublishError },
}

impl View for EvalStep {
    type V = EvalStepShape;

    open spec fn view(&self) -> EvalStepShape {
        match self {
            EvalStep::Resolved { channel, device } => EvalStepShape::Resolved {
                channel: channel@,
                device: device@,
            },
            EvalStep::NeedAuthorization { channel, as_device } => (
            EvalStepShape::NeedAuthorization { channel: channel@, as_device: as_device@ }),
            EvalStep::Rejected { error } => EvalStepShape::Rejected { error: *error },
        }
    }
}

/// Identity resolution as a function of the cache contents, the session's own
/// device and the topic: one segment acts as self; two segments consult the
/// cache (hit with a grant resolves, hit with a denial rejects, miss asks the
/// authorizer); anything else is an invalid topic.
pub open spec fn eval_step_spec(
    cache: Seq<(Seq<char>, Option<Seq<char>>)>,
    self_device: Seq<char>,
    topic: Seq<char>,
) -> EvalStepShape {
    match classify_publish(topic) {
        PublishShape::Own { channel } => EvalStepShape::Resolved { channel, device: self_device },
        PublishShape::Proxied { channel, as_device } => {
            let i = key_find(cache, as_device);
            if i >= 0 {
                match cache[i].1 {
                    Some(granted) => EvalStepShape::Resolved { channel, device: granted },
                    None => EvalStepShape::Rejected { error: PublishError::NotAuthorized },
                }
            } else {
                EvalStepShape::NeedAuthorization { channel, as_device }
            }
        },
        PublishShape::Invalid => EvalStepShape::Rejected { error: PublishError::TopicNameInvalid },
    }
}

/// What resolving a publish topic does to the cache: a hit moves the key to
/// the most-recent position, everything else leaves the cache alone.
pub open spec fn eval_cache_after(
    cache: Seq<(Seq<char>, Option<Seq<char>>)>,
    topic: Seq<char>,
) -> Seq<(Seq<char>, Option<Seq<char>>)> {
    match classify_publish(topic) {
        PublishShape::Proxied { as_device, .. } => {
            let i = key_find(cache, as_device);
            if i >= 0 {
                crate::kvseq::promote(cache, i)
            } else {
                cache
            }
        },
        _ => cache,
    }
}

/// Everything the downstream bus needs for one forwarded publish.
pub struct PublishRequest {
    pub channel: String,
    pub application: String,
    pub device_id: String,
    pub sender_id: String,
    pub content_type: Option<String>,
}

/// Mathematical shape of a `PublishRequest`.
pub struct PublishRequestShape {
    pub channel: Seq<char>,
    pub application: Seq<char>,
    pub device_id: Seq<char>,
    pub sender_id: Seq<char>,
    pub content_type: Option<Seq<char>>,
}

impl View for PublishRequest {
    type V = PublishRequestShape;

    open spec fn view(&self) -> PublishRequestShape {
        PublishRequestShape {
            channel: self.channel@,
            application: self.application@,
            device_id: self.device_id@,
            sender_id: self.sender_id@,
            content_type: opt_string_view(self.content_type),
        }
    }
}

/// Decision on a publish event: forward it downstream under the resolved
/// identity, ask the authorizer first, or fail it.
pub enum PublishStep {
    Forward(PublishRequest),
    NeedAuthorization { channel: String, as_device: String },
    Fail(PublishError),
}

/// A subscribe batch as received from the transport: the requested topic
/// filters, and whether the batch carried a protocol-level subscription
/// identifier.
pub struct SubscribeRequest {
    pub topics: Vec<String>,
    pub has_subscription_id: bool,
}

/// Parameters of a command relay the caller must start.
pub struct RelaySpawn {
    pub topic_filter: String,
    pub filter: CommandFilter,
    pub force_device: bool,
}

/// Mathematical shape of a `RelaySpawn`.
pub struct RelaySpawnShape {
    pub topic_filter: Seq<char>,
    pub filter: CommandFilterShape,
    pub force_device: bool,
}

impl View for RelaySpawn {
    type V = RelaySpawnShape;

    open spec fn view(&self) -> RelaySpawnShape {
        RelaySpawnShape {
            topic_filter: self.topic_filter@,
            filter: self.filter@,
            force_device: self.force_device,
        }
    }
}

/// Per-entry result of a subscribe batch: the acknowledgement to send, and
/// the relay to start, if one was created.
pub struct SubscribeDecision {
    pub ack: SubscribeAck,
    pub spawn: Option<RelaySpawn>,
}

/// Mathematical shape of a `SubscribeDecision`.
pub struct SubscribeDecisionShape {
    pub ack: SubscribeAck,
    pub spawn: Option<RelaySpawnShape>,
}

impl View for SubscribeDecision {
    type V = SubscribeDecisionShape;

    open spec fn view(&self) -> SubscribeDecisionShape {
        SubscribeDecisionShape {
            ack: self.ack,
            spawn: match &self.spawn {
                Some(s) => Some(s@),
                None => None,
            },
        }
    }
}

/// View of a sequence of subscribe decisions.
pub open spec fn subscribe_decisions_view(v: Seq<SubscribeDecision>) -> Seq<SubscribeDecisionShape> {
    v.map_values(|d: SubscribeDecision| d@)
}

/// Per-entry result of an unsubscribe batch: the acknowledgement to send,
/// and the relay whose shutdown the caller must await, if one was removed.
pub struct UnsubscribeDecision {
    pub ack: UnsubscribeAck,
    pub stopped: Option<InboxSubscription>,
}

/// Mathematical shape of an `UnsubscribeDecision`.
pub struct UnsubscribeDecisionShape {
    pub ack: UnsubscribeAck,
    pub stopped: Option<InboxSubscriptionShape>,
}

impl View for UnsubscribeDecision {
    type V = UnsubscribeDecisionShape;

    open spec fn view(&self) -> UnsubscribeDecisionShape {
        UnsubscribeDecisionShape {
            ack: self.ack,
            stopped: match &self.stopped {
                Some(s) => Some(s@),
                None => None,
            },
        }
    }
}

/// View of a sequence of unsubscribe decisions.
pub open spec fn unsubscribe_decisions_view(v: Seq<UnsubscribeDecision>) -> Seq<
    UnsubscribeDecisionShape,
> {
    v.map_values(|d: UnsubscribeDecision| d@)
}

/// View of drained registry contents.
pub open spec fn drained_view(v: Seq<(String, InboxSubscription)>) -> Seq<
    (Seq<char>, InboxSubscriptionShape),
> {
    v.map_values(|e: (String, InboxSubscription)| (e.0@, e.1@))
}

/// Registering one filter in the registry: an existing filter is acknowledged
/// but nothing new is created; a new one is appended and its relay spawned.
/// Either way the acknowledgement grants the lowest quality of service.
pub open spec fn subscribe_entry_spec(
    reg: Seq<(Seq<char>, InboxSubscriptionShape)>,
    topic: Seq<char>,
    filter: CommandFilterShape,
    force_device: bool,
) -> (Seq<(Seq<char>, InboxSubscriptionShape)>, SubscribeDecisionShape) {
    if has_key(reg, topic) {
        (reg, SubscribeDecisionShape { ack: SubscribeAck::Granted(QoS::AtMostOnce), spawn: None })
    } else {
        (
            reg.push((topic, InboxSubscriptionShape { filter, force_device })),
            SubscribeDecisionShape {
                ack: SubscribeAck::Granted(QoS::AtMostOnce),
                spawn: Some(
                    RelaySpawnShape { topic_filter: topic, filter, force_device },
                ),
            },
        )
    }
}

/// Handling one topic of a subscribe batch: the wildcard and empty-proxy
/// shapes register a non-forced relay, the proxied-device shape a forced one,
/// and everything else is acknowledged with an unspecified error.
pub open spec fn subscribe_one_spec(
    reg: Seq<(Seq<char>, InboxSubscriptionShape)>,
    app: Seq<char>,
    dev: Seq<char>,
    topic: Seq<char>,
) -> (Seq<(Seq<char>, InboxSubscriptionShape)>, SubscribeDecisionShape) {
    match classify_subscribe(topic) {
        SubscribeShape::AllDevices => subscribe_entry_spec(
            reg,
            topic,
            CommandFilterShape::Wildcard { app_id: app, device_id: dev },
            false,
        ),
        SubscribeShape::SelfOnly => subscribe_entry_spec(
            reg,
            topic,
            CommandFilterShape::Device { app_id: app, device_id: dev },
            false,
        ),
        SubscribeShape::ProxiedDevice { device } => subscribe_entry_spec(
            reg,
            topic,
            CommandFilterShape::ProxiedDevice { app_id: app, device_id: dev, name: device },
            true,
        ),
        SubscribeShape::Invalid => (
            reg,
            SubscribeDecisionShape { ack: SubscribeAck::UnspecifiedError, spawn: None },
        ),
    }
}

/// A whole subscribe batch, topic by topic, left to right.
pub open spec fn subscribe_batch_spec(
    reg: Seq<(Seq<char>, InboxSubscriptionShape)>,
    app: Seq<char>,
    dev: Seq<char>,
    topics: Seq<Seq<char>>,
) -> (Seq<(Seq<char>, InboxSubscriptionShape)>, Seq<SubscribeDecisionShape>)
    decreases topics.len(),
{
    if topics.len() == 0 {
        (reg, Seq::<SubscribeDecisionShape>::empty())
    } else {
        let step = subscribe_one_spec(reg, app, dev, topics[0]);
        let rest = subscribe_batch_spec(step.0, app, dev, topics.drop_first());
        (rest.0, seq![step.1] + rest.1)
    }
}

/// Handling one topic of an unsubscribe batch: a live filter is removed and
/// its relay handed back for shutdown; a filter with no live relay is
/// acknowledged with the explicit "no subscription existed" reason and the
/// registry is left unchanged.
pub open spec fn unsubscribe_one_spec(
    reg: Seq<(Seq<char>, InboxSubscriptionShape)>,
    topic: Seq<char>,
) -> (Seq<(Seq<char>, InboxSubscriptionShape)>, UnsubscribeDecisionShape) {
    let i = key_find(reg, topic);
    if i >= 0 {
        (
            reg.remove(i),
            UnsubscribeDecisionShape { ack: UnsubscribeAck::Success, stopped: Some(reg[i].1) },
        )
    } else {
        (reg, UnsubscribeDecisionShape { ack: UnsubscribeAck::NoSubscriptionExisted, stopped: None })
    }
}

/// A whole unsubscribe batch, topic by topic, left to right.
pub open spec fn unsubscribe_batch_spec(
    reg: Seq<(Seq<char>, InboxSubscriptionShape)>,
    topics: Seq<Seq<char>>,
) -> (Seq<(Seq<char>, InboxSubscriptionShape)>, Seq<UnsubscribeDecisionShape>)
    decreases topics.len(),
{
    if topics.len() == 0 {
        (reg, Seq::<UnsubscribeDecisionShape>::empty())
    } else {
        let step = unsubscribe_one_spec(reg, topics[0]);
        let rest = unsubscribe_batch_spec(step.0, topics.drop_first());
        (rest.0, seq![step.1] + rest.1)
    }
}

/// One established, authenticated connection: the owning application and
/// device identity, the authorization cache, and the inbox subscription
/// registry.
pub struct Session {
    application: String,
    device: DeviceIdentity,
    id: Id,
    cache: AuthCache,
    registry: InboxRegistry,
}

impl Session {
    /// Name of the owning application.
    pub closed spec fn app_name(self) -> Seq<char> {
        self.application@
    }

    /// Name of the authenticated device.
    pub closed spec fn device_name(self) -> Seq<char> {
        self.device@
    }

    /// Contents of the authorization cache, most recently used first.
    pub closed spec fn cache_model(self) -> Seq<(Seq<char>, Option<Seq<char>>)> {
        cache_entries(self.cache)
    }

    /// Bound of the authorization cache.
    pub closed spec fn cache_cap(self) -> nat {
        cache_capacity(self.cache)
    }

    /// Contents of the inbox subscription registry, in insertion order.
    pub closed spec fn inbox_model(self) -> Seq<(Seq<char>, InboxSubscriptionShape)> {
        self.registry@
    }

    /// Correlation identifier mirrors the identities.
    pub closed spec fn id_wf(self) -> bool {
        self.id.app_id@ == self.application@ && self.id.device_id@ == self.device@
            && self.registry.wf()
    }

    /// Session well-formedness: the cache holds pairwise-distinct keys within
    /// its positive bound, and the registry holds one live relay per filter.
    pub open spec fn wf(self) -> bool {
        &&& distinct_keys(self.cache_model())
        &&& self.cache_model().len() <= self.cache_cap()
        &&& 1 <= self.cache_cap()
        &&& distinct_keys(self.inbox_model())
        &&& self.id_wf()
    }

    /// A session for the authenticated `device` under `application`, with an
    /// empty registry and an empty cache bounded by the default capacity.
    pub fn new(application: String, device: DeviceIdentity) -> (s: Session)
        ensures
            s.wf(),
            s.app_name() == application@,
            s.device_name() == device@,
            s.cache_model() == Seq::<(Seq<char>, Option<Seq<char>>)>::empty(),
            s.cache_cap() == DEFAULT_CACHE_CAPACITY as nat,
            s.inbox_model() == Seq::<(Seq<char>, InboxSubscriptionShape)>::empty(),
    {
        Session::with_cache_capacity(application, device, DEFAULT_CACHE_CAPACITY)
    }

    /// As `new`, with an explicit cache bound.
    pub fn with_cache_capacity(application: String, device: DeviceIdentity, capacity: usize) -> (s:
        Session)
        requires
            1 <= capacity,
        ensures
            s.wf(),
            s.app_name() == application@,
            s.device_name() == device@,
            s.cache_model() == Seq::<(Seq<char>, Option<Seq<char>>)>::empty(),
            s.cache_cap() == capacity as nat,
            s.inbox_model() == Seq::<(Seq<char>, InboxSubscriptionShape)>::empty(),
    {
        let id = Id::new(application.clone(), device.name.clone());
        Session {
            application,
            device,
            id,
            cache: cache_new(capacity),
            registry: InboxRegistry::new(),
        }
    }

    /// The session's correlation identifier.
    pub fn id(&self) -> (r: &Id)
        requires
            self.wf(),
        ensures
            r.app_id@ == self.app_name(),
            r.device_id@ == self.device_name(),
    {
        &self.id
    }

    /// Number of live inbox subscriptions.
    pub fn subscription_count(&self) -> (n: usize)
        ensures
            n == self.inbox_model().len(),
    {
        self.registry.len()
    }

    /// Whether a relay is live under `topic_filter`.
    pub fn is_subscribed(&self, topic_filter: &String) -> (b: bool)
        requires
            self.wf(),
        ensures
            b == has_key(self.inbox_model(), topic_filter@),
    {
        self.registry.contains(topic_filter)
    }

    /// Resolve the acting device for a publish topic from the session's own
    /// identity and the cache, exactly as `eval_step_spec` says; a cache hit
    /// refreshes the key's recency and nothing else changes.
    pub fn eval_device(&mut self, topic: &str) -> (r: EvalStep)
        requires
            old(self).wf(),
        ensures
            final(self).wf(),
            final(self).app_name() == old(self).app_name(),
            final(self).device_name() == old(self).device_name(),
            final(self).cache_cap() == old(self).cache_cap(),
            final(self).inbox_model() == old(self).inbox_model(),
            r@ == eval_step_spec(old(self).cache_model(), old(self).device_name(), topic@),
            final(self).cache_model() == eval_cache_after(old(self).cache_model(), topic@),
    {
        match classify_publish_topic(topic) {
            PublishClass::Own { channel } => EvalStep::Resolved {
                channel,
                device: self.device.clone(),
            },
            PublishClass::Proxied { channel, as_device } => {
                let ghost m = cache_entries(self.cache);
                let looked = cache_get(&mut self.cache, &as_device);
                proof {
                    let i = key_find(m, as_device@);
                    if i >= 0 {
                        lemma_promote_distinct(m, i);
                    }
                }
                match looked {
                    Some(entry) => match entry.device {
                        Some(granted) => EvalStep::Resolved { channel, device: granted },
                        None => EvalStep::Rejected { error: PublishError::NotAuthorized },
                    },
                    None => EvalStep::NeedAuthorization { channel, as_device },
                }
            },
            PublishClass::Invalid => EvalStep::Rejected { error: PublishError::TopicNameInvalid },
        }
    }

    /// Record the authorizer's answer about `as_device` and turn it into the
    /// publish's fate: a definitive pass caches the grant and resolves, any
    /// other definitive answer caches a denial and rejects, and a transport
    /// failure of the authorizer is an internal error that caches nothing.
    pub fn complete_authorization(
        &mut self,
        as_device: String,
        outcome: Result<GatewayOutcome, String>,
    ) -> (r: Result<DeviceIdentity, PublishError>)
        requires
            old(self).wf(),
        ensures
            final(self).wf(),
            final(self).app_name() == old(self).app_name(),
            final(self).device_name() == old(self).device_name(),
            final(self).cache_cap() == old(self).cache_cap(),
            final(self).inbox_model() == old(self).inbox_model(),
            match outcome {
                Ok(GatewayOutcome::Pass(granted)) => (r matches Ok(d) && d@ == granted@)
                    && final(self).cache_model() == spec_put(
                    old(self).cache_model(),
                    as_device@,
                    Some(granted@),
                    old(self).cache_cap(),
                ),
                Ok(GatewayOutcome::Other) => (r matches Err(e) && e is NotAuthorized)
                    && final(self).cache_model() == spec_put(
                    old(self).cache_model(),
                    as_device@,
                    None,
                    old(self).cache_cap(),
                ),
                Err(_) => (r matches Err(e) && e matches PublishError::InternalError(detail)
                    && detail@ == "Failed to authorize device"@) && final(self).cache_model()
                    == old(self).cache_model(),
            },
    {
        match outcome {
            Ok(GatewayOutcome::Pass(granted)) => {
                proof {
                    lemma_put_shape(
                        cache_entries(self.cache),
                        as_device@,
                        Some(granted@),
                        cache_capacity(self.cache),
                    );
                }
                let resolved = granted.clone();
                cache_put(&mut self.cache, as_device, DeviceCacheEntry { device: Some(granted) });
                Ok(resolved)
            },
            Ok(GatewayOutcome::Other) => {
                proof {
                    lemma_put_shape(
                        cache_entries(self.cache),
                        as_device@,
                        None,
                        cache_capacity(self.cache),
                    );
                }
                cache_put(&mut self.cache, as_device, DeviceCacheEntry { device: None });
                Err(PublishError::NotAuthorized)
            },
            Err(_) => Err(PublishError::InternalError("Failed to authorize device".to_owned())),
        }
    }

    /// Decide a publish event: resolve the acting identity and either build
    /// the downstream request, demand an authorizer round trip, or fail with
    /// the resolution error.
    pub fn handle_publish(&mut self, topic: &str, content_type: Option<String>) -> (r: PublishStep)
        requires
            old(self).wf(),
        ensures
            final(self).wf(),
            final(self).app_name() == old(self).app_name(),
            final(self).device_name() == old(self).device_name(),
            final(self).cache_cap() == old(self).cache_cap(),
            final(self).inbox_model() == old(self).inbox_model(),
            final(self).cache_model() == eval_cache_after(old(self).cache_model(), topic@),
            match eval_step_spec(old(self).cache_model(), old(self).device_name(), topic@) {
                EvalStepShape::Resolved { channel, device } => r matches PublishStep::Forward(q)
                    && q@ == (PublishRequestShape {
                    channel,
                    application: old(self).app_name(),
                    device_id: device,
                    sender_id: old(self).device_name(),
                    content_type: opt_string_view(content_type),
                }),
                EvalStepShape::NeedAuthorization { channel, as_device } => r matches (
                PublishStep::NeedAuthorization { channel: c, as_device: a }) && c@ == channel && a@
                    == as_device,
                EvalStepShape::Rejected { error } => r matches PublishStep::Fail(e) && e == error,
            },
    {
        match self.eval_device(topic) {
            EvalStep::Resolved { channel, device } => PublishStep::Forward(
                PublishRequest {
                    channel,
                    application: self.application.clone(),
                    device_id: device.name,
                    sender_id: self.device.name.clone(),
                    content_type,
                },
            ),
            EvalStep::NeedAuthorization { channel, as_device } => PublishStep::NeedAuthorization {
                channel,
                as_device,
            },
            EvalStep::Rejected { error } => PublishStep::Fail(error),
        }
    }

    /// Register one filter and say whether a relay must be started.
    fn subscribe_inbox(
        &mut self,
        topic_filter: String,
        filter: CommandFilter,
        force_device: bool,
    ) -> (r: SubscribeDecision)
        requires
            old(self).wf(),
        ensures
            final(self).wf(),
            final(self).app_name() == old(self).app_name(),
            final(self).device_name() == old(self).device_name(),
            final(self).cache_cap() == old(self).cache_cap(),
            final(self).cache_model() == old(self).cache_model(),
            ({
                let step = subscribe_entry_spec(
                    old(self).inbox_model(),
                    topic_filter@,
                    filter@,
                    force_device,
                );
                final(self).inbox_model() == step.0 && r@ == step.1
            }),
    {
        let spawn_filter = filter.clone();
        let created = self.registry.subscribe(
            topic_filter.clone(),
            InboxSubscription { filter, force_device },
        );
        if created {
            SubscribeDecision {
                ack: SubscribeAck::Granted(QoS::AtMostOnce),
                spawn: Some(RelaySpawn { topic_filter, filter: spawn_filter, force_device }),
            }
        } else {
            SubscribeDecision { ack: SubscribeAck::Granted(QoS::AtMostOnce), spawn: None }
        }
    }

    /// Handle one topic of a subscribe batch.
    fn subscribe_one(&mut self, topic: &String) -> (r: SubscribeDecision)
        requires
            old(self).wf(),
        ensures
            final(self).wf(),
            final(self).app_name() == old(self).app_name(),
            final(self).device_name() == old(self).device_name(),
            final(self).cache_cap() == old(self).cache_cap(),
            final(self).cache_model() == old(self).cache_model(),
            ({
                let step = subscribe_one_spec(
                    old(self).inbox_model(),
                    old(self).app_name(),
                    old(self).device_name(),
                    topic@,
                );
                final(self).inbox_model() == step.0 && r@ == step.1
            }),
    {
        match classify_subscribe_topic(topic.as_str()) {
            SubscribeClass::AllDevices => {
                let filter = CommandFilter::wildcard(
                    self.id.app_id.clone(),
                    self.id.device_id.clone(),
                );
                self.subscribe_inbox(topic.clone(), filter, false)
            },
            SubscribeClass::SelfOnly => {
                let filter = CommandFilter::device(
                    self.id.app_id.clone(),
                    self.id.device_id.clone(),
                );
                self.subscribe_inbox(topic.clone(), filter, false)
            },
            SubscribeClass::ProxiedDevice { device } => {
                let filter = CommandFilter::proxied_device(
                    self.id.app_id.clone(),
                    self.id.device_id.clone(),
                    device,
                );
                self.subscribe_inbox(topic.clone(), filter, true)
            },
            SubscribeClass::Invalid => SubscribeDecision {
                ack: SubscribeAck::UnspecifiedError,
                spawn: None,
            },
        }
    }

    /// Handle a subscribe batch. A batch carrying a subscription identifier
    /// is rejected wholesale — every entry acknowledged with "subscription
    /// identifiers not supported", nothing registered. Otherwise each topic
    /// is classified and handled as `subscribe_batch_spec` says.
    pub fn subscribe(&mut self, request: &SubscribeRequest) -> (r: Vec<SubscribeDecision>)
        requires
            old(self).wf(),
        ensures
            final(self).wf(),
            final(self).app_name() == old(self).app_name(),
            final(self).device_name() == old(self).device_name(),
            final(self).cache_cap() == old(self).cache_cap(),
            final(self).cache_model() == old(self).cache_model(),
            r@.len() == request.topics@.len(),
            request.has_subscription_id ==> final(self).inbox_model() == old(self).inbox_model()
                && forall|j: int|
                0 <= j < r@.len() ==> (#[trigger] r@[j]).ack is SubscriptionIdentifiersNotSupported
                    && r@[j].spawn is None,
            !request.has_subscription_id ==> ({
                let batch = subscribe_batch_spec(
                    old(self).inbox_model(),
                    old(self).app_name(),
                    old(self).device_name(),
                    strings_view(request.topics@),
                );
                final(self).inbox_model() == batch.0 && subscribe_decisions_view(r@) == batch.1
            }),
    {
        let n = request.topics.len();
        let mut out: Vec<SubscribeDecision> = Vec::new();
        if request.has_subscription_id {
            let mut i: usize = 0;
            while i < n
                invariant
                    out@.len() == i,
                    0 <= i <= n,
                    forall|j: int|
                        0 <= j < i ==> (#[trigger] out@[j]).ack
                            is SubscriptionIdentifiersNotSupported && out@[j].spawn is None,
                decreases n - i,
            {
                out.push(
                    SubscribeDecision {
                        ack: SubscribeAck::SubscriptionIdentifiersNotSupported,
                        spawn: None,
                    },
                );
                i = i + 1;
            }
            return out;
        }
        let ghost topics_v = strings_view(request.topics@);
        let ghost app0 = self.app_name();
        let ghost dev0 = self.device_name();
        let ghost reg0 = self.inbox_model();
        let ghost cache0 = self.cache_model();
        proof {
            assert(topics_v.subrange(0, topics_v.len() as int) =~= topics_v);
            assert(subscribe_decisions_view(out@) + subscribe_batch_spec(
                reg0,
                app0,
                dev0,
                topics_v,
            ).1 =~= subscribe_batch_spec(reg0, app0, dev0, topics_v).1);
        }
        let mut i: usize = 0;
        while i < n
            invariant
                0 <= i <= n,
                n == request.topics@.len(),
                topics_v == strings_view(request.topics@),
                self.wf(),
                self.app_name() == app0,
                self.device_name() == dev0,
                self.cache_cap() == old(self).cache_cap(),
                self.cache_model() == cache0,
                out@.len() == i,
                subscribe_batch_spec(reg0, app0, dev0, topics_v) == ({
                    let rest = subscribe_batch_spec(
                        self.inbox_model(),
                        app0,
                        dev0,
                        topics_v.subrange(i as int, topics_v.len() as int),
                    );
                    (rest.0, subscribe_decisions_view(out@) + rest.1)
                }),
            decreases n - i,
        {
            let ghost reg_here = self.inbox_model();
            let ghost remaining = topics_v.subrange(i as int, topics_v.len() as int);
            let decision = self.subscribe_one(&request.topics[i]);
            proof {
                assert(remaining[0] == topics_v[i as int]);
                assert(remaining.drop_first() =~= topics_v.subrange(
                    i + 1,
                    topics_v.len() as int,
                ));
                let step = subscribe_one_spec(reg_here, app0, dev0, topics_v[i as int]);
                let rest = subscribe_batch_spec(step.0, app0, dev0, remaining.drop_first());
                assert(subscribe_batch_spec(reg_here, app0, dev0, remaining) == (
                rest.0,
                seq![step.1] + rest.1,
                ));
                assert(subscribe_decisions_view(out@.push(decision)) =~= subscribe_decisions_view(
                    out@,
                ) + seq![decision@]);
                assert((subscribe_decisions_view(out@) + seq![decision@]) + rest.1
                    =~= subscribe_decisions_view(out@) + (seq![decision@] + rest.1));
            }
            out.push(decision);
            i = i + 1;
        }
        proof {
            assert(topics_v.subrange(i as int, topics_v.len() as int) =~= Seq::<
                Seq<char>,
            >::empty());
            assert(subscribe_decisions_view(out@) + Seq::<SubscribeDecisionShape>::empty()
                =~= subscribe_decisions_view(out@));
        }
        out
    }

    /// Handle an unsubscribe batch: each live filter is removed and its relay
    /// handed back for shutdown before the acknowledgement; a filter with no
    /// live relay is acknowledged with the explicit negative reason.
    pub fn unsubscribe(&mut self, topics: &Vec<String>) -> (r: Vec<UnsubscribeDecision>)
        requires
            old(self).wf(),
        ensures
            final(self).wf(),
            final(self).app_name() == old(self).app_name(),
            final(self).device_name() == old(self).device_name(),
            final(self).cache_cap() == old(self).cache_cap(),
            final(self).cache_model() == old(self).cache_model(),
            r@.len() == topics@.len(),
            ({
                let batch = unsubscribe_batch_spec(old(self).inbox_model(), strings_view(topics@));
                final(self).inbox_model() == batch.0 && unsubscribe_decisions_view(r@) == batch.1
            }),
    {
        let n = topics.len();
        let ghost topics_v = strings_view(topics@);
        let ghost reg0 = self.inbox_model();
        let ghost cache0 = self.cache_model();
        let ghost app0 = self.app_name();
        let ghost dev0 = self.device_name();
        let mut out: Vec<UnsubscribeDecision> = Vec::new();
        proof {
            assert(topics_v.subrange(0, topics_v.len() as int) =~= topics_v);
            assert(unsubscribe_decisions_view(out@) + unsubscribe_batch_spec(reg0, topics_v).1
                =~= unsubscribe_batch_spec(reg0, topics_v).1);
        }
        let mut i: usize = 0;
        while i < n
            invariant
                0 <= i <= n,
                n == topics@.len(),
                topics_v == strings_view(topics@),
                self.wf(),
                self.app_name() == app0,
                self.device_name() == dev0,
                self.cache_cap() == old(self).cache_cap(),
                self.cache_model() == cache0,
                out@.len() == i,
                unsubscribe_batch_spec(reg0, topics_v) == ({
                    let rest = unsubscribe_batch_spec(
                        self.inbox_model(),
                        topics_v.subrange(i as int, topics_v.len() as int),
                    );
                    (rest.0, unsubscribe_decisions_view(out@) + rest.1)
                }),
            decreases n - i,
        {
            let ghost reg_here = self.inbox_model();
            let ghost remaining = topics_v.subrange(i as int, topics_v.len() as int);
            let decision = match self.registry.unsubscribe(&topics[i]) {
                Some(subscription) => UnsubscribeDecision {
                    ack: UnsubscribeAck::Success,
                    stopped: Some(subscription),
                },
                None => UnsubscribeDecision {
                    ack: UnsubscribeAck::NoSubscriptionExisted,
                    stopped: None,
                },
            };
            proof {
                assert(remaining[0] == topics_v[i as int]);
                assert(remaining.drop_first() =~= topics_v.subrange(
                    i + 1,
                    topics_v.len() as int,
                ));
                let step = unsubscribe_one_spec(reg_here, topics_v[i as int]);
                let rest = unsubscribe_batch_spec(step.0, remaining.drop_first());
                assert(unsubscribe_batch_spec(reg_here, remaining) == (
                rest.0,
                seq![step.1] + rest.1,
                ));
                assert(unsubscribe_decisions_view(out@.push(decision))
                    =~= unsubscribe_decisions_view(out@) + seq![decision@]);
                assert((unsubscribe_decisions_view(out@) + seq![decision@]) + rest.1
                    =~= unsubscribe_decisions_view(out@) + (seq![decision@] + rest.1));
            }
            out.push(decision);
            i = i + 1;
        }
        proof {
            assert(topics_v.subrange(i as int, topics_v.len() as int) =~= Seq::<
                Seq<char>,
            >::empty());
            assert(unsubscribe_decisions_view(out@) + Seq::<UnsubscribeDecisionShape>::empty()
                =~= unsubscribe_decisions_view(out@));
        }
        out
    }

    /// Close the session: drain every inbox subscription. The caller must
    /// await the shutdown of every returned relay; afterwards no registry
    /// entry and no live relay remains.
    pub fn closed(&mut self) -> (drained: Vec<(String, InboxSubscription)>)
        requires
            old(self).wf(),
        ensures
            final(self).wf(),
            final(self).app_name() == old(self).app_name(),
            final(self).device_name() == old(self).device_name(),
            final(self).cache_cap() == old(self).cache_cap(),
            final(self).cache_model() == old(self).cache_model(),
            final(self).inbox_model() == Seq::<(Seq<char>, InboxSubscriptionShape)>::empty(),
            drained_view(drained@) == old(self).inbox_model(),
    {
        self.registry.close_all()
    }
}

/// Map the downstream bus's answer to the publish's protocol-level fate:
/// accepted is success, rejected an unspecified error, overload a quota
/// error, and a bus transport failure an internal error carrying the bus's
/// error text.
pub fn map_publish_outcome(outcome: Result<PublishOutcome, String>) -> (r: Result<
    (),
    PublishError,
>)
    ensures
        match outcome {
            Ok(PublishOutcome::Accepted) => r is Ok,
            Ok(PublishOutcome::Rejected) => r matches Err(e) && e is UnspecifiedError,
            Ok(PublishOutcome::QueueFull) => r matches Err(e) && e is QuotaExceeded,
            Err(detail) => r matches Err(e) && e matches PublishError::InternalError(t) && t@
                == detail@,
        },
{
    match outcome {
        Ok(PublishOutcome::Accepted) => Ok(()),
        Ok(PublishOutcome::Rejected) => Err(PublishError::UnspecifiedError),
        Ok(PublishOutcome::QueueFull) => Err(PublishError::QuotaExceeded),
        Err(detail) => Err(PublishError::InternalError(detail)),
    }
}

/// The first definitive authorization outcome for a proxied-device name is
/// cached at the most-recent position and, as long as the name stays cached,
/// every publish naming it resolves from the cache with that outcome — never
/// `NeedAuthorization`, so the authorizer is not asked a second time.
pub proof fn lemma_first_outcome_reused(
    cache: Seq<(Seq<char>, Option<Seq<char>>)>,
    self_dev: Seq<char>,
    channel: Seq<char>,
    as_device: Seq<char>,
    topic: Seq<char>,
)
    requires
        distinct_keys(cache),
        has_key(cache, as_device),
        classify_publish(topic) == (PublishShape::Proxied { channel, as_device }),
    ensures
        !(eval_step_spec(cache, self_dev, topic) is NeedAuthorization),
        eval_step_spec(cache, self_dev, topic) == (match cache[key_find(cache, as_device)].1 {
            Some(granted) => EvalStepShape::Resolved { channel, device: granted },
            None => EvalStepShape::Rejected { error: PublishError::NotAuthorized },
        }),
{
    lemma_key_find(cache, as_device);
}

/// Writing an authorization outcome leaves it at the cache's most-recent
/// position, where the very next lookup of the same name finds it.
pub proof fn lemma_outcome_cached(
    cache: Seq<(Seq<char>, Option<Seq<char>>)>,
    as_device: Seq<char>,
    outcome: Option<Seq<char>>,
    cap: nat,
)
    requires
        distinct_keys(cache),
        cache.len() <= cap,
        1 <= cap,
    ensures
        key_find(spec_put(cache, as_device, outcome, cap), as_device) == 0,
        spec_put(cache, as_device, outcome, cap)[0] == (as_device, outcome),
        has_key(spec_put(cache, as_device, outcome, cap), as_device),
{
    lemma_put_shape(cache, as_device, outcome, cap);
}

/// Subscribing twice with an identical filter string produces exactly one
/// live relay: the second subscribe leaves the registry as the first left it
/// and spawns nothing; and unsubscribing that filter afterwards removes
/// exactly one entry.
pub proof fn lemma_duplicate_subscribe(
    reg: Seq<(Seq<char>, InboxSubscriptionShape)>,
    app: Seq<char>,
    dev: Seq<char>,
    topic: Seq<char>,
)
    requires
        distinct_keys(reg),
        !(classify_subscribe(topic) is Invalid),
    ensures
        ({
            let once = subscribe_one_spec(reg, app, dev, topic);
            let twice = subscribe_one_spec(once.0, app, dev, topic);
            &&& twice.0 == once.0
            &&& twice.1.spawn is None
            &&& has_key(once.0, topic)
            &&& !has_key(reg, topic) ==> once.0.len() == reg.len() + 1
            &&& ({
                let u = unsubscribe_one_spec(once.0, topic);
                u.0.len() + 1 == once.0.len() && u.1.ack is Success
            })
        }),
{
    let once = subscribe_one_spec(reg, app, dev, topic);
    if has_key(reg, topic) {
        lemma_key_find(reg, topic);
    } else {
        lemma_key_find_present(once.0, topic, reg.len() as int);
    }
    lemma_key_find(once.0, topic);
}

/// Unsubscribing a filter string with no live relay yields the explicit "no
/// subscription existed" outcome and leaves the registry unchanged.
pub proof fn lemma_unsubscribe_absent(
    reg: Seq<(Seq<char>, InboxSubscriptionShape)>,
    topic: Seq<char>,
)
    requires
        !has_key(reg, topic),
    ensures
        unsubscribe_one_spec(reg, topic).0 == reg,
        unsubscribe_one_spec(reg, topic).1.ack is NoSubscriptionExisted,
        unsubscribe_one_spec(reg, topic).1.stopped is None,
{
}

} // verus!
