//! Inbox subscription registry: a map from subscribed topic filter to the
//! parameters of its live command relay. The key set mirrors the set of
//! active relays exactly: an entry is created on first subscribe, removed on
//! unsubscribe (handing the relay back for shutdown), and drained wholesale
//! on session close.

use vstd::prelude::*;
use crate::kvseq::{distinct_keys, has_key, key_find, lemma_key_find, lemma_key_find_present,
    lemma_key_find_unique};
use crate::topic::str_eq;
use crate::types::{spec_command_matches, CommandFilter, CommandFilterShape, CommandMessage};

verus! {

/// The parameters a command relay runs with: its scope filter and whether an
/// exact proxied-device match is forced.
pub struct InboxSubscription {
    pub filter: CommandFilter,
    pub force_device: bool,
}

/// Mathematical shape of an `InboxSubscription`.
pub struct InboxSubscriptionShape {
    pub filter: CommandFilterShape,
    pub force_device: bool,
}

impl View for InboxSubscription {
    type V = InboxSubscriptionShape;

    open spec fn view(&self) -> InboxSubscriptionShape {
        InboxSubscriptionShape { filter: self.filter@, force_device: self.force_device }
    }
}

impl Clone for InboxSubscription {
    fn clone(&self) -> (r: Self)
        ensures
            r == *self,
    {
        InboxSubscription { filter: self.filter.clone(), force_device: self.force_device }
    }
}

/// Whether a relay running with this subscription forwards a command
/// addressed to `command`, exactly as `spec_command_matches` says: the
/// matching rule is total over the three filter scopes, and a forced
/// subscription demands the exact proxied-device identity.
pub fn command_matches(subscription: &InboxSubscription, command: &CommandMessage) -> (b: bool)
    ensures
        b == spec_command_matches(
            subscription.filter@,
            subscription.force_device,
            command.application@,
            command.device@,
        ),
{
    if subscription.force_device {
        match &subscription.filter {
            CommandFilter::ProxiedDevice { app_id, name, .. } => str_eq(
                app_id.as_str(),
                command.application.as_str(),
            ) && str_eq(name.as_str(), command.device.as_str()),
            _ => false,
        }
    } else {
        match &subscription.filter {
            CommandFilter::Wildcard { app_id, .. } => str_eq(
                app_id.as_str(),
                command.application.as_str(),
            ),
            CommandFilter::Device { app_id, device_id } => str_eq(
                app_id.as_str(),
                command.application.as_str(),
            ) && str_eq(device_id.as_str(), command.device.as_str()),
            CommandFilter::ProxiedDevice { app_id, name, .. } => str_eq(
                app_id.as_str(),
                command.application.as_str(),
            ) && str_eq(name.as_str(), command.device.as_str()),
        }
    }
}

/// The registry: filter string to relay parameters, insertion order kept,
/// keys pairwise distinct.
pub struct InboxRegistry {
    entries: Vec<(String, InboxSubscription)>,
}

impl View for InboxRegistry {
    type V = Seq<(Seq<char>, InboxSubscriptionShape)>;

    closed spec fn view(&self) -> Seq<(Seq<char>, InboxSubscriptionShape)> {
        self.entries@.map_values(|e: (String, InboxSubscription)| (e.0@, e.1@))
    }
}

impl InboxRegistry {
    /// Keys are pairwise distinct: one live relay per filter string.
    pub open spec fn wf(self) -> bool {
        distinct_keys(self@)
    }

    pub fn new() -> (r: InboxRegistry)
        ensures
            r@ == Seq::<(Seq<char>, InboxSubscriptionShape)>::empty(),
            r.wf(),
    {
        let r = InboxRegistry { entries: Vec::new() };
        proof {
            assert(r@ =~= Seq::<(Seq<char>, InboxSubscriptionShape)>::empty());
        }
        r
    }

    /// Index of the entry under `topic_filter`, or none.
    fn find(&self, topic_filter: &String) -> (r: Option<usize>)
        requires
            self.wf(),
        ensures
            ({
                let i = key_find(self@, topic_filter@);
                match r {
                    Some(j) => i == j && 0 <= i < self@.len(),
                    None => i == -1,
                }
            }),
    {
        let n = self.entries.len();
        let mut j: usize = 0;
        while j < n
            invariant
                0 <= j <= n,
                n == self.entries.len(),
                self.wf(),
                self@.len() == n,
                forall|a: int| 0 <= a < j ==> self@[a].0 != topic_filter@,
            decreases n - j,
        {
            if self.entries[j].0 == *topic_filter {
                proof {
                    assert(self@[j as int].0 == topic_filter@);
                    lemma_key_find_unique(self@, topic_filter@, j as int);
                }
                return Some(j);
            }
            proof {
                assert(self@[j as int].0 == self.entries@[j as int].0@);
            }
            j = j + 1;
        }
        proof {
            lemma_key_find(self@, topic_filter@);
            let i = key_find(self@, topic_filter@);
            if i >= 0 {
                assert(self@[i].0 == topic_filter@);
            }
        }
        None
    }

    /// Whether a relay is live under `topic_filter`.
    pub fn contains(&self, topic_filter: &String) -> (b: bool)
        requires
            self.wf(),
        ensures
            b == has_key(self@, topic_filter@),
    {
        proof {
            lemma_key_find(self@, topic_filter@);
        }
        self.find(topic_filter).is_some()
    }

    /// Number of live relays.
    pub fn len(&self) -> (n: usize)
        ensures
            n == self@.len(),
    {
        self.entries.len()
    }

    /// Register a relay under `topic_filter`. A filter already registered is
    /// left untouched (idempotent re-subscribe) and nothing is created;
    /// otherwise the entry is appended and a relay must be started.
    pub fn subscribe(&mut self, topic_filter: String, subscription: InboxSubscription) -> (created:
        bool)
        requires
            old(self).wf(),
        ensures
            final(self).wf(),
            created == !has_key(old(self)@, topic_filter@),
            created ==> final(self)@ == old(self)@.push((topic_filter@, subscription@)),
            !created ==> final(self)@ == old(self)@,
    {
        proof {
            lemma_key_find(self@, topic_filter@);
        }
        match self.find(&topic_filter) {
            Some(_) => false,
            None => {
                let ghost before = self@;
                self.entries.push((topic_filter, subscription));
                proof {
                    assert(self@ =~= before.push((topic_filter@, subscription@)));
                    lemma_key_find(before, topic_filter@);
                    assert forall|a: int, b: int| 0 <= a < b < self@.len() implies self@[a].0
                        != self@[b].0 by {
                        if b == self@.len() - 1 {
                            assert(self@[a] == before[a]);
                        }
                    }
                }
                true
            },
        }
    }

    /// Remove the entry under `topic_filter`, handing back its relay
    /// parameters for shutdown; nothing existed, nothing changes.
    pub fn unsubscribe(&mut self, topic_filter: &String) -> (removed: Option<InboxSubscription>)
        requires
            old(self).wf(),
        ensures
            final(self).wf(),
            ({
                let i = key_find(old(self)@, topic_filter@);
                if i >= 0 {
                    (removed matches Some(s) && s@ == old(self)@[i].1) && final(self)@ == old(
                        self,
                    )@.remove(i)
                } else {
                    removed is None && final(self)@ == old(self)@
                }
            }),
    {
        match self.find(topic_filter) {
            Some(j) => {
                let ghost before = self@;
                let (_, subscription) = self.entries.remove(j);
                proof {
                    assert(self@ =~= before.remove(j as int));
                    assert forall|a: int, b: int| 0 <= a < b < self@.len() implies self@[a].0
                        != self@[b].0 by {
                        assert(self@[a] == before[if a < j { a } else { a + 1 }]);
                        assert(self@[b] == before[if b < j { b } else { b + 1 }]);
                    }
                }
                Some(subscription)
            },
            None => None,
        }
    }

    /// Drain every entry: the whole contents come back for shutdown and the
    /// registry is empty afterwards.
    pub fn close_all(&mut self) -> (drained: Vec<(String, InboxSubscription)>)
        ensures
            final(self)@ == Seq::<(Seq<char>, InboxSubscriptionShape)>::empty(),
            final(self).wf(),
            drained@.map_values(|e: (String, InboxSubscription)| (e.0@, e.1@)) == old(self)@,
    {
        let mut taken: Vec<(String, InboxSubscription)> = Vec::new();
        core::mem::swap(&mut self.entries, &mut taken);
        proof {
            assert(self@ =~= Seq::<(Seq<char>, InboxSubscriptionShape)>::empty());
        }
        taken
    }
}

} // verus!
