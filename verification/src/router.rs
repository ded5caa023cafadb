//! The SFU router: the process-wide registries of publishers (one per
//! publishing user) and consumers (one per subscription), and the
//! operations that create, look up and tear down registry entries.
//!
//! The media transports behind these entries are owned by the embedding
//! program; the router records which peers exist, which publisher each
//! consumer draws from, and whether a publisher's inbound audio track has
//! resolved. Every operation states exactly how it changes the registry
//! model and preserves the registry invariants: publishers are keyed by
//! their user identifier, consumer identifiers are distinct, and every
//! consumer references a publisher that exists and has a resolved track.

use vstd::prelude::*;
use vstd::hash_map::StringHashMap;

use crate::ids::{ConsumerId, TrackId};
use crate::util::{lemma_map_values_empty, lemma_map_values_insert, lemma_map_values_remove, str_eq};

verus! {

/// Registry entry for a peer that publishes one inbound audio stream.
/// The media transport itself is held by the embedding program.
pub struct Publisher {
    pub user_id: String,
    pub username: String,
    /// Identifier assigned to the inbound audio track when it arrives;
    /// the track materializes asynchronously after the remote answer is
    /// applied, so a freshly created publisher has none.
    pub audio_track_id: Option<TrackId>,
}

/// Spec-level mirror of `Publisher`.
#[verifier::ext_equal]
pub struct PublisherModel {
    pub user_id: Seq<char>,
    pub username: Seq<char>,
    pub track_id: Option<Seq<char>>,
}

impl View for Publisher {
    type V = PublisherModel;

    open spec fn view(&self) -> PublisherModel {
        PublisherModel {
            user_id: self.user_id@,
            username: self.username@,
            track_id: match self.audio_track_id {
                Option::Some(t) => Option::Some(t@),
                Option::None => Option::None,
            },
        }
    }
}

/// Registry entry for a peer that delivers one publisher's audio to one
/// subscriber. The media transport and the forwarding task are held by
/// the embedding program.
pub struct Consumer {
    pub consumer_id: ConsumerId,
    pub publisher_user_id: String,
    pub subscriber_user_id: String,
}

/// Spec-level mirror of `Consumer`.
#[verifier::ext_equal]
pub struct ConsumerModel {
    pub consumer_id: Seq<char>,
    pub publisher_user_id: Seq<char>,
    pub subscriber_user_id: Seq<char>,
}

impl View for Consumer {
    type V = ConsumerModel;

    open spec fn view(&self) -> ConsumerModel {
        ConsumerModel {
            consumer_id: self.consumer_id@,
            publisher_user_id: self.publisher_user_id@,
            subscriber_user_id: self.subscriber_user_id@,
        }
    }
}

impl DeepView for Consumer {
    type V = ConsumerModel;

    open spec fn deep_view(&self) -> ConsumerModel {
        self@
    }
}

/// Spec-level mirror of the whole router registry.
#[verifier::ext_equal]
pub struct RouterModel {
    pub publishers: Map<Seq<char>, PublisherModel>,
    pub consumers: Seq<ConsumerModel>,
}

/// True when the consumer registry holds an entry with this identifier.
pub open spec fn has_consumer(cs: Seq<ConsumerModel>, consumer_id: Seq<char>) -> bool {
    exists|i: int| 0 <= i < cs.len() && (#[trigger] cs[i]).consumer_id == consumer_id
}

/// Which consumers a removal pass takes out of the registry: those of
/// one subscriber, or those bound to one publisher.
pub enum RemovalKey {
    Subscriber(Seq<char>),
    Publisher(Seq<char>),
}

/// True when the removal pass takes this consumer out.
pub open spec fn removes(key: RemovalKey, c: ConsumerModel) -> bool {
    match key {
        RemovalKey::Subscriber(u) => c.subscriber_user_id == u,
        RemovalKey::Publisher(u) => c.publisher_user_id == u,
    }
}

/// The consumers a removal pass keeps, in registry order.
pub open spec fn surviving_consumers(cs: Seq<ConsumerModel>, key: RemovalKey) -> Seq<ConsumerModel>
    decreases cs.len(),
{
    if cs.len() == 0 {
        Seq::empty()
    } else {
        let rest = surviving_consumers(cs.drop_last(), key);
        if removes(key, cs.last()) {
            rest
        } else {
            rest.push(cs.last())
        }
    }
}

/// The identifiers of the consumers a removal pass drops, in registry order.
pub open spec fn removed_consumer_ids(cs: Seq<ConsumerModel>, key: RemovalKey) -> Seq<Seq<char>>
    decreases cs.len(),
{
    if cs.len() == 0 {
        Seq::empty()
    } else {
        let rest = removed_consumer_ids(cs.drop_last(), key);
        if removes(key, cs.last()) {
            rest.push(cs.last().consumer_id)
        } else {
            rest
        }
    }
}

impl RouterModel {
    /// Every publisher entry is keyed by its own user identifier, so a
    /// user never has two publishers at once.
    pub open spec fn publishers_keyed(self) -> bool {
        forall|u: Seq<char>|
            self.publishers.contains_key(u) ==> (#[trigger] self.publishers[u]).user_id == u
    }

    /// Consumer identifiers are distinct.
    pub open spec fn consumer_ids_distinct(self) -> bool {
        forall|i: int, j: int|
            0 <= i < j < self.consumers.len() ==> (#[trigger] self.consumers[i]).consumer_id != (
            #[trigger] self.consumers[j]).consumer_id
    }

    /// Every consumer references a publisher that exists and has a
    /// resolved inbound track.
    pub open spec fn consumers_sourced(self) -> bool {
        forall|i: int|
            0 <= i < self.consumers.len() ==> {
                let c = #[trigger] self.consumers[i];
                &&& self.publishers.contains_key(c.publisher_user_id)
                &&& self.publishers[c.publisher_user_id].track_id is Some
            }
    }

    /// The registry invariants, all together.
    pub open spec fn wf(self) -> bool {
        &&& self.publishers_keyed()
        &&& self.consumer_ids_distinct()
        &&& self.consumers_sourced()
    }
}

/// Every consumer a removal pass keeps escapes the removal key and
/// occurs in the original registry.
pub proof fn lemma_surviving_consumers_sub(cs: Seq<ConsumerModel>, key: RemovalKey)
    ensures
        forall|i: int|
            0 <= i < surviving_consumers(cs, key).len() ==> !removes(
                key,
                #[trigger] surviving_consumers(cs, key)[i],
            ) && cs.contains(surviving_consumers(cs, key)[i]),
    decreases cs.len(),
{
    if cs.len() > 0 {
        let prefix = cs.drop_last();
        lemma_surviving_consumers_sub(prefix, key);
        let kept = surviving_consumers(cs, key);
        let rest = surviving_consumers(prefix, key);
        assert forall|i: int| 0 <= i < kept.len() implies !removes(key, #[trigger] kept[i])
            && cs.contains(kept[i]) by {
            if !removes(key, cs.last()) && i == kept.len() - 1 {
                assert(kept[i] == cs.last());
                assert(cs.contains(cs.last()));
            } else {
                assert(kept[i] == rest[i]);
                assert(!removes(key, rest[i]));
                assert(prefix.contains(rest[i]));
                let j = choose|j: int| 0 <= j < prefix.len() && prefix[j] == rest[i];
                assert(cs[j] == rest[i]);
                assert(cs.contains(rest[i]));
            }
        }
    }
}

/// Every consumer the original registry holds that escapes the removal
/// key occurs among the kept consumers.
pub proof fn lemma_surviving_consumers_complete(cs: Seq<ConsumerModel>, key: RemovalKey)
    ensures
        forall|i: int|
            0 <= i < cs.len() && !removes(key, #[trigger] cs[i]) ==> surviving_consumers(
                cs,
                key,
            ).contains(cs[i]),
    decreases cs.len(),
{
    if cs.len() > 0 {
        lemma_surviving_consumers_complete(cs.drop_last(), key);
        let kept = surviving_consumers(cs, key);
        let rest = surviving_consumers(cs.drop_last(), key);
        assert forall|i: int|
            0 <= i < cs.len() && !removes(key, #[trigger] cs[i]) implies kept.contains(cs[i]) by {
            if i == cs.len() - 1 {
                assert(cs[i] == cs.last());
                assert(kept.last() == cs.last());
                assert(kept.contains(cs.last()));
            } else {
                assert(cs.drop_last()[i] == cs[i]);
                assert(rest.contains(cs[i]));
                let j = choose|j: int| 0 <= j < rest.len() && rest[j] == cs[i];
                if !removes(key, cs.last()) {
                    assert(kept[j] == rest[j]);
                }
                assert(kept.contains(cs[i]));
            }
        }
    }
}

/// A removal pass keeps consumer identifiers distinct.
pub proof fn lemma_surviving_consumers_distinct(cs: Seq<ConsumerModel>, key: RemovalKey)
    requires
        forall|i: int, j: int|
            0 <= i < j < cs.len() ==> (#[trigger] cs[i]).consumer_id != (
            #[trigger] cs[j]).consumer_id,
    ensures
        forall|i: int, j: int|
            0 <= i < j < surviving_consumers(cs, key).len() ==> (#[trigger] surviving_consumers(
                cs,
                key,
            )[i]).consumer_id != (#[trigger] surviving_consumers(cs, key)[j]).consumer_id,
    decreases cs.len(),
{
    if cs.len() > 0 {
        let prefix = cs.drop_last();
        assert(forall|i: int, j: int|
            0 <= i < j < prefix.len() ==> (#[trigger] prefix[i]).consumer_id != (
            #[trigger] prefix[j]).consumer_id) by {
            assert(forall|i: int| 0 <= i < prefix.len() ==> prefix[i] == cs[i]);
        }
        lemma_surviving_consumers_distinct(prefix, key);
        let kept = surviving_consumers(cs, key);
        let rest = surviving_consumers(prefix, key);
        if !removes(key, cs.last()) {
            lemma_surviving_consumers_sub(prefix, key);
            assert forall|i: int, j: int| 0 <= i < j < kept.len() implies (
            #[trigger] kept[i]).consumer_id != (#[trigger] kept[j]).consumer_id by {
                if j == kept.len() - 1 {
                    assert(kept[j] == cs.last());
                    assert(kept[i] == rest[i]);
                    assert(prefix.contains(rest[i]));
                    let k = choose|k: int| 0 <= k < prefix.len() && prefix[k] == rest[i];
                    assert(cs[k] == prefix[k]);
                    assert(cs[k].consumer_id != cs[cs.len() - 1].consumer_id);
                } else {
                    assert(kept[i] == rest[i] && kept[j] == rest[j]);
                }
            }
        }
    }
}

/// The process-wide registry of publishers and consumers.
pub struct SfuRouter {
    publishers: StringHashMap<Publisher>,
    consumers: Vec<Consumer>,
}

impl View for SfuRouter {
    type V = RouterModel;

    closed spec fn view(&self) -> RouterModel {
        RouterModel {
            publishers: self.publishers@.map_values(|p: Publisher| p@),
            consumers: self.consumers.deep_view(),
        }
    }
}

impl SfuRouter {
    /// Creates an empty router.
    pub fn new() -> (r: Self)
        ensures
            r@.publishers == Map::<Seq<char>, PublisherModel>::empty(),
            r@.consumers == Seq::<ConsumerModel>::empty(),
            r@.wf(),
    {
        let r = SfuRouter { publishers: StringHashMap::new(), consumers: Vec::new() };
        proof {
            lemma_map_values_empty::<Seq<char>, Publisher, PublisherModel>(|p: Publisher| p@);
            assert(r@.consumers =~= Seq::<ConsumerModel>::empty());
        }
        r
    }

    /// True when a publisher is registered for this user.
    pub fn contains_publisher(&self, user_id: &str) -> (b: bool)
        ensures
            b == self@.publishers.contains_key(user_id@),
    {
        self.publishers.contains_key(user_id)
    }

    /// True when the consumer registry holds this identifier.
    pub fn contains_consumer(&self, consumer_id: &str) -> (b: bool)
        ensures
            b == has_consumer(self@.consumers, consumer_id@),
    {
        match self.find_consumer(consumer_id) {
            Option::Some(_) => true,
            Option::None => false,
        }
    }

    /// The number of registered consumers.
    pub fn consumer_count(&self) -> (n: usize)
        ensures
            n == self@.consumers.len(),
    {
        self.consumers.len()
    }

    /// Registers a publisher for this user, with no track resolved yet.
    /// The registry insert overwrites any previous entry for the same
    /// user, so the caller must first have torn down the consumers bound
    /// to it.
    pub fn add_publisher(&mut self, user_id: String, username: String)
        requires
            old(self)@.wf(),
            forall|i: int|
                0 <= i < old(self)@.consumers.len() ==> (
                #[trigger] old(self)@.consumers[i]).publisher_user_id != user_id@,
        ensures
            final(self)@.publishers == old(self)@.publishers.insert(
                user_id@,
                PublisherModel { user_id: user_id@, username: username@, track_id: Option::None },
            ),
            final(self)@.consumers == old(self)@.consumers,
            final(self)@.wf(),
    {
        let key = user_id.clone();
        let entry = Publisher { user_id, username, audio_track_id: Option::None };
        proof {
            lemma_map_values_insert(self.publishers@, |p: Publisher| p@, key@, entry);
        }
        self.publishers.insert(key, entry);
    }

    /// Looks up the publisher for this user on behalf of an
    /// answer-application step; reports the resolved track identifier if
    /// one is already known. The media answer itself is applied by the
    /// embedding program.
    pub fn set_publisher_answer(&self, user_id: &str) -> (r: Result<Option<TrackId>, String>)
        ensures
            match r {
                Ok(t) => self@.publishers.contains_key(user_id@) && (match t {
                    Option::Some(tid) => self@.publishers[user_id@].track_id == Option::Some(tid@),
                    Option::None => self@.publishers[user_id@].track_id is None,
                }),
                Err(e) => !self@.publishers.contains_key(user_id@) && e@ == (
                "Publisher not found for user: ")@ + user_id@,
            },
    {
        match self.publishers.get(user_id) {
            Option::Some(p) => match &p.audio_track_id {
                Option::Some(t) => Ok(Option::Some(t.clone())),
                Option::None => Ok(Option::None),
            },
            Option::None => Err(
                String::from_str("Publisher not found for user: ").concat(user_id),
            ),
        }
    }

    /// The resolved track identifier of this user's publisher, if the
    /// publisher exists and its track has arrived.
    pub fn get_publisher_track_id(&self, user_id: &str) -> (r: Option<TrackId>)
        ensures
            match r {
                Option::Some(t) => self@.publishers.contains_key(user_id@)
                    && self@.publishers[user_id@].track_id == Option::Some(t@),
                Option::None => !self@.publishers.contains_key(user_id@)
                    || self@.publishers[user_id@].track_id is None,
            },
    {
        match self.publishers.get(user_id) {
            Option::Some(p) => match &p.audio_track_id {
                Option::Some(t) => Option::Some(t.clone()),
                Option::None => Option::None,
            },
            Option::None => Option::None,
        }
    }

    /// Records that this user's publisher received its inbound audio
    /// track, under the given track identifier. Reports whether the
    /// publisher was present.
    pub fn resolve_publisher_track(&mut self, user_id: &str, track_id: TrackId) -> (updated: bool)
        requires
            old(self)@.wf(),
        ensures
            updated == old(self)@.publishers.contains_key(user_id@),
            updated ==> final(self)@.publishers == old(self)@.publishers.insert(
                user_id@,
                PublisherModel {
                    user_id: old(self)@.publishers[user_id@].user_id,
                    username: old(self)@.publishers[user_id@].username,
                    track_id: Option::Some(track_id@),
                },
            ),
            !updated ==> final(self)@ == old(self)@,
            final(self)@.consumers == old(self)@.consumers,
            final(self)@.wf(),
    {
        let entry = match self.publishers.get(user_id) {
            Option::Some(p) => Publisher {
                user_id: p.user_id.clone(),
                username: p.username.clone(),
                audio_track_id: Option::Some(track_id),
            },
            Option::None => {
                return false;
            },
        };
        proof {
            lemma_map_values_insert(self.publishers@, |p: Publisher| p@, entry.user_id@, entry);
        }
        let key = entry.user_id.clone();
        self.publishers.insert(key, entry);
        true
    }

    /// Removes this user's publisher and, with it, every consumer bound
    /// to it: a consumer is destroyed on publisher removal. Returns
    /// whether a publisher was present, and the identifiers of the
    /// consumers that were dropped, so the embedding program can close
    /// their transports. Safe if the entry is absent.
    pub fn remove_publisher(&mut self, user_id: &str) -> (r: (bool, Vec<ConsumerId>))
        requires
            old(self)@.wf(),
        ensures
            r.0 == old(self)@.publishers.contains_key(user_id@),
            final(self)@.publishers == old(self)@.publishers.remove(user_id@),
            final(self)@.consumers == surviving_consumers(
                old(self)@.consumers,
                RemovalKey::Publisher(user_id@),
            ),
            r.1.deep_view() == removed_consumer_ids(
                old(self)@.consumers,
                RemovalKey::Publisher(user_id@),
            ),
            final(self)@.wf(),
    {
        let present = self.publishers.contains_key(user_id);
        proof {
            lemma_map_values_remove(self.publishers@, |p: Publisher| p@, user_id@);
        }
        self.publishers.remove(user_id);
        let ghost key = RemovalKey::Publisher(user_id@);
        let ghost orig = old(self)@.consumers;
        let mut kept: Vec<Consumer> = Vec::new();
        let mut dropped: Vec<ConsumerId> = Vec::new();
        let n = self.consumers.len();
        for i in 0..n
            invariant
                key == RemovalKey::Publisher(user_id@),
                n == self.consumers.len(),
                self.consumers.deep_view() == orig,
                kept.deep_view() == surviving_consumers(orig.take(i as int), key),
                dropped.deep_view() == removed_consumer_ids(orig.take(i as int), key),
        {
            let c = &self.consumers[i];
            proof {
                assert(orig.take(i + 1).drop_last() =~= orig.take(i as int));
                assert(orig.take(i + 1).last() == orig[i as int]);
                assert(orig[i as int] == c@);
            }
            if str_eq(c.publisher_user_id.as_str(), user_id) {
                dropped.push(c.consumer_id.clone());
                proof {
                    assert(dropped.deep_view() =~= removed_consumer_ids(orig.take(i + 1), key));
                    assert(kept.deep_view() =~= surviving_consumers(orig.take(i + 1), key));
                }
            } else {
                let copy = Consumer {
                    consumer_id: c.consumer_id.clone(),
                    publisher_user_id: c.publisher_user_id.clone(),
                    subscriber_user_id: c.subscriber_user_id.clone(),
                };
                kept.push(copy);
                proof {
                    assert(kept.deep_view() =~= surviving_consumers(orig.take(i + 1), key));
                    assert(dropped.deep_view() =~= removed_consumer_ids(orig.take(i + 1), key));
                }
            }
        }
        proof {
            assert(orig.take(n as int) =~= orig);
        }
        self.consumers = kept;
        proof {
            let prior = old(self)@;
            lemma_surviving_consumers_sub(prior.consumers, key);
            lemma_surviving_consumers_distinct(prior.consumers, key);
            assert forall|i: int| 0 <= i < self@.consumers.len() implies {
                let c = #[trigger] self@.consumers[i];
                &&& self@.publishers.contains_key(c.publisher_user_id)
                &&& self@.publishers[c.publisher_user_id].track_id is Some
            } by {
                let c = self@.consumers[i];
                assert(prior.consumers.contains(c));
                assert(c.publisher_user_id != user_id@);
            }
        }
        (present, dropped)
    }

    /// Registers a consumer binding this subscriber to this publisher's
    /// track. Fails, registering nothing, when the publisher is absent
    /// or its inbound track has not resolved.
    pub fn add_consumer(
        &mut self,
        publisher_user_id: &str,
        subscriber_user_id: &str,
        consumer_id: ConsumerId,
    ) -> (r: Result<(), String>)
        requires
            old(self)@.wf(),
            !has_consumer(old(self)@.consumers, consumer_id@),
        ensures
            match r {
                Ok(()) => {
                    &&& old(self)@.publishers.contains_key(publisher_user_id@)
                    &&& old(self)@.publishers[publisher_user_id@].track_id is Some
                    &&& final(self)@.consumers == old(self)@.consumers.push(
                        ConsumerModel {
                            consumer_id: consumer_id@,
                            publisher_user_id: publisher_user_id@,
                            subscriber_user_id: subscriber_user_id@,
                        },
                    )
                    &&& final(self)@.publishers == old(self)@.publishers
                },
                Err(e) => final(self)@ == old(self)@ && (if !old(self)@.publishers.contains_key(
                    publisher_user_id@,
                ) {
                    e@ == ("Publisher not found: ")@ + publisher_user_id@
                } else {
                    old(self)@.publishers[publisher_user_id@].track_id is None && e@ == (
                    "Publisher ")@ + publisher_user_id@ + (" has no audio track yet")@
                }),
            },
            final(self)@.wf(),
    {
        let has_track = match self.publishers.get(publisher_user_id) {
            Option::Some(p) => p.audio_track_id.is_some(),
            Option::None => {
                return Err(String::from_str("Publisher not found: ").concat(publisher_user_id));
            },
        };
        if !has_track {
            return Err(
                String::from_str("Publisher ").concat(publisher_user_id).concat(
                    " has no audio track yet",
                ),
            );
        }
        let entry = Consumer {
            consumer_id,
            publisher_user_id: publisher_user_id.to_owned(),
            subscriber_user_id: subscriber_user_id.to_owned(),
        };
        self.consumers.push(entry);
        proof {
            assert(self.consumers.deep_view() =~= old(self)@.consumers.push(
                ConsumerModel {
                    consumer_id: consumer_id@,
                    publisher_user_id: publisher_user_id@,
                    subscriber_user_id: subscriber_user_id@,
                },
            ));
        }
        Ok(())
    }

    /// Looks up the consumer for an answer-application step; the media
    /// answer itself is applied by the embedding program.
    pub fn set_consumer_answer(&self, consumer_id: &str) -> (r: Result<(), String>)
        ensures
            match r {
                Ok(()) => has_consumer(self@.consumers, consumer_id@),
                Err(e) => !has_consumer(self@.consumers, consumer_id@) && e@ == (
                "Consumer not found: ")@ + consumer_id@,
            },
    {
        match self.find_consumer(consumer_id) {
            Option::Some(_) => Ok(()),
            Option::None => Err(String::from_str("Consumer not found: ").concat(consumer_id)),
        }
    }

    /// Removes every consumer whose subscriber is this user, returning
    /// the identifiers of the removed consumers so the embedding program
    /// can close their transports. Safe if there are none.
    pub fn remove_consumers_for_subscriber(&mut self, subscriber_user_id: &str) -> (removed: Vec<
        ConsumerId,
    >)
        requires
            old(self)@.wf(),
        ensures
            final(self)@.publishers == old(self)@.publishers,
            final(self)@.consumers == surviving_consumers(
                old(self)@.consumers,
                RemovalKey::Subscriber(subscriber_user_id@),
            ),
            removed.deep_view() == removed_consumer_ids(
                old(self)@.consumers,
                RemovalKey::Subscriber(subscriber_user_id@),
            ),
            final(self)@.wf(),
    {
        let ghost key = RemovalKey::Subscriber(subscriber_user_id@);
        let ghost orig = old(self)@.consumers;
        let mut kept: Vec<Consumer> = Vec::new();
        let mut dropped: Vec<ConsumerId> = Vec::new();
        let n = self.consumers.len();
        for i in 0..n
            invariant
                key == RemovalKey::Subscriber(subscriber_user_id@),
                n == self.consumers.len(),
                self.consumers.deep_view() == orig,
                self@.publishers == old(self)@.publishers,
                kept.deep_view() == surviving_consumers(orig.take(i as int), key),
                dropped.deep_view() == removed_consumer_ids(orig.take(i as int), key),
        {
            let c = &self.consumers[i];
            proof {
                assert(orig.take(i + 1).drop_last() =~= orig.take(i as int));
                assert(orig.take(i + 1).last() == orig[i as int]);
                assert(orig[i as int] == c@);
            }
            if str_eq(c.subscriber_user_id.as_str(), subscriber_user_id) {
                dropped.push(c.consumer_id.clone());
                proof {
                    assert(dropped.deep_view() =~= removed_consumer_ids(orig.take(i + 1), key));
                    assert(kept.deep_view() =~= surviving_consumers(orig.take(i + 1), key));
                }
            } else {
                let copy = Consumer {
                    consumer_id: c.consumer_id.clone(),
                    publisher_user_id: c.publisher_user_id.clone(),
                    subscriber_user_id: c.subscriber_user_id.clone(),
                };
                kept.push(copy);
                proof {
                    assert(kept.deep_view() =~= surviving_consumers(orig.take(i + 1), key));
                    assert(dropped.deep_view() =~= removed_consumer_ids(orig.take(i + 1), key));
                }
            }
        }
        proof {
            assert(orig.take(n as int) =~= orig);
        }
        self.consumers = kept;
        proof {
            let prior = old(self)@;
            lemma_surviving_consumers_sub(prior.consumers, key);
            lemma_surviving_consumers_distinct(prior.consumers, key);
            assert forall|i: int| 0 <= i < self@.consumers.len() implies {
                let c = #[trigger] self@.consumers[i];
                &&& self@.publishers.contains_key(c.publisher_user_id)
                &&& self@.publishers[c.publisher_user_id].track_id is Some
            } by {
                let c = self@.consumers[i];
                assert(prior.consumers.contains(c));
            }
        }
        dropped
    }

    /// Looks up the publisher an inbound publisher-side candidate is
    /// meant for; an unknown target is a recoverable warning for the
    /// caller. The candidate itself is ingested by the embedding program.
    pub fn add_publisher_ice_candidate(&self, user_id: &str) -> (r: Result<(), String>)
        ensures
            match r {
                Ok(()) => self@.publishers.contains_key(user_id@),
                Err(e) => !self@.publishers.contains_key(user_id@) && e@ == (
                "Publisher not found: ")@ + user_id@,
            },
    {
        if self.publishers.contains_key(user_id) {
            Ok(())
        } else {
            Err(String::from_str("Publisher not found: ").concat(user_id))
        }
    }

    /// Looks up the consumer an inbound consumer-side candidate is meant
    /// for; an unknown target is a recoverable warning for the caller.
    /// The candidate itself is ingested by the embedding program.
    pub fn add_consumer_ice_candidate(&self, consumer_id: &str) -> (r: Result<(), String>)
        ensures
            match r {
                Ok(()) => has_consumer(self@.consumers, consumer_id@),
                Err(e) => !has_consumer(self@.consumers, consumer_id@) && e@ == (
                "Consumer not found: ")@ + consumer_id@,
            },
    {
        match self.find_consumer(consumer_id) {
            Option::Some(_) => Ok(()),
            Option::None => Err(String::from_str("Consumer not found: ").concat(consumer_id)),
        }
    }

    /// Finds the registry index of a consumer by identifier.
    fn find_consumer(&self, consumer_id: &str) -> (r: Option<usize>)
        ensures
            match r {
                Option::Some(i) => i < self@.consumers.len()
                    && self@.consumers[i as int].consumer_id == consumer_id@,
                Option::None => !has_consumer(self@.consumers, consumer_id@),
            },
    {
        let n = self.consumers.len();
        for i in 0..n
            invariant
                n == self.consumers.len(),
                forall|j: int|
                    0 <= j < i ==> (#[trigger] self@.consumers[j]).consumer_id != consumer_id@,
        {
            if str_eq(self.consumers[i].consumer_id.as_str(), consumer_id) {
                return Option::Some(i);
            }
        }
        Option::None
    }
}

} // verus!
