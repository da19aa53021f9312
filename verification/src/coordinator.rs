//! The coordinator: the single logical task that owns the registry of live
//! subscribers. Per ingested event it evaluates every subscriber's filter,
//! attempts a non-blocking send of the converted update to each interested
//! subscriber, and evicts subscribers whose delivery channel is full
//! (lagged) or closed — within the same dispatch pass, so no subscriber is
//! dispatched the same event twice and no slow subscriber delays another.
//!
//! A ghost history records every ingested event and every successful
//! delivery (event index, subscriber identity, update), which the public
//! lemmas below turn into the ordering and at-most-once guarantees.

use vstd::prelude::*;

use crate::events::Message;
use crate::filters::Filter;
use crate::wire::{wire_of, SubscribeUpdate, UpdateOneof};

verus! {

/// The terminal error a lagged subscriber's stream ends with, distinguishable
/// from every data message.
#[derive(Debug, Clone, Copy, PartialEq, Eq, Structural)]
pub enum StreamError {
    /// The subscriber consumed slower than it was fed and was dropped.
    Lagged,
}

/// One item of a subscriber's outbound stream: a data message or the
/// terminal error.
pub type StreamItem = Result<SubscribeUpdate, StreamError>;

/// One live subscriber as the coordinator sees it: its unique identity, its
/// compiled filter, and the sending half of its bounded delivery channel.
pub struct ClientConnection {
    pub id: usize,
    pub filter: Filter,
    pub stream_tx: tokio::sync::mpsc::Sender<StreamItem>,
}

/// Some registered subscriber carries the identity `id`.
pub open spec fn has_id(s: Seq<ClientConnection>, id: usize) -> bool {
    exists|j: int| 0 <= j < s.len() && (#[trigger] s[j]).id == id
}

/// No two subscribers share an identity.
pub open spec fn unique_ids(s: Seq<ClientConnection>) -> bool {
    forall|j: int, k: int|
        0 <= j < k < s.len() ==> (#[trigger] s[j]).id != (#[trigger] s[k]).id
}

/// One recorded delivery: the index of the ingested event, the subscriber's
/// identity, and the update handed to its delivery channel.
pub type Delivery = (int, usize, SubscribeUpdate);

/// Some delivery at position `from` or later went to the subscriber `id`.
pub open spec fn has_delivery(ds: Seq<Delivery>, from: int, id: usize) -> bool {
    exists|k: int| from <= k < ds.len() && (#[trigger] ds[k]).1 == id
}

/// How a subscriber's non-blocking send failed, deciding its teardown: a
/// full channel earns the terminal lagged error, a closed one is reclaimed
/// silently.
#[derive(Debug, Clone, Copy, PartialEq, Eq, Structural)]
pub enum SendFailure {
    Full,
    Closed,
}

/// One recorded eviction: the index of the ingested event whose dispatch
/// discovered it, the subscriber's identity, and which failure caused it.
pub type Eviction = (int, usize, SendFailure);

/// The eviction `e` is recorded at position `from` or later.
pub open spec fn evict_logged(es: Seq<Eviction>, from: int, e: Eviction) -> bool {
    exists|t: int| from <= t < es.len() && es[t] == e
}

/// The coordinator's state: the registry of live subscribers (exclusively
/// owned here), the live-connection-count gauge, and the ghost history of
/// ingested events and successful deliveries.
pub struct Coordinator {
    clients: Vec<ClientConnection>,
    connections: usize,
    history: Ghost<Seq<Message>>,
    dispatched: Ghost<Seq<Delivery>>,
    removals: Ghost<Seq<Eviction>>,
}

impl Coordinator {
    /// The registry, for specification purposes.
    pub closed spec fn registry(self) -> Seq<ClientConnection> {
        self.clients@
    }

    /// The live-connection-count gauge.
    pub closed spec fn connection_count(self) -> int {
        self.connections as int
    }

    /// Every event ingested so far, in ingestion order.
    pub closed spec fn events(self) -> Seq<Message> {
        self.history@
    }

    /// Every successful delivery so far, in send order.
    pub closed spec fn deliveries(self) -> Seq<Delivery> {
        self.dispatched@
    }

    /// Every eviction so far, in the order it was discovered, each with the
    /// send failure that caused it.
    pub closed spec fn evictions(self) -> Seq<Eviction> {
        self.removals@
    }

    /// One recorded delivery is sound: it names an ingested event, carries at
    /// least one matched filter name, and its payload is the faithful wire
    /// conversion of that event.
    pub open spec fn delivery_wf(self, d: Delivery) -> bool {
        &&& 0 <= d.0 < self.events().len()
        &&& d.2.filters@.len() > 0
        &&& match d.2.update_oneof {
            Some(u) => wire_of(self.events()[d.0], u),
            None => false,
        }
    }

    /// Coordinator invariant: the gauge counts exactly the registered
    /// subscribers; identities are unique; deliveries are sound, ordered by
    /// event, and at most one per subscriber per event.
    pub open spec fn wf(self) -> bool {
        &&& self.connection_count() == self.registry().len()
        &&& unique_ids(self.registry())
        &&& forall|k: int|
            0 <= k < self.deliveries().len() ==> self.delivery_wf(#[trigger] self.deliveries()[k])
        &&& forall|k1: int, k2: int|
            0 <= k1 < k2 < self.deliveries().len()
                ==> (#[trigger] self.deliveries()[k1]).0 <= (#[trigger] self.deliveries()[k2]).0
        &&& forall|k1: int, k2: int|
            0 <= k1 < k2 < self.deliveries().len()
                    && (#[trigger] self.deliveries()[k1]).0 == (#[trigger] self.deliveries()[k2]).0
                ==> self.deliveries()[k1].1 != self.deliveries()[k2].1
    }

    /// A fresh coordinator: empty registry, gauge at zero, nothing ingested.
    pub fn new() -> (r: Coordinator)
        ensures
            r.wf(),
            r.registry().len() == 0,
            r.connection_count() == 0,
            r.events().len() == 0,
            r.deliveries().len() == 0,
            r.evictions().len() == 0,
    {
        Coordinator {
            clients: Vec::new(),
            connections: 0,
            history: Ghost(Seq::empty()),
            dispatched: Ghost(Seq::empty()),
            removals: Ghost(Seq::empty()),
        }
    }

    /// The gauge's current value.
    pub fn connections(&self) -> (r: usize)
        ensures
            r as int == self.connection_count(),
    {
        self.connections
    }

    /// Whether a subscriber with this identity is registered.
    pub fn has_client(&self, id: usize) -> (r: bool)
        ensures
            r == has_id(self.registry(), id),
    {
        let mut i: usize = 0;
        while i < self.clients.len()
            invariant
                i <= self.clients@.len(),
                forall|j: int| 0 <= j < i as int ==> (#[trigger] self.clients@[j]).id != id,
            decreases self.clients@.len() - i,
        {
            if self.clients[i].id == id {
                return true;
            }
            i = i + 1;
        }
        false
    }

    /// Registers one newly accepted subscriber and increments the gauge.
    /// Identities are never reused, so the new identity is fresh.
    pub fn handle_registration(&mut self, client: ClientConnection)
        requires
            old(self).wf(),
            !has_id(old(self).registry(), client.id),
            old(self).registry().len() < usize::MAX,
        ensures
            final(self).wf(),
            final(self).registry() == old(self).registry().push(client),
            final(self).connection_count() == old(self).connection_count() + 1,
            final(self).events() == old(self).events(),
            final(self).deliveries() == old(self).deliveries(),
            final(self).evictions() == old(self).evictions(),
    {
        self.clients.push(client);
        self.connections = self.connections + 1;
        proof {
            let s = old(self).registry();
            assert forall|j: int, k: int|
                0 <= j < k < self.clients@.len() implies (#[trigger] self.clients@[j]).id != (
            #[trigger] self.clients@[k]).id by {
                if k < s.len() {
                    assert(s[j].id != s[k].id);
                } else {
                    assert(self.clients@[k] == client);
                    assert(s[j].id != client.id);
                }
            }
            assert(self.events() == old(self).events());
            assert(self.deliveries() == old(self).deliveries());
            assert forall|k: int|
                0 <= k < self.deliveries().len() implies self.delivery_wf(
                #[trigger] self.deliveries()[k],
            ) by {
                assert(old(self).delivery_wf(old(self).deliveries()[k]));
            }
        }
    }

    /// One dispatch pass. Every registered subscriber's filter is evaluated
    /// against the event exactly once; each subscriber with at least one
    /// matching filter name gets one non-blocking send of the converted
    /// update on its delivery channel. Subscribers whose channel was full are
    /// returned first (to be torn down with the lagged error), subscribers
    /// whose channel was closed second (reclaimed silently); both are removed
    /// from the registry before the pass ends and the gauge drops by one for
    /// each. The ghost eviction log records, per eviction, which failure the
    /// send reported, and the contract ties the first returned list to full
    /// channels and the second to closed ones. Subscribers with no matching
    /// filter name are untouched.
    pub fn handle_message(&mut self, message: &Message) -> (r: (
        Vec<ClientConnection>,
        Vec<ClientConnection>,
    ))
        requires
            old(self).wf(),
        ensures
            final(self).wf(),
            final(self).events() == old(self).events().push(*message),
            final(self).connection_count() == old(self).connection_count() - r.0@.len()
                - r.1@.len(),
            old(self).registry().len() == final(self).registry().len() + r.0@.len() + r.1@.len(),
            forall|c: ClientConnection| #[trigger]
                final(self).registry().contains(c) ==> old(self).registry().contains(c),
            forall|c: ClientConnection| #[trigger]
                r.0@.contains(c) ==> old(self).registry().contains(c),
            forall|c: ClientConnection| #[trigger]
                r.1@.contains(c) ==> old(self).registry().contains(c),
            forall|k: int|
                0 <= k < r.0@.len() ==> (#[trigger] r.0@[k]).filter.spec_matched_names(
                    *message,
                ).len() > 0 && !has_id(final(self).registry(), r.0@[k].id),
            forall|k: int|
                0 <= k < r.1@.len() ==> (#[trigger] r.1@[k]).filter.spec_matched_names(
                    *message,
                ).len() > 0 && !has_id(final(self).registry(), r.1@[k].id),
            forall|j: int|
                0 <= j < old(self).registry().len() && (#[trigger] old(self).registry()[j]).filter
                    .spec_matched_names(*message).len() == 0 ==> final(self).registry().contains(
                    old(self).registry()[j],
                ),
            final(self).deliveries().len() >= old(self).deliveries().len(),
            final(self).deliveries().take(old(self).deliveries().len() as int) == old(
                self,
            ).deliveries(),
            forall|k: int|
                old(self).deliveries().len() <= k < final(self).deliveries().len() ==> {
                    let d = (#[trigger] final(self).deliveries()[k]);
                    &&& d.0 == old(self).events().len()
                    &&& has_id(old(self).registry(), d.1)
                    &&& has_id(final(self).registry(), d.1)
                    &&& match d.2.update_oneof {
                        Some(u) => wire_of(*message, u),
                        None => false,
                    }
                    &&& exists|j: int|
                        0 <= j < old(self).registry().len() && (#[trigger] old(
                            self,
                        ).registry()[j]).id == d.1 && d.2.filters@.map_values(|s: String| s@) == old(
                            self,
                        ).registry()[j].filter.spec_matched_names(*message)
                },
            forall|k: int, j: int|
                old(self).deliveries().len() <= k < final(self).deliveries().len()
                    && 0 <= j < old(self).registry().len()
                    && (#[trigger] old(self).registry()[j]).filter.spec_matched_names(
                    *message,
                ).len() == 0 ==> (#[trigger] final(self).deliveries()[k]).1 != old(
                    self,
                ).registry()[j].id,
            forall|j: int|
                0 <= j < old(self).registry().len() && (#[trigger] old(self).registry()[j]).filter
                    .spec_matched_names(*message).len() > 0 ==> has_delivery(
                    final(self).deliveries(),
                    old(self).deliveries().len() as int,
                    old(self).registry()[j].id,
                ) || r.0@.contains(old(self).registry()[j]) || r.1@.contains(
                    old(self).registry()[j],
                ),
            final(self).evictions().len() == old(self).evictions().len() + r.0@.len() + r.1@.len(),
            final(self).evictions().take(old(self).evictions().len() as int) == old(
                self,
            ).evictions(),
            forall|k: int|
                0 <= k < r.0@.len() ==> evict_logged(
                    final(self).evictions(),
                    old(self).evictions().len() as int,
                    (old(self).events().len() as int, (#[trigger] r.0@[k]).id, SendFailure::Full),
                ),
            forall|k: int|
                0 <= k < r.1@.len() ==> evict_logged(
                    final(self).evictions(),
                    old(self).evictions().len() as int,
                    (old(self).events().len() as int, (#[trigger] r.1@[k]).id, SendFailure::Closed),
                ),
            forall|t: int|
                old(self).evictions().len() <= t < final(self).evictions().len() ==> {
                    let e = (#[trigger] final(self).evictions()[t]);
                    &&& e.0 == old(self).events().len()
                    &&& match e.2 {
                        SendFailure::Full => has_id(r.0@, e.1),
                        SendFailure::Closed => has_id(r.1@, e.1),
                    }
                },
    {
        let ghost orig = old(self).registry();
        let ghost prior = old(self).deliveries();
        let ghost prior_ev = old(self).evictions();
        let ghost ev = old(self).events().len() as int;
        self.history = Ghost(self.history@.push(*message));
        let mut pending: Vec<ClientConnection> = Vec::new();
        core::mem::swap(&mut self.clients, &mut pending);
        let mut kept: Vec<ClientConnection> = Vec::new();
        let mut lagged: Vec<ClientConnection> = Vec::new();
        let mut closed: Vec<ClientConnection> = Vec::new();
        let ghost mut i: int = 0;
        while pending.len() > 0
            invariant
                old(self).wf(),
                orig == old(self).registry(),
                prior == old(self).deliveries(),
                ev == old(self).events().len(),
                0 <= i <= orig.len(),
                pending@ == orig.skip(i),
                self.history@ == old(self).events().push(*message),
                self.connections as int == old(self).connection_count(),
                kept@.len() + lagged@.len() + closed@.len() == i,
                forall|k: int|
                    0 <= k < kept@.len() ==> orig.take(i).contains(#[trigger] kept@[k]),
                forall|k: int|
                    0 <= k < lagged@.len() ==> orig.take(i).contains(#[trigger] lagged@[k]),
                forall|k: int|
                    0 <= k < closed@.len() ==> orig.take(i).contains(#[trigger] closed@[k]),
                unique_ids(kept@),
                forall|a: int, b: int|
                    0 <= a < kept@.len() && 0 <= b < lagged@.len() ==> (#[trigger] kept@[a]).id != (
                    #[trigger] lagged@[b]).id,
                forall|a: int, b: int|
                    0 <= a < kept@.len() && 0 <= b < closed@.len() ==> (#[trigger] kept@[a]).id != (
                    #[trigger] closed@[b]).id,
                forall|a: int, b: int|
                    0 <= a < lagged@.len() && 0 <= b < closed@.len() ==> (
                    #[trigger] lagged@[a]).id != (#[trigger] closed@[b]).id,
                forall|k: int|
                    0 <= k < lagged@.len() ==> (#[trigger] lagged@[k]).filter.spec_matched_names(
                        *message,
                    ).len() > 0,
                forall|k: int|
                    0 <= k < closed@.len() ==> (#[trigger] closed@[k]).filter.spec_matched_names(
                        *message,
                    ).len() > 0,
                forall|j: int|
                    0 <= j < i && (#[trigger] orig[j]).filter.spec_matched_names(*message).len()
                        == 0 ==> kept@.contains(orig[j]),
                forall|j: int|
                    0 <= j < i && (#[trigger] orig[j]).filter.spec_matched_names(*message).len()
                        > 0 ==> has_delivery(self.dispatched@, prior.len() as int, orig[j].id)
                        || lagged@.contains(orig[j]) || closed@.contains(orig[j]),
                self.dispatched@.len() >= prior.len(),
                self.dispatched@.take(prior.len() as int) == prior,
                forall|k: int|
                    prior.len() <= k < self.dispatched@.len() ==> {
                        let d = (#[trigger] self.dispatched@[k]);
                        &&& d.0 == ev
                        &&& d.2.filters@.len() > 0
                        &&& has_id(orig, d.1)
                        &&& has_id(kept@, d.1)
                        &&& match d.2.update_oneof {
                            Some(u) => wire_of(*message, u),
                            None => false,
                        }
                        &&& exists|j: int|
                            0 <= j < orig.len() && (#[trigger] orig[j]).id == d.1
                                && d.2.filters@.map_values(|s: String| s@)
                                == orig[j].filter.spec_matched_names(*message)
                    },
                forall|k1: int, k2: int|
                    prior.len() <= k1 < k2 < self.dispatched@.len() ==> (
                    #[trigger] self.dispatched@[k1]).1 != (#[trigger] self.dispatched@[k2]).1,
                prior_ev == old(self).evictions(),
                self.removals@.len() == prior_ev.len() + lagged@.len() + closed@.len(),
                self.removals@.take(prior_ev.len() as int) == prior_ev,
                forall|k: int|
                    0 <= k < lagged@.len() ==> evict_logged(
                        self.removals@,
                        prior_ev.len() as int,
                        (ev, (#[trigger] lagged@[k]).id, SendFailure::Full),
                    ),
                forall|k: int|
                    0 <= k < closed@.len() ==> evict_logged(
                        self.removals@,
                        prior_ev.len() as int,
                        (ev, (#[trigger] closed@[k]).id, SendFailure::Closed),
                    ),
                forall|t: int|
                    prior_ev.len() <= t < self.removals@.len() ==> {
                        let e = (#[trigger] self.removals@[t]);
                        &&& e.0 == ev
                        &&& match e.2 {
                            SendFailure::Full => has_id(lagged@, e.1),
                            SendFailure::Closed => has_id(closed@, e.1),
                        }
                    },
            decreases pending@.len(),
        {
            let c = pending.remove(0);
            proof {
                assert(c == orig[i]);
                assert(orig.skip(i).remove(0) =~= orig.skip(i + 1));
                assert(orig.take(i + 1).drop_last() =~= orig.take(i));
                assert(orig.take(i + 1).last() == orig[i]);
                lemma_bucket_fresh(orig, kept@, i);
                lemma_bucket_fresh(orig, lagged@, i);
                lemma_bucket_fresh(orig, closed@, i);
                lemma_take_contains_step(orig, i);
            }
            let names = c.filter.get_filters(message);
            if names.len() == 0 {
                proof {
                    lemma_push_preserves_contains(kept@, c);
                }
                kept.push(c);
            } else {
                let upd = SubscribeUpdate {
                    filters: names,
                    update_oneof: Some(UpdateOneof::from_message(message)),
                };
                let ghost gupd = upd;
                match crate::chan::try_send(&c.stream_tx, Ok(upd)) {
                    crate::chan::SendOutcome::Sent => {
                        let ghost kept_before = kept@;
                        let ghost disp_before = self.dispatched@;
                        proof {
                            assert forall|k: int|
                                prior.len() <= k < disp_before.len() implies (
                            #[trigger] disp_before[k]).1 != c.id by {
                                let d = disp_before[k];
                                assert(has_id(kept_before, d.1));
                                let a = choose|a: int|
                                    0 <= a < kept_before.len() && (#[trigger] kept_before[a]).id
                                        == d.1;
                                assert(kept_before[a].id != c.id);
                            }
                            lemma_push_preserves_contains(kept_before, c);
                        }
                        proof {
                            lemma_push_preserves_deliveries(
                                self.dispatched@,
                                (ev, c.id, gupd),
                                prior.len() as int,
                            );
                        }
                        self.dispatched = Ghost(self.dispatched@.push((ev, c.id, gupd)));
                        kept.push(c);
                        proof {
                            assert(kept@ == kept_before.push(c));
                            assert(self.dispatched@.take(prior.len() as int) =~= prior);
                            assert(kept@[kept@.len() - 1] == c);
                            assert(has_id(kept@, c.id));
                            assert(0 <= i < orig.len() && orig[i].id == c.id
                                && gupd.filters@.map_values(|s: String| s@)
                                == orig[i].filter.spec_matched_names(*message));
                            assert forall|k: int|
                                prior.len() <= k < self.dispatched@.len() implies has_id(
                                kept@,
                                (#[trigger] self.dispatched@[k]).1,
                            ) by {
                                if k < self.dispatched@.len() - 1 {
                                    assert(self.dispatched@[k] == disp_before[k]);
                                    let d = disp_before[k];
                                    assert(has_id(kept_before, d.1));
                                    let a = choose|a: int|
                                        0 <= a < kept_before.len() && (
                                        #[trigger] kept_before[a]).id == d.1;
                                    assert(kept@[a] == kept_before[a]);
                                    assert(kept@[a].id == d.1);
                                } else {
                                    assert(self.dispatched@[k] == (ev, c.id, gupd));
                                }
                            }
                        }
                    },
                    crate::chan::SendOutcome::Full(_) => {
                        proof {
                            lemma_push_preserves_contains(lagged@, c);
                            lemma_push_preserves_evict_log(
                                self.removals@,
                                (ev, c.id, SendFailure::Full),
                                prior_ev.len() as int,
                            );
                        }
                        self.removals = Ghost(self.removals@.push((ev, c.id, SendFailure::Full)));
                        lagged.push(c);
                        proof {
                            assert(self.removals@.take(prior_ev.len() as int) =~= prior_ev);
                            assert(lagged@[lagged@.len() - 1] == c);
                            assert(has_id(lagged@, c.id));
                            assert(self.removals@[self.removals@.len() - 1] == (
                                ev,
                                c.id,
                                SendFailure::Full,
                            ));
                        }
                    },
                    crate::chan::SendOutcome::Closed(_) => {
                        proof {
                            lemma_push_preserves_contains(closed@, c);
                            lemma_push_preserves_evict_log(
                                self.removals@,
                                (ev, c.id, SendFailure::Closed),
                                prior_ev.len() as int,
                            );
                        }
                        self.removals = Ghost(self.removals@.push((ev, c.id, SendFailure::Closed)));
                        closed.push(c);
                        proof {
                            assert(self.removals@.take(prior_ev.len() as int) =~= prior_ev);
                            assert(closed@[closed@.len() - 1] == c);
                            assert(has_id(closed@, c.id));
                            assert(self.removals@[self.removals@.len() - 1] == (
                                ev,
                                c.id,
                                SendFailure::Closed,
                            ));
                        }
                    },
                }
            }
            proof {
                i = i + 1;
            }
        }
        proof {
            assert(orig.skip(i).len() == 0);
            assert(i == orig.len());
            assert(orig.take(i) =~= orig);
        }
        self.clients = kept;
        let evicted = lagged.len() + closed.len();
        self.connections = self.connections - evicted;
        proof {
            assert forall|k1: int, k2: int|
                0 <= k1 < k2 < self.dispatched@.len() implies (
            #[trigger] self.dispatched@[k1]).0 <= (#[trigger] self.dispatched@[k2]).0 by {
                if k2 < prior.len() {
                    assert(prior[k1] == self.dispatched@[k1]);
                    assert(prior[k2] == self.dispatched@[k2]);
                } else if k1 < prior.len() {
                    assert(prior[k1] == self.dispatched@[k1]);
                    assert(old(self).delivery_wf(prior[k1]));
                }
            }
            assert forall|k1: int, k2: int|
                0 <= k1 < k2 < self.dispatched@.len() && (#[trigger] self.dispatched@[k1]).0 == (
            #[trigger] self.dispatched@[k2]).0 implies self.dispatched@[k1].1
                != self.dispatched@[k2].1 by {
                if k2 < prior.len() {
                    assert(prior[k1] == self.dispatched@[k1]);
                    assert(prior[k2] == self.dispatched@[k2]);
                } else if k1 < prior.len() {
                    assert(prior[k1] == self.dispatched@[k1]);
                    assert(old(self).delivery_wf(prior[k1]));
                }
            }
            assert forall|k: int|
                0 <= k < self.dispatched@.len() implies self.delivery_wf(
                #[trigger] self.dispatched@[k],
            ) by {
                if k < prior.len() {
                    assert(prior[k] == self.dispatched@[k]);
                    assert(old(self).delivery_wf(prior[k]));
                    assert(self.history@[self.dispatched@[k].0] == old(self).events()[self.dispatched@[k].0]);
                } else {
                    assert(self.history@[ev] == *message);
                }
            }
            assert forall|k: int, j: int|
                prior.len() <= k < self.dispatched@.len() && 0 <= j < orig.len() && (
                #[trigger] orig[j]).filter.spec_matched_names(*message).len() == 0 implies (
            #[trigger] self.dispatched@[k]).1 != orig[j].id by {
                let d = self.dispatched@[k];
                let j2 = choose|j2: int|
                    0 <= j2 < orig.len() && (#[trigger] orig[j2]).id == d.1
                        && d.2.filters@.map_values(|s: String| s@)
                        == orig[j2].filter.spec_matched_names(*message);
                if d.1 == orig[j].id {
                    if j2 != j {
                        assert(orig[j2].id != orig[j].id);
                    }
                    assert(d.2.filters@.len() > 0);
                    assert(d.2.filters@.map_values(|s: String| s@).len() == 0);
                }
            }
        }
        (lagged, closed)
    }
}

/// Ordering law: the deliveries one subscriber receives preserve ingestion
/// order. Along a subscriber's delivery sequence the indices of the ingested
/// events strictly increase, so two deliveries never swap the order of the
/// events they carry, and no event reaches the subscriber twice.
pub proof fn lemma_per_subscriber_order(c: Coordinator, id: usize, k1: int, k2: int)
    requires
        c.wf(),
        0 <= k1 < k2 < c.deliveries().len(),
        c.deliveries()[k1].1 == id,
        c.deliveries()[k2].1 == id,
    ensures
        c.deliveries()[k1].0 < c.deliveries()[k2].0,
{
    assert(c.deliveries()[k1].0 <= c.deliveries()[k2].0);
    if c.deliveries()[k1].0 == c.deliveries()[k2].0 {
        assert(c.deliveries()[k1].1 != c.deliveries()[k2].1);
    }
}

/// At-most-once law: no subscriber receives two deliveries for the same
/// ingested event.
pub proof fn lemma_at_most_once(c: Coordinator, k1: int, k2: int)
    requires
        c.wf(),
        0 <= k1 < k2 < c.deliveries().len(),
        c.deliveries()[k1].0 == c.deliveries()[k2].0,
    ensures
        c.deliveries()[k1].1 != c.deliveries()[k2].1,
{
}

/// Every identity in a bucket drawn from the first `i` subscribers differs
/// from the identity of subscriber `i`, since identities are unique.
proof fn lemma_bucket_fresh(orig: Seq<ClientConnection>, bucket: Seq<ClientConnection>, i: int)
    requires
        unique_ids(orig),
        0 <= i < orig.len(),
        forall|k: int| 0 <= k < bucket.len() ==> orig.take(i).contains(#[trigger] bucket[k]),
    ensures
        forall|k: int| 0 <= k < bucket.len() ==> (#[trigger] bucket[k]).id != orig[i].id,
{
    assert forall|k: int| 0 <= k < bucket.len() implies (#[trigger] bucket[k]).id != orig[i].id by {
        let j = choose|j: int|
            0 <= j < orig.take(i).len() && orig.take(i)[j] == bucket[k];
        assert(orig[j] == bucket[k]);
        assert(orig[j].id != orig[i].id);
    }
}

/// Pushing keeps every earlier member and every earlier identity, and the
/// pushed element is a member.
proof fn lemma_push_preserves_contains(s: Seq<ClientConnection>, e: ClientConnection)
    ensures
        forall|x: ClientConnection| s.contains(x) ==> #[trigger] s.push(e).contains(x),
        s.push(e).contains(e),
        forall|id: usize| has_id(s, id) ==> #[trigger] has_id(s.push(e), id),
{
    assert forall|x: ClientConnection| s.contains(x) implies #[trigger] s.push(e).contains(x) by {
        let j = choose|j: int| 0 <= j < s.len() && s[j] == x;
        assert(s.push(e)[j] == x);
    }
    assert(s.push(e)[s.len() as int] == e);
    assert forall|id: usize| has_id(s, id) implies #[trigger] has_id(s.push(e), id) by {
        let j = choose|j: int| 0 <= j < s.len() && (#[trigger] s[j]).id == id;
        assert(s.push(e)[j].id == id);
    }
}

/// Appending an eviction keeps every earlier recorded eviction, and the
/// appended one is recorded.
proof fn lemma_push_preserves_evict_log(es: Seq<Eviction>, d: Eviction, from: int)
    requires
        0 <= from <= es.len(),
    ensures
        forall|e: Eviction| evict_logged(es, from, e) ==> #[trigger] evict_logged(es.push(d), from, e),
        evict_logged(es.push(d), from, d),
{
    assert forall|e: Eviction|
        evict_logged(es, from, e) implies #[trigger] evict_logged(es.push(d), from, e) by {
        let t = choose|t: int| from <= t < es.len() && es[t] == e;
        assert(es.push(d)[t] == e);
    }
    assert(es.push(d)[es.len() as int] == d);
}

/// Appending a delivery keeps every earlier subscriber delivered-to, and the
/// appended delivery's subscriber is delivered-to.
proof fn lemma_push_preserves_deliveries(ds: Seq<Delivery>, d: Delivery, from: int)
    requires
        0 <= from <= ds.len(),
    ensures
        forall|id: usize| has_delivery(ds, from, id) ==> #[trigger] has_delivery(ds.push(d), from, id),
        has_delivery(ds.push(d), from, d.1),
{
    assert forall|id: usize|
        has_delivery(ds, from, id) implies #[trigger] has_delivery(ds.push(d), from, id) by {
        let k = choose|k: int| from <= k < ds.len() && (#[trigger] ds[k]).1 == id;
        assert(ds.push(d)[k].1 == id);
    }
    assert(ds.push(d)[ds.len() as int] == d);
}

/// Membership in a prefix is kept by the one-longer prefix.
proof fn lemma_take_contains_step(orig: Seq<ClientConnection>, i: int)
    requires
        0 <= i < orig.len(),
    ensures
        forall|x: ClientConnection|
            orig.take(i).contains(x) ==> #[trigger] orig.take(i + 1).contains(x),
        orig.take(i + 1).contains(orig[i]),
{
    assert forall|x: ClientConnection|
        orig.take(i).contains(x) implies #[trigger] orig.take(i + 1).contains(x) by {
        let j = choose|j: int| 0 <= j < orig.take(i).len() && orig.take(i)[j] == x;
        assert(orig.take(i + 1)[j] == x);
    }
    assert(orig.take(i + 1)[i] == orig[i]);
}

} // verus!
