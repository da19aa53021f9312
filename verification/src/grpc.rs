//! The subscription endpoint. It accepts subscription requests: allocates
//! the next subscriber identity (monotonically increasing, never reused),
//! compiles the filter (rejecting an invalid request before any channel is
//! created), creates the bounded delivery channel, and hands the new
//! subscriber to the coordinator over the unbounded registration channel.
//! The transport listener that carries requests in and streams updates out
//! lives outside this library.

use vstd::prelude::*;

use crate::coordinator::{ClientConnection, StreamItem};
use crate::chan;
use crate::events::Message;
use crate::filters::{
    filter_compiles_to, names_unique, request_ok, ConfigFilters, Filter, FilterError,
    SubscribeRequest,
};

verus! {

/// Service configuration: the capacity every subscriber's delivery channel
/// is created with, and the filter-complexity limits.
#[derive(Debug, Clone, Copy, PartialEq, Eq, Structural)]
pub struct ConfigGrpc {
    pub channel_capacity: usize,
    pub filters: ConfigFilters,
}

impl ConfigGrpc {
    /// Delivery channels need a positive capacity within the runtime's
    /// permit limit.
    pub open spec fn wf(self) -> bool {
        1 <= self.channel_capacity <= usize::MAX >> 3
    }
}

/// Why a subscription request was rejected.
#[derive(Debug, Clone, Copy, PartialEq, Eq, Structural)]
pub enum SubscribeError {
    /// The request's filter did not compile; carries the failure detail. No
    /// channel was created and no registration was sent.
    InvalidArgument(FilterError),
    /// The coordinator is no longer accepting registrations.
    Internal,
}

/// The subscription endpoint's state: the configuration, the identity
/// counter, the sending half of the registration channel, and the ghost
/// history of allocated identities and of registrations handed to the
/// coordinator.
pub struct GrpcService {
    config: ConfigGrpc,
    subscribe_id: usize,
    new_clients_tx: tokio::sync::mpsc::UnboundedSender<ClientConnection>,
    allocated: Ghost<Seq<usize>>,
    registered: Ghost<Seq<ClientConnection>>,
}

impl GrpcService {
    /// The configured limits and capacity.
    pub closed spec fn spec_config(self) -> ConfigGrpc {
        self.config
    }

    /// The identity the next accepted subscription will get.
    pub closed spec fn next_id(self) -> usize {
        self.subscribe_id
    }

    /// Every identity allocated so far, in allocation order (one per
    /// request, accepted or rejected).
    pub closed spec fn allocated_ids(self) -> Seq<usize> {
        self.allocated@
    }

    /// Every registration sent to the coordinator so far, in order.
    pub closed spec fn registrations(self) -> Seq<ClientConnection> {
        self.registered@
    }

    /// Endpoint invariant: the configuration is usable, and the allocated
    /// identities are strictly increasing and all below the counter — so no
    /// identity is ever reused.
    pub open spec fn wf(self) -> bool {
        &&& self.spec_config().wf()
        &&& forall|k: int|
            0 <= k < self.allocated_ids().len() ==> (#[trigger] self.allocated_ids()[k])
                < self.next_id()
        &&& forall|k1: int, k2: int|
            0 <= k1 < k2 < self.allocated_ids().len() ==> (#[trigger] self.allocated_ids()[k1]) < (
            #[trigger] self.allocated_ids()[k2])
    }

    /// Creates the service together with its two coordinator-facing
    /// channels: the event ingestion channel (both halves returned: the
    /// sending half goes to the upstream producer, the receiving half to the
    /// coordinator's loop) and the registration channel (its receiving half
    /// returned for the coordinator's loop). Identities start at zero.
    pub fn create(config: ConfigGrpc) -> (r: (
        GrpcService,
        tokio::sync::mpsc::UnboundedSender<Message>,
        tokio::sync::mpsc::UnboundedReceiver<Message>,
        tokio::sync::mpsc::UnboundedReceiver<ClientConnection>,
    ))
        requires
            config.wf(),
        ensures
            r.0.wf(),
            r.0.spec_config() == config,
            r.0.next_id() == 0,
            r.0.allocated_ids().len() == 0,
            r.0.registrations().len() == 0,
    {
        let (new_clients_tx, new_clients_rx) = chan::unbounded_channel();
        let (update_tx, update_rx) = chan::unbounded_channel();
        let service = GrpcService {
            config,
            subscribe_id: 0,
            new_clients_tx,
            allocated: Ghost(Seq::empty()),
            registered: Ghost(Seq::empty()),
        };
        (service, update_tx, update_rx, new_clients_rx)
    }

    /// The identity the next accepted subscription will get.
    pub fn next_subscriber_id(&self) -> (r: usize)
        ensures
            r == self.next_id(),
    {
        self.subscribe_id
    }

    /// Accepts or rejects one subscription request. An identity is allocated
    /// first (and consumed even on rejection, so identities stay strictly
    /// increasing in acceptance order). A request whose filter does not
    /// compile is rejected with the failure detail before any channel is
    /// created. Otherwise the delivery channel is created with the
    /// configured capacity, the subscriber is sent to the coordinator for
    /// registration, and the receiving half is returned as the subscriber's
    /// outbound stream; if the coordinator is gone the request fails
    /// internally.
    pub fn subscribe(&mut self, request: &SubscribeRequest) -> (r: Result<
        tokio::sync::mpsc::Receiver<StreamItem>,
        SubscribeError,
    >)
        requires
            old(self).wf(),
            old(self).next_id() < usize::MAX,
        ensures
            final(self).wf(),
            final(self).spec_config() == old(self).spec_config(),
            final(self).next_id() == old(self).next_id() + 1,
            (r matches Err(SubscribeError::InvalidArgument(_))) <==> !request_ok(
                *request,
                old(self).spec_config().filters,
            ),
            (match r {
                Err(SubscribeError::InvalidArgument(FilterError::TooManyGroups)) => request.groups@.len()
                    > old(self).spec_config().filters.max_groups,
                Err(SubscribeError::InvalidArgument(FilterError::DuplicateName)) => !names_unique(
                    request.groups@,
                ),
                Err(SubscribeError::InvalidArgument(FilterError::TooManyAddresses)) => exists|j: int|
                    0 <= j < request.groups@.len() && !crate::filters::group_ok(
                        #[trigger] request.groups@[j],
                        old(self).spec_config().filters,
                    ),
                Err(SubscribeError::InvalidArgument(FilterError::InvalidPubkey)) => exists|j: int|
                    0 <= j < request.groups@.len() && !crate::filters::group_ok(
                        #[trigger] request.groups@[j],
                        old(self).spec_config().filters,
                    ),
                _ => true,
            }),
            final(self).allocated_ids() == old(self).allocated_ids().push(old(self).next_id()),
            (match r {
                Ok(_) => {
                    &&& final(self).registrations().len() == old(self).registrations().len() + 1
                    &&& final(self).registrations().take(old(self).registrations().len() as int)
                        == old(self).registrations()
                    &&& final(self).registrations().last().id == old(self).next_id()
                    &&& filter_compiles_to(*request, final(self).registrations().last().filter)
                },
                Err(_) => final(self).registrations() == old(self).registrations(),
            }),
    {
        let id = self.subscribe_id;
        self.subscribe_id = self.subscribe_id + 1;
        self.allocated = Ghost(self.allocated@.push(id));
        proof {
            let prior = old(self).allocated_ids();
            assert forall|k: int|
                0 <= k < self.allocated@.len() implies (#[trigger] self.allocated@[k])
                < self.subscribe_id by {
                if k < prior.len() {
                    assert(prior[k] < old(self).next_id());
                } else {
                    assert(self.allocated@[k] == id);
                }
            }
            assert forall|k1: int, k2: int|
                0 <= k1 < k2 < self.allocated@.len() implies (#[trigger] self.allocated@[k1]) < (
            #[trigger] self.allocated@[k2]) by {
                if k2 < prior.len() {
                    assert(prior[k1] < prior[k2]);
                } else {
                    assert(self.allocated@[k2] == id);
                    assert(prior[k1] < old(self).next_id());
                }
            }
        }
        let filter = match Filter::new(request, &self.config.filters) {
            Ok(f) => f,
            Err(e) => {
                return Err(SubscribeError::InvalidArgument(e));
            },
        };
        let (stream_tx, stream_rx) = chan::bounded_channel(self.config.channel_capacity);
        let client = ClientConnection { id, filter, stream_tx };
        let ghost registration = client;
        match chan::unbounded_send(&self.new_clients_tx, client) {
            Ok(_) => {
                self.registered = Ghost(self.registered@.push(registration));
                proof {
                    assert(self.registered@.take(old(self).registrations().len() as int) =~= old(
                        self,
                    ).registrations());
                    assert(self.registered@.last() == registration);
                }
                Ok(stream_rx)
            },
            Err(_) => Err(SubscribeError::Internal),
        }
    }
}

/// Identity uniqueness law: across any number of subscription requests,
/// accepted or rejected, the allocated identities are strictly increasing in
/// allocation order, hence pairwise distinct and never reused.
pub proof fn lemma_identity_uniqueness(s: GrpcService, k1: int, k2: int)
    requires
        s.wf(),
        0 <= k1 < k2 < s.allocated_ids().len(),
    ensures
        s.allocated_ids()[k1] < s.allocated_ids()[k2],
{
}

} // verus!
