//! The peer connection factory: a bounded pool of reusable outbound
//! transports, keyed by peer identifier.
//!
//! A pooled transport is lazily connected — building one costs no I/O;
//! only its first use pays the connection cost, amortized across every
//! caller holding it. The pool key is the peer's `id` alone, not its
//! full descriptor: two descriptors sharing an `id` share a transport
//! even when host or port differ. That is an intentional policy (ring
//! identifiers are assumed not to be reassigned to another address
//! within a process run) and is pinned down by `get_channel`'s contract.
//!
//! A transport value is modeled by the transport it handles: tonic
//! channels are cheaply cloneable handles to one shared transport, so a
//! clone stands for the same value in contracts.

use crate::config::ClientConfig;
use crate::node_grpc_client::NodeGrpcClient;
use crate::node_info::NodeInfo;
use cached::Cached;
use vstd::prelude::*;

verus! {

#[verifier::external_type_specification]
#[verifier::external_body]
pub struct ExChannel(tonic::transport::Channel);

/// What the pool holds: the transport stored under each peer identifier.
pub uninterp spec fn pool_entries(store: ChannelStore) -> Map<u64, tonic::transport::Channel>;

/// The bound the pool was created with.
pub uninterp spec fn pool_capacity(store: ChannelStore) -> int;

/// The stored keys in recency order, least recently used first.
pub uninterp spec fn pool_order(store: ChannelStore) -> Seq<u64>;

/// The recency order is a faithful index of the contents: each stored
/// key once.
pub open spec fn pool_order_wf(store: ChannelStore) -> bool {
    &&& pool_order(store).no_duplicates()
    &&& pool_order(store).to_set() == pool_entries(store).dom()
}

/// The bounded transport store, least-recently-used eviction once full.
#[verifier::external_body]
pub struct ChannelStore {
    inner: cached::LruCache<u64, tonic::transport::Channel>,
}

impl ChannelStore {
    /// Relies on cached's LruCache::new: a fresh empty store bounded by
    /// `capacity`. `new` accepts any non-zero bound; it pre-allocates for
    /// `capacity` entries, so the bound is kept small enough that the
    /// allocation cannot fail.
    #[verifier::external_body]
    fn new(capacity: usize) -> (r: Self)
        requires
            1 <= capacity <= 0x10000,
        ensures
            pool_entries(r) =~= Map::empty(),
            pool_entries(r).dom().finite(),
            pool_entries(r).len() == 0,
            pool_capacity(r) == capacity,
            pool_order(r) =~= Seq::empty(),
            pool_order_wf(r),
    {
        ChannelStore { inner: cached::LruCache::new(capacity) }
    }

    /// Relies on cached's cache_get: a hit returns the stored entry and
    /// promotes its key to most recently used, a miss touches nothing;
    /// and on Channel::clone, which hands back another handle to the
    /// same transport.
    #[verifier::external_body]
    fn get(&mut self, id: u64) -> (r: Option<tonic::transport::Channel>)
        requires
            pool_order_wf(*old(self)),
        ensures
            pool_entries(*final(self)) == pool_entries(*old(self)),
            pool_capacity(*final(self)) == pool_capacity(*old(self)),
            pool_order_wf(*final(self)),
            match r {
                Some(c) => {
                    &&& pool_entries(*old(self)).dom().contains(id)
                    &&& c == pool_entries(*old(self))[id]
                    &&& exists|i: int|
                        {
                            &&& 0 <= i < pool_order(*old(self)).len()
                            &&& pool_order(*old(self))[i] == id
                            &&& pool_order(*final(self)) == pool_order(*old(self)).remove(i).push(
                                id,
                            )
                        }
                },
                None => !pool_entries(*old(self)).dom().contains(id) && pool_order(*final(self))
                    == pool_order(*old(self)),
            },
    {
        self.inner.cache_get(&id).cloned()
    }

    /// Relies on cached's cache_set: it stores the value under the key,
    /// making the key most recently used; when a fresh insertion pushes
    /// a full store over its bound, the least recently used entry is
    /// dropped.
    #[verifier::external_body]
    fn set(&mut self, id: u64, channel: tonic::transport::Channel)
        requires
            pool_capacity(*old(self)) >= 1,
            pool_entries(*old(self)).dom().finite(),
            pool_entries(*old(self)).len() <= pool_capacity(*old(self)),
            pool_order_wf(*old(self)),
        ensures
            pool_capacity(*final(self)) == pool_capacity(*old(self)),
            pool_entries(*final(self)).dom().finite(),
            pool_entries(*final(self)).len() <= pool_capacity(*old(self)),
            pool_order_wf(*final(self)),
            (if pool_entries(*old(self)).dom().contains(id) {
                &&& pool_entries(*final(self)) == pool_entries(*old(self)).insert(id, channel)
                &&& exists|i: int|
                    {
                        &&& 0 <= i < pool_order(*old(self)).len()
                        &&& pool_order(*old(self))[i] == id
                        &&& pool_order(*final(self)) == pool_order(*old(self)).remove(i).push(id)
                    }
            } else if pool_entries(*old(self)).len() < pool_capacity(*old(self)) {
                &&& pool_entries(*final(self)) == pool_entries(*old(self)).insert(id, channel)
                &&& pool_order(*final(self)) == pool_order(*old(self)).push(id)
            } else {
                &&& pool_entries(*final(self)) == pool_entries(*old(self)).remove(
                    pool_order(*old(self))[0],
                ).insert(id, channel)
                &&& pool_order(*final(self)) == pool_order(*old(self)).drop_first().push(id)
            }),
    {
        let _ = self.inner.cache_set(id, channel);
    }

    /// Relies on cached's cache_size: the number of stored entries.
    #[verifier::external_body]
    fn len(&self) -> (n: usize)
        ensures
            n == pool_entries(*self).len(),
    {
        self.inner.cache_size()
    }
}

/// Relies on Channel::clone: one more handle to the same transport, the
/// same value in this model.
#[verifier::external_body]
fn clone_channel(channel: &tonic::transport::Channel) -> (r: tonic::transport::Channel)
    ensures
        r == *channel,
{
    channel.clone()
}

/// Relies on tonic's endpoint builder: it configures the peer's URI and
/// the given timeouts and creates the channel lazily, without
/// connecting. The channel spawns its transport worker on the ambient
/// async runtime, so the factory is used from within one.
#[verifier::external_body]
fn build_channel(uri: http::Uri, config: &ClientConfig) -> tonic::transport::Channel {
    tonic::transport::Channel::builder(uri)
        .connect_timeout(std::time::Duration::from_millis(config.connect_timeout))
        .timeout(std::time::Duration::from_millis(config.request_timeout))
        .keep_alive_timeout(std::time::Duration::from_millis(config.keep_alive_timeout))
        .connect_lazy()
}

/// How many pooled transports a factory keeps at most.
pub const CHANNEL_POOL_CAPACITY: usize = 1024;

/// The peer connection factory of one process.
pub struct GrpcNodeClientFactory {
    config: ClientConfig,
    channels: ChannelStore,
}

impl GrpcNodeClientFactory {
    /// The pooled transports, by peer identifier.
    pub closed spec fn spec_pool(&self) -> Map<u64, tonic::transport::Channel> {
        pool_entries(self.channels)
    }

    /// The pool bound.
    pub closed spec fn spec_capacity(&self) -> int {
        pool_capacity(self.channels)
    }

    /// The pooled keys in recency order, least recently used first.
    pub closed spec fn spec_order(&self) -> Seq<u64> {
        pool_order(self.channels)
    }

    /// The transport configuration applied at creation time.
    pub closed spec fn spec_config(&self) -> ClientConfig {
        self.config
    }

    pub closed spec fn spec_order_wf(&self) -> bool {
        pool_order_wf(self.channels)
    }

    pub open spec fn wf(&self) -> bool {
        &&& self.spec_capacity() >= 1
        &&& self.spec_pool().dom().finite()
        &&& self.spec_pool().len() <= self.spec_capacity()
        &&& self.spec_order_wf()
    }

    /// A factory with an empty pool of the default bound.
    pub fn new(config: ClientConfig) -> (r: Self)
        ensures
            r.wf(),
            r.spec_config() == config,
            r.spec_capacity() == CHANNEL_POOL_CAPACITY,
            r.spec_pool() == Map::<u64, tonic::transport::Channel>::empty(),
            r.spec_order() == Seq::<u64>::empty(),
    {
        GrpcNodeClientFactory { config, channels: ChannelStore::new(CHANNEL_POOL_CAPACITY) }
    }

    /// The number of pooled transports.
    pub fn pool_len(&self) -> (n: usize)
        ensures
            n == self.spec_pool().len(),
    {
        self.channels.len()
    }

    /// The transport for `node_info`, pooled by its `id` alone.
    ///
    /// A hit returns the pooled transport unchanged — in particular, two
    /// calls whose descriptors share an `id` but differ in host or port
    /// yield the same pooled transport — and makes it most recently
    /// used. A miss builds a lazily-connected transport with the
    /// factory's configured timeouts, pools it under the `id`, and
    /// returns it; when the pool is full this evicts exactly the least
    /// recently used transport.
    pub fn get_channel(&mut self, node_info: &NodeInfo) -> (c: tonic::transport::Channel)
        requires
            old(self).wf(),
        ensures
            final(self).wf(),
            final(self).spec_config() == old(self).spec_config(),
            final(self).spec_capacity() == old(self).spec_capacity(),
            final(self).spec_pool().dom().contains(node_info.id),
            c == final(self).spec_pool()[node_info.id],
            old(self).spec_pool().dom().contains(node_info.id) ==> {
                &&& c == old(self).spec_pool()[node_info.id]
                &&& final(self).spec_pool() == old(self).spec_pool()
                &&& exists|i: int|
                    {
                        &&& 0 <= i < old(self).spec_order().len()
                        &&& old(self).spec_order()[i] == node_info.id
                        &&& final(self).spec_order() == old(self).spec_order().remove(i).push(
                            node_info.id,
                        )
                    }
            },
            !old(self).spec_pool().dom().contains(node_info.id) ==> (if old(
                self,
            ).spec_pool().len() < old(self).spec_capacity() {
                &&& final(self).spec_pool() == old(self).spec_pool().insert(node_info.id, c)
                &&& final(self).spec_order() == old(self).spec_order().push(node_info.id)
            } else {
                &&& final(self).spec_pool() == old(self).spec_pool().remove(
                    old(self).spec_order()[0],
                ).insert(node_info.id, c)
                &&& final(self).spec_order() == old(self).spec_order().drop_first().push(
                    node_info.id,
                )
                &&& old(self).spec_order()[0] != node_info.id
                &&& old(self).spec_pool().dom().contains(old(self).spec_order()[0])
            }),
    {
        match self.channels.get(node_info.id) {
            Some(channel) => {
                proof {
                    let oc = old(self).channels;
                    let i = choose|i: int|
                        {
                            &&& 0 <= i < pool_order(oc).len()
                            &&& pool_order(oc)[i] == node_info.id
                            &&& pool_order(self.channels) == pool_order(oc).remove(i).push(
                                node_info.id,
                            )
                        };
                    assert({
                        &&& 0 <= i < old(self).spec_order().len()
                        &&& old(self).spec_order()[i] == node_info.id
                        &&& self.spec_order() == old(self).spec_order().remove(i).push(
                            node_info.id,
                        )
                    });
                }
                channel
            },
            None => {
                let uri = node_info.uri();
                let channel = build_channel(uri, &self.config);
                let handle = clone_channel(&channel);
                self.channels.set(node_info.id, channel);
                handle
            },
        }
    }

    /// A client handle for `node_info`, over the pooled transport for
    /// its identifier.
    pub fn create_node_client(&mut self, node_info: &NodeInfo) -> (r: NodeGrpcClient)
        requires
            old(self).wf(),
        ensures
            final(self).wf(),
            final(self).spec_config() == old(self).spec_config(),
            final(self).spec_capacity() == old(self).spec_capacity(),
            r.spec_node_info() == *node_info,
            final(self).spec_pool().dom().contains(node_info.id),
            r.spec_channel() == final(self).spec_pool()[node_info.id],
            old(self).spec_pool().dom().contains(node_info.id) ==> {
                &&& r.spec_channel() == old(self).spec_pool()[node_info.id]
                &&& final(self).spec_pool() == old(self).spec_pool()
            },
    {
        let channel = self.get_channel(node_info);
        NodeGrpcClient::new(*node_info, channel)
    }
}

} // verus!
