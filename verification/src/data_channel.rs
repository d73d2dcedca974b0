//! Application-agnostic data channels.
//!
//! A data channel binds a byte stream to its transport facts: the peer at the
//! other end, the protocol, a channel id and a direction. Nothing here knows
//! of files, sessions or message boundaries.
//!
//! [`ChannelRegistry`] counts the channels in use and enforces the limits per
//! peer and per protocol. A channel holds a [`ChannelGuard`] for its share of
//! the quota and hands it back to the registry when it closes.

use crate::foreign::{peer_id_bytes, protocol_name};
use crate::keyed_table::{KeyedTable, TableKey};
use crate::text::{decimal, decimal_text};
use libp2p::{PeerId, StreamProtocol};
use vstd::multiset::Multiset;
use vstd::prelude::*;
use vstd::string::StringExecFns;

verus! {

/// Identifies a data channel within this process.
///
/// Ids serve logging and lifecycle tracking; they never travel over the network.
#[derive(Debug, Clone, Copy, PartialEq, Eq, Hash, Structural)]
pub struct DataChannelId(pub u64);

/// Hands out channel ids in increasing order.
#[derive(Debug)]
pub struct ChannelIdCounter {
    /// The id that comes next.
    pub next: u64,
}

impl ChannelIdCounter {
    /// A counter that starts at zero.
    pub fn new() -> (counter: Self)
        ensures
            counter.next == 0,
    {
        ChannelIdCounter { next: 0 }
    }
}

/// The number that follows `n` in a counter of 64 bits.
pub open spec fn successor(n: u64) -> u64 {
    if n == u64::MAX {
        0
    } else {
        (n + 1) as u64
    }
}

impl DataChannelId {
    /// Takes the next id from `counter`, which wraps around after the last one.
    pub fn next(counter: &mut ChannelIdCounter) -> (id: Self)
        ensures
            id.0 == old(counter).next,
            final(counter).next == successor(old(counter).next),
    {
        let id = DataChannelId(counter.next);
        counter.next = counter.next.wrapping_add(1);
        id
    }

    /// The id as it appears in logs, such as `dc#7`.
    pub fn to_string(&self) -> (text: String)
        ensures
            text@ == "dc#"@ + decimal(self.0 as nat),
    {
        "dc#".to_owned().concat(decimal_text(self.0).as_str())
    }
}

/// Which end opened a data channel.
#[derive(Debug, Clone, Copy, PartialEq, Eq, Structural)]
pub enum DataChannelDirection {
    /// Opened by this end.
    Outbound,
    /// Opened by the remote end and accepted here.
    Inbound,
}

/// Why a data channel closed or failed to open.
#[derive(Debug, Clone, PartialEq, Eq)]
pub enum DataChannelCloseReason {
    /// The stream reached its end.
    Normal,
    /// The connection to the peer closed before the channel was done.
    ConnectionClosed,
    /// The local caller cancelled.
    LocalCancelled,
    /// The remote end does not speak the protocol.
    UnsupportedProtocol,
    /// A limit per peer or per protocol was reached.
    ResourceLimitExceeded,
    /// Any other I/O error, with its text.
    Io(String),
}

impl DataChannelCloseReason {
    /// The reason in words.
    pub open spec fn describe(&self) -> Seq<char> {
        match self {
            Self::Normal => "normal end-of-stream"@,
            Self::ConnectionClosed => "underlying connection closed"@,
            Self::LocalCancelled => "locally cancelled"@,
            Self::UnsupportedProtocol => "unsupported protocol"@,
            Self::ResourceLimitExceeded => "resource limit exceeded"@,
            Self::Io(detail) => "io error: "@ + detail@,
        }
    }

    /// The reason in words.
    pub fn to_string(&self) -> (text: String)
        ensures
            text@ == self.describe(),
    {
        match self {
            Self::Normal => "normal end-of-stream".to_owned(),
            Self::ConnectionClosed => "underlying connection closed".to_owned(),
            Self::LocalCancelled => "locally cancelled".to_owned(),
            Self::UnsupportedProtocol => "unsupported protocol".to_owned(),
            Self::ResourceLimitExceeded => "resource limit exceeded".to_owned(),
            Self::Io(detail) => "io error: ".to_owned().concat(detail.as_str()),
        }
    }
}

/// Registration of one data-channel protocol.
#[derive(Debug, Clone)]
pub struct DataChannelProtocolConfig {
    /// The protocol's name, such as `/swarmdrop/transfer-data/1`.
    pub protocol: StreamProtocol,
}

impl DataChannelProtocolConfig {
    /// Registers `protocol`.
    pub fn new(protocol: StreamProtocol) -> (config: Self)
        ensures
            config.protocol == protocol,
    {
        Self { protocol }
    }
}

/// How many data channels may be in use at once.
#[derive(Debug, Clone, Copy)]
pub struct DataChannelLimits {
    /// Inbound channels per peer.
    pub max_inbound_per_peer: usize,
    /// Outbound channels per peer.
    pub max_outbound_per_peer: usize,
    /// Channels per protocol, in both directions together.
    pub max_per_protocol: usize,
}

impl Default for DataChannelLimits {
    fn default() -> (limits: Self)
        ensures
            limits.max_inbound_per_peer == 4,
            limits.max_outbound_per_peer == 4,
            limits.max_per_protocol == 64,
    {
        Self { max_inbound_per_peer: 4, max_outbound_per_peer: 4, max_per_protocol: 64 }
    }
}

impl DataChannelLimits {
    /// The limit per peer that holds for channels of `direction`.
    pub open spec fn per_peer(self, direction: DataChannelDirection) -> usize {
        match direction {
            DataChannelDirection::Inbound => self.max_inbound_per_peer,
            DataChannelDirection::Outbound => self.max_outbound_per_peer,
        }
    }
}

/// What one channel takes up of the quota.
pub struct Slot {
    /// The peer, by the bytes of its identifier.
    pub peer: Seq<u8>,
    /// The protocol, by its name.
    pub protocol: Seq<char>,
    /// The direction of the channel.
    pub direction: DataChannelDirection,
}

/// The slot of a channel to `peer` over `protocol`.
pub open spec fn slot_of(
    peer: PeerId,
    protocol: StreamProtocol,
    direction: DataChannelDirection,
) -> Slot {
    Slot { peer: peer_id_bytes(peer), protocol: protocol_name(protocol), direction }
}

/// The count stored for `key`; a key that is absent counts zero.
pub open spec fn count_of<I>(counts: Map<I, usize>, key: I) -> usize {
    if counts.contains_key(key) {
        counts[key]
    } else {
        0
    }
}

/// The counts with one more for `key`.
pub open spec fn raised<I>(counts: Map<I, usize>, key: I) -> Map<I, usize> {
    counts.insert(key, (count_of(counts, key) + 1) as usize)
}

/// The counts with one less for `key`; a count that reaches zero is removed,
/// and a key that is absent stays absent.
pub open spec fn lowered<I>(counts: Map<I, usize>, key: I) -> Map<I, usize> {
    if count_of(counts, key) > 1 {
        counts.insert(key, (counts[key] - 1) as usize)
    } else {
        counts.remove(key)
    }
}

/// The counts a registry keeps.
#[verifier::ext_equal]
pub struct RegistryCounts {
    /// Inbound channels of each peer.
    pub inbound_per_peer: Map<Seq<u8>, usize>,
    /// Outbound channels of each peer.
    pub outbound_per_peer: Map<Seq<u8>, usize>,
    /// Channels of each protocol.
    pub per_protocol: Map<Seq<char>, usize>,
}

impl RegistryCounts {
    /// No channel is in use.
    pub open spec fn empty() -> Self {
        RegistryCounts {
            inbound_per_peer: Map::empty(),
            outbound_per_peer: Map::empty(),
            per_protocol: Map::empty(),
        }
    }

    /// The counts per peer for one direction.
    pub open spec fn per_peer(self, direction: DataChannelDirection) -> Map<Seq<u8>, usize> {
        match direction {
            DataChannelDirection::Inbound => self.inbound_per_peer,
            DataChannelDirection::Outbound => self.outbound_per_peer,
        }
    }

    /// The same counts but for those per peer of one direction.
    pub open spec fn with_per_peer(
        self,
        direction: DataChannelDirection,
        counts: Map<Seq<u8>, usize>,
    ) -> Self {
        match direction {
            DataChannelDirection::Inbound => RegistryCounts { inbound_per_peer: counts, ..self },
            DataChannelDirection::Outbound => RegistryCounts { outbound_per_peer: counts, ..self },
        }
    }

    /// Whether `limits` leave room for a channel with this slot.
    pub open spec fn admits(self, limits: DataChannelLimits, slot: Slot) -> bool {
        &&& count_of(self.per_peer(slot.direction), slot.peer) < limits.per_peer(slot.direction)
        &&& count_of(self.per_protocol, slot.protocol) < limits.max_per_protocol
    }

    /// The counts after a channel with this slot came into use.
    pub open spec fn acquired(self, slot: Slot) -> Self {
        RegistryCounts {
            per_protocol: raised(self.per_protocol, slot.protocol),
            ..self.with_per_peer(
                slot.direction,
                raised(self.per_peer(slot.direction), slot.peer),
            )
        }
    }

    /// The counts after a channel with this slot went out of use.
    pub open spec fn released(self, slot: Slot) -> Self {
        RegistryCounts {
            per_protocol: lowered(self.per_protocol, slot.protocol),
            ..self.with_per_peer(
                slot.direction,
                lowered(self.per_peer(slot.direction), slot.peer),
            )
        }
    }

    /// No count is kept for nothing, and none is above its limit.
    pub open spec fn within(self, limits: DataChannelLimits) -> bool {
        &&& forall|peer: Seq<u8>| #[trigger]
            self.inbound_per_peer.contains_key(peer) ==> 1 <= self.inbound_per_peer[peer]
                <= limits.max_inbound_per_peer
        &&& forall|peer: Seq<u8>| #[trigger]
            self.outbound_per_peer.contains_key(peer) ==> 1 <= self.outbound_per_peer[peer]
                <= limits.max_outbound_per_peer
        &&& forall|protocol: Seq<char>| #[trigger]
            self.per_protocol.contains_key(protocol) ==> 1 <= self.per_protocol[protocol]
                <= limits.max_per_protocol
    }

    /// Whether these are the counts of exactly the channels in `live`.
    pub open spec fn counts_exactly(self, live: Multiset<Slot>) -> bool {
        &&& forall|direction: DataChannelDirection, peer: Seq<u8>|
            count_of(#[trigger] self.per_peer(direction), peer) == (#[trigger] live.filter(
                with_peer(direction, peer),
            )).len()
        &&& forall|protocol: Seq<char>|
            count_of(self.per_protocol, protocol) == (#[trigger] live.filter(
                with_protocol(protocol),
            )).len()
    }
}

/// Picks the slots of one direction that belong to `peer`.
pub open spec fn with_peer(direction: DataChannelDirection, peer: Seq<u8>) -> spec_fn(Slot) -> bool {
    |slot: Slot| slot.direction == direction && slot.peer == peer
}

/// Picks the slots that belong to `protocol`.
pub open spec fn with_protocol(protocol: Seq<char>) -> spec_fn(Slot) -> bool {
    |slot: Slot| slot.protocol == protocol
}

/// Adds one to the count of `key`.
fn raise<K: TableKey>(counts: &mut KeyedTable<K, usize>, key: K)
    requires
        old(counts).wf(),
        count_of(old(counts)@, key.id()) < usize::MAX,
    ensures
        final(counts).wf(),
        final(counts)@ == raised(old(counts)@, key.id()),
{
    let count: usize = stored_count(counts, &key);
    counts.insert(key, count + 1);
}

/// Takes one from the count of `key` and forgets the key at zero.
fn lower<K: TableKey>(counts: &mut KeyedTable<K, usize>, key: K)
    requires
        old(counts).wf(),
    ensures
        final(counts).wf(),
        final(counts)@ == lowered(old(counts)@, key.id()),
{
    let count: usize = stored_count(counts, &key);
    if count > 1 {
        counts.insert(key, count - 1);
    } else {
        let _ = counts.remove(&key);
    }
}

/// The count of `key`.
fn stored_count<K: TableKey>(counts: &KeyedTable<K, usize>, key: &K) -> (count: usize)
    requires
        counts.wf(),
    ensures
        count == count_of(counts@, key.id()),
{
    match counts.get(key) {
        Some(count) => *count,
        None => 0,
    }
}

/// The tables behind a [`ChannelRegistry`].
struct RegistryInner {
    inbound_per_peer: KeyedTable<PeerId, usize>,
    outbound_per_peer: KeyedTable<PeerId, usize>,
    per_protocol: KeyedTable<StreamProtocol, usize>,
}

/// Counts the data channels in use and enforces [`DataChannelLimits`].
///
/// A channel beyond a limit is refused at once; nothing relies on a stream
/// muxer to drop it silently.
pub struct ChannelRegistry {
    limits: DataChannelLimits,
    inner: RegistryInner,
}

impl View for ChannelRegistry {
    type V = RegistryCounts;

    closed spec fn view(&self) -> RegistryCounts {
        RegistryCounts {
            inbound_per_peer: self.inner.inbound_per_peer@,
            outbound_per_peer: self.inner.outbound_per_peer@,
            per_protocol: self.inner.per_protocol@,
        }
    }
}

impl ChannelRegistry {
    /// The limits that this registry enforces.
    pub closed spec fn limits(&self) -> DataChannelLimits {
        self.limits
    }

    /// Every count stands once, is at least one and is within its limit.
    pub closed spec fn wf(&self) -> bool {
        &&& self.inner.inbound_per_peer.wf()
        &&& self.inner.outbound_per_peer.wf()
        &&& self.inner.per_protocol.wf()
        &&& self@.within(self.limits)
    }

    /// A registry never counts beyond its limits, nor keeps a count of nothing.
    pub proof fn counts_are_within_limits(&self)
        requires
            self.wf(),
        ensures
            self@.within(self.limits()),
    {
    }

    /// A registry with no channel in use.
    pub fn new(limits: DataChannelLimits) -> (registry: Self)
        ensures
            registry.wf(),
            registry.limits() == limits,
            registry@ == RegistryCounts::empty(),
    {
        ChannelRegistry {
            limits,
            inner: RegistryInner {
                inbound_per_peer: KeyedTable::new(),
                outbound_per_peer: KeyedTable::new(),
                per_protocol: KeyedTable::new(),
            },
        }
    }

    /// Takes a share of the quota for a new channel. A channel beyond a limit
    /// gets none, and the counts stay as they are.
    #[must_use]
    pub fn try_acquire(
        &mut self,
        peer: PeerId,
        protocol: StreamProtocol,
        direction: DataChannelDirection,
    ) -> (guard: Option<ChannelGuard>)
        requires
            old(self).wf(),
        ensures
            final(self).wf(),
            final(self).limits() == old(self).limits(),
            guard is Some <==> old(self)@.admits(
                old(self).limits(),
                slot_of(peer, protocol, direction),
            ),
            match guard {
                Some(guard) => {
                    &&& guard@ == slot_of(peer, protocol, direction)
                    &&& final(self)@ == old(self)@.acquired(guard@)
                },
                None => final(self)@ == old(self)@,
            },
    {
        let per_peer_limit: usize = match direction {
            DataChannelDirection::Inbound => self.limits.max_inbound_per_peer,
            DataChannelDirection::Outbound => self.limits.max_outbound_per_peer,
        };
        let per_peer_count: usize = match direction {
            DataChannelDirection::Inbound => stored_count(&self.inner.inbound_per_peer, &peer),
            DataChannelDirection::Outbound => stored_count(&self.inner.outbound_per_peer, &peer),
        };
        let per_protocol_count: usize = stored_count(&self.inner.per_protocol, &protocol);
        if per_peer_count >= per_peer_limit || per_protocol_count >= self.limits.max_per_protocol {
            return None;
        }
        match direction {
            DataChannelDirection::Inbound => raise(&mut self.inner.inbound_per_peer, peer),
            DataChannelDirection::Outbound => raise(&mut self.inner.outbound_per_peer, peer),
        }
        raise(&mut self.inner.per_protocol, protocol.clone());
        proof {
            limits_hold_after_acquire(
                old(self)@,
                old(self).limits(),
                slot_of(peer, protocol, direction),
            );
            assert(self@ == old(self)@.acquired(slot_of(peer, protocol, direction)));
        }
        Some(ChannelGuard { peer, protocol, direction })
    }

    /// Takes a guard back and lowers the counts it stood for.
    pub fn release(&mut self, guard: ChannelGuard)
        requires
            old(self).wf(),
        ensures
            final(self).wf(),
            final(self).limits() == old(self).limits(),
            final(self)@ == old(self)@.released(guard@),
    {
        match guard.direction {
            DataChannelDirection::Inbound => lower(&mut self.inner.inbound_per_peer, guard.peer),
            DataChannelDirection::Outbound => lower(&mut self.inner.outbound_per_peer, guard.peer),
        }
        lower(&mut self.inner.per_protocol, guard.protocol);
        proof {
            limits_hold_after_release(old(self)@, old(self).limits(), guard@);
            assert(self@ == old(self)@.released(guard@));
        }
    }

    /// The inbound count kept for `peer`, if any.
    pub fn inbound_per_peer(&self, peer: &PeerId) -> (count: Option<usize>)
        requires
            self.wf(),
        ensures
            count == self@.inbound_per_peer.get(peer_id_bytes(*peer)),
    {
        match self.inner.inbound_per_peer.get(peer) {
            Some(count) => Some(*count),
            None => None,
        }
    }

    /// The outbound count kept for `peer`, if any.
    pub fn outbound_per_peer(&self, peer: &PeerId) -> (count: Option<usize>)
        requires
            self.wf(),
        ensures
            count == self@.outbound_per_peer.get(peer_id_bytes(*peer)),
    {
        match self.inner.outbound_per_peer.get(peer) {
            Some(count) => Some(*count),
            None => None,
        }
    }

    /// The count kept for `protocol`, if any.
    pub fn per_protocol(&self, protocol: &StreamProtocol) -> (count: Option<usize>)
        requires
            self.wf(),
        ensures
            count == self@.per_protocol.get(protocol_name(*protocol)),
    {
        match self.inner.per_protocol.get(protocol) {
            Some(count) => Some(*count),
            None => None,
        }
    }
}

/// One channel's share of the quota, to be given back with
/// [`ChannelRegistry::release`].
#[must_use]
#[derive(Debug)]
pub struct ChannelGuard {
    peer: PeerId,
    protocol: StreamProtocol,
    direction: DataChannelDirection,
}

impl View for ChannelGuard {
    type V = Slot;

    closed spec fn view(&self) -> Slot {
        slot_of(self.peer, self.protocol, self.direction)
    }
}

/// A data channel: a byte stream with the facts of its transport and its share
/// of the quota.
///
/// The stream type is up to the caller; nothing here reads from it.
pub struct DataChannel<S> {
    id: DataChannelId,
    peer: PeerId,
    protocol: StreamProtocol,
    direction: DataChannelDirection,
    stream: S,
    guard: Option<ChannelGuard>,
}

/// The mathematical value of a [`DataChannel`].
pub struct DataChannelView<S> {
    /// The channel's id.
    pub id: DataChannelId,
    /// The peer at the other end.
    pub peer: PeerId,
    /// The protocol spoken on the stream.
    pub protocol: StreamProtocol,
    /// Which end opened the channel.
    pub direction: DataChannelDirection,
    /// The byte stream.
    pub stream: S,
    /// The share of the quota that the channel holds.
    pub slot: Option<Slot>,
}

/// The slot behind an optional guard.
pub open spec fn guarded_slot(guard: Option<ChannelGuard>) -> Option<Slot> {
    match guard {
        Some(guard) => Some(guard@),
        None => None,
    }
}

/// The counts after whatever is held in `slot` was given back.
pub open spec fn given_back(counts: RegistryCounts, slot: Option<Slot>) -> RegistryCounts {
    match slot {
        Some(slot) => counts.released(slot),
        None => counts,
    }
}

impl<S> View for DataChannel<S> {
    type V = DataChannelView<S>;

    closed spec fn view(&self) -> DataChannelView<S> {
        DataChannelView {
            id: self.id,
            peer: self.peer,
            protocol: self.protocol,
            direction: self.direction,
            stream: self.stream,
            slot: guarded_slot(self.guard),
        }
    }
}

impl<S> DataChannel<S> {
    /// Binds `stream` to its transport facts and its share of the quota.
    pub fn new(
        id: DataChannelId,
        peer: PeerId,
        protocol: StreamProtocol,
        direction: DataChannelDirection,
        stream: S,
        guard: Option<ChannelGuard>,
    ) -> (channel: Self)
        ensures
            channel@ == (DataChannelView {
                id,
                peer,
                protocol,
                direction,
                stream,
                slot: guarded_slot(guard),
            }),
    {
        Self { id, peer, protocol, direction, stream, guard }
    }

    /// The channel's id.
    pub fn id(&self) -> (id: DataChannelId)
        ensures
            id == self@.id,
    {
        self.id
    }

    /// The peer at the other end.
    pub fn peer(&self) -> (peer: PeerId)
        ensures
            peer == self@.peer,
    {
        self.peer
    }

    /// The protocol spoken on the stream.
    pub fn protocol(&self) -> (protocol: &StreamProtocol)
        ensures
            *protocol == self@.protocol,
    {
        &self.protocol
    }

    /// Which end opened the channel.
    pub fn direction(&self) -> (direction: DataChannelDirection)
        ensures
            direction == self@.direction,
    {
        self.direction
    }

    /// The byte stream, to read from and write to.
    pub fn stream_mut(&mut self) -> (stream: &mut S)
        ensures
            *stream == old(self)@.stream,
            final(self)@ == (DataChannelView { stream: *final(stream), ..old(self)@ }),
    {
        &mut self.stream
    }

    /// Takes the byte stream out; the channel's share of the quota goes back
    /// to `registry`.
    pub fn into_stream(self, registry: &mut ChannelRegistry) -> (stream: S)
        requires
            old(registry).wf(),
        ensures
            stream == self@.stream,
            final(registry).wf(),
            final(registry).limits() == old(registry).limits(),
            final(registry)@ == given_back(old(registry)@, self@.slot),
    {
        if let Some(guard) = self.guard {
            registry.release(guard);
        }
        self.stream
    }

    /// Closes the channel: the stream is dropped and the channel's share of the
    /// quota goes back to `registry`.
    pub fn close(self, registry: &mut ChannelRegistry)
        requires
            old(registry).wf(),
        ensures
            final(registry).wf(),
            final(registry).limits() == old(registry).limits(),
            final(registry)@ == given_back(old(registry)@, self@.slot),
    {
        let _ = self.into_stream(registry);
    }
}

/// A data channel that the remote end opened, on its way to the consumer.
pub struct InboundDataChannel<S> {
    /// The accepted channel.
    pub channel: DataChannel<S>,
}

/// A channel that was admitted leaves every count within its limit.
pub proof fn limits_hold_after_acquire(
    counts: RegistryCounts,
    limits: DataChannelLimits,
    slot: Slot,
)
    requires
        counts.within(limits),
        counts.admits(limits, slot),
    ensures
        counts.acquired(slot).within(limits),
{
    let after = counts.acquired(slot);
    assert forall|peer: Seq<u8>| #[trigger] after.inbound_per_peer.contains_key(peer) implies 1
        <= after.inbound_per_peer[peer] <= limits.max_inbound_per_peer by {
        assert(counts.inbound_per_peer.contains_key(peer) || peer == slot.peer);
    }
    assert forall|peer: Seq<u8>| #[trigger] after.outbound_per_peer.contains_key(peer) implies 1
        <= after.outbound_per_peer[peer] <= limits.max_outbound_per_peer by {
        assert(counts.outbound_per_peer.contains_key(peer) || peer == slot.peer);
    }
    assert forall|protocol: Seq<char>| #[trigger]
        after.per_protocol.contains_key(protocol) implies 1 <= after.per_protocol[protocol]
        <= limits.max_per_protocol by {
        assert(counts.per_protocol.contains_key(protocol) || protocol == slot.protocol);
    }
}

/// A channel that goes out of use leaves every count within its limit.
pub proof fn limits_hold_after_release(
    counts: RegistryCounts,
    limits: DataChannelLimits,
    slot: Slot,
)
    requires
        counts.within(limits),
    ensures
        counts.released(slot).within(limits),
{
    let after = counts.released(slot);
    assert forall|peer: Seq<u8>| #[trigger] after.inbound_per_peer.contains_key(peer) implies 1
        <= after.inbound_per_peer[peer] <= limits.max_inbound_per_peer by {
        assert(counts.inbound_per_peer.contains_key(peer));
    }
    assert forall|peer: Seq<u8>| #[trigger] after.outbound_per_peer.contains_key(peer) implies 1
        <= after.outbound_per_peer[peer] <= limits.max_outbound_per_peer by {
        assert(counts.outbound_per_peer.contains_key(peer));
    }
    assert forall|protocol: Seq<char>| #[trigger]
        after.per_protocol.contains_key(protocol) implies 1 <= after.per_protocol[protocol]
        <= limits.max_per_protocol by {
        assert(counts.per_protocol.contains_key(protocol));
    }
}

/// A channel that comes into use and goes out again leaves the counts as they
/// were, so whatever was admitted before is admitted afterwards.
pub proof fn release_undoes_acquire(counts: RegistryCounts, limits: DataChannelLimits, slot: Slot)
    requires
        counts.within(limits),
        counts.admits(limits, slot),
    ensures
        counts.acquired(slot).released(slot) == counts,
{
    let after = counts.acquired(slot).released(slot);
    assert(after.inbound_per_peer =~= counts.inbound_per_peer);
    assert(after.outbound_per_peer =~= counts.outbound_per_peer);
    assert(after.per_protocol =~= counts.per_protocol);
}

/// Giving a slot back makes room again: while a channel with this slot is in
/// use within the limits, releasing it admits a channel with the same slot.
pub proof fn release_makes_room(counts: RegistryCounts, limits: DataChannelLimits, slot: Slot)
    requires
        counts.within(limits),
        counts.per_peer(slot.direction).contains_key(slot.peer),
        counts.per_protocol.contains_key(slot.protocol),
    ensures
        counts.released(slot).admits(limits, slot),
{
}

/// Inbound and outbound channels of a peer are counted apart.
pub proof fn directions_are_independent(counts: RegistryCounts, slot: Slot)
    ensures
        slot.direction is Inbound ==> counts.acquired(slot).outbound_per_peer
            == counts.outbound_per_peer && counts.released(slot).outbound_per_peer
            == counts.outbound_per_peer,
        slot.direction is Outbound ==> counts.acquired(slot).inbound_per_peer
            == counts.inbound_per_peer && counts.released(slot).inbound_per_peer
            == counts.inbound_per_peer,
{
}

/// The limit of a protocol covers both directions together: a channel in
/// either direction raises the one count that both are held against.
pub proof fn protocol_limit_spans_directions(
    counts: RegistryCounts,
    limits: DataChannelLimits,
    slot: Slot,
    next: Slot,
)
    requires
        counts.within(limits),
        counts.admits(limits, slot),
        next.protocol == slot.protocol,
        count_of(counts.per_protocol, slot.protocol) + 1 == limits.max_per_protocol,
    ensures
        !counts.acquired(slot).admits(limits, next),
{
}

/// A limit of zero refuses every channel that it applies to.
pub proof fn zero_limit_admits_nothing(
    counts: RegistryCounts,
    limits: DataChannelLimits,
    slot: Slot,
)
    requires
        limits.per_peer(slot.direction) == 0 || limits.max_per_protocol == 0,
    ensures
        !counts.admits(limits, slot),
{
}

/// A registry with no channel in use counts no channel.
pub proof fn empty_counts_nothing()
    ensures
        RegistryCounts::empty().counts_exactly(Multiset::empty()),
{
    let live = Multiset::<Slot>::empty();
    assert forall|direction: DataChannelDirection, peer: Seq<u8>|
        count_of(#[trigger] RegistryCounts::empty().per_peer(direction), peer) == (
        #[trigger] live.filter(with_peer(direction, peer))).len() by {
        assert(live.filter(with_peer(direction, peer)) =~= live);
    }
    assert forall|protocol: Seq<char>|
        count_of(RegistryCounts::empty().per_protocol, protocol) == (#[trigger] live.filter(
            with_protocol(protocol),
        )).len() by {
        assert(live.filter(with_protocol(protocol)) =~= live);
    }
}

/// The counts stay those of the channels in use when one more comes into use.
pub proof fn acquire_counts_the_channel(
    counts: RegistryCounts,
    limits: DataChannelLimits,
    live: Multiset<Slot>,
    slot: Slot,
)
    requires
        counts.counts_exactly(live),
        counts.admits(limits, slot),
    ensures
        counts.acquired(slot).counts_exactly(live.insert(slot)),
{
    let after = counts.acquired(slot);
    let more = live.insert(slot);
    assert forall|direction: DataChannelDirection, peer: Seq<u8>|
        count_of(#[trigger] after.per_peer(direction), peer) == (#[trigger] more.filter(
            with_peer(direction, peer),
        )).len() by {
        filter_of_insert(live, slot, with_peer(direction, peer));
        assert(count_of(counts.per_peer(direction), peer) == live.filter(
            with_peer(direction, peer),
        ).len());
    }
    assert forall|protocol: Seq<char>|
        count_of(after.per_protocol, protocol) == (#[trigger] more.filter(
            with_protocol(protocol),
        )).len() by {
        filter_of_insert(live, slot, with_protocol(protocol));
        assert(count_of(counts.per_protocol, protocol) == live.filter(
            with_protocol(protocol),
        ).len());
    }
}

/// The counts stay those of the channels in use when one of them goes out of use.
pub proof fn release_uncounts_the_channel(
    counts: RegistryCounts,
    live: Multiset<Slot>,
    slot: Slot,
)
    requires
        counts.counts_exactly(live),
        live.contains(slot),
    ensures
        counts.released(slot).counts_exactly(live.remove(slot)),
{
    let after = counts.released(slot);
    let fewer = live.remove(slot);
    assert forall|direction: DataChannelDirection, peer: Seq<u8>|
        count_of(#[trigger] after.per_peer(direction), peer) == (#[trigger] fewer.filter(
            with_peer(direction, peer),
        )).len() by {
        filter_of_remove(live, slot, with_peer(direction, peer));
        assert(count_of(counts.per_peer(direction), peer) == live.filter(
            with_peer(direction, peer),
        ).len());
    }
    assert forall|protocol: Seq<char>|
        count_of(after.per_protocol, protocol) == (#[trigger] fewer.filter(
            with_protocol(protocol),
        )).len() by {
        filter_of_remove(live, slot, with_protocol(protocol));
        assert(count_of(counts.per_protocol, protocol) == live.filter(
            with_protocol(protocol),
        ).len());
    }
}

/// What happens to a registry.
pub enum QuotaChange {
    /// A channel with this slot asks for its share.
    Acquire(Slot),
    /// A channel with this slot gives its share back.
    Release(Slot),
}

/// The counts of a new registry and the channels in use after a run of changes.
pub open spec fn quota_after(
    limits: DataChannelLimits,
    changes: Seq<QuotaChange>,
) -> (RegistryCounts, Multiset<Slot>)
    decreases changes.len(),
{
    if changes.len() == 0 {
        (RegistryCounts::empty(), Multiset::empty())
    } else {
        let (counts, live) = quota_after(limits, changes.drop_last());
        match changes.last() {
            QuotaChange::Acquire(slot) => if counts.admits(limits, slot) {
                (counts.acquired(slot), live.insert(slot))
            } else {
                (counts, live)
            },
            QuotaChange::Release(slot) => (counts.released(slot), live.remove(slot)),
        }
    }
}

/// Whether only channels in use give shares back.
pub open spec fn releases_are_owed(limits: DataChannelLimits, changes: Seq<QuotaChange>) -> bool
    decreases changes.len(),
{
    changes.len() > 0 ==> {
        &&& releases_are_owed(limits, changes.drop_last())
        &&& match changes.last() {
            QuotaChange::Acquire(_) => true,
            QuotaChange::Release(slot) => quota_after(limits, changes.drop_last()).1.contains(slot),
        }
    }
}

/// Over any run of channels that come into use and go out of it, the counts are
/// exactly those of the channels in use, and none is above its limit.
pub proof fn counts_are_those_of_the_channels_in_use(
    limits: DataChannelLimits,
    changes: Seq<QuotaChange>,
)
    requires
        releases_are_owed(limits, changes),
    ensures
        quota_after(limits, changes).0.counts_exactly(quota_after(limits, changes).1),
        quota_after(limits, changes).0.within(limits),
    decreases changes.len(),
{
    if changes.len() == 0 {
        empty_counts_nothing();
    } else {
        let (counts, live) = quota_after(limits, changes.drop_last());
        counts_are_those_of_the_channels_in_use(limits, changes.drop_last());
        match changes.last() {
            QuotaChange::Acquire(slot) => {
                if counts.admits(limits, slot) {
                    acquire_counts_the_channel(counts, limits, live, slot);
                    limits_hold_after_acquire(counts, limits, slot);
                }
            },
            QuotaChange::Release(slot) => {
                release_uncounts_the_channel(counts, live, slot);
                limits_hold_after_release(counts, limits, slot);
            },
        }
    }
}

/// How a filtered multiset grows with the multiset.
proof fn filter_of_insert(live: Multiset<Slot>, slot: Slot, keep: spec_fn(Slot) -> bool)
    ensures
        live.insert(slot).filter(keep).len() == live.filter(keep).len() + if keep(slot) {
            1nat
        } else {
            0nat
        },
{
    if keep(slot) {
        assert(live.insert(slot).filter(keep) =~= live.filter(keep).insert(slot));
    } else {
        assert(live.insert(slot).filter(keep) =~= live.filter(keep));
    }
}

/// How a filtered multiset shrinks with the multiset.
proof fn filter_of_remove(live: Multiset<Slot>, slot: Slot, keep: spec_fn(Slot) -> bool)
    requires
        live.contains(slot),
    ensures
        live.remove(slot).filter(keep).len() == live.filter(keep).len() - if keep(slot) {
            1nat
        } else {
            0nat
        },
        keep(slot) ==> live.filter(keep).len() > 0,
{
    if keep(slot) {
        assert(live.remove(slot).filter(keep) =~= live.filter(keep).remove(slot));
        assert(live.filter(keep).count(slot) > 0);
    } else {
        assert(live.remove(slot).filter(keep) =~= live.filter(keep));
    }
}

/// The id that comes `steps` calls after `first`.
pub open spec fn id_after(first: u64, steps: nat) -> u64 {
    ((first + steps) % 0x1_0000_0000_0000_0000) as u64
}

/// Ids taken one after the other follow [`id_after`].
pub proof fn ids_follow_each_other(first: u64, steps: nat)
    ensures
        id_after(first, 0) == first,
        successor(id_after(first, steps)) == id_after(first, steps + 1),
{
}

/// Ids increase from call to call until the counter wraps around.
pub proof fn ids_increase(first: u64, earlier: nat, later: nat)
    requires
        earlier < later,
        first + later <= u64::MAX,
    ensures
        id_after(first, earlier) < id_after(first, later),
{
}

/// No two ids are the same unless the counter went all the way round between them.
pub proof fn ids_are_unique(first: u64, earlier: nat, later: nat)
    requires
        earlier < later < earlier + 0x1_0000_0000_0000_0000,
    ensures
        id_after(first, earlier) != id_after(first, later),
{
}

/// The number after one is one more, and zero after the largest.
pub proof fn the_next_number_is_one_more(n: u64)
    ensures
        n < u64::MAX ==> successor(n) == n + 1,
        n == u64::MAX ==> successor(n) == 0,
{
}

/// The words for each close reason; an I/O error keeps its text.
pub proof fn close_reasons_have_their_words(detail: String)
    ensures
        DataChannelCloseReason::Normal.describe() == "normal end-of-stream"@,
        DataChannelCloseReason::ConnectionClosed.describe() == "underlying connection closed"@,
        DataChannelCloseReason::LocalCancelled.describe() == "locally cancelled"@,
        DataChannelCloseReason::UnsupportedProtocol.describe() == "unsupported protocol"@,
        DataChannelCloseReason::ResourceLimitExceeded.describe() == "resource limit exceeded"@,
        DataChannelCloseReason::Io(detail).describe() == "io error: "@ + detail@,
{
}

/// A slot is that of its peer, its protocol and its direction.
pub proof fn a_slot_is_peer_protocol_and_direction(
    peer: PeerId,
    protocol: StreamProtocol,
    direction: DataChannelDirection,
)
    ensures
        slot_of(peer, protocol, direction).peer == peer_id_bytes(peer),
        slot_of(peer, protocol, direction).protocol == protocol_name(protocol),
        slot_of(peer, protocol, direction).direction == direction,
{
}

/// A key counts what is stored for it, and nothing if nothing is. Inbound and
/// outbound channels have their own counts and their own limits.
pub proof fn counts_are_what_is_stored<I>(
    stored: Map<I, usize>,
    key: I,
    counts: RegistryCounts,
    limits: DataChannelLimits,
)
    ensures
        stored.contains_key(key) ==> count_of(stored, key) == stored[key],
        !stored.contains_key(key) ==> count_of(stored, key) == 0,
        counts.per_peer(DataChannelDirection::Inbound) == counts.inbound_per_peer,
        counts.per_peer(DataChannelDirection::Outbound) == counts.outbound_per_peer,
        limits.per_peer(DataChannelDirection::Inbound) == limits.max_inbound_per_peer,
        limits.per_peer(DataChannelDirection::Outbound) == limits.max_outbound_per_peer,
{
}

/// A new registry counts nothing.
pub proof fn a_new_registry_counts_nothing(peer: Seq<u8>, protocol: Seq<char>)
    ensures
        !RegistryCounts::empty().inbound_per_peer.contains_key(peer),
        !RegistryCounts::empty().outbound_per_peer.contains_key(peer),
        !RegistryCounts::empty().per_protocol.contains_key(protocol),
{
}

/// A channel is admitted exactly if its peer has fewer channels of its
/// direction than the limit of that direction, and its protocol fewer channels
/// of either direction than the limit per protocol.
pub proof fn channels_are_admitted_below_both_limits(
    counts: RegistryCounts,
    limits: DataChannelLimits,
    slot: Slot,
)
    ensures
        slot.direction is Inbound ==> (counts.admits(limits, slot) <==> count_of(
            counts.inbound_per_peer,
            slot.peer,
        ) < limits.max_inbound_per_peer && count_of(counts.per_protocol, slot.protocol)
            < limits.max_per_protocol),
        slot.direction is Outbound ==> (counts.admits(limits, slot) <==> count_of(
            counts.outbound_per_peer,
            slot.peer,
        ) < limits.max_outbound_per_peer && count_of(counts.per_protocol, slot.protocol)
            < limits.max_per_protocol),
{
}

/// An admitted channel adds one to its peer's count of its direction and to its
/// protocol's count, and changes no other count.
pub proof fn an_acquire_adds_one_where_it_belongs(
    counts: RegistryCounts,
    limits: DataChannelLimits,
    slot: Slot,
    peer: Seq<u8>,
    protocol: Seq<char>,
)
    requires
        counts.admits(limits, slot),
    ensures
        count_of(counts.acquired(slot).inbound_per_peer, peer) == count_of(
            counts.inbound_per_peer,
            peer,
        ) + if slot.direction is Inbound && peer == slot.peer {
            1int
        } else {
            0int
        },
        count_of(counts.acquired(slot).outbound_per_peer, peer) == count_of(
            counts.outbound_per_peer,
            peer,
        ) + if slot.direction is Outbound && peer == slot.peer {
            1int
        } else {
            0int
        },
        count_of(counts.acquired(slot).per_protocol, protocol) == count_of(
            counts.per_protocol,
            protocol,
        ) + if protocol == slot.protocol {
            1int
        } else {
            0int
        },
        counts.acquired(slot).inbound_per_peer.contains_key(peer)
            <==> counts.inbound_per_peer.contains_key(peer) || (slot.direction is Inbound && peer
            == slot.peer),
        counts.acquired(slot).outbound_per_peer.contains_key(peer)
            <==> counts.outbound_per_peer.contains_key(peer) || (slot.direction is Outbound && peer
            == slot.peer),
        counts.acquired(slot).per_protocol.contains_key(protocol)
            <==> counts.per_protocol.contains_key(protocol) || protocol == slot.protocol,
{
}

/// A release takes one from its peer's count of its direction and from its
/// protocol's count, but never below zero, and changes no other count. What
/// comes to zero is forgotten.
pub proof fn a_release_takes_one_where_it_belongs(
    counts: RegistryCounts,
    slot: Slot,
    peer: Seq<u8>,
    protocol: Seq<char>,
)
    ensures
        count_of(counts.released(slot).inbound_per_peer, peer) == if slot.direction is Inbound
            && peer == slot.peer && count_of(counts.inbound_per_peer, peer) > 0 {
            count_of(counts.inbound_per_peer, peer) - 1
        } else {
            count_of(counts.inbound_per_peer, peer) as int
        },
        count_of(counts.released(slot).outbound_per_peer, peer) == if slot.direction is Outbound
            && peer == slot.peer && count_of(counts.outbound_per_peer, peer) > 0 {
            count_of(counts.outbound_per_peer, peer) - 1
        } else {
            count_of(counts.outbound_per_peer, peer) as int
        },
        count_of(counts.released(slot).per_protocol, protocol) == if protocol == slot.protocol
            && count_of(counts.per_protocol, protocol) > 0 {
            count_of(counts.per_protocol, protocol) - 1
        } else {
            count_of(counts.per_protocol, protocol) as int
        },
        counts.released(slot).inbound_per_peer.contains_key(peer)
            <==> counts.inbound_per_peer.contains_key(peer) && !(slot.direction is Inbound && peer
            == slot.peer && counts.inbound_per_peer[peer] <= 1),
        counts.released(slot).outbound_per_peer.contains_key(peer)
            <==> counts.outbound_per_peer.contains_key(peer) && !(slot.direction is Outbound && peer
            == slot.peer && counts.outbound_per_peer[peer] <= 1),
        counts.released(slot).per_protocol.contains_key(protocol)
            <==> counts.per_protocol.contains_key(protocol) && !(protocol == slot.protocol
            && counts.per_protocol[protocol] <= 1),
{
}

/// Within the limits means that every stored count is at least one and at most
/// its limit.
pub proof fn counts_within_limits_are_bounded(
    counts: RegistryCounts,
    limits: DataChannelLimits,
    peer: Seq<u8>,
    protocol: Seq<char>,
)
    requires
        counts.within(limits),
    ensures
        counts.inbound_per_peer.contains_key(peer) ==> 1 <= counts.inbound_per_peer[peer]
            <= limits.max_inbound_per_peer,
        counts.outbound_per_peer.contains_key(peer) ==> 1 <= counts.outbound_per_peer[peer]
            <= limits.max_outbound_per_peer,
        counts.per_protocol.contains_key(protocol) ==> 1 <= counts.per_protocol[protocol]
            <= limits.max_per_protocol,
        count_of(counts.inbound_per_peer, peer) <= limits.max_inbound_per_peer,
        count_of(counts.outbound_per_peer, peer) <= limits.max_outbound_per_peer,
        count_of(counts.per_protocol, protocol) <= limits.max_per_protocol,
{
}

/// A channel gives back the slot that it holds, and one that holds none gives
/// back nothing.
pub proof fn a_channel_gives_back_what_it_holds(
    counts: RegistryCounts,
    slot: Slot,
    guard: ChannelGuard,
)
    ensures
        given_back(counts, Some(slot)) == counts.released(slot),
        given_back(counts, None) == counts,
        guarded_slot(Some(guard)) == Some(guard@),
        guarded_slot(None) is None,
{
}

} // verus!
