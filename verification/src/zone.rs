//! Zone bookkeeping of the controller: membership and health of the
//! endpoints, per-device volume (master + offset), the stream being played
//! (for late joiners), packet sequencing, forward error correction and
//! which members each audio packet goes to. Sending is the caller's job.

use crate::fec::{spec_parity, FecEncoder};
use crate::format::{AudioFormat, ChannelLayout};
use crate::keyed::{
    as_map, find_key, keys_of, keys_unique, lemma_find_key, lemma_find_key_is, lemma_push_new,
    lemma_remove_at, lemma_unique_find, lemma_update_value,
};
use crate::message::{Message, TrackMetadata, VolumeSet, ZoneAssign, ZoneRelease, ZoneUpdate};
use crate::protocol::{
    format_propose_message, metadata_message, play_message, spec_send_header, AudioSender,
    ControllerConfig,
};
use crate::wire::{spec_header_bytes, PacketFlags};
use crate::{DEFAULT_MULTIROOM_PLAY_DELAY_MS, DEFAULT_SINGLE_PLAY_DELAY_MS};
use vstd::prelude::*;

verus! {

/// Per-endpoint volume offset model: effective volume =
/// clamp(master + offset, 0, 100).
#[derive(Debug, Clone)]
pub struct VolumeMap {
    pub master: u8,
    offsets: Vec<(String, i8)>,
}

pub open spec fn clamp_volume(x: int) -> int {
    if x < 0 {
        0
    } else if x > 100 {
        100
    } else {
        x
    }
}

impl VolumeMap {
    pub closed spec fn offsets_seq(&self) -> Seq<(Seq<char>, i8)> {
        self.offsets@.map_values(|p: (String, i8)| (p.0@, p.1))
    }

    /// The offsets set so far, by endpoint id.
    pub closed spec fn offset_map(&self) -> Map<Seq<char>, i8> {
        as_map(self.offsets_seq())
    }

    pub closed spec fn wf(&self) -> bool {
        keys_unique(self.offsets_seq())
    }

    /// The zone-wide master volume.
    pub closed spec fn spec_master(&self) -> u8 {
        self.master
    }

    /// The offset of an endpoint (zero when none was set).
    pub open spec fn spec_offset(&self, id: Seq<char>) -> int {
        if self.offset_map().contains_key(id) {
            self.offset_map()[id] as int
        } else {
            0
        }
    }

    pub open spec fn spec_effective(&self, id: Seq<char>) -> int {
        clamp_volume(self.spec_master() + self.spec_offset(id))
    }

    /// Master at 100, no offsets.
    pub fn new() -> (m: Self)
        ensures
            m.spec_master() == 100,
            m.offset_map() == Map::<Seq<char>, i8>::empty(),
            m.wf(),
    {
        let m = Self { master: 100, offsets: Vec::new() };
        assert(m.offset_map() =~= Map::<Seq<char>, i8>::empty());
        m
    }

    fn find(&self, endpoint_id: &str) -> (r: Option<usize>)
        ensures
            match find_key(self.offsets_seq(), endpoint_id@) {
                Some(i) => r == Some(i as usize),
                None => r is None,
            },
            r matches Some(i) ==> i < self.offsets@.len() && self.offsets_seq()[i as int].0 == endpoint_id@,
    {
        let key = endpoint_id.to_owned();
        let ghost s = self.offsets_seq();
        let mut i: usize = 0;
        while i < self.offsets.len()
            invariant
                i <= self.offsets@.len(),
                s == self.offsets_seq(),
                key@ == endpoint_id@,
                forall|j: int| 0 <= j < i ==> s[j].0 != endpoint_id@,
            decreases self.offsets@.len() - i,
        {
            if self.offsets[i].0 == key {
                proof {
                    lemma_find_key_is(s, endpoint_id@, i as int);
                }
                return Some(i);
            }
            i += 1;
        }
        proof {
            lemma_find_key_is(s, endpoint_id@, s.len() as int);
        }
        None
    }

    /// Effective volume of an endpoint.
    pub fn effective_volume(&self, endpoint_id: &str) -> (v: u8)
        ensures
            v == self.spec_effective(endpoint_id@),
    {
        let offset = self.offset(endpoint_id);
        let sum = self.master as i16 + offset as i16;
        if sum < 0 {
            0
        } else if sum > 100 {
            100
        } else {
            sum as u8
        }
    }

    /// Offset of an endpoint, zero when none was set.
    pub fn offset(&self, endpoint_id: &str) -> (o: i8)
        ensures
            o == self.spec_offset(endpoint_id@),
    {
        match self.find(endpoint_id) {
            Some(i) => {
                proof {
                    lemma_find_key(self.offsets_seq(), endpoint_id@);
                    assert(self.offsets_seq()[i as int].1 == self.offsets@[i as int].1);
                }
                self.offsets[i].1
            },
            None => 0,
        }
    }

    /// Sets (or replaces) an endpoint's offset.
    pub fn set_offset(&mut self, endpoint_id: &str, offset: i8)
        requires
            old(self).wf(),
        ensures
            final(self).wf(),
            final(self).spec_master() == old(self).spec_master(),
            final(self).offset_map() == old(self).offset_map().insert(endpoint_id@, offset),
    {
        let ghost s = self.offsets_seq();
        match self.find(endpoint_id) {
            Some(i) => {
                self.offsets.set(i, (endpoint_id.to_owned(), offset));
                proof {
                    lemma_find_key(s, endpoint_id@);
                    lemma_update_value(s, i as int, offset);
                    assert(self.offsets_seq() =~= s.update(i as int, (s[i as int].0, offset)));
                }
            },
            None => {
                self.offsets.push((endpoint_id.to_owned(), offset));
                proof {
                    lemma_push_new(s, endpoint_id@, offset);
                    assert(self.offsets_seq() =~= s.push((endpoint_id@, offset)));
                }
            },
        }
    }

    /// Forgets an endpoint's offset.
    pub fn remove_offset(&mut self, endpoint_id: &str)
        requires
            old(self).wf(),
        ensures
            final(self).wf(),
            final(self).spec_master() == old(self).spec_master(),
            final(self).offset_map() == old(self).offset_map().remove(endpoint_id@),
    {
        let ghost s = self.offsets_seq();
        match self.find(endpoint_id) {
            Some(i) => {
                self.offsets.remove(i);
                proof {
                    lemma_find_key(s, endpoint_id@);
                    lemma_remove_at(s, i as int);
                    assert(self.offsets_seq() =~= s.remove(i as int));
                }
            },
            None => {
                proof {
                    lemma_find_key(s, endpoint_id@);
                    assert(as_map(s) =~= as_map(s).remove(endpoint_id@));
                }
            },
        }
    }
}

/// Per-device volume laws: setting an offset gives that endpoint
/// clamp(master + offset) and leaves every other endpoint as it was;
/// removing it brings the endpoint back to the master volume.
pub proof fn lemma_volume_offsets(m: VolumeMap, id: Seq<char>, other: Seq<char>, offset: i8)
    requires
        id != other,
    ensures
        clamp_volume(m.spec_master() + offset) == (if m.spec_master() + offset < 0 {
            0
        } else if m.spec_master() + offset > 100 {
            100
        } else {
            m.spec_master() + offset
        }),
        m.offset_map().insert(id, offset).contains_key(id),
        m.offset_map().insert(id, offset)[id] == offset,
        m.offset_map().insert(id, offset).contains_key(other) == m.offset_map().contains_key(
            other,
        ),
        m.offset_map().contains_key(other) ==> m.offset_map().insert(id, offset)[other]
            == m.offset_map()[other],
        !m.offset_map().remove(id).contains_key(id),
{
}

/// Health of an endpoint as the controller sees it.
#[derive(Debug, Clone, Copy, PartialEq, Eq, Structural)]
pub enum EndpointState {
    Connected,
    Syncing,
    Ready,
    Streaming,
    Degraded,
    Disconnected,
}

impl EndpointState {
    /// Lower-case display name.
    pub fn as_str(self) -> (s: &'static str)
        ensures
            s@ == (match self {
                EndpointState::Connected => "connected"@,
                EndpointState::Syncing => "syncing"@,
                EndpointState::Ready => "ready"@,
                EndpointState::Streaming => "streaming"@,
                EndpointState::Degraded => "degraded"@,
                EndpointState::Disconnected => "disconnected"@,
            }),
    {
        match self {
            EndpointState::Connected => "connected",
            EndpointState::Syncing => "syncing",
            EndpointState::Ready => "ready",
            EndpointState::Streaming => "streaming",
            EndpointState::Degraded => "degraded",
            EndpointState::Disconnected => "disconnected",
        }
    }
}

/// Zone membership events.
#[derive(Debug, Clone)]
pub enum ZoneEvent {
    ZoneCreated { zone_id: String, name: String },
    ZoneDissolved { zone_id: String },
    EndpointJoined { zone_id: String, endpoint_id: String, endpoint_name: String },
    EndpointLeft { zone_id: String, endpoint_id: String },
    EndpointFailed { zone_id: String, endpoint_id: String, error: String },
}

/// What the zone is currently playing, so late joiners can catch up.
#[derive(Debug, Clone)]
pub struct ActiveStream {
    pub stream_id: String,
    pub format: AudioFormat,
    pub sample_rate: u32,
    pub channels: u8,
    pub channel_layout: ChannelLayout,
    pub bits_per_sample: u8,
    pub metadata: Option<TrackMetadata>,
    pub playing: bool,
}

/// One member of a zone.
#[derive(Debug, Clone)]
pub struct EndpointEntry {
    pub endpoint_id: String,
    pub endpoint_name: String,
    /// The member's control address, as `host:port`.
    pub addr: String,
    pub state: EndpointState,
}

/// A member as reported to a user interface.
#[derive(Debug, Clone)]
pub struct EndpointSnapshot {
    pub endpoint_id: String,
    pub endpoint_name: String,
    pub addr: String,
    pub state: EndpointState,
    pub volume_offset: i8,
}

/// A group of endpoints playing the same stream.
pub struct Zone {
    pub zone_id: String,
    pub name: String,
    endpoints: Vec<EndpointEntry>,
    config: ControllerConfig,
    sender: AudioSender,
    volume: VolumeMap,
    active_stream: Option<ActiveStream>,
    fec: Option<FecEncoder>,
}

/// What one audio payload becomes: the datagram, the members (by id, in
/// member order) that are to receive it, and, when it completes an FEC
/// group, the parity datagram that follows it to the same members.
pub struct AudioBatch {
    pub recipients: Vec<String>,
    pub datagram: Vec<u8>,
    pub parity: Option<Vec<u8>>,
}

/// The ids of the members that are not disconnected, in member order.
pub open spec fn spec_live_ids(ro: Seq<(Seq<char>, (Seq<char>, Seq<char>, EndpointState))>) -> Seq<
    Seq<char>,
>
    decreases ro.len(),
{
    if ro.len() == 0 {
        Seq::empty()
    } else if is_disconnected(ro.last()) {
        spec_live_ids(ro.drop_last())
    } else {
        spec_live_ids(ro.drop_last()).push(ro.last().0)
    }
}

/// The audio recipients are exactly the members that are not
/// disconnected: every member in any other state (degraded included) is
/// among them, and each of them is a member that is not disconnected.
pub proof fn lemma_live_ids_are_the_connected(ro: Seq<(Seq<char>, (Seq<char>, Seq<char>, EndpointState))>)
    ensures
        forall|i: int|
            0 <= i < ro.len() && ro[i].1.2 != EndpointState::Disconnected ==> #[trigger] spec_live_ids(
                ro,
            ).contains(ro[i].0),
        forall|j: int|
            0 <= j < spec_live_ids(ro).len() ==> exists|i: int|
                0 <= i < ro.len() && ro[i].0 == #[trigger] spec_live_ids(ro)[j] && ro[i].1.2
                    != EndpointState::Disconnected,
    decreases ro.len(),
{
    if ro.len() > 0 {
        let d = ro.drop_last();
        lemma_live_ids_are_the_connected(d);
        let rest = spec_live_ids(d);
        let last = ro.len() - 1;
        assert forall|i: int|
            0 <= i < ro.len() && ro[i].1.2 != EndpointState::Disconnected implies #[trigger] spec_live_ids(
                ro,
            ).contains(ro[i].0) by {
            if i < last {
                assert(d[i] == ro[i]);
                assert(rest.contains(d[i].0));
                let k = choose|k: int| 0 <= k < rest.len() && rest[k] == d[i].0;
                if !is_disconnected(ro.last()) {
                    assert(spec_live_ids(ro)[k] == rest[k]);
                }
            } else {
                assert(spec_live_ids(ro) == rest.push(ro.last().0));
                assert(spec_live_ids(ro)[rest.len() as int] == ro[i].0);
            }
        }
        assert forall|j: int| 0 <= j < spec_live_ids(ro).len() implies exists|i: int|
            0 <= i < ro.len() && ro[i].0 == #[trigger] spec_live_ids(ro)[j] && ro[i].1.2
                != EndpointState::Disconnected by {
            if j < rest.len() {
                let i = choose|i: int|
                    0 <= i < d.len() && d[i].0 == #[trigger] rest[j] && d[i].1.2
                        != EndpointState::Disconnected;
                assert(spec_live_ids(ro)[j] == rest[j]);
                assert(ro[i] == d[i]);
            } else {
                assert(ro[last].0 == spec_live_ids(ro)[j]);
            }
        }
    }
}

/// The flags of a parity packet: FEC alone.
pub open spec fn parity_flags() -> PacketFlags {
    PacketFlags { bits: 0x04 }
}

pub open spec fn is_disconnected(e: (Seq<char>, (Seq<char>, Seq<char>, EndpointState))) -> bool {
    e.1.2 == EndpointState::Disconnected
}

/// The ids of the members that are not disconnected and whose reader is
/// not alive, in member order.
pub open spec fn spec_unhealthy(
    ro: Seq<(Seq<char>, (Seq<char>, Seq<char>, EndpointState))>,
    alive: Seq<bool>,
) -> Seq<Seq<char>>
    decreases ro.len(),
{
    if ro.len() == 0 {
        Seq::empty()
    } else {
        let i = ro.len() - 1;
        spec_unhealthy(ro.drop_last(), alive) + if !is_disconnected(ro[i]) && !alive[i] {
            seq![ro[i].0]
        } else {
            Seq::<Seq<char>>::empty()
        }
    }
}

fn copy_string_opt(o: &Option<String>) -> (r: Option<String>)
    ensures
        r == *o,
{
    match o {
        Some(s) => Some(s.clone()),
        None => None,
    }
}

/// A field-by-field copy of a track's metadata.
fn copy_track(t: &TrackMetadata) -> (r: TrackMetadata)
    ensures
        r == *t,
{
    TrackMetadata {
        title: t.title.clone(),
        artist: t.artist.clone(),
        album: t.album.clone(),
        duration_ms: t.duration_ms,
        artwork_url: copy_string_opt(&t.artwork_url),
        format: copy_string_opt(&t.format),
    }
}

/// The texts of a list of strings.
pub open spec fn string_views(v: Seq<String>) -> Seq<Seq<char>> {
    v.map_values(|s: String| s@)
}

/// The ids of the disconnected members, in member order.
pub open spec fn spec_disconnected(ro: Seq<(Seq<char>, (Seq<char>, Seq<char>, EndpointState))>) -> Seq<Seq<char>>
    decreases ro.len(),
{
    if ro.len() == 0 {
        Seq::empty()
    } else {
        spec_disconnected(ro.drop_last()) + if is_disconnected(ro.last()) {
            seq![ro.last().0]
        } else {
            Seq::<Seq<char>>::empty()
        }
    }
}

/// A member id is among the disconnected ids exactly when the roster holds
/// it with the state `Disconnected`.
pub proof fn lemma_disconnected_ids(ro: Seq<(Seq<char>, (Seq<char>, Seq<char>, EndpointState))>, q: Seq<char>)
    requires
        keys_unique(ro),
    ensures
        spec_disconnected(ro).contains(q) == (as_map(ro).contains_key(q) && as_map(ro)[q].2
            == EndpointState::Disconnected),
    decreases ro.len(),
{
    if ro.len() > 0 {
        let s = ro.drop_last();
        let last = ro.last();
        let n = ro.len() - 1;
        assert(keys_unique(s)) by {
            assert forall|i: int, j: int| 0 <= i < j < s.len() implies s[i].0 != s[j].0 by {
                assert(s[i] == ro[i] && s[j] == ro[j]);
            }
        }
        lemma_disconnected_ids(s, q);
        lemma_find_key(s, last.0);
        if find_key(s, last.0) is Some {
            let j = find_key(s, last.0)->0;
            assert(s[j] == ro[j]);
            assert(ro[j].0 == ro[n].0);
        }
        lemma_push_new(s, last.0, last.1);
        assert(ro =~= s.push((last.0, last.1)));
        let d = spec_disconnected(s);
        let tail = if is_disconnected(last) {
            seq![last.0]
        } else {
            Seq::<Seq<char>>::empty()
        };
        assert(spec_disconnected(ro) == d + tail);
        if (d + tail).contains(q) {
            let k = choose|k: int| 0 <= k < (d + tail).len() && (d + tail)[k] == q;
            if k < d.len() {
                assert(d[k] == q);
            } else {
                assert(tail[k - d.len()] == q);
            }
        }
        if d.contains(q) {
            let k = choose|k: int| 0 <= k < d.len() && d[k] == q;
            assert((d + tail)[k] == q);
        }
        if tail.contains(q) {
            assert((d + tail)[d.len() as int] == q);
        }
    }
}

impl Zone {
    /// The members: id, then name and state.
    pub closed spec fn roster(&self) -> Seq<(Seq<char>, (Seq<char>, Seq<char>, EndpointState))> {
        self.endpoints@.map_values(
            |e: EndpointEntry| (e.endpoint_id@, (e.endpoint_name@, e.addr@, e.state)),
        )
    }

    pub closed spec fn spec_volume(&self) -> VolumeMap {
        self.volume
    }

    pub closed spec fn spec_active(&self) -> Option<ActiveStream> {
        self.active_stream
    }

    pub closed spec fn spec_sequence(&self) -> u16 {
        self.sender.sequence
    }

    /// The FEC group size, when FEC is on.
    pub closed spec fn spec_fec(&self) -> Option<u8> {
        match self.fec {
            Some(e) => Some(e.spec_group_size()),
            None => None,
        }
    }

    /// The payloads of the FEC group in progress (none when FEC is off).
    pub closed spec fn spec_fec_pending(&self) -> Seq<Seq<u8>> {
        match self.fec {
            Some(e) => e.pending(),
            None => Seq::empty(),
        }
    }

    pub closed spec fn spec_config(&self) -> ControllerConfig {
        self.config
    }

    pub closed spec fn spec_zone_id(&self) -> Seq<char> {
        self.zone_id@
    }

    pub closed spec fn spec_name(&self) -> Seq<char> {
        self.name@
    }

    /// No member twice, offsets well formed, FEC group in progress
    /// shorter than a group.
    pub closed spec fn wf(&self) -> bool {
        &&& keys_unique(self.roster())
        &&& self.volume.wf()
        &&& match self.fec {
            Some(e) => e.wf(),
            None => true,
        }
    }

    pub open spec fn members(&self) -> Map<Seq<char>, (Seq<char>, Seq<char>, EndpointState)> {
        as_map(self.roster())
    }

    pub fn new(zone_id: String, name: String, config: ControllerConfig) -> (z: Self)
        ensures
            z.wf(),
            z.spec_zone_id() == zone_id@,
            z.spec_name() == name@,
            z.roster() == Seq::<(Seq<char>, (Seq<char>, Seq<char>, EndpointState))>::empty(),
            z.spec_volume().spec_master() == 100,
            z.spec_volume().offset_map() == Map::<Seq<char>, i8>::empty(),
            z.spec_active() is None,
            z.spec_sequence() == 0,
            z.spec_fec() is None,
            z.spec_config() == config,
    {
        let z = Self {
            zone_id,
            name,
            endpoints: Vec::new(),
            config,
            sender: AudioSender::new(),
            volume: VolumeMap::new(),
            active_stream: None,
            fec: None,
        };
        assert(z.roster() =~= Seq::<(Seq<char>, (Seq<char>, Seq<char>, EndpointState))>::empty());
        z
    }

    pub fn zone_id_str(&self) -> (s: &str)
        ensures
            s@ == self.spec_zone_id(),
    {
        self.zone_id.as_str()
    }

    pub fn zone_id_string(&self) -> (s: String)
        ensures
            s@ == self.spec_zone_id(),
    {
        self.zone_id.clone()
    }

    pub fn name_string(&self) -> (s: String)
        ensures
            s@ == self.spec_name(),
    {
        self.name.clone()
    }

    /// The zone-wide master volume.
    pub fn master_volume(&self) -> (v: u8)
        ensures
            v == self.spec_volume().spec_master(),
    {
        self.volume.master
    }

    pub fn config(&self) -> (c: &ControllerConfig)
        ensures
            *c == self.spec_config(),
    {
        &self.config
    }

    pub fn endpoint_count(&self) -> (n: usize)
        ensures
            n == self.roster().len(),
    {
        self.endpoints.len()
    }

    /// Member ids, in the order they joined.
    pub fn endpoint_ids(&self) -> (ids: Vec<String>)
        ensures
            ids@.map_values(|s: String| s@) == keys_of(self.roster()),
    {
        let mut ids: Vec<String> = Vec::new();
        let mut i: usize = 0;
        while i < self.endpoints.len()
            invariant
                i <= self.endpoints@.len(),
                ids@.map_values(|s: String| s@) =~= keys_of(self.roster()).take(i as int),
            decreases self.endpoints@.len() - i,
        {
            let ghost prev = ids@.map_values(|s: String| s@);
            proof {
                assert(self.roster()[i as int].0 == self.endpoints@[i as int].endpoint_id@);
                assert(keys_of(self.roster())[i as int] == self.roster()[i as int].0);
            }
            ids.push(self.endpoints[i].endpoint_id.clone());
            assert(ids@.map_values(|s: String| s@) =~= prev.push(self.endpoints@[i as int].endpoint_id@));
            i += 1;
        }
        assert(keys_of(self.roster()).take(i as int) =~= keys_of(self.roster()));
        ids
    }

    fn find(&self, endpoint_id: &str) -> (r: Option<usize>)
        ensures
            match find_key(self.roster(), endpoint_id@) {
                Some(i) => r == Some(i as usize),
                None => r is None,
            },
            r matches Some(i) ==> i < self.endpoints@.len() && self.roster()[i as int].0 == endpoint_id@,
    {
        let key = endpoint_id.to_owned();
        let ghost s = self.roster();
        let mut i: usize = 0;
        while i < self.endpoints.len()
            invariant
                i <= self.endpoints@.len(),
                s == self.roster(),
                key@ == endpoint_id@,
                forall|j: int| 0 <= j < i ==> s[j].0 != endpoint_id@,
            decreases self.endpoints@.len() - i,
        {
            if self.endpoints[i].endpoint_id == key {
                proof {
                    lemma_find_key_is(s, endpoint_id@, i as int);
                }
                return Some(i);
            }
            i += 1;
        }
        proof {
            lemma_find_key_is(s, endpoint_id@, s.len() as int);
        }
        None
    }

    /// The name a member reported in its handshake.
    pub fn endpoint_name(&self, endpoint_id: &str) -> (n: Option<String>)
        ensures
            self.members().contains_key(endpoint_id@) ==> (n matches Some(s) && s@ == self.members()[endpoint_id@].0),
            !self.members().contains_key(endpoint_id@) ==> n is None,
    {
        match self.find(endpoint_id) {
            Some(i) => {
                proof {
                    lemma_find_key(self.roster(), endpoint_id@);
                    assert(self.roster()[i as int].1.0 == self.endpoints@[i as int].endpoint_name@);
                }
                Some(self.endpoints[i].endpoint_name.clone())
            },
            None => None,
        }
    }

    /// The control address of a member.
    pub fn endpoint_addr(&self, endpoint_id: &str) -> (a: Option<String>)
        ensures
            self.members().contains_key(endpoint_id@) ==> (a matches Some(s) && s@ == self.members()[endpoint_id@].1),
            !self.members().contains_key(endpoint_id@) ==> a is None,
    {
        match self.find(endpoint_id) {
            Some(i) => {
                proof {
                    lemma_find_key(self.roster(), endpoint_id@);
                    assert(self.roster()[i as int].1.1 == self.endpoints@[i as int].addr@);
                }
                Some(self.endpoints[i].addr.clone())
            },
            None => None,
        }
    }

    /// One snapshot per member, in member order, with its volume offset.
    pub fn endpoint_snapshots(&self) -> (v: Vec<EndpointSnapshot>)
        ensures
            v@.len() == self.roster().len(),
            forall|i: int|
                0 <= i < v@.len() ==> {
                    &&& (#[trigger] v@[i]).endpoint_id@ == self.roster()[i].0
                    &&& v@[i].endpoint_name@ == self.roster()[i].1.0
                    &&& v@[i].addr@ == self.roster()[i].1.1
                    &&& v@[i].state == self.roster()[i].1.2
                    &&& v@[i].volume_offset == self.spec_volume().spec_offset(self.roster()[i].0)
                },
    {
        let mut v: Vec<EndpointSnapshot> = Vec::new();
        let mut i: usize = 0;
        while i < self.endpoints.len()
            invariant
                i <= self.endpoints@.len(),
                v@.len() == i,
                forall|k: int|
                    0 <= k < i ==> {
                        &&& (#[trigger] v@[k]).endpoint_id@ == self.roster()[k].0
                        &&& v@[k].endpoint_name@ == self.roster()[k].1.0
                        &&& v@[k].addr@ == self.roster()[k].1.1
                        &&& v@[k].state == self.roster()[k].1.2
                        &&& v@[k].volume_offset == self.spec_volume().spec_offset(self.roster()[k].0)
                    },
            decreases self.endpoints@.len() - i,
        {
            let e = &self.endpoints[i];
            let snap = EndpointSnapshot {
                endpoint_id: e.endpoint_id.clone(),
                endpoint_name: e.endpoint_name.clone(),
                addr: e.addr.clone(),
                state: e.state,
                volume_offset: self.volume.offset(e.endpoint_id.as_str()),
            };
            v.push(snap);
            i += 1;
        }
        v
    }

    /// The state of a member.
    pub fn endpoint_state(&self, endpoint_id: &str) -> (s: Option<EndpointState>)
        ensures
            self.members().contains_key(endpoint_id@) ==> s == Some(self.members()[endpoint_id@].2),
            !self.members().contains_key(endpoint_id@) ==> s is None,
    {
        match self.find(endpoint_id) {
            Some(i) => {
                proof {
                    lemma_find_key(self.roster(), endpoint_id@);
                    assert(self.roster()[i as int].1.2 == self.endpoints@[i as int].state);
                }
                Some(self.endpoints[i].state)
            },
            None => None,
        }
    }

    pub fn is_multiroom(&self) -> (b: bool)
        ensures
            b == (self.roster().len() > 1),
    {
        self.endpoints.len() > 1
    }

    pub fn is_streaming(&self) -> (b: bool)
        ensures
            b == (self.spec_active() matches Some(s) && s.playing),
    {
        match &self.active_stream {
            Some(s) => s.playing,
            None => false,
        }
    }

    /// Lead time before a scheduled start: longer for multi-room zones.
    pub fn play_delay_ms(&self) -> (d: u64)
        ensures
            d == if self.roster().len() > 1 {
                DEFAULT_MULTIROOM_PLAY_DELAY_MS
            } else {
                DEFAULT_SINGLE_PLAY_DELAY_MS
            },
    {
        if self.is_multiroom() {
            DEFAULT_MULTIROOM_PLAY_DELAY_MS
        } else {
            DEFAULT_SINGLE_PLAY_DELAY_MS
        }
    }

    pub fn volume_map(&self) -> (v: &VolumeMap)
        ensures
            *v == self.spec_volume(),
    {
        &self.volume
    }

    /// Records a member that completed its handshake, as `Ready`; a member
    /// with the same id is replaced.
    pub fn add_endpoint(&mut self, endpoint_id: String, endpoint_name: String, addr: String)
        requires
            old(self).wf(),
        ensures
            final(self).wf(),
            final(self).members() == old(self).members().insert(
                endpoint_id@,
                (endpoint_name@, addr@, EndpointState::Ready),
            ),
            final(self).spec_volume() == old(self).spec_volume(),
            final(self).spec_active() == old(self).spec_active(),
            final(self).spec_sequence() == old(self).spec_sequence(),
            final(self).spec_zone_id() == old(self).spec_zone_id(),
    {
        let ghost s = self.roster();
        let entry = EndpointEntry {
            endpoint_id: endpoint_id.clone(),
            endpoint_name,
            addr,
            state: EndpointState::Ready,
        };
        let ghost v = (entry.endpoint_name@, entry.addr@, EndpointState::Ready);
        match self.find(endpoint_id.as_str()) {
            Some(i) => {
                self.endpoints.set(i, entry);
                proof {
                    lemma_find_key(s, endpoint_id@);
                    lemma_update_value(s, i as int, v);
                    assert(self.roster() =~= s.update(i as int, (s[i as int].0, v)));
                }
            },
            None => {
                self.endpoints.push(entry);
                proof {
                    lemma_push_new(s, endpoint_id@, v);
                    assert(self.roster() =~= s.push((endpoint_id@, v)));
                }
            },
        }
    }

    /// Removes a member and its volume offset; false when it was not a member.
    pub fn remove_endpoint(&mut self, endpoint_id: &str) -> (removed: bool)
        requires
            old(self).wf(),
        ensures
            final(self).wf(),
            removed == old(self).members().contains_key(endpoint_id@),
            final(self).members() == old(self).members().remove(endpoint_id@),
            removed ==> final(self).spec_volume().offset_map() == old(self).spec_volume().offset_map().remove(endpoint_id@),
            !removed ==> final(self).spec_volume() == old(self).spec_volume(),
            final(self).spec_volume().spec_master() == old(self).spec_volume().spec_master(),
            final(self).spec_active() == old(self).spec_active(),
            final(self).spec_sequence() == old(self).spec_sequence(),
            final(self).spec_zone_id() == old(self).spec_zone_id(),
            final(self).spec_name() == old(self).spec_name(),
    {
        let ghost s = self.roster();
        match self.find(endpoint_id) {
            Some(i) => {
                self.endpoints.remove(i);
                proof {
                    lemma_find_key(s, endpoint_id@);
                    lemma_remove_at(s, i as int);
                    assert(self.roster() =~= s.remove(i as int));
                }
                self.volume.remove_offset(endpoint_id);
                true
            },
            None => {
                proof {
                    lemma_find_key(s, endpoint_id@);
                    assert(as_map(s) =~= as_map(s).remove(endpoint_id@));
                }
                false
            },
        }
    }

    /// Sets the state of a member (no change when it is not a member).
    pub fn set_state(&mut self, endpoint_id: &str, state: EndpointState)
        requires
            old(self).wf(),
        ensures
            final(self).wf(),
            old(self).members().contains_key(endpoint_id@) ==> final(self).members() == old(self).members().insert(endpoint_id@, (old(self).members()[endpoint_id@].0, old(self).members()[endpoint_id@].1, state)),
            !old(self).members().contains_key(endpoint_id@) ==> final(self).members() == old(self).members(),
            keys_of(final(self).roster()) == keys_of(old(self).roster()),
            final(self).spec_volume() == old(self).spec_volume(),
            final(self).spec_active() == old(self).spec_active(),
            final(self).spec_sequence() == old(self).spec_sequence(),
    {
        let ghost s = self.roster();
        match self.find(endpoint_id) {
            Some(i) => {
                let entry = EndpointEntry {
                    endpoint_id: self.endpoints[i].endpoint_id.clone(),
                    endpoint_name: self.endpoints[i].endpoint_name.clone(),
                    addr: self.endpoints[i].addr.clone(),
                    state,
                };
                let ghost v = (entry.endpoint_name@, entry.addr@, state);
                self.endpoints.set(i, entry);
                proof {
                    lemma_find_key(s, endpoint_id@);
                    lemma_update_value(s, i as int, v);
                    assert(self.roster() =~= s.update(i as int, (s[i as int].0, v)));
                }
            },
            None => {},
        }
    }

    /// Marks a member degraded (clock sync failures, packet loss).
    pub fn mark_degraded(&mut self, endpoint_id: &str)
        requires
            old(self).wf(),
        ensures
            final(self).wf(),
            old(self).members().contains_key(endpoint_id@) ==> final(self).members() == old(self).members().insert(
                endpoint_id@,
                (old(self).members()[endpoint_id@].0, old(self).members()[endpoint_id@].1, EndpointState::Degraded),
            ),
            !old(self).members().contains_key(endpoint_id@) ==> final(self).members() == old(self).members(),
    {
        self.set_state(endpoint_id, EndpointState::Degraded);
    }

    /// Marks a member disconnected.
    pub fn mark_disconnected(&mut self, endpoint_id: &str)
        requires
            old(self).wf(),
        ensures
            final(self).wf(),
            old(self).members().contains_key(endpoint_id@) ==> final(self).members() == old(self).members().insert(
                endpoint_id@,
                (old(self).members()[endpoint_id@].0, old(self).members()[endpoint_id@].1, EndpointState::Disconnected),
            ),
            !old(self).members().contains_key(endpoint_id@) ==> final(self).members() == old(self).members(),
    {
        match self.endpoint_state(endpoint_id) {
            Some(st) => {
                if st != EndpointState::Disconnected {
                    self.set_state(endpoint_id, EndpointState::Disconnected);
                } else {
                    proof {
                        assert(old(self).members().insert(
                            endpoint_id@,
                            (old(self).members()[endpoint_id@].0, old(self).members()[endpoint_id@].1, EndpointState::Disconnected),
                        ) =~= old(self).members());
                    }
                }
            },
            None => {},
        }
    }

    /// Ids of members that are not disconnected and whose control reader is
    /// no longer alive (`alive` gives, in member order, whether each
    /// member's reader is running).
    pub fn check_health(&self, alive: &Vec<bool>) -> (ids: Vec<String>)
        requires
            alive@.len() == self.roster().len(),
        ensures
            ids@.map_values(|s: String| s@) == spec_unhealthy(self.roster(), alive@),
    {
        let ghost ro = self.roster();
        let mut ids: Vec<String> = Vec::new();
        let mut i: usize = 0;
        while i < self.endpoints.len()
            invariant
                i <= self.endpoints@.len(),
                ro == self.roster(),
                alive@.len() == ro.len(),
                ids@.map_values(|s: String| s@) =~= spec_unhealthy(ro.take(i as int), alive@),
            decreases self.endpoints@.len() - i,
        {
            proof {
                assert(ro.take(i + 1).drop_last() =~= ro.take(i as int));
                assert(ro.take(i + 1)[i as int] == ro[i as int]);
            }
            if self.endpoints[i].state != EndpointState::Disconnected && !alive[i] {
                ids.push(self.endpoints[i].endpoint_id.clone());
            }
            i += 1;
        }
        assert(ro.take(i as int) =~= ro);
        ids
    }

    /// Drops a member (if present) and its volume offset (if any).
    fn forget(&mut self, endpoint_id: &str)
        requires
            old(self).wf(),
        ensures
            final(self).wf(),
            final(self).members() == old(self).members().remove(endpoint_id@),
            final(self).spec_volume().offset_map() == old(self).spec_volume().offset_map().remove(endpoint_id@),
            final(self).spec_volume().spec_master() == old(self).spec_volume().spec_master(),
            final(self).spec_active() == old(self).spec_active(),
            final(self).spec_sequence() == old(self).spec_sequence(),
    {
        let ghost s = self.roster();
        match self.find(endpoint_id) {
            Some(i) => {
                self.endpoints.remove(i);
                proof {
                    lemma_find_key(s, endpoint_id@);
                    lemma_remove_at(s, i as int);
                    assert(self.roster() =~= s.remove(i as int));
                }
            },
            None => {
                proof {
                    lemma_find_key(s, endpoint_id@);
                    assert(as_map(s) =~= as_map(s).remove(endpoint_id@));
                }
            },
        }
        self.volume.remove_offset(endpoint_id);
    }

    /// Removes every disconnected member (and its volume offset) and
    /// returns their ids, in member order.
    pub fn prune_disconnected(&mut self) -> (dead: Vec<String>)
        requires
            old(self).wf(),
        ensures
            final(self).wf(),
            dead@.map_values(|s: String| s@) == spec_disconnected(old(self).roster()),
            forall|q: Seq<char>|
                #[trigger] string_views(dead@).contains(q) == (old(self).members().contains_key(q)
                    && old(self).members()[q].2 == EndpointState::Disconnected),
            final(self).members() == old(self).members().remove_keys(
                spec_disconnected(old(self).roster()).to_set(),
            ),
            final(self).spec_volume().offset_map() == old(self).spec_volume().offset_map().remove_keys(
                spec_disconnected(old(self).roster()).to_set(),
            ),
            final(self).spec_volume().spec_master() == old(self).spec_volume().spec_master(),
            final(self).spec_active() == old(self).spec_active(),
            final(self).spec_sequence() == old(self).spec_sequence(),
    {
        let ghost ro = self.roster();
        let ghost m0 = self.members();
        let ghost o0 = self.volume.offset_map();
        let mut dead: Vec<String> = Vec::new();
        let mut i: usize = 0;
        while i < self.endpoints.len()
            invariant
                i <= self.endpoints@.len(),
                ro == self.roster(),
                dead@.map_values(|s: String| s@) =~= spec_disconnected(ro.take(i as int)),
            decreases self.endpoints@.len() - i,
        {
            proof {
                assert(ro.take(i + 1).drop_last() =~= ro.take(i as int));
                assert(ro.take(i + 1).last() == ro[i as int]);
            }
            if self.endpoints[i].state == EndpointState::Disconnected {
                dead.push(self.endpoints[i].endpoint_id.clone());
            }
            i += 1;
        }
        assert(ro.take(i as int) =~= ro);
        let ghost dv = dead@.map_values(|s: String| s@);
        let mut k: usize = 0;
        while k < dead.len()
            invariant
                k <= dead@.len(),
                dv == dead@.map_values(|s: String| s@),
                self.wf(),
                self.members() == m0.remove_keys(dv.take(k as int).to_set()),
                self.spec_volume().offset_map() == o0.remove_keys(dv.take(k as int).to_set()),
                self.spec_volume().spec_master() == old(self).spec_volume().spec_master(),
                self.spec_active() == old(self).spec_active(),
                self.spec_sequence() == old(self).spec_sequence(),
            decreases dead@.len() - k,
        {
            self.forget(dead[k].as_str());
            proof {
                assert(dv.take(k + 1).to_set() =~= dv.take(k as int).to_set().insert(dv[k as int])) by {
                    assert(dv.take(k + 1) =~= dv.take(k as int).push(dv[k as int]));
                    dv.take(k as int).lemma_push_to_set_commute(dv[k as int]);
                }
                assert(self.members() =~= m0.remove_keys(dv.take(k + 1).to_set()));
                assert(self.spec_volume().offset_map() =~= o0.remove_keys(dv.take(k + 1).to_set()));
            }
            k += 1;
        }
        assert(dv.take(k as int) =~= dv);
        assert(string_views(dead@) == dv);
        assert forall|q: Seq<char>|
            #[trigger] dv.contains(q) == (m0.contains_key(q) && m0[q].2 == EndpointState::Disconnected) by {
            lemma_disconnected_ids(ro, q);
        }
        dead
    }

    // -- stream state --

    /// Records the stream being proposed to the zone (not yet playing).
    pub fn begin_stream(
        &mut self,
        stream_id: &str,
        format: AudioFormat,
        sample_rate: u32,
        channels: u8,
        channel_layout: ChannelLayout,
        bits_per_sample: u8,
    )
        requires
            old(self).wf(),
        ensures
            final(self).wf(),
            final(self).spec_active() matches Some(s) && s.stream_id@ == stream_id@ && s.format
                == format && s.sample_rate == sample_rate && s.channels == channels
                && s.channel_layout == channel_layout && s.bits_per_sample == bits_per_sample
                && s.metadata is None && !s.playing,
            final(self).roster() == old(self).roster(),
            final(self).spec_volume() == old(self).spec_volume(),
    {
        self.active_stream = Some(
            ActiveStream {
                stream_id: stream_id.to_owned(),
                format,
                sample_rate,
                channels,
                channel_layout,
                bits_per_sample,
                metadata: None,
                playing: false,
            },
        );
    }

    /// Remembers the current track for late joiners (when a stream is active).
    pub fn set_metadata(&mut self, track: TrackMetadata)
        requires
            old(self).wf(),
        ensures
            final(self).wf(),
            old(self).spec_active() is None ==> final(self).spec_active() is None,
            old(self).spec_active() matches Some(s) ==> final(self).spec_active() == Some(
                ActiveStream { metadata: Some(track), ..s },
            ),
            final(self).roster() == old(self).roster(),
            final(self).spec_volume() == old(self).spec_volume(),
    {
        match &mut self.active_stream {
            Some(s) => {
                s.metadata = Some(track);
            },
            None => {},
        }
    }

    /// Marks the active stream as playing.
    pub fn set_playing(&mut self)
        requires
            old(self).wf(),
        ensures
            final(self).wf(),
            old(self).spec_active() is None ==> final(self).spec_active() is None,
            old(self).spec_active() matches Some(s) ==> final(self).spec_active() == Some(
                ActiveStream { playing: true, ..s },
            ),
            final(self).roster() == old(self).roster(),
            final(self).spec_volume() == old(self).spec_volume(),
    {
        match &mut self.active_stream {
            Some(s) => {
                s.playing = true;
            },
            None => {},
        }
    }

    /// Forgets the active stream (stop).
    pub fn end_stream(&mut self)
        requires
            old(self).wf(),
        ensures
            final(self).wf(),
            final(self).spec_active() is None,
            final(self).roster() == old(self).roster(),
            final(self).spec_volume() == old(self).spec_volume(),
    {
        self.active_stream = None;
    }

    // -- FEC --

    /// Turns on forward error correction: from now on a parity packet
    /// follows every `group_size` data packets (`send_audio`). A group in
    /// progress is dropped.
    pub fn enable_fec(&mut self, group_size: u8)
        requires
            old(self).wf(),
            group_size >= 1,
        ensures
            final(self).wf(),
            final(self).spec_fec() == Some(group_size),
            final(self).spec_fec_pending() == Seq::<Seq<u8>>::empty(),
            final(self).roster() == old(self).roster(),
            final(self).spec_sequence() == old(self).spec_sequence(),
    {
        self.fec = Some(FecEncoder::new(group_size));
    }

    pub fn disable_fec(&mut self)
        requires
            old(self).wf(),
        ensures
            final(self).wf(),
            final(self).spec_fec() is None,
            final(self).roster() == old(self).roster(),
            final(self).spec_sequence() == old(self).spec_sequence(),
    {
        self.fec = None;
    }

    pub fn fec_enabled(&self) -> (b: bool)
        ensures
            b == self.spec_fec() is Some,
    {
        self.fec.is_some()
    }

    pub fn fec_group_size(&self) -> (g: Option<u8>)
        ensures
            g == self.spec_fec(),
    {
        match &self.fec {
            Some(e) => Some(e.group_size()),
            None => None,
        }
    }

    /// The ids of the members an audio packet goes to: all but the
    /// disconnected ones, in member order.
    pub fn audio_recipients(&self) -> (ids: Vec<String>)
        ensures
            ids@.map_values(|s: String| s@) == spec_live_ids(self.roster()),
    {
        let ghost ro = self.roster();
        let mut ids: Vec<String> = Vec::new();
        let mut i: usize = 0;
        while i < self.endpoints.len()
            invariant
                i <= self.endpoints@.len(),
                ro == self.roster(),
                ids@.map_values(|s: String| s@) =~= spec_live_ids(ro.take(i as int)),
            decreases self.endpoints@.len() - i,
        {
            proof {
                assert(ro.take(i + 1).drop_last() =~= ro.take(i as int));
                assert(ro.take(i + 1).last() == ro[i as int]);
            }
            if self.endpoints[i].state != EndpointState::Disconnected {
                ids.push(self.endpoints[i].endpoint_id.clone());
            }
            i += 1;
        }
        assert(ro.take(i as int) =~= ro);
        ids
    }

    /// One audio payload for the zone. The datagram carries the zone's
    /// sequence number, which advances by one. With FEC on, the payload
    /// joins the group in progress; when that completes the group, a parity
    /// datagram follows (FEC flag alone, the next sequence number, the same
    /// stream, format, PTS and sample offset, the group's parity as
    /// payload) and the sequence advances once more. Both go to the members
    /// that are not disconnected.
    pub fn send_audio(
        &mut self,
        stream_id: u32,
        format: AudioFormat,
        pts_ns: u64,
        sample_offset: u64,
        payload: &[u8],
        flags: PacketFlags,
    ) -> (b: AudioBatch)
        requires
            old(self).wf(),
        ensures
            final(self).wf(),
            b.recipients@.map_values(|s: String| s@) == spec_live_ids(old(self).roster()),
            b.datagram@ == spec_header_bytes(
                spec_send_header(
                    old(self).spec_sequence(),
                    stream_id,
                    format,
                    pts_ns,
                    sample_offset,
                    payload@.len(),
                    flags,
                ),
            ) + payload@,
            final(self).roster() == old(self).roster(),
            final(self).spec_volume() == old(self).spec_volume(),
            final(self).spec_active() == old(self).spec_active(),
            final(self).spec_fec() == old(self).spec_fec(),
            old(self).spec_fec() is None ==> {
                &&& b.parity is None
                &&& final(self).spec_sequence() == (old(self).spec_sequence() + 1) % 0x1_0000
            },
            old(self).spec_fec() matches Some(g) ==> {
                let group = old(self).spec_fec_pending().push(payload@);
                if group.len() == g {
                    let parity = spec_parity(group);
                    &&& b.parity matches Some(p)
                    &&& p@ == spec_header_bytes(
                        spec_send_header(
                            ((old(self).spec_sequence() + 1) % 0x1_0000) as u16,
                            stream_id,
                            format,
                            pts_ns,
                            sample_offset,
                            parity.len(),
                            parity_flags(),
                        ),
                    ) + parity
                    &&& final(self).spec_fec_pending() == Seq::<Seq<u8>>::empty()
                    &&& final(self).spec_sequence() == (old(self).spec_sequence() + 2) % 0x1_0000
                } else {
                    &&& b.parity is None
                    &&& final(self).spec_fec_pending() == group
                    &&& final(self).spec_sequence() == (old(self).spec_sequence() + 1) % 0x1_0000
                }
            },
    {
        let recipients = self.audio_recipients();
        let datagram = self.sender.next_datagram(
            stream_id,
            format,
            pts_ns,
            sample_offset,
            payload,
            flags,
        );
        proof {
            if self.fec is Some {
                self.fec->0.lemma_pending_short();
            }
        }
        let parity_payload = match &mut self.fec {
            Some(e) => e.feed(payload),
            None => None,
        };
        let parity = match parity_payload {
            Some(pp) => Some(
                self.sender.next_datagram(
                    stream_id,
                    format,
                    pts_ns,
                    sample_offset,
                    pp.payload.as_slice(),
                    PacketFlags { bits: 0x04 },
                ),
            ),
            None => None,
        };
        AudioBatch { recipients, datagram, parity }
    }

    // -- sequencing --

    /// Takes the next sequence number (used for clock sync exchanges).
    pub fn next_sequence(&mut self) -> (s: u16)
        requires
            old(self).wf(),
        ensures
            final(self).wf(),
            s == old(self).spec_sequence(),
            final(self).spec_sequence() == (old(self).spec_sequence() + 1) % 0x1_0000,
            final(self).roster() == old(self).roster(),
            final(self).spec_volume() == old(self).spec_volume(),
    {
        let s = self.sender.sequence;
        self.sender.sequence = s.wrapping_add(1);
        s
    }

    // -- volume --

    /// Sets the zone's master volume; returns each member's new effective
    /// volume, in member order.
    pub fn set_volume_all(&mut self, level: u8) -> (v: Vec<(String, u8)>)
        requires
            old(self).wf(),
        ensures
            final(self).wf(),
            final(self).spec_volume().spec_master() == level,
            final(self).spec_volume().offset_map() == old(self).spec_volume().offset_map(),
            v@.len() == old(self).roster().len(),
            forall|i: int|
                0 <= i < v@.len() ==> (#[trigger] v@[i]).0@ == old(self).roster()[i].0 && v@[i].1
                    == final(self).spec_volume().spec_effective(old(self).roster()[i].0),
            final(self).roster() == old(self).roster(),
    {
        self.volume.master = level;
        let mut v: Vec<(String, u8)> = Vec::new();
        let mut i: usize = 0;
        while i < self.endpoints.len()
            invariant
                i <= self.endpoints@.len(),
                v@.len() == i,
                forall|k: int|
                    0 <= k < i ==> (#[trigger] v@[k]).0@ == self.roster()[k].0 && v@[k].1
                        == self.volume.spec_effective(self.roster()[k].0),
            decreases self.endpoints@.len() - i,
        {
            let id = self.endpoints[i].endpoint_id.clone();
            let eff = self.volume.effective_volume(id.as_str());
            v.push((id, eff));
            i += 1;
        }
        v
    }

    /// Per-device volume: stores the offset that makes the member's
    /// effective volume `level` at the current master, and returns the level
    /// to send when the endpoint is a member.
    pub fn set_volume_endpoint(&mut self, endpoint_id: &str, level: u8) -> (send: Option<u8>)
        requires
            old(self).wf(),
            i8::MIN <= (level as i8) - (old(self).spec_volume().spec_master() as i8) <= i8::MAX,
        ensures
            final(self).wf(),
            final(self).spec_volume().spec_master() == old(self).spec_volume().spec_master(),
            final(self).spec_volume().offset_map() == old(self).spec_volume().offset_map().insert(
                endpoint_id@,
                ((level as i8) - (old(self).spec_volume().spec_master() as i8)) as i8,
            ),
            send == (if old(self).members().contains_key(endpoint_id@) {
                Some(level)
            } else {
                None
            }),
            final(self).roster() == old(self).roster(),
            level <= 100 && old(self).spec_volume().spec_master() <= 127 ==> final(self).spec_volume().spec_effective(endpoint_id@) == level,
    {
        let offset = level as i8 - self.volume.master as i8;
        self.volume.set_offset(endpoint_id, offset);
        match self.find(endpoint_id) {
            Some(_) => Some(level),
            None => None,
        }
    }

    /// Stores a member's volume offset and returns its new effective volume
    /// when the endpoint is a member.
    pub fn set_volume_offset(&mut self, endpoint_id: &str, offset: i8) -> (send: Option<u8>)
        requires
            old(self).wf(),
        ensures
            final(self).wf(),
            final(self).spec_volume().spec_master() == old(self).spec_volume().spec_master(),
            final(self).spec_volume().offset_map() == old(self).spec_volume().offset_map().insert(
                endpoint_id@,
                offset,
            ),
            send == (if old(self).members().contains_key(endpoint_id@) {
                Some(clamp_volume(old(self).spec_volume().spec_master() + offset) as u8)
            } else {
                None
            }),
            final(self).roster() == old(self).roster(),
    {
        self.volume.set_offset(endpoint_id, offset);
        match self.find(endpoint_id) {
            Some(_) => Some(self.volume.effective_volume(endpoint_id)),
            None => None,
        }
    }

    // -- messages --

    /// The membership update broadcast after a join or leave.
    pub fn zone_update_message(&self) -> (m: Message)
        ensures
            m matches Message::ZoneUpdate(u) && u.zone_id@ == self.spec_zone_id() && u.endpoint_ids@.map_values(
                |s: String| s@,
            ) == keys_of(self.roster()),
    {
        Message::ZoneUpdate(
            ZoneUpdate { zone_id: self.zone_id.clone(), endpoint_ids: self.endpoint_ids() },
        )
    }

    pub fn zone_assign_message(&self, endpoint_id: &str) -> (m: Message)
        ensures
            m matches Message::ZoneAssign(a) && a.zone_id@ == self.spec_zone_id() && a.endpoint_id@
                == endpoint_id@,
    {
        Message::ZoneAssign(
            ZoneAssign { zone_id: self.zone_id.clone(), endpoint_id: endpoint_id.to_owned() },
        )
    }

    pub fn zone_release_message(&self, endpoint_id: &str) -> (m: Message)
        ensures
            m matches Message::ZoneRelease(a) && a.zone_id@ == self.spec_zone_id() && a.endpoint_id@
                == endpoint_id@,
    {
        Message::ZoneRelease(
            ZoneRelease { zone_id: self.zone_id.clone(), endpoint_id: endpoint_id.to_owned() },
        )
    }

    /// What a member joining while a stream is active is sent, in order: the
    /// stream's format, the track metadata if known, its effective volume,
    /// and `play` if the zone is playing. Nothing when no stream is active.
    pub fn late_join_messages(&self, endpoint_id: &str) -> (ms: Vec<Message>)
        ensures
            self.spec_active() is None ==> ms@.len() == 0,
            self.spec_active() matches Some(s) ==> {
                &&& ms@.len() == 2 + (if s.metadata is Some {
                    1int
                } else {
                    0
                }) + (if s.playing {
                    1int
                } else {
                    0
                })
                &&& ms@[0] matches Message::FormatPropose(fp) && fp.stream_id@ == s.stream_id@
                    && fp.format == s.format && fp.sample_rate == s.sample_rate && fp.channels
                    == s.channels && fp.channel_layout == s.channel_layout && fp.bits_per_sample
                    == s.bits_per_sample
                &&& s.metadata matches Some(t) ==> (ms@[1] matches Message::Metadata(md)
                    && md.track == t)
                &&& ms@[if s.metadata is Some {
                    2int
                } else {
                    1
                }] matches Message::VolumeSet(vs) && vs.level == self.spec_volume().spec_effective(
                    endpoint_id@,
                )
                &&& s.playing ==> (ms@.last() matches Message::Play(p) && p.stream_id@
                    == s.stream_id@)
            },
    {
        let mut ms: Vec<Message> = Vec::new();
        match &self.active_stream {
            None => {},
            Some(s) => {
                ms.push(
                    format_propose_message(
                        s.stream_id.as_str(),
                        s.format,
                        s.sample_rate,
                        s.channels,
                        s.channel_layout,
                        s.bits_per_sample,
                    ),
                );
                match &s.metadata {
                    Some(t) => {
                        ms.push(metadata_message(copy_track(t)));
                    },
                    None => {},
                }
                let level = self.volume.effective_volume(endpoint_id);
                ms.push(Message::VolumeSet(VolumeSet { level }));
                if s.playing {
                    ms.push(play_message(s.stream_id.as_str()));
                }
            },
        }
        ms
    }
}

} // verus!
