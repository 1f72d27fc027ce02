//! The controller's zones, keyed by zone id, and the membership events they
//! give rise to. Connecting to endpoints and delivering the events are done
//! by the caller.

use crate::error::OaatError;
use crate::keyed::{
    as_map, find_key, keys_of, keys_unique, lemma_find_key, lemma_find_key_is, lemma_push_new,
    lemma_remove_at, lemma_update_value,
};
use crate::protocol::{clone_strings, ControllerConfig};
use crate::text::{push_chars, str_chars, str_eq};
use crate::zone::{EndpointSnapshot, Zone, ZoneEvent};
use vstd::prelude::*;

verus! {

/// A zone as reported to a user interface.
#[derive(Debug, Clone)]
pub struct ZoneSnapshot {
    pub zone_id: String,
    pub name: String,
    pub endpoints: Vec<EndpointSnapshot>,
    pub is_streaming: bool,
    pub volume: u8,
}

/// All zones of a controller.
pub struct ZoneManager {
    zones: Vec<Zone>,
    config: ControllerConfig,
}

pub open spec fn not_found_message(what: Seq<char>, id: Seq<char>) -> Seq<char> {
    what + " not found: "@ + id
}

fn not_found(what: &str, id: &str) -> (e: OaatError)
    ensures
        e matches OaatError::Protocol(m) && m@ == not_found_message(what@, id@),
{
    let mut m = String::new();
    let w = str_chars(what);
    push_chars(&mut m, w.as_slice());
    let mid = str_chars(" not found: ");
    push_chars(&mut m, mid.as_slice());
    let i = str_chars(id);
    push_chars(&mut m, i.as_slice());
    OaatError::Protocol(m)
}

fn copy_config(c: &ControllerConfig) -> (r: ControllerConfig)
    ensures
        r.controller_id == c.controller_id,
        r.controller_name == c.controller_name,
        r.features@ == c.features@,
        r.clock_port == c.clock_port,
        r.tls == c.tls,
{
    ControllerConfig {
        controller_id: c.controller_id.clone(),
        controller_name: c.controller_name.clone(),
        features: clone_strings(&c.features),
        clock_port: c.clock_port,
        tls: c.tls,
    }
}

impl ZoneManager {
    /// The zones, each with its id, in creation order.
    pub closed spec fn zone_list(&self) -> Seq<(Seq<char>, Zone)> {
        self.zones@.map_values(|z: Zone| (z.spec_zone_id(), z))
    }

    /// No zone id twice, every zone well formed.
    pub closed spec fn wf(&self) -> bool {
        &&& keys_unique(self.zone_list())
        &&& forall|i: int| 0 <= i < self.zones@.len() ==> (#[trigger] self.zones@[i]).wf()
    }

    pub closed spec fn spec_config(&self) -> ControllerConfig {
        self.config
    }

    /// The zones by id.
    pub open spec fn zones_map(&self) -> Map<Seq<char>, Zone> {
        as_map(self.zone_list())
    }

    pub fn new(config: ControllerConfig) -> (m: Self)
        ensures
            m.wf(),
            m.zones_map() == Map::<Seq<char>, Zone>::empty(),
            m.spec_config() == config,
    {
        let m = ZoneManager { zones: Vec::new(), config };
        assert(m.zones_map() =~= Map::<Seq<char>, Zone>::empty());
        m
    }

    fn find(&self, zone_id: &str) -> (r: Option<usize>)
        ensures
            match find_key(self.zone_list(), zone_id@) {
                Some(i) => r == Some(i as usize),
                None => r is None,
            },
            r matches Some(i) ==> i < self.zones@.len() && self.zone_list()[i as int].0 == zone_id@,
    {
        let ghost s = self.zone_list();
        let mut i: usize = 0;
        while i < self.zones.len()
            invariant
                i <= self.zones@.len(),
                s == self.zone_list(),
                forall|j: int| 0 <= j < i ==> s[j].0 != zone_id@,
            decreases self.zones@.len() - i,
        {
            let same = str_eq(self.zones[i].zone_id_str(), zone_id);
            proof {
                assert(s[i as int].0 == self.zones@[i as int].spec_zone_id());
            }
            if same {
                proof {
                    lemma_find_key_is(s, zone_id@, i as int);
                }
                return Some(i);
            }
            i += 1;
        }
        proof {
            lemma_find_key_is(s, zone_id@, s.len() as int);
        }
        None
    }

    /// Zone ids, in creation order.
    pub fn zone_ids(&self) -> (ids: Vec<String>)
        ensures
            ids@.map_values(|s: String| s@) == keys_of(self.zone_list()),
    {
        let mut ids: Vec<String> = Vec::new();
        let mut i: usize = 0;
        while i < self.zones.len()
            invariant
                i <= self.zones@.len(),
                ids@.map_values(|s: String| s@) =~= keys_of(self.zone_list()).take(i as int),
            decreases self.zones@.len() - i,
        {
            let ghost prev = ids@.map_values(|s: String| s@);
            proof {
                assert(self.zone_list()[i as int].0 == self.zones@[i as int].spec_zone_id());
                assert(keys_of(self.zone_list())[i as int] == self.zone_list()[i as int].0);
            }
            let id = self.zones[i].zone_id_string();
            ids.push(id);
            assert(ids@.map_values(|s: String| s@) =~= prev.push(self.zones@[i as int].spec_zone_id()));
            i += 1;
        }
        assert(keys_of(self.zone_list()).take(i as int) =~= keys_of(self.zone_list()));
        ids
    }

    /// The zone with this id.
    pub fn zone(&self, zone_id: &str) -> (z: Option<&Zone>)
        ensures
            self.zones_map().contains_key(zone_id@) ==> (z matches Some(x) && *x == self.zones_map()[zone_id@]),
            !self.zones_map().contains_key(zone_id@) ==> z is None,
    {
        match self.find(zone_id) {
            Some(i) => {
                proof {
                    lemma_find_key(self.zone_list(), zone_id@);
                    assert(self.zone_list()[i as int].1 == self.zones@[i as int]);
                }
                Some(&self.zones[i])
            },
            None => None,
        }
    }

    /// Creates a zone (replacing one with the same id) and returns the event
    /// announcing it.
    pub fn create_zone(&mut self, zone_id: String, name: String) -> (ev: ZoneEvent)
        requires
            old(self).wf(),
        ensures
            final(self).wf(),
            final(self).zones_map().dom() == old(self).zones_map().dom().insert(zone_id@),
            forall|k: Seq<char>|
                k != zone_id@ && #[trigger] old(self).zones_map().contains_key(k) ==> final(self).zones_map()[k] == old(self).zones_map()[k],
            ({
                let z = final(self).zones_map()[zone_id@];
                &&& z.spec_name() == name@
                &&& z.roster().len() == 0
                &&& z.spec_active() is None
                &&& z.spec_zone_id() == zone_id@
                &&& z.spec_volume().spec_master() == 100
                &&& z.spec_volume().offset_map() == Map::<Seq<char>, i8>::empty()
                &&& z.spec_sequence() == 0
                &&& z.spec_fec() is None
                &&& z.spec_config().controller_id == old(self).spec_config().controller_id
                &&& z.spec_config().controller_name == old(self).spec_config().controller_name
                &&& z.spec_config().features@ == old(self).spec_config().features@
                &&& z.spec_config().clock_port == old(self).spec_config().clock_port
            }),
            ev matches ZoneEvent::ZoneCreated { zone_id: i, name: n } && i@ == zone_id@ && n@
                == name@,
            final(self).spec_config() == old(self).spec_config(),
    {
        let ghost s = self.zone_list();
        let ev = ZoneEvent::ZoneCreated { zone_id: zone_id.clone(), name: name.clone() };
        let zone = Zone::new(zone_id.clone(), name, copy_config(&self.config));
        let ghost v = zone;
        match self.find(zone_id.as_str()) {
            Some(i) => {
                self.zones.set(i, zone);
                proof {
                    lemma_find_key(s, zone_id@);
                    lemma_update_value(s, i as int, v);
                    assert(self.zone_list() =~= s.update(i as int, (s[i as int].0, v)));
                    assert(self.zones_map().dom() =~= old(self).zones_map().dom().insert(zone_id@));
                }
            },
            None => {
                self.zones.push(zone);
                proof {
                    lemma_push_new(s, zone_id@, v);
                    assert(self.zone_list() =~= s.push((zone_id@, v)));
                    assert(self.zones_map().dom() =~= old(self).zones_map().dom().insert(zone_id@));
                }
            },
        }
        ev
    }

    /// Removes a zone; the event announcing it when there was one.
    pub fn dissolve_zone(&mut self, zone_id: &str) -> (ev: Option<ZoneEvent>)
        requires
            old(self).wf(),
        ensures
            final(self).wf(),
            final(self).zones_map() == old(self).zones_map().remove(zone_id@),
            old(self).zones_map().contains_key(zone_id@) ==> (ev matches Some(
                ZoneEvent::ZoneDissolved { zone_id: i },
            ) && i@ == zone_id@),
            !old(self).zones_map().contains_key(zone_id@) ==> ev is None,
            final(self).spec_config() == old(self).spec_config(),
    {
        let ghost s = self.zone_list();
        match self.find(zone_id) {
            Some(i) => {
                self.zones.remove(i);
                proof {
                    lemma_find_key(s, zone_id@);
                    lemma_remove_at(s, i as int);
                    assert(self.zone_list() =~= s.remove(i as int));
                    assert forall|j: int| 0 <= j < self.zones@.len() implies (#[trigger] self.zones@[j]).wf() by {
                        if j < i {
                            assert(self.zones@[j] == old(self).zones@[j]);
                        } else {
                            assert(self.zones@[j] == old(self).zones@[j + 1]);
                        }
                    }
                }
                Some(ZoneEvent::ZoneDissolved { zone_id: zone_id.to_owned() })
            },
            None => {
                proof {
                    lemma_find_key(s, zone_id@);
                    assert(as_map(s) =~= as_map(s).remove(zone_id@));
                }
                None
            },
        }
    }

    /// Replaces the zone at position `i` by `z`, which keeps its id.
    fn put_back(&mut self, i: usize, z: Zone)
        requires
            old(self).wf(),
            i < old(self).zones@.len(),
            z.wf(),
            z.spec_zone_id() == old(self).zones@[i as int].spec_zone_id(),
        ensures
            final(self).wf(),
            final(self).zone_list() == old(self).zone_list().update(
                i as int,
                (old(self).zone_list()[i as int].0, z),
            ),
            final(self).spec_config() == old(self).spec_config(),
    {
        let ghost s = self.zone_list();
        self.zones.set(i, z);
        proof {
            lemma_update_value(s, i as int, z);
            assert(self.zone_list() =~= s.update(i as int, (s[i as int].0, z)));
            assert forall|j: int| 0 <= j < self.zones@.len() implies (#[trigger] self.zones@[j]).wf() by {
                if j != i {
                    assert(self.zones@[j] == old(self).zones@[j]);
                }
            }
        }
    }

    /// Takes the zone at position `i` out, leaving an empty zone with the
    /// same id in its place.
    fn take_zone(&mut self, i: usize) -> (z: Zone)
        requires
            old(self).wf(),
            i < old(self).zones@.len(),
        ensures
            z == old(self).zones@[i as int],
            z.wf(),
            final(self).zones@.len() == old(self).zones@.len(),
            final(self).zones@[i as int].spec_zone_id() == z.spec_zone_id(),
            final(self).wf(),
            final(self).zone_list() == old(self).zone_list().update(
                i as int,
                (old(self).zone_list()[i as int].0, final(self).zones@[i as int]),
            ),
            final(self).spec_config() == old(self).spec_config(),
    {
        let placeholder = Zone::new(
            self.zones[i].zone_id_string(),
            String::new(),
            copy_config(&self.config),
        );
        let ghost s = self.zone_list();
        let z = self.zones.remove(i);
        self.zones.insert(i, placeholder);
        proof {
            assert(self.zone_list() =~= s.update(i as int, (s[i as int].0, self.zones@[i as int])));
            assert(keys_unique(self.zone_list())) by {
                assert forall|a: int, b: int| 0 <= a < b < self.zone_list().len() implies self.zone_list()[a].0 != self.zone_list()[b].0 by {
                    assert(self.zone_list()[a].0 == s[a].0);
                    assert(self.zone_list()[b].0 == s[b].0);
                }
            }
            assert forall|j: int| 0 <= j < self.zones@.len() implies (#[trigger] self.zones@[j]).wf() by {
                if j != i {
                    assert(self.zones@[j] == old(self).zones@[j]);
                }
            }
        }
        z
    }

    /// Takes a member out of a zone; the event announcing it when the zone
    /// had that member.
    pub fn remove_endpoint_from_zone(&mut self, zone_id: &str, endpoint_id: &str) -> (ev: Option<
        ZoneEvent,
    >)
        requires
            old(self).wf(),
        ensures
            final(self).wf(),
            !old(self).zones_map().contains_key(zone_id@) ==> final(self).zones_map() == old(self).zones_map(),
            old(self).zones_map().contains_key(zone_id@) ==> final(self).zones_map().dom() == old(self).zones_map().dom(),
            old(self).zones_map().contains_key(zone_id@) ==> final(self).zones_map()[zone_id@].members()
                == old(self).zones_map()[zone_id@].members().remove(endpoint_id@),
            forall|k: Seq<char>|
                k != zone_id@ && #[trigger] old(self).zones_map().contains_key(k) ==> final(self).zones_map()[k] == old(self).zones_map()[k],
            (old(self).zones_map().contains_key(zone_id@) && old(self).zones_map()[zone_id@].members().contains_key(
                endpoint_id@,
            )) ==> (ev matches Some(ZoneEvent::EndpointLeft { zone_id: z, endpoint_id: e }) && z@
                == zone_id@ && e@ == endpoint_id@),
            !(old(self).zones_map().contains_key(zone_id@) && old(self).zones_map()[zone_id@].members().contains_key(
                endpoint_id@,
            )) ==> ev is None,
            final(self).spec_config() == old(self).spec_config(),
    {
        match self.find(zone_id) {
            None => None,
            Some(i) => {
                proof {
                    lemma_find_key(self.zone_list(), zone_id@);
                    assert(self.zone_list()[i as int].1 == self.zones@[i as int]);
                }
                let ghost s0 = self.zone_list();
                let mut z = self.take_zone(i);
                let removed = z.remove_endpoint(endpoint_id);
                self.put_back(i, z);
                proof {
                    assert(self.zone_list() =~= s0.update(i as int, (s0[i as int].0, z)));
                    lemma_update_value(s0, i as int, z);
                    assert(self.zones_map().dom() =~= old(self).zones_map().dom());
                }
                if removed {
                    Some(
                        ZoneEvent::EndpointLeft {
                            zone_id: zone_id.to_owned(),
                            endpoint_id: endpoint_id.to_owned(),
                        },
                    )
                } else {
                    None
                }
            },
        }
    }

    /// Records a member that joined a zone after its handshake; the event
    /// announcing it, or `zone not found` when there is no such zone.
    pub fn record_endpoint_joined(
        &mut self,
        zone_id: &str,
        endpoint_id: String,
        endpoint_name: String,
        addr: String,
    ) -> (r: Result<ZoneEvent, OaatError>)
        requires
            old(self).wf(),
        ensures
            final(self).wf(),
            !old(self).zones_map().contains_key(zone_id@) ==> (final(self).zones_map() == old(self).zones_map() && (r matches Err(OaatError::Protocol(m)) && m@ == not_found_message(
                "zone"@,
                zone_id@,
            ))),
            old(self).zones_map().contains_key(zone_id@) ==> {
                &&& final(self).zones_map().dom() == old(self).zones_map().dom()
                &&& final(self).zones_map()[zone_id@].members() == old(self).zones_map()[zone_id@].members().insert(
                    endpoint_id@,
                    (endpoint_name@, addr@, crate::zone::EndpointState::Ready),
                )
                &&& r matches Ok(ZoneEvent::EndpointJoined { zone_id: z, endpoint_id: e, endpoint_name: n })
                    && z@ == zone_id@ && e@ == endpoint_id@ && n@ == endpoint_name@
            },
            forall|k: Seq<char>|
                k != zone_id@ && #[trigger] old(self).zones_map().contains_key(k) ==> final(self).zones_map()[k] == old(self).zones_map()[k],
            final(self).spec_config() == old(self).spec_config(),
    {
        match self.find(zone_id) {
            None => Err(not_found("zone", zone_id)),
            Some(i) => {
                proof {
                    lemma_find_key(self.zone_list(), zone_id@);
                    assert(self.zone_list()[i as int].1 == self.zones@[i as int]);
                }
                let ev = ZoneEvent::EndpointJoined {
                    zone_id: zone_id.to_owned(),
                    endpoint_id: endpoint_id.clone(),
                    endpoint_name: endpoint_name.clone(),
                };
                let ghost s0 = self.zone_list();
                let mut z = self.take_zone(i);
                z.add_endpoint(endpoint_id, endpoint_name, addr);
                self.put_back(i, z);
                proof {
                    assert(self.zone_list() =~= s0.update(i as int, (s0[i as int].0, z)));
                    lemma_update_value(s0, i as int, z);
                    assert(self.zones_map().dom() =~= old(self).zones_map().dom());
                }
                Ok(ev)
            },
        }
    }

    /// First half of moving a member between zones: checks that `from_zone`
    /// exists and has the member, takes it out, and returns its address (to
    /// connect to for the join) with the leave event.
    pub fn begin_move(&mut self, endpoint_id: &str, from_zone: &str) -> (r: Result<
        (String, ZoneEvent),
        OaatError,
    >)
        requires
            old(self).wf(),
        ensures
            final(self).wf(),
            !old(self).zones_map().contains_key(from_zone@) ==> (*final(self) == *old(self)
                && (r matches Err(OaatError::Protocol(m)) && m@ == not_found_message(
                "zone"@,
                from_zone@,
            ))),
            (old(self).zones_map().contains_key(from_zone@) && !old(self).zones_map()[from_zone@].members().contains_key(
                endpoint_id@,
            )) ==> (*final(self) == *old(self) && (r matches Err(OaatError::Protocol(m)) && m@
                == not_found_message("endpoint"@, endpoint_id@))),
            (old(self).zones_map().contains_key(from_zone@) && old(self).zones_map()[from_zone@].members().contains_key(
                endpoint_id@,
            )) ==> {
                &&& r matches Ok((a, ZoneEvent::EndpointLeft { zone_id: z, endpoint_id: e })) && a@
                    == old(self).zones_map()[from_zone@].members()[endpoint_id@].1 && z@ == from_zone@
                    && e@ == endpoint_id@
                &&& final(self).zones_map().dom() == old(self).zones_map().dom()
                &&& final(self).zones_map()[from_zone@].members() == old(self).zones_map()[from_zone@].members().remove(
                    endpoint_id@,
                )
            },
            forall|k: Seq<char>|
                k != from_zone@ && #[trigger] old(self).zones_map().contains_key(k) ==> final(self).zones_map()[k] == old(self).zones_map()[k],
            final(self).spec_config() == old(self).spec_config(),
    {
        let i = match self.find(from_zone) {
            None => {
                return Err(not_found("zone", from_zone));
            },
            Some(i) => i,
        };
        proof {
            lemma_find_key(self.zone_list(), from_zone@);
            assert(self.zone_list()[i as int].1 == self.zones@[i as int]);
        }
        let addr = match self.zones[i].endpoint_addr(endpoint_id) {
            None => {
                return Err(not_found("endpoint", endpoint_id));
            },
            Some(a) => a,
        };
        match self.remove_endpoint_from_zone(from_zone, endpoint_id) {
            Some(ev) => Ok((addr, ev)),
            None => {
                proof {
                    assert(false);
                }
                Err(not_found("endpoint", endpoint_id))
            },
        }
    }

    /// The event reporting that a member failed.
    pub fn endpoint_failed_event(zone_id: &str, endpoint_id: &str, error: String) -> (ev:
        ZoneEvent)
        ensures
            ev matches ZoneEvent::EndpointFailed { zone_id: z, endpoint_id: e, error: m } && z@
                == zone_id@ && e@ == endpoint_id@ && m == error,
    {
        ZoneEvent::EndpointFailed {
            zone_id: zone_id.to_owned(),
            endpoint_id: endpoint_id.to_owned(),
            error,
        }
    }

    /// One snapshot per zone, in creation order.
    pub fn snapshot(&self) -> (v: Vec<ZoneSnapshot>)
        ensures
            v@.len() == self.zone_list().len(),
            forall|i: int|
                0 <= i < v@.len() ==> {
                    let z = #[trigger] self.zone_list()[i].1;
                    &&& v@[i].zone_id@ == z.spec_zone_id()
                    &&& v@[i].name@ == z.spec_name()
                    &&& v@[i].endpoints@.len() == z.roster().len()
                    &&& v@[i].is_streaming == (z.spec_active() matches Some(s) && s.playing)
                    &&& v@[i].volume == z.spec_volume().spec_master()
                },
    {
        let mut v: Vec<ZoneSnapshot> = Vec::new();
        let mut i: usize = 0;
        while i < self.zones.len()
            invariant
                i <= self.zones@.len(),
                v@.len() == i,
                forall|k: int|
                    0 <= k < i ==> {
                        let z = #[trigger] self.zone_list()[k].1;
                        &&& v@[k].zone_id@ == z.spec_zone_id()
                        &&& v@[k].name@ == z.spec_name()
                        &&& v@[k].endpoints@.len() == z.roster().len()
                        &&& v@[k].is_streaming == (z.spec_active() matches Some(s) && s.playing)
                        &&& v@[k].volume == z.spec_volume().spec_master()
                    },
            decreases self.zones@.len() - i,
        {
            let z = &self.zones[i];
            proof {
                assert(self.zone_list()[i as int].1 == self.zones@[i as int]);
            }
            let snap = ZoneSnapshot {
                zone_id: z.zone_id_string(),
                name: z.name_string(),
                endpoints: z.endpoint_snapshots(),
                is_streaming: z.is_streaming(),
                volume: z.master_volume(),
            };
            v.push(snap);
            i += 1;
        }
        v
    }
}

} // verus!
