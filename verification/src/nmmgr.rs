//! The interface registry: a mapping from logical interface names to physical
//! device identifiers, discovery of the default mapping, and resolution of a
//! logical name to a connection, creating a minimal wired connection bound to
//! the mapped device when none exists yet.

use vstd::prelude::*;
use vstd::relations::sorted_by;
use crate::model::{Connection, ConnectionStore, ConnectionView, first_match, store_has};
use crate::names::{
    eth_name, eth_name_string, lemma_eth_name_injective, lemma_lex_total_ordering, lex_leq,
    sort_strings, str_eq, views,
};
use crate::ConfigError;

verus! {

/// The character-sequence pairs of a mapping's entries.
pub open spec fn pairs_view(s: Seq<(String, String)>) -> Seq<(Seq<char>, Seq<char>)> {
    s.map_values(|p: (String, String)| (p.0@, p.1@))
}

/// Holds when no two entries of a mapping share a key.
pub open spec fn unique_keys(m: Seq<(Seq<char>, Seq<char>)>) -> bool {
    forall|i: int, j: int| 0 <= i < j < m.len() ==> (#[trigger] m[i]).0 != (#[trigger] m[j]).0
}

/// Holds when `k` is a key of the mapping.
pub open spec fn has_key(m: Seq<(Seq<char>, Seq<char>)>, k: Seq<char>) -> bool {
    exists|i: int| 0 <= i < m.len() && (#[trigger] m[i]).0 == k
}

/// The device identifier the mapping assigns to the key `k`.
pub open spec fn map_value(m: Seq<(Seq<char>, Seq<char>)>, k: Seq<char>) -> Seq<char> {
    let i = choose|i: int| 0 <= i < m.len() && (#[trigger] m[i]).0 == k;
    m[i].1
}

/// Mathematical view of a [`MapNMManger`]: the mapping's entries and the
/// names created this session, in order.
#[verifier::ext_equal]
pub ghost struct RegistryView {
    pub map: Seq<(Seq<char>, Seq<char>)>,
    pub created: Seq<Seq<char>>,
}

/// The connection object the registry submits for creation: wired type,
/// identifier `name`, autoconnect on, bound to `device` where one is given,
/// and no per-version settings blocks yet.
pub open spec fn new_wired_conn(name: Seq<char>, device: Option<Seq<char>>) -> ConnectionView {
    ConnectionView {
        id: name,
        wired: true,
        autoconnect: true,
        interface_name: device,
        ipv4: None,
        ipv6: None,
    }
}

/// What resolving `name` does to the registry and the store, and what it
/// returns: an unmapped name fails and changes nothing; a name whose
/// connection exists returns that connection's identifier and changes
/// nothing; otherwise exactly one new connection is created and recorded.
pub open spec fn resolve_spec(
    reg: RegistryView,
    store: Seq<ConnectionView>,
    name: Seq<char>,
) -> (RegistryView, Seq<ConnectionView>, Result<Seq<char>, ConfigError>) {
    if !has_key(reg.map, name) {
        (reg, store, Err(ConfigError::UnmappedInterface))
    } else if store_has(store, name) {
        (reg, store, Ok(name))
    } else {
        (
            RegistryView { map: reg.map, created: reg.created.push(name) },
            store.push(new_wired_conn(name, Some(map_value(reg.map, name)))),
            Ok(name),
        )
    }
}

/// Holds when `m` is the default mapping over `devices`: one entry per
/// device, keys `eth0, eth1, ...` in order, and the values exactly the
/// device identifiers in lexicographically ascending order.
pub open spec fn is_default_mapping(
    m: Seq<(Seq<char>, Seq<char>)>,
    devices: Seq<Seq<char>>,
) -> bool {
    &&& m.len() == devices.len()
    &&& forall|i: int| 0 <= i < m.len() ==> (#[trigger] m[i]).0 == eth_name(i as nat)
    &&& sorted_by(m.map_values(|p: (Seq<char>, Seq<char>)| p.1), lex_leq())
    &&& m.map_values(|p: (Seq<char>, Seq<char>)| p.1).to_multiset() == devices.to_multiset()
}

/// The identifiers of the Ethernet-class entries of an enumerated device
/// list (each entry an identifier with its Ethernet flag), in enumeration
/// order.
pub open spec fn ether_names(s: Seq<(String, bool)>) -> Seq<Seq<char>>
    decreases s.len(),
{
    if s.len() == 0 {
        Seq::<Seq<char>>::empty()
    } else if s.last().1 {
        ether_names(s.drop_last()).push(s.last().0@)
    } else {
        ether_names(s.drop_last())
    }
}

/// The registry: a read-only mapping from logical interface names to device
/// identifiers, and the names whose connections this registry instance has
/// created since its construction.
pub struct MapNMManger {
    map: Vec<(String, String)>,
    created_ifaces: Vec<String>,
}

impl View for MapNMManger {
    type V = RegistryView;

    closed spec fn view(&self) -> RegistryView {
        RegistryView {
            map: pairs_view(self.map@),
            created: self.created_ifaces@.map_values(|s: String| s@),
        }
    }
}

impl MapNMManger {
    /// The registry's invariant: the mapping's keys are distinct.
    pub open spec fn wf(self) -> bool {
        unique_keys(self@.map)
    }

    /// Builds a registry over an explicitly supplied mapping.
    pub fn new(map: Vec<(String, String)>) -> (r: Self)
        requires
            unique_keys(pairs_view(map@)),
        ensures
            r.wf(),
            r@.map == pairs_view(map@),
            r@.created == Seq::<Seq<char>>::empty(),
    {
        let r = MapNMManger { map, created_ifaces: Vec::new() };
        proof {
            assert(r@.created =~= Seq::<Seq<char>>::empty());
        }
        r
    }

    /// Builds the default mapping over the given Ethernet-class device
    /// identifiers: the identifiers are sorted lexicographically and assigned
    /// to `eth0, eth1, ...` in sorted order. The order is deterministic for a
    /// fixed device set, but indices shift when devices come or go.
    pub fn get_deafult_mapping(devices: Vec<String>) -> (m: Vec<(String, String)>)
        ensures
            is_default_mapping(pairs_view(m@), views(devices@)),
            unique_keys(pairs_view(m@)),
    {
        let sorted = sort_strings(devices);
        let mut m: Vec<(String, String)> = Vec::new();
        let n = sorted.len();
        let mut i: usize = 0;
        while i < n
            invariant
                n == sorted@.len(),
                i <= n,
                m@.len() == i,
                forall|k: int| 0 <= k < i ==> (#[trigger] pairs_view(m@)[k]).0 == eth_name(
                    k as nat,
                ),
                forall|k: int| 0 <= k < i ==> (#[trigger] pairs_view(m@)[k]).1 == views(
                    sorted@,
                )[k],
            decreases n - i,
        {
            let ghost m0 = m@;
            let key = eth_name_string(i as u64);
            let value = sorted[i].clone();
            m.push((key, value));
            proof {
                assert(pairs_view(m@) =~= pairs_view(m0).push((key@, value@)));
                assert(views(sorted@)[i as int] == sorted@[i as int]@);
            }
            i += 1;
        }
        proof {
            broadcast use vstd::seq_lib::group_to_multiset_ensures;

            let mv = pairs_view(m@).map_values(|p: (Seq<char>, Seq<char>)| p.1);
            assert(mv =~= views(sorted@));
            assert(views(sorted@).to_multiset().len() == views(devices@).to_multiset().len());
            assert forall|p: int, q: int|
                0 <= p < q < pairs_view(m@).len() implies (#[trigger] pairs_view(m@)[p]).0 != (
            #[trigger] pairs_view(m@)[q]).0 by {
                lemma_eth_name_injective(p as nat, q as nat);
            }
        }
        m
    }

    /// Picks the Ethernet-class devices out of an enumerated device list and
    /// returns their identifiers, lexicographically sorted.
    pub fn get_ether_devices(interfaces: Vec<(String, bool)>) -> (devices: Vec<String>)
        ensures
            sorted_by(views(devices@), lex_leq()),
            views(devices@).to_multiset() == ether_names(interfaces@).to_multiset(),
    {
        let mut names: Vec<String> = Vec::new();
        let n = interfaces.len();
        let mut i: usize = 0;
        proof {
            assert(interfaces@.subrange(0, 0) =~= Seq::<(String, bool)>::empty());
            assert(views(names@) =~= ether_names(interfaces@.subrange(0, 0)));
        }
        while i < n
            invariant
                n == interfaces@.len(),
                i <= n,
                views(names@) == ether_names(interfaces@.subrange(0, i as int)),
            decreases n - i,
        {
            let ghost names0 = names@;
            let entry = &interfaces[i];
            if entry.1 {
                names.push(entry.0.clone());
            }
            proof {
                let prefix = interfaces@.subrange(0, i + 1);
                assert(prefix.drop_last() =~= interfaces@.subrange(0, i as int));
                assert(prefix.last() == interfaces@[i as int]);
                if interfaces@[i as int].1 {
                    assert(views(names@) =~= views(names0).push(interfaces@[i as int].0@));
                }
            }
            i += 1;
        }
        proof {
            assert(interfaces@.subrange(0, n as int) =~= interfaces@);
        }
        sort_strings(names)
    }

    /// Tells whether this registry instance itself created a connection for
    /// `name` in this session. The record is a session-local cache, never
    /// authoritative: the manager's own lookup decides what exists.
    pub fn is_created(&mut self, name: &str) -> (r: bool)
        ensures
            *final(self) == *old(self),
            r == old(self)@.created.contains(name@),
    {
        let n = self.created_ifaces.len();
        let mut i: usize = 0;
        while i < n
            invariant
                n == self@.created.len(),
                i <= n,
                forall|k: int| 0 <= k < i ==> self@.created[k] != name@,
            decreases n - i,
        {
            if str_eq(self.created_ifaces[i].as_str(), name) {
                proof {
                    assert(self@.created[i as int] == name@);
                }
                return true;
            }
            i += 1;
        }
        proof {
            assert forall|k: int| 0 <= k < self@.created.len() implies self@.created[k]
                != name@ by {}
        }
        false
    }

    /// Probes the mapping for `name`; the lookup's result is discarded and
    /// nothing is changed or returned.
    pub fn get_connection(&self, name: &str) {
        let _ = self.contains_key(name);
    }

    /// Whether `name` is a key of the mapping.
    fn contains_key(&self, name: &str) -> (r: bool)
        ensures
            r == has_key(self@.map, name@),
    {
        let n = self.map.len();
        let mut i: usize = 0;
        while i < n
            invariant
                n == self@.map.len(),
                i <= n,
                forall|k: int| 0 <= k < i ==> (#[trigger] self@.map[k]).0 != name@,
            decreases n - i,
        {
            if str_eq(self.map[i].0.as_str(), name) {
                proof {
                    assert(self@.map[i as int].0 == name@);
                }
                return true;
            }
            i += 1;
        }
        false
    }

    /// The device identifier mapped to `name`, if `name` is a key.
    fn lookup_device(&self, name: &str) -> (r: Option<String>)
        requires
            self.wf(),
        ensures
            match r {
                Some(d) => has_key(self@.map, name@) && d@ == map_value(self@.map, name@),
                None => !has_key(self@.map, name@),
            },
    {
        let n = self.map.len();
        let mut i: usize = 0;
        while i < n
            invariant
                self.wf(),
                n == self@.map.len(),
                i <= n,
                forall|k: int| 0 <= k < i ==> (#[trigger] self@.map[k]).0 != name@,
            decreases n - i,
        {
            if str_eq(self.map[i].0.as_str(), name) {
                let d = self.map[i].1.clone();
                proof {
                    assert(self@.map[i as int].0 == name@);
                    let j = choose|j: int|
                        0 <= j < self@.map.len() && (#[trigger] self@.map[j]).0 == name@;
                    assert(self@.map[j].0 == name@);
                    if j < i as int {
                        assert(self@.map[j].0 != self@.map[i as int].0);
                    } else if (i as int) < j {
                        assert(self@.map[i as int].0 != self@.map[j].0);
                    }
                    assert(j == i as int);
                }
                return Some(d);
            }
            i += 1;
        }
        None
    }

    /// Builds a new wired connection object: type wired, identifier
    /// `conn_name`, autoconnect on, bound to `device_name` where one is given
    /// (an unbound connection lets the manager select a device by type).
    pub fn create_connection(conn_name: &str, device_name: Option<&str>) -> (c: Connection)
        ensures
            c@ == new_wired_conn(
                conn_name@,
                match device_name {
                    Some(d) => Some(d@),
                    None => None::<Seq<char>>,
                },
            ),
    {
        let interface_name = match device_name {
            Some(d) => Some(d.to_owned()),
            None => None,
        };
        Connection {
            id: conn_name.to_owned(),
            wired: true,
            autoconnect: true,
            interface_name,
            ipv4: None,
            ipv6: None,
        }
    }

    /// Resolves `name` to a connection of the store: fails for a name outside
    /// the mapping; returns the existing connection where one carries the
    /// identifier; and otherwise creates a minimal wired connection bound to
    /// the mapped device, records the name as created this session, and
    /// returns the connection found by looking the identifier up again.
    pub fn connection_by_name(&mut self, store: &mut ConnectionStore, name: &str) -> (r: Result<
        usize,
        ConfigError,
    >)
        requires
            old(self).wf(),
        ensures
            final(self).wf(),
            ({
                let (reg, st, res) = resolve_spec(old(self)@, old(store)@, name@);
                &&& final(self)@ == reg
                &&& final(store)@ == st
                &&& match r {
                    Ok(i) => res == Ok::<Seq<char>, ConfigError>(name@) && first_match(
                        final(store)@,
                        name@,
                        i as int,
                    ),
                    Err(e) => res == Err::<Seq<char>, ConfigError>(e),
                }
            }),
    {
        if !self.contains_key(name) {
            return Err(ConfigError::UnmappedInterface);
        }
        match store.connection_by_id(name) {
            Some(i) => Ok(i),
            None => {
                let ghost store0 = store@;
                let device = match self.lookup_device(name) {
                    Some(d) => d,
                    None => {
                        return Err(ConfigError::UnmappedInterface);
                    },
                };
                let conn = Self::create_connection(name, Some(device.as_str()));
                store.add_connection(conn);
                self.created_ifaces.push(name.to_owned());
                proof {
                    assert(self@.created =~= old(self)@.created.push(name@));
                    assert(store@[store0.len() as int].id == name@);
                }
                match store.connection_by_id(name) {
                    Some(i) => Ok(i),
                    None => Err(ConfigError::ConnectionCreationFailed),
                }
            },
        }
    }
}

/// Discovery determinism: any two default mappings over the same device set
/// are identical — the mapping is a function of the device set alone, so
/// discovery is reproducible as long as the device set is unchanged.
pub proof fn lemma_default_mapping_deterministic(
    m1: Seq<(Seq<char>, Seq<char>)>,
    m2: Seq<(Seq<char>, Seq<char>)>,
    devices: Seq<Seq<char>>,
)
    requires
        is_default_mapping(m1, devices),
        is_default_mapping(m2, devices),
    ensures
        m1 == m2,
{
    lemma_lex_total_ordering();
    let v1 = m1.map_values(|p: (Seq<char>, Seq<char>)| p.1);
    let v2 = m2.map_values(|p: (Seq<char>, Seq<char>)| p.1);
    vstd::seq_lib::lemma_sorted_unique(v1, v2, lex_leq());
    assert(v1 =~= v2);
    assert forall|i: int| 0 <= i < m1.len() implies m1[i] == m2[i] by {
        assert(m1[i].1 == v1[i]);
        assert(m2[i].1 == v2[i]);
    }
    assert(m1 =~= m2);
}

/// Resolving a name twice, when no connection for it exists at first, issues
/// exactly one creation — the store grows by one connection on the first
/// call and stays unchanged on the second — and both calls return the same
/// handle identifier.
pub proof fn lemma_resolve_creates_once(
    reg: RegistryView,
    store: Seq<ConnectionView>,
    name: Seq<char>,
)
    requires
        has_key(reg.map, name),
        !store_has(store, name),
    ensures
        ({
            let (reg1, store1, r1) = resolve_spec(reg, store, name);
            let (reg2, store2, r2) = resolve_spec(reg1, store1, name);
            &&& store1.len() == store.len() + 1
            &&& store2 == store1
            &&& reg2 == reg1
            &&& r1 == Ok::<Seq<char>, ConfigError>(name)
            &&& r2 == r1
        }),
{
    let (reg1, store1, r1) = resolve_spec(reg, store, name);
    assert(store1[store.len() as int].id == name);
    assert(store_has(store1, name));
}

/// Resolving a name outside the mapping fails with the unmapped-interface
/// error and issues no creation: the store and the registry are unchanged.
pub proof fn lemma_resolve_unmapped(reg: RegistryView, store: Seq<ConnectionView>, name: Seq<char>)
    requires
        !has_key(reg.map, name),
    ensures
        resolve_spec(reg, store, name) == (
            reg,
            store,
            Err::<Seq<char>, ConfigError>(ConfigError::UnmappedInterface),
        ),
{
}

} // verus!
