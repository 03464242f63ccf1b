//! Plain-data model of the connection manager's observable state: IP
//! addresses, per-IP-version settings blocks, connections, and the set of
//! connections the manager holds.
//!
//! The live manager owns opaque handles; this module holds, as plain values,
//! exactly what the reconciliation logic reads and writes of them, so that
//! the logic can be verified. Code that talks to the live manager converts
//! between these values and the manager's own objects.

use vstd::prelude::*;

verus! {

/// An IP address, v4 or v6, held as its numeric components.
#[derive(Clone, Copy, Debug, PartialEq, Eq, Structural)]
pub enum IpAddress {
    V4(u8, u8, u8, u8),
    V6(u16, u16, u16, u16, u16, u16, u16, u16),
}

/// The address family of an [`IpAddress`]; stands for the `AF_INET` /
/// `AF_INET6` family constants of the live manager's address objects.
#[derive(Clone, Copy, Debug, PartialEq, Eq, Structural)]
pub enum AddressFamily {
    V4,
    V6,
}

impl IpAddress {
    /// The family an address belongs to.
    pub open spec fn spec_family(self) -> AddressFamily {
        match self {
            IpAddress::V4(_, _, _, _) => AddressFamily::V4,
            IpAddress::V6(_, _, _, _, _, _, _, _) => AddressFamily::V6,
        }
    }

    /// Returns the family of the address.
    pub fn family(&self) -> (f: AddressFamily)
        ensures
            f == self.spec_family(),
    {
        match self {
            IpAddress::V4(_, _, _, _) => AddressFamily::V4,
            IpAddress::V6(_, _, _, _, _, _, _, _) => AddressFamily::V6,
        }
    }
}

/// A configuration method tag of a per-version settings block. The v4 and the
/// v6 constants are distinct values: writing a v4 tag into a v6 block (or the
/// other way round) is a bug this crate's contracts rule out.
#[derive(Clone, Copy, Debug, PartialEq, Eq, Structural)]
pub enum IpMethod {
    AutoV4,
    ManualV4,
    AutoV6,
    ManualV6,
}

/// Mathematical view of an [`IpSettings`] block.
#[verifier::ext_equal]
pub ghost struct SettingsView {
    pub method: Option<IpMethod>,
    pub addresses: Seq<(IpAddress, u32)>,
    pub gateway: Option<IpAddress>,
    pub dns: Seq<IpAddress>,
}

/// One IP version's settings block within a connection: method tag, address
/// entries (address and prefix length), optional gateway, and DNS entries.
#[derive(Debug)]
pub struct IpSettings {
    method: Option<IpMethod>,
    addresses: Vec<(IpAddress, u32)>,
    gateway: Option<IpAddress>,
    dns: Vec<IpAddress>,
}

impl View for IpSettings {
    type V = SettingsView;

    closed spec fn view(&self) -> SettingsView {
        SettingsView {
            method: self.method,
            addresses: self.addresses@,
            gateway: self.gateway,
            dns: self.dns@,
        }
    }
}

impl IpSettings {
    /// A fresh settings block: no method, no addresses, no gateway, no DNS.
    pub fn new() -> (s: Self)
        ensures
            s@ == (SettingsView {
                method: None,
                addresses: Seq::<(IpAddress, u32)>::empty(),
                gateway: None,
                dns: Seq::<IpAddress>::empty(),
            }),
    {
        let s = IpSettings { method: None, addresses: Vec::new(), gateway: None, dns: Vec::new() };
        proof {
            assert(s@.addresses =~= Seq::<(IpAddress, u32)>::empty());
            assert(s@.dns =~= Seq::<IpAddress>::empty());
        }
        s
    }

    /// The method tag, if one is set.
    pub fn method(&self) -> (m: Option<IpMethod>)
        ensures
            m == self@.method,
    {
        self.method
    }

    /// Sets the method tag.
    pub fn set_method(&mut self, m: Option<IpMethod>)
        ensures
            final(self)@ == (SettingsView { method: m, ..old(self)@ }),
    {
        self.method = m;
    }

    /// Removes every address entry.
    pub fn clear_addresses(&mut self)
        ensures
            final(self)@ == (SettingsView {
                addresses: Seq::<(IpAddress, u32)>::empty(),
                ..old(self)@
            }),
    {
        self.addresses.clear();
        proof {
            assert(self@.addresses =~= Seq::<(IpAddress, u32)>::empty());
        }
    }

    /// Appends one address entry.
    pub fn add_address(&mut self, address: IpAddress, prefix: u32)
        ensures
            final(self)@ == (SettingsView {
                addresses: old(self)@.addresses.push((address, prefix)),
                ..old(self)@
            }),
    {
        self.addresses.push((address, prefix));
    }

    /// The address entry at `i`, if there is one.
    pub fn address(&self, i: usize) -> (r: Option<(IpAddress, u32)>)
        ensures
            r == (if i < self@.addresses.len() {
                Some(self@.addresses[i as int])
            } else {
                None::<(IpAddress, u32)>
            }),
    {
        if i < self.addresses.len() {
            Some(self.addresses[i])
        } else {
            None
        }
    }

    /// The gateway, if one is set.
    pub fn gateway(&self) -> (g: Option<IpAddress>)
        ensures
            g == self@.gateway,
    {
        self.gateway
    }

    /// Sets or clears the gateway.
    pub fn set_gateway(&mut self, g: Option<IpAddress>)
        ensures
            final(self)@ == (SettingsView { gateway: g, ..old(self)@ }),
    {
        self.gateway = g;
    }

    /// Removes every DNS entry.
    pub fn clear_dns(&mut self)
        ensures
            final(self)@ == (SettingsView { dns: Seq::<IpAddress>::empty(), ..old(self)@ }),
    {
        self.dns.clear();
        proof {
            assert(self@.dns =~= Seq::<IpAddress>::empty());
        }
    }

    /// Appends one DNS entry.
    pub fn add_dns(&mut self, server: IpAddress)
        ensures
            final(self)@ == (SettingsView { dns: old(self)@.dns.push(server), ..old(self)@ }),
    {
        self.dns.push(server);
    }

    /// The DNS entry at `i`, if there is one.
    pub fn dns(&self, i: usize) -> (r: Option<IpAddress>)
        ensures
            r == (if i < self@.dns.len() {
                Some(self@.dns[i as int])
            } else {
                None::<IpAddress>
            }),
    {
        if i < self.dns.len() {
            Some(self.dns[i])
        } else {
            None
        }
    }
}

/// Mathematical view of a [`Connection`].
#[verifier::ext_equal]
pub ghost struct ConnectionView {
    pub id: Seq<char>,
    pub wired: bool,
    pub autoconnect: bool,
    pub interface_name: Option<Seq<char>>,
    pub ipv4: Option<SettingsView>,
    pub ipv6: Option<SettingsView>,
}

/// A connection as the manager exposes it: an identifier, the connection-level
/// settings the registry writes (wired type, autoconnect, bound device), and
/// at most one settings block per IP version.
#[derive(Debug)]
pub struct Connection {
    /// The connection's identifier (a logical interface name).
    pub id: String,
    /// Whether the connection is of the wired (Ethernet) type.
    pub wired: bool,
    /// Whether the connection activates automatically.
    pub autoconnect: bool,
    /// The device identifier the connection is bound to, if any.
    pub interface_name: Option<String>,
    /// The v4 settings block, if the connection carries one.
    pub ipv4: Option<IpSettings>,
    /// The v6 settings block, if the connection carries one.
    pub ipv6: Option<IpSettings>,
}

impl View for Connection {
    type V = ConnectionView;

    open spec fn view(&self) -> ConnectionView {
        ConnectionView {
            id: self.id@,
            wired: self.wired,
            autoconnect: self.autoconnect,
            interface_name: match self.interface_name {
                Some(s) => Some(s@),
                None => None,
            },
            ipv4: match self.ipv4 {
                Some(s) => Some(s@),
                None => None,
            },
            ipv6: match self.ipv6 {
                Some(s) => Some(s@),
                None => None,
            },
        }
    }
}

/// Holds when some connection in `s` carries the identifier `id`.
pub open spec fn store_has(s: Seq<ConnectionView>, id: Seq<char>) -> bool {
    exists|i: int| 0 <= i < s.len() && (#[trigger] s[i]).id == id
}

/// Holds when `i` is the first position in `s` whose connection carries `id`.
pub open spec fn first_match(s: Seq<ConnectionView>, id: Seq<char>, i: int) -> bool {
    &&& 0 <= i < s.len()
    &&& s[i].id == id
    &&& forall|k: int| 0 <= k < i ==> (#[trigger] s[k]).id != id
}

/// The set of connections the manager holds, modelled as the sequence of the
/// connections in the order they were created.
#[derive(Debug)]
pub struct ConnectionStore {
    pub(crate) connections: Vec<Connection>,
}

impl View for ConnectionStore {
    type V = Seq<ConnectionView>;

    closed spec fn view(&self) -> Seq<ConnectionView> {
        self.connections@.map_values(|c: Connection| c@)
    }
}

impl ConnectionStore {
    /// A store holding no connection.
    pub fn new() -> (s: Self)
        ensures
            s@ == Seq::<ConnectionView>::empty(),
    {
        let s = ConnectionStore { connections: Vec::new() };
        proof {
            assert(s@ =~= Seq::<ConnectionView>::empty());
        }
        s
    }

    /// The number of connections held.
    pub fn len(&self) -> (n: usize)
        ensures
            n == self@.len(),
    {
        self.connections.len()
    }

    /// The connection at position `i`.
    pub fn get(&self, i: usize) -> (c: &Connection)
        requires
            i < self@.len(),
        ensures
            c@ == self@[i as int],
    {
        &self.connections[i]
    }

    /// Looks a connection up by identifier; returns the position of the first
    /// connection carrying `id`, or `None` when no connection does.
    pub fn connection_by_id(&self, id: &str) -> (r: Option<usize>)
        ensures
            match r {
                Some(i) => first_match(self@, id@, i as int),
                None => !store_has(self@, id@),
            },
    {
        let n = self.connections.len();
        let mut i: usize = 0;
        while i < n
            invariant
                n == self@.len(),
                i <= n,
                forall|k: int| 0 <= k < i ==> (#[trigger] self@[k]).id != id@,
            decreases n - i,
        {
            if crate::names::str_eq(self.connections[i].id.as_str(), id) {
                return Some(i);
            }
            i += 1;
        }
        None
    }

    /// Appends a connection to the store.
    pub fn add_connection(&mut self, c: Connection)
        ensures
            final(self)@ == old(self)@.push(c@),
    {
        self.connections.push(c);
        proof {
            assert(self@ =~= old(self)@.push(c@));
        }
    }

    /// A mutable borrow of the connection at position `i`.
    pub(crate) fn get_mut(&mut self, i: usize) -> (c: &mut Connection)
        requires
            i < old(self)@.len(),
        ensures
            *c == old(self).connections[i as int],
            (*c)@ == old(self)@[i as int],
            final(self)@ == old(self)@.update(i as int, (*final(c))@),
    {
        &mut self.connections[i]
    }
}

} // verus!
