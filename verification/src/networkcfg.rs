//! The reconciler: translates between a desired per-IP-version configuration
//! and a connection's live settings blocks, in both directions, and applies a
//! full interface configuration to a connection held by the store.

use vstd::prelude::*;
use vstd::string::StringExecFns;
use crate::model::{
    AddressFamily, Connection, ConnectionStore, ConnectionView, IpAddress, IpMethod, IpSettings,
    SettingsView, first_match,
};
use crate::names::{dec_digits, dec_string, hex_digits, hex_string};
use crate::nmmgr::{MapNMManger, resolve_spec};
use crate::ConfigError;

verus! {

/// One IP version's desired state: a single address with its prefix length,
/// and an optional gateway and DNS server of the same family.
#[derive(Clone, Copy, Debug, PartialEq, Eq)]
pub struct IPConfig {
    /// The address, v4 or v6.
    pub address: IpAddress,
    /// The gateway, if one is desired.
    pub gateway: Option<IpAddress>,
    /// The DNS server, if one is desired.
    pub dns: Option<IpAddress>,
    /// The prefix length, consistent with the address family.
    pub prefix: u32,
}

impl IPConfig {
    /// The invariant of a configuration: gateway and DNS, where present,
    /// share the address's family, and the prefix length fits the family.
    pub open spec fn wf(self) -> bool {
        &&& (self.gateway matches Some(g) ==> g.spec_family() == self.address.spec_family())
        &&& (self.dns matches Some(d) ==> d.spec_family() == self.address.spec_family())
        &&& self.prefix <= max_prefix(self.address.spec_family())
    }
}

/// The largest prefix length of an address family.
pub open spec fn max_prefix(f: AddressFamily) -> u32 {
    if f == AddressFamily::V4 {
        32u32
    } else {
        128u32
    }
}

/// The manual method tag of an address family.
pub open spec fn manual_method(f: AddressFamily) -> IpMethod {
    if f == AddressFamily::V4 {
        IpMethod::ManualV4
    } else {
        IpMethod::ManualV6
    }
}

/// The auto (DHCP) method tag of an IP version.
pub open spec fn auto_method(version: u32) -> IpMethod {
    if version == 4 {
        IpMethod::AutoV4
    } else {
        IpMethod::AutoV6
    }
}

/// The settings block that a manual apply of `cfg` produces: the
/// family-matching manual method, exactly one address entry, the desired
/// gateway or none, and the desired DNS server as the only DNS entry or none.
pub open spec fn manual_settings(cfg: IPConfig) -> SettingsView {
    SettingsView {
        method: Some(manual_method(cfg.address.spec_family())),
        addresses: seq![(cfg.address, cfg.prefix)],
        gateway: cfg.gateway,
        dns: match cfg.dns {
            Some(d) => seq![d],
            None => Seq::<IpAddress>::empty(),
        },
    }
}

/// The settings block that a DHCP reset of an IP version produces: the
/// version's auto method, no addresses, no gateway, no DNS entries.
pub open spec fn dhcp_settings(version: u32) -> SettingsView {
    SettingsView {
        method: Some(auto_method(version)),
        addresses: Seq::<(IpAddress, u32)>::empty(),
        gateway: None,
        dns: Seq::<IpAddress>::empty(),
    }
}

/// The settings block an apply produces: manual settings where a
/// configuration is desired, a DHCP reset where none is. The result does not
/// depend on the settings that were in place before.
pub open spec fn apply_one(desired: Option<IPConfig>, version: u32) -> SettingsView {
    match desired {
        Some(cfg) => manual_settings(cfg),
        None => dhcp_settings(version),
    }
}

/// What reading a settings block yields: a configuration exactly when the
/// method is a manual tag and an address entry exists; the first address
/// entry, the gateway as reported, and the first DNS entry carry over.
pub open spec fn read_of(s: SettingsView) -> Option<IPConfig> {
    if (s.method == Some(IpMethod::ManualV4) || s.method == Some(IpMethod::ManualV6))
        && s.addresses.len() > 0 {
        Some(IPConfig {
            address: s.addresses[0].0,
            prefix: s.addresses[0].1,
            gateway: s.gateway,
            dns: if s.dns.len() > 0 {
                Some(s.dns[0])
            } else {
                None
            },
        })
    } else {
        None
    }
}

/// What reading an optional settings block yields: nothing where the
/// connection carries no block for the version.
pub open spec fn read_slot(slot: Option<SettingsView>) -> Option<IPConfig> {
    match slot {
        Some(s) => read_of(s),
        None => None,
    }
}

impl IPConfig {
    /// Reads a settings block back into a configuration: `None` unless the
    /// block's method is manual, and `None` for a manual block without an
    /// address entry (a half-configured block deliberately reads as "no
    /// static configuration" rather than as an error).
    pub fn from_settings(settings: &IpSettings) -> (r: Option<IPConfig>)
        ensures
            r == read_of(settings@),
    {
        let manual = match settings.method() {
            Some(IpMethod::ManualV4) => true,
            Some(IpMethod::ManualV6) => true,
            _ => false,
        };
        if !manual {
            return None;
        }
        match settings.address(0) {
            Some((address, prefix)) => {
                let gateway = settings.gateway();
                let dns = settings.dns(0);
                Some(IPConfig { address, gateway, dns, prefix })
            },
            None => None,
        }
    }
}

/// A named interface's full desired state: absence of a per-version
/// configuration means DHCP for that version.
#[derive(Debug)]
pub struct NetworkConfig {
    /// The connection name the configuration addresses.
    pub name: String,
    /// The desired v4 configuration, or `None` for DHCP.
    pub ipv4cfg: Option<IPConfig>,
    /// The desired v6 configuration, or `None` for DHCP.
    pub ipv6cfg: Option<IPConfig>,
}

/// The connection that a save of `cfg` leaves behind: both per-version
/// settings blocks exist and match the desired state; everything else about
/// the connection is untouched.
pub open spec fn saved_conn(c: ConnectionView, cfg: &NetworkConfig) -> ConnectionView {
    ConnectionView {
        ipv4: Some(apply_one(cfg.ipv4cfg, 4)),
        ipv6: Some(apply_one(cfg.ipv6cfg, 6)),
        ..c
    }
}

impl NetworkConfig {
    /// The invariant of a full configuration: each per-version part is
    /// well formed and of the version's family.
    pub open spec fn wf(self) -> bool {
        &&& (self.ipv4cfg matches Some(c) ==> c.wf() && c.address.spec_family()
            == AddressFamily::V4)
        &&& (self.ipv6cfg matches Some(c) ==> c.wf() && c.address.spec_family()
            == AddressFamily::V6)
    }

    /// Writes `ipcfg` into a settings block as the manual configuration:
    /// addresses are cleared and replaced with the one desired entry, the DNS
    /// list is cleared and repopulated with the desired server if any, the
    /// gateway is set where desired and left unset otherwise, and the method
    /// becomes the manual tag of the address's family — the tag is chosen by
    /// switching on the family, never by the block the caller hands in.
    pub fn set_manual(nm_ipcfg: &mut IpSettings, ipcfg: &IPConfig)
        ensures
            final(nm_ipcfg)@ == manual_settings(*ipcfg),
    {
        nm_ipcfg.clear_addresses();
        nm_ipcfg.clear_dns();
        match ipcfg.address {
            IpAddress::V4(_, _, _, _) => nm_ipcfg.set_method(Some(IpMethod::ManualV4)),
            IpAddress::V6(_, _, _, _, _, _, _, _) => nm_ipcfg.set_method(
                Some(IpMethod::ManualV6),
            ),
        }
        nm_ipcfg.add_address(ipcfg.address, ipcfg.prefix);
        nm_ipcfg.set_gateway(ipcfg.gateway);
        if let Some(d) = ipcfg.dns {
            nm_ipcfg.add_dns(d);
        }
        proof {
            assert(nm_ipcfg@.addresses =~= seq![(ipcfg.address, ipcfg.prefix)]);
            assert(nm_ipcfg@ =~= manual_settings(*ipcfg));
        }
    }

    /// Resets a settings block to DHCP for the given IP version: addresses,
    /// DNS entries and gateway are cleared, and the method becomes the
    /// version's auto tag, regardless of the block's prior state.
    pub fn set_dhcp(nm_ipcfg: &mut IpSettings, version: u32)
        requires
            version == 4 || version == 6,
        ensures
            final(nm_ipcfg)@ == dhcp_settings(version),
    {
        nm_ipcfg.clear_addresses();
        nm_ipcfg.clear_dns();
        nm_ipcfg.set_gateway(None);
        if version == 4 {
            nm_ipcfg.set_method(Some(IpMethod::AutoV4));
        } else {
            nm_ipcfg.set_method(Some(IpMethod::AutoV6));
        }
        proof {
            assert(nm_ipcfg@ =~= dhcp_settings(version));
        }
    }

    /// Applies a manual configuration to a connection's settings slot: an
    /// existing block is mutated in place, a missing one is created and
    /// attached, so that exactly one block exists afterwards either way.
    pub fn handle_manual(nm_ipcfg: &mut Option<IpSettings>, ipcfg: &IPConfig)
        ensures
            (*final(nm_ipcfg)) matches Some(s) && s@ == manual_settings(*ipcfg),
    {
        match nm_ipcfg {
            Some(s) => Self::set_manual(s, ipcfg),
            None => {
                let mut s = IpSettings::new();
                Self::set_manual(&mut s, ipcfg);
                *nm_ipcfg = Some(s);
            },
        }
    }

    /// Resets a connection's settings slot to DHCP: an existing block is
    /// mutated in place, a missing one is created and attached.
    pub fn handle_dhcp(nm_ipcfg: &mut Option<IpSettings>, version: u32)
        requires
            version == 4 || version == 6,
        ensures
            (*final(nm_ipcfg)) matches Some(s) && s@ == dhcp_settings(version),
    {
        match nm_ipcfg {
            Some(s) => Self::set_dhcp(s, version),
            None => {
                let mut s = IpSettings::new();
                Self::set_dhcp(&mut s, version);
                *nm_ipcfg = Some(s);
            },
        }
    }

    /// Brings a connection's v4 settings in line with the desired v4
    /// configuration; an absent configuration means DHCP.
    pub fn handle_ipv4(&self, connection: &mut Connection)
        ensures
            final(connection)@ == (ConnectionView {
                ipv4: Some(apply_one(self.ipv4cfg, 4)),
                ..old(connection)@
            }),
    {
        match &self.ipv4cfg {
            Some(ipv4cfg) => Self::handle_manual(&mut connection.ipv4, ipv4cfg),
            None => Self::handle_dhcp(&mut connection.ipv4, 4),
        }
    }

    /// Brings a connection's v6 settings in line with the desired v6
    /// configuration; an absent configuration means DHCP.
    pub fn handle_ipv6(&self, connection: &mut Connection)
        ensures
            final(connection)@ == (ConnectionView {
                ipv6: Some(apply_one(self.ipv6cfg, 6)),
                ..old(connection)@
            }),
    {
        match &self.ipv6cfg {
            Some(ipv6cfg) => Self::handle_manual(&mut connection.ipv6, ipv6cfg),
            None => Self::handle_dhcp(&mut connection.ipv6, 6),
        }
    }

    /// Saves the configuration: resolves the configuration's name through the
    /// registry — failing for an unmapped name, creating the connection where
    /// the name is mapped but none exists — and applies both per-version
    /// settings to the resolved connection as one unit. Callers that talk to
    /// the live manager commit the connection's changes once, atomically,
    /// after this returns.
    pub fn save(&self, mgr: &mut MapNMManger, store: &mut ConnectionStore) -> (r: Result<
        (),
        ConfigError,
    >)
        requires
            self.wf(),
            old(mgr).wf(),
        ensures
            final(mgr).wf(),
            ({
                let (reg, st, res) = resolve_spec(old(mgr)@, old(store)@, self.name@);
                &&& final(mgr)@ == reg
                &&& match r {
                    Ok(_) => res == Ok::<Seq<char>, ConfigError>(self.name@) && exists|i: int|
                        #[trigger] first_match(st, self.name@, i) && final(store)@ == st.update(
                            i,
                            saved_conn(st[i], self),
                        ),
                    Err(e) => res == Err::<Seq<char>, ConfigError>(e) && final(store)@ == st,
                }
            }),
    {
        let i = match mgr.connection_by_name(store, self.name.as_str()) {
            Ok(i) => i,
            Err(e) => {
                return Err(e);
            },
        };
        let ghost resolved = store@;
        let connection = store.get_mut(i);
        self.handle_ipv4(connection);
        let connection = store.get_mut(i);
        self.handle_ipv6(connection);
        proof {
            assert(first_match(resolved, self.name@, i as int));
            assert(store@ =~= resolved.update(
                i as int,
                saved_conn(resolved[i as int], self),
            ));
        }
        Ok(())
    }

    /// Assembles the configuration a resolved connection currently holds:
    /// each version's settings block is read back, and an absent block or a
    /// DHCP-configured one yields no per-version configuration.
    pub fn from_connection(name: &str, connection: &Connection) -> (r: Self)
        ensures
            r.name@ == name@,
            r.ipv4cfg == read_slot(connection@.ipv4),
            r.ipv6cfg == read_slot(connection@.ipv6),
    {
        let ipv4cfg = match &connection.ipv4 {
            Some(s) => IPConfig::from_settings(s),
            None => None,
        };
        let ipv6cfg = match &connection.ipv6 {
            Some(s) => IPConfig::from_settings(s),
            None => None,
        };
        NetworkConfig { name: name.to_owned(), ipv4cfg, ipv6cfg }
    }
}

/// The longest run of zero groups, found as the conventional v6 renderer
/// finds it: a single scan from the left whose best run is replaced only by
/// a strictly longer one, so the earliest run of maximal length wins. The
/// accumulators carry the current run (`cs`, `cl`) and the best run seen so
/// far (`bs`, `bl`); the result is the best run's start and length.
pub open spec fn best_span_rec(
    g: Seq<u16>,
    i: int,
    cs: int,
    cl: int,
    bs: int,
    bl: int,
) -> (int, int)
    decreases g.len() - i,
{
    if i < 0 || i >= g.len() {
        (bs, bl)
    } else if g[i] == 0 {
        let ncs = if cl == 0 {
            i
        } else {
            cs
        };
        if cl + 1 > bl {
            best_span_rec(g, i + 1, ncs, cl + 1, ncs, cl + 1)
        } else {
            best_span_rec(g, i + 1, ncs, cl + 1, bs, bl)
        }
    } else {
        best_span_rec(g, i + 1, 0, 0, bs, bl)
    }
}

/// The start and length of the zero run that compresses to `::`.
pub open spec fn best_span(g: Seq<u16>) -> (int, int) {
    best_span_rec(g, 0, 0, 0, 0, 0)
}

/// Lower-case hexadecimal groups joined with colons.
pub open spec fn groups_text(g: Seq<u16>) -> Seq<char>
    decreases g.len(),
{
    if g.len() == 0 {
        Seq::<char>::empty()
    } else if g.len() == 1 {
        hex_digits(g[0] as nat)
    } else {
        groups_text(g.drop_last()) + ":"@ + hex_digits(g.last() as nat)
    }
}

/// Holds when the groups form a v4-mapped address, written `::ffff:a.b.c.d`.
pub open spec fn is_v4_mapped(g: Seq<u16>) -> bool {
    g.len() == 8 && g[0] == 0 && g[1] == 0 && g[2] == 0 && g[3] == 0 && g[4] == 0 && g[5] == 0xffff
}

/// The dotted-decimal tail of the v4-mapped form: the last two groups as
/// four octets.
pub open spec fn mapped_tail_text(g6: u16, g7: u16) -> Seq<char> {
    dec_digits((g6 / 256) as nat) + "."@ + dec_digits((g6 % 256) as nat) + "."@ + dec_digits(
        (g7 / 256) as nat,
    ) + "."@ + dec_digits((g7 % 256) as nat)
}

/// The text of a v6 address, as the conventional renderer writes it: the
/// v4-mapped form where the groups are v4-mapped; otherwise the longest run
/// of two or more zero groups — the earliest on a tie — collapses to `::`,
/// while a lone zero group stands as itself.
pub open spec fn v6_text(g: Seq<u16>) -> Seq<char> {
    if is_v4_mapped(g) {
        "::ffff:"@ + mapped_tail_text(g[6], g[7])
    } else {
        let (bs, bl) = best_span(g);
        if bl > 1 {
            groups_text(g.subrange(0, bs)) + "::"@ + groups_text(
                g.subrange(bs + bl, g.len() as int),
            )
        } else {
            groups_text(g)
        }
    }
}

/// The text of an address: dotted decimal for v4; for v6, the compressed
/// colon-separated form of [`v6_text`].
pub open spec fn ip_text(a: IpAddress) -> Seq<char> {
    match a {
        IpAddress::V4(x0, x1, x2, x3) => dec_digits(x0 as nat) + "."@ + dec_digits(x1 as nat)
            + "."@ + dec_digits(x2 as nat) + "."@ + dec_digits(x3 as nat),
        IpAddress::V6(g0, g1, g2, g3, g4, g5, g6, g7) => v6_text(
            seq![g0, g1, g2, g3, g4, g5, g6, g7],
        ),
    }
}

/// The text of an optional address: empty where there is none.
pub open spec fn opt_ip_text(a: Option<IpAddress>) -> Seq<char> {
    match a {
        Some(x) => ip_text(x),
        None => Seq::<char>::empty(),
    }
}

/// Renders the groups at positions `from..to`, joined with colons.
fn groups_string(groups: &Vec<u16>, from: usize, to: usize) -> (s: String)
    requires
        from <= to <= groups@.len(),
    ensures
        s@ == groups_text(groups@.subrange(from as int, to as int)),
{
    let mut s = String::new();
    let mut i = from;
    proof {
        assert(groups@.subrange(from as int, from as int) =~= Seq::<u16>::empty());
    }
    while i < to
        invariant
            from <= i <= to <= groups@.len(),
            s@ == groups_text(groups@.subrange(from as int, i as int)),
        decreases to - i,
    {
        if i > from {
            s.append(":");
        }
        s.append(hex_string(groups[i] as u64).as_str());
        proof {
            let prev = groups@.subrange(from as int, i as int);
            let cur = groups@.subrange(from as int, i + 1);
            assert(cur.drop_last() =~= prev);
            assert(cur.last() == groups@[i as int]);
            assert(s@ =~= groups_text(cur));
        }
        i += 1;
    }
    s
}

/// Renders an address as text.
pub fn ip_string(a: &IpAddress) -> (s: String)
    ensures
        s@ == ip_text(*a),
{
    match a {
        IpAddress::V4(x0, x1, x2, x3) => {
            let mut s = dec_string(*x0 as u64);
            s.append(".");
            s.append(dec_string(*x1 as u64).as_str());
            s.append(".");
            s.append(dec_string(*x2 as u64).as_str());
            s.append(".");
            s.append(dec_string(*x3 as u64).as_str());
            proof {
                assert(s@ =~= ip_text(*a));
            }
            s
        },
        IpAddress::V6(g0, g1, g2, g3, g4, g5, g6, g7) => {
            let groups: Vec<u16> = vec![*g0, *g1, *g2, *g3, *g4, *g5, *g6, *g7];
            proof {
                assert(groups@ =~= seq![*g0, *g1, *g2, *g3, *g4, *g5, *g6, *g7]);
            }
            if groups[0] == 0 && groups[1] == 0 && groups[2] == 0 && groups[3] == 0 && groups[4]
                == 0 && groups[5] == 0xffff {
                let mut s = String::from_str("::ffff:");
                s.append(dec_string((groups[6] / 256) as u64).as_str());
                s.append(".");
                s.append(dec_string((groups[6] % 256) as u64).as_str());
                s.append(".");
                s.append(dec_string((groups[7] / 256) as u64).as_str());
                s.append(".");
                s.append(dec_string((groups[7] % 256) as u64).as_str());
                proof {
                    assert(s@ =~= ip_text(*a));
                }
                s
            } else {
                let mut bs: usize = 0;
                let mut bl: usize = 0;
                let mut cs: usize = 0;
                let mut cl: usize = 0;
                let mut i: usize = 0;
                while i < 8
                    invariant
                        groups@.len() == 8,
                        i <= 8,
                        cl <= i,
                        bl <= i,
                        bs + bl <= i,
                        cl > 0 ==> cs + cl == i,
                        best_span_rec(
                            groups@,
                            i as int,
                            cs as int,
                            cl as int,
                            bs as int,
                            bl as int,
                        ) == best_span(groups@),
                    decreases 8 - i,
                {
                    let ghost cs0 = cs as int;
                    let ghost cl0 = cl as int;
                    let ghost bs0 = bs as int;
                    let ghost bl0 = bl as int;
                    if groups[i] == 0 {
                        if cl == 0 {
                            cs = i;
                        }
                        cl = cl + 1;
                        if cl > bl {
                            bs = cs;
                            bl = cl;
                        }
                    } else {
                        cs = 0;
                        cl = 0;
                    }
                    proof {
                        assert(best_span_rec(groups@, i as int, cs0, cl0, bs0, bl0)
                            == best_span_rec(
                            groups@,
                            i + 1,
                            cs as int,
                            cl as int,
                            bs as int,
                            bl as int,
                        ));
                    }
                    i += 1;
                }
                proof {
                    assert(best_span(groups@) == (bs as int, bl as int));
                }
                let s = if bl > 1 {
                    let mut s = groups_string(&groups, 0, bs);
                    s.append("::");
                    s.append(groups_string(&groups, bs + bl, 8).as_str());
                    s
                } else {
                    groups_string(&groups, 0, 8)
                };
                proof {
                    assert(groups@.subrange(0, 8) =~= groups@);
                    assert(s@ =~= ip_text(*a));
                }
                s
            }
        },
    }
}

/// The text of a per-version configuration: the address with its prefix, the
/// gateway and the DNS server, each on a line of its own and empty where
/// absent.
pub open spec fn ip_config_text(cfg: IPConfig) -> Seq<char> {
    "address: "@ + ip_text(cfg.address) + "/"@ + dec_digits(cfg.prefix as nat) + "\ngateway: "@
        + opt_ip_text(cfg.gateway) + "\ndns: "@ + opt_ip_text(cfg.dns)
}

/// The text of an optional per-version configuration: empty where there is
/// none.
pub open spec fn opt_config_text(cfg: Option<IPConfig>) -> Seq<char> {
    match cfg {
        Some(c) => ip_config_text(c),
        None => Seq::<char>::empty(),
    }
}

/// The text of a full interface configuration: the name, then each version's
/// configuration between marker lines.
pub open spec fn net_config_text(cfg: &NetworkConfig) -> Seq<char> {
    "\nname: "@ + cfg.name@ + "\n\n===== ipv4 ===== \n"@ + opt_config_text(cfg.ipv4cfg)
        + "\n===== ipv4 =====\n\n===== ipv6 =====\n"@ + opt_config_text(cfg.ipv6cfg)
        + "\n===== ipv6 ====="@
}

impl IPConfig {
    /// Renders the configuration as text: address with prefix, gateway and
    /// DNS, each on a line of its own.
    pub fn to_text(&self) -> (s: String)
        ensures
            s@ == ip_config_text(*self),
    {
        let mut s = String::from_str("address: ");
        s.append(ip_string(&self.address).as_str());
        s.append("/");
        s.append(dec_string(self.prefix as u64).as_str());
        s.append("\ngateway: ");
        if let Some(g) = self.gateway {
            s.append(ip_string(&g).as_str());
        }
        s.append("\ndns: ");
        if let Some(d) = self.dns {
            s.append(ip_string(&d).as_str());
        }
        proof {
            assert(s@ =~= ip_config_text(*self));
        }
        s
    }
}

impl NetworkConfig {
    /// Renders the full configuration as text: the name, then each version's
    /// configuration between marker lines.
    pub fn to_text(&self) -> (s: String)
        ensures
            s@ == net_config_text(self),
    {
        let mut s = String::from_str("\nname: ");
        s.append(self.name.as_str());
        s.append("\n\n===== ipv4 ===== \n");
        if let Some(c) = &self.ipv4cfg {
            s.append(c.to_text().as_str());
        }
        s.append("\n===== ipv4 =====\n\n===== ipv6 =====\n");
        if let Some(c) = &self.ipv6cfg {
            s.append(c.to_text().as_str());
        }
        s.append("\n===== ipv6 =====");
        proof {
            assert(s@ =~= net_config_text(self));
        }
        s
    }

    /// Loads the configuration an interface currently holds: resolves `name`
    /// through the registry — creating the connection where the name is
    /// mapped but no connection exists — and reads both versions' settings
    /// back.
    pub fn load(mgr: &mut MapNMManger, store: &mut ConnectionStore, name: &str) -> (r: Result<
        NetworkConfig,
        ConfigError,
    >)
        requires
            old(mgr).wf(),
        ensures
            final(mgr).wf(),
            ({
                let (reg, st, res) = resolve_spec(old(mgr)@, old(store)@, name@);
                &&& final(mgr)@ == reg
                &&& final(store)@ == st
                &&& match r {
                    Ok(cfg) => res == Ok::<Seq<char>, ConfigError>(name@) && cfg.name@ == name@
                        && exists|i: int|
                        #[trigger] first_match(st, name@, i) && cfg.ipv4cfg == read_slot(
                            st[i].ipv4,
                        ) && cfg.ipv6cfg == read_slot(st[i].ipv6),
                    Err(e) => res == Err::<Seq<char>, ConfigError>(e),
                }
            }),
    {
        let i = match mgr.connection_by_name(store, name) {
            Ok(i) => i,
            Err(e) => {
                return Err(e);
            },
        };
        let connection = store.get(i);
        Ok(NetworkConfig::from_connection(name, connection))
    }
}

/// Round trip: reading back the settings block that a manual apply of any
/// configuration produced reconstructs that configuration exactly — same
/// address, prefix, gateway and DNS.
pub proof fn lemma_round_trip(cfg: IPConfig)
    ensures
        read_of(manual_settings(cfg)) == Some(cfg),
{
}

/// Save-then-read round trip: the connection a save leaves behind reads back
/// as exactly the saved per-version configurations — a manual configuration
/// returns intact, and a DHCP reset reads as no static configuration —
/// whether or not the connection carried settings before.
pub proof fn lemma_save_then_load(c: ConnectionView, cfg: &NetworkConfig)
    ensures
        read_slot(saved_conn(c, cfg).ipv4) == cfg.ipv4cfg,
        read_slot(saved_conn(c, cfg).ipv6) == cfg.ipv6cfg,
{
}

/// Idempotence of the write path: the settings block an apply produces is a
/// function of the desired state alone, so applying the same configuration a
/// second time leaves the block exactly as the first application did, with a
/// single address entry rather than a duplicated one.
pub proof fn lemma_apply_idempotent(
    desired: Option<IPConfig>,
    version: u32,
    once: SettingsView,
    twice: SettingsView,
)
    requires
        once == apply_one(desired, version),
        twice == apply_one(desired, version),
    ensures
        twice == once,
        desired matches Some(_) ==> once.addresses.len() == 1,
{
}

/// DHCP reset: whatever the prior state, resetting a version to DHCP yields
/// an empty address list, an empty DNS list, no gateway, and the
/// version-correct auto method.
pub proof fn lemma_dhcp_reset(version: u32)
    requires
        version == 4 || version == 6,
    ensures
        apply_one(None, version).addresses.len() == 0,
        apply_one(None, version).dns.len() == 0,
        apply_one(None, version).gateway is None,
        version == 4 ==> apply_one(None, version).method == Some(IpMethod::AutoV4),
        version == 6 ==> apply_one(None, version).method == Some(IpMethod::AutoV6),
{
}

/// Family consistency: a manual apply selects the method tag and writes an
/// address entry of the configuration's own family — a v6 configuration
/// never receives the v4 tag, nor the other way round.
pub proof fn lemma_family_consistency(cfg: IPConfig)
    ensures
        cfg.address.spec_family() == AddressFamily::V6 ==> manual_settings(cfg).method == Some(
            IpMethod::ManualV6,
        ),
        cfg.address.spec_family() == AddressFamily::V4 ==> manual_settings(cfg).method == Some(
            IpMethod::ManualV4,
        ),
        manual_settings(cfg).addresses[0].0.spec_family() == cfg.address.spec_family(),
{
}

} // verus!

