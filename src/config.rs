//! The configuration: the constant image shared by all three roles (addresses, the mark,
//! payload sizes) with its build-time guards, the per-host file settings, and their
//! merge into a role's runtime configuration.
use vstd::prelude::*;
use crate::frame::{IPV4_HDR_LEN, TCP_HDR_LEN};
use crate::ring::{is_pow2, is_power_of_two, ring_byte_size, ring_capacity};

verus! {

/// Hardware addresses of the three roles.
#[derive(Clone, Copy, Debug, PartialEq, Eq)]
pub struct MacAddresses {
    pub logger: [u8; 6],
    pub hardworker: [u8; 6],
    pub sensor: [u8; 6],
}

/// IPv4 addresses of the three roles, as host-order 32-bit values.
#[derive(Clone, Copy, Debug, PartialEq, Eq)]
pub struct IpAddresses {
    pub logger: u32,
    pub hardworker: u32,
    pub sensor: u32,
}

/// The mark that selects in-band traffic: an IPv4 TOS pattern and a TCP port.
#[derive(Clone, Copy, Debug, PartialEq, Eq)]
pub struct MarkConfig {
    pub tos: u8,
    pub port: u16,
}

/// Payload sizes: the largest L2 payload and the snapshot length.
#[derive(Clone, Copy, Debug, PartialEq, Eq)]
pub struct DataConfig {
    pub mtu: usize,
    pub size: usize,
}

/// The constant image that every role is built with.
#[derive(Clone, Copy, Debug, PartialEq, Eq)]
pub struct ConstConfig {
    pub mac: MacAddresses,
    pub ip: IpAddresses,
    pub mark: MarkConfig,
    pub data: DataConfig,
}

/// The TOS pattern leaves the reserved low bit clear and does not start with the
/// precedence classes `000` or `001`.
pub open spec fn tos_mark_ok(tos: u8) -> bool {
    &&& tos % 2 == 0
    &&& tos / 32 != 0
    &&& tos / 32 != 1
}

/// Why a constant image is refused.
#[derive(Clone, Copy, Debug, PartialEq, Eq)]
pub enum ConstError {
    /// The reserved low bit of the TOS mark is set.
    TosLowBit,
    /// The TOS mark's three high bits are `000` or `001`.
    TosPrecedence,
    /// The snapshot length is zero.
    ZeroSize,
    /// The snapshot plus an IPv4 and a TCP header exceed the MTU.
    SizeOverMtu,
    /// The ring's byte capacity for this snapshot length is not a power of two.
    RingNotPowerOfTwo,
}

/// What `ConstConfig::validate` returns for an image.
pub open spec fn const_check(c: ConstConfig) -> Result<(), ConstError> {
    if c.mark.tos % 2 != 0 {
        Err(ConstError::TosLowBit)
    } else if c.mark.tos / 32 == 0 || c.mark.tos / 32 == 1 {
        Err(ConstError::TosPrecedence)
    } else if c.data.size == 0 {
        Err(ConstError::ZeroSize)
    } else if c.data.size + IPV4_HDR_LEN + TCP_HDR_LEN > c.data.mtu {
        Err(ConstError::SizeOverMtu)
    } else if !is_pow2(ring_capacity(c.data.size as int)) {
        Err(ConstError::RingNotPowerOfTwo)
    } else {
        Ok(())
    }
}

impl MarkConfig {
    /// Whether the TOS pattern is a usable mark.
    pub fn is_valid(&self) -> (r: bool)
        ensures
            r == tos_mark_ok(self.tos),
    {
        self.tos % 2 == 0 && self.tos / 32 != 0 && self.tos / 32 != 1
    }
}

impl ConstConfig {
    /// The guards that the image must pass before a classifier is built from it.
    pub fn validate(&self) -> (r: Result<(), ConstError>)
        ensures
            r == const_check(*self),
            r is Ok ==> tos_mark_ok(self.mark.tos),
    {
        if self.mark.tos % 2 != 0 {
            Err(ConstError::TosLowBit)
        } else if self.mark.tos / 32 == 0 || self.mark.tos / 32 == 1 {
            Err(ConstError::TosPrecedence)
        } else if self.data.size == 0 {
            Err(ConstError::ZeroSize)
        } else if self.data.size > self.data.mtu || self.data.mtu - self.data.size < IPV4_HDR_LEN
            + TCP_HDR_LEN {
            Err(ConstError::SizeOverMtu)
        } else if !is_power_of_two(ring_byte_size(self.data.size)) {
            Err(ConstError::RingNotPowerOfTwo)
        } else {
            Ok(())
        }
    }
}

/// The `[tcp]` table of a host's configuration file; every entry is optional.
#[derive(Clone, Debug, PartialEq, Eq)]
pub struct FileTcpConfig {
    /// Interface name; when absent, the interface of the best route to the target.
    pub ifname: Option<String>,
    /// Target IPv4 address, host order.
    pub ip: Option<u32>,
    pub port: Option<u16>,
    pub tos: Option<u8>,
    /// Payload size.
    pub size: Option<usize>,
}

/// A host's configuration file.
#[derive(Clone, Debug, PartialEq, Eq)]
pub struct FileConfig {
    /// Overall run time in seconds.
    pub timeout: Option<u64>,
    pub tcp: Option<FileTcpConfig>,
}

/// One IPv4 route of the host: addresses and mask in host order.
#[derive(Clone, Debug, PartialEq, Eq)]
pub struct RouteEntry {
    pub iface: String,
    pub destination: u32,
    pub mask: u32,
    pub metrics: u32,
}

/// The hardworker daemon's configuration.
#[derive(Clone, Debug, PartialEq, Eq)]
pub struct Config {
    pub ifname: String,
    /// Snapshot length the consumer expects.
    pub size: usize,
    /// Overall run time in seconds.
    pub timeout: Option<u64>,
}

/// The logger daemon's configuration.
#[derive(Clone, Debug, PartialEq, Eq)]
pub struct TcpConfig {
    pub ifname: String,
    pub logger_ip: u32,
    pub port: u16,
    pub tos: u8,
    pub size: usize,
}

/// Why a configuration cannot be formed.
#[derive(Clone, Copy, Debug, PartialEq, Eq)]
pub enum ConfigError {
    /// The file has no `[tcp]` table.
    MissingTcp,
    /// No interface is named and no route leads to the target.
    NoRoute,
}

/// Number of one bits.
pub open spec fn popcount(x: u32) -> nat
    decreases x,
{
    if x == 0 {
        0
    } else {
        (x % 2) as nat + popcount(x / 2)
    }
}

/// Counts the one bits of `x`.
pub fn count_ones(x: u32) -> (r: u32)
    ensures
        r == popcount(x),
{
    proof {
        lemma_popcount_at_most_32(x);
    }
    let mut rest: u32 = x;
    let mut count: u32 = 0;
    while rest != 0
        invariant
            count + popcount(rest) == popcount(x),
            popcount(x) <= 32,
        decreases rest,
    {
        count = count + rest % 2;
        rest = rest / 2;
    }
    count
}

/// A 32-bit number has at most 32 one bits.
proof fn lemma_popcount_at_most_32(x: u32)
    ensures
        popcount(x) <= 32,
{
    reveal_with_fuel(pow2, 33);
    lemma_popcount_bound(x, 32);
}

/// A number below `2^bits` has at most `bits` one bits.
proof fn lemma_popcount_bound(x: u32, bits: nat)
    requires
        (x as int) < pow2(bits),
    ensures
        popcount(x) <= bits,
    decreases x,
{
    if x != 0 {
        assert(bits > 0);
        assert(((x / 2) as int) < pow2((bits - 1) as nat));
        lemma_popcount_bound(x / 2, (bits - 1) as nat);
    }
}

/// 2 to the power `n`.
pub open spec fn pow2(n: nat) -> int
    decreases n,
{
    if n == 0 {
        1
    } else {
        2 * pow2((n - 1) as nat)
    }
}

/// The route's network holds `ip`.
pub open spec fn route_matches(r: RouteEntry, ip: u32) -> bool {
    ip & r.mask == r.destination & r.mask
}

/// Route `a` is preferred to route `b`: a longer prefix, or the same prefix and a
/// lower metric.
pub open spec fn route_outranks(a: RouteEntry, b: RouteEntry) -> bool {
    popcount(a.mask) > popcount(b.mask) || (popcount(a.mask) == popcount(b.mask) && a.metrics
        < b.metrics)
}

/// Route `i` is the best match for `ip`: it matches, no matching route outranks it,
/// and it outranks every matching route after it (of equally good routes, the last).
pub open spec fn best_route(routes: Seq<RouteEntry>, ip: u32, i: int) -> bool {
    &&& 0 <= i < routes.len()
    &&& route_matches(routes[i], ip)
    &&& forall|k: int|
        0 <= k < i && route_matches(#[trigger] routes[k], ip) ==> !route_outranks(routes[k], routes[i])
    &&& forall|k: int|
        i < k < routes.len() && route_matches(#[trigger] routes[k], ip) ==> route_outranks(
            routes[i],
            routes[k],
        )
}

/// Picks the route to `ip`: the longest matching prefix, then the lowest metric, then
/// the last listed. `None` when no route matches.
pub fn select_route(routes: &Vec<RouteEntry>, ip: u32) -> (r: Option<usize>)
    ensures
        r matches Some(i) ==> best_route(routes@, ip, i as int),
        r is None <==> forall|k: int| 0 <= k < routes@.len() ==> !route_matches(#[trigger] routes@[k], ip),
{
    let mut best: Option<usize> = None;
    let mut j: usize = 0;
    while j < routes.len()
        invariant
            j <= routes@.len(),
            best matches Some(i) ==> {
                &&& i < j
                &&& route_matches(routes@[i as int], ip)
                &&& forall|k: int|
                    0 <= k < i && route_matches(#[trigger] routes@[k], ip) ==> !route_outranks(
                        routes@[k],
                        routes@[i as int],
                    )
                &&& forall|k: int|
                    i < k < j && route_matches(#[trigger] routes@[k], ip) ==> route_outranks(
                        routes@[i as int],
                        routes@[k],
                    )
            },
            best is None ==> forall|k: int| 0 <= k < j ==> !route_matches(#[trigger] routes@[k], ip),
        decreases routes@.len() - j,
    {
        let route = &routes[j];
        if ip & route.mask == route.destination & route.mask {
            let replace = match best {
                None => true,
                Some(i) => {
                    let held = &routes[i];
                    let held_bits = count_ones(held.mask);
                    let new_bits = count_ones(route.mask);
                    !(held_bits > new_bits || (held_bits == new_bits && held.metrics
                        < route.metrics))
                },
            };
            if replace {
                best = Some(j);
            }
        }
        j = j + 1;
    }
    best
}

/// The target address of a `[tcp]` table, or `default`.
pub open spec fn target_ip(tcp: FileTcpConfig, default: u32) -> u32 {
    match tcp.ip {
        Some(a) => a,
        None => default,
    }
}

/// The interface a daemon attaches to: the named one, else that of the best route to
/// `ip`; `None` when neither exists.
pub open spec fn resolved_ifname(named: Option<String>, routes: Seq<RouteEntry>, ip: u32) -> Option<
    Seq<char>,
> {
    match named {
        Some(n) => Some(n@),
        None => match select_route_spec(routes, ip) {
            Some(i) => Some(routes[i].iface@),
            None => None,
        },
    }
}

impl Config {
    /// Merges the file settings over the constant image: target address and size
    /// default to the image's hardworker address and snapshot length; without a named
    /// interface, the interface of the best route to the target is taken.
    pub fn merge(file: FileConfig, consts: &ConstConfig, routes: &Vec<RouteEntry>) -> (r: Result<
        Config,
        ConfigError,
    >)
        ensures
            match file.tcp {
                None => r == Err::<Config, ConfigError>(ConfigError::MissingTcp),
                Some(tcp) => match resolved_ifname(
                    tcp.ifname,
                    routes@,
                    target_ip(tcp, consts.ip.hardworker),
                ) {
                    None => r == Err::<Config, ConfigError>(ConfigError::NoRoute),
                    Some(name) => (r matches Ok(c) && c.ifname@ == name && c.size == match tcp.size {
                        Some(s) => s,
                        None => consts.data.size,
                    } && c.timeout == file.timeout),
                },
            },
    {
        let tcp = match file.tcp {
            None => {
                return Err(ConfigError::MissingTcp);
            },
            Some(tcp) => tcp,
        };
        let ip: u32 = match tcp.ip {
            Some(a) => a,
            None => consts.ip.hardworker,
        };
        let size: usize = match tcp.size {
            Some(s) => s,
            None => consts.data.size,
        };
        let ifname = match resolve_ifname(tcp.ifname, routes, ip) {
            Ok(name) => name,
            Err(e) => {
                return Err(e);
            },
        };
        Ok(Config { ifname, size, timeout: file.timeout })
    }
}

impl TcpConfig {
    /// Merges the file settings over the constant image: address, port, TOS and size
    /// default to the image's logger address, mark port, mark TOS and MTU; without a
    /// named interface, the interface of the best route to the address is taken.
    pub fn merge(file: FileConfig, consts: &ConstConfig, routes: &Vec<RouteEntry>) -> (r: Result<
        TcpConfig,
        ConfigError,
    >)
        ensures
            match file.tcp {
                None => r == Err::<TcpConfig, ConfigError>(ConfigError::MissingTcp),
                Some(tcp) => match resolved_ifname(
                    tcp.ifname,
                    routes@,
                    target_ip(tcp, consts.ip.logger),
                ) {
                    None => r == Err::<TcpConfig, ConfigError>(ConfigError::NoRoute),
                    Some(name) => (r matches Ok(c) && c.ifname@ == name && c.logger_ip
                        == target_ip(tcp, consts.ip.logger) && c.port == match tcp.port {
                        Some(p) => p,
                        None => consts.mark.port,
                    } && c.tos == match tcp.tos {
                        Some(t) => t,
                        None => consts.mark.tos,
                    } && c.size == match tcp.size {
                        Some(s) => s,
                        None => consts.data.mtu,
                    }),
                },
            },
    {
        let tcp = match file.tcp {
            None => {
                return Err(ConfigError::MissingTcp);
            },
            Some(tcp) => tcp,
        };
        let logger_ip: u32 = match tcp.ip {
            Some(a) => a,
            None => consts.ip.logger,
        };
        let port: u16 = match tcp.port {
            Some(p) => p,
            None => consts.mark.port,
        };
        let tos: u8 = match tcp.tos {
            Some(t) => t,
            None => consts.mark.tos,
        };
        let size: usize = match tcp.size {
            Some(s) => s,
            None => consts.data.mtu,
        };
        let ifname = match resolve_ifname(tcp.ifname, routes, logger_ip) {
            Ok(name) => name,
            Err(e) => {
                return Err(e);
            },
        };
        Ok(TcpConfig { ifname, logger_ip, port, tos, size })
    }
}

impl FileConfig {
    /// Whether merging needs the host's routes: no interface is named.
    pub fn needs_routes(&self) -> (r: bool)
        ensures
            r == (self.tcp matches Some(tcp) && tcp.ifname is None),
    {
        match &self.tcp {
            Some(tcp) => tcp.ifname.is_none(),
            None => false,
        }
    }
}

/// The index of the best route to `ip`, as `select_route` returns it.
pub open spec fn select_route_spec(routes: Seq<RouteEntry>, ip: u32) -> Option<int> {
    if exists|i: int| best_route(routes, ip, i) {
        Some(choose|i: int| best_route(routes, ip, i))
    } else {
        None
    }
}

/// At most one route is the best one.
pub proof fn lemma_best_route_unique(routes: Seq<RouteEntry>, ip: u32, i: int, j: int)
    requires
        best_route(routes, ip, i),
        best_route(routes, ip, j),
    ensures
        i == j,
{
    if i < j {
        assert(route_outranks(routes[i], routes[j]));
        assert(!route_outranks(routes[i], routes[j]));
    } else if j < i {
        assert(route_outranks(routes[j], routes[i]));
        assert(!route_outranks(routes[j], routes[i]));
    }
}

/// The named interface, or else the interface of the best route to `ip`.
fn resolve_ifname(named: Option<String>, routes: &Vec<RouteEntry>, ip: u32) -> (r: Result<
    String,
    ConfigError,
>)
    ensures
        match resolved_ifname(named, routes@, ip) {
            Some(name) => (r matches Ok(s) && s@ == name),
            None => r == Err::<String, ConfigError>(ConfigError::NoRoute),
        },
{
    match named {
        Some(n) => Ok(n),
        None => match select_route(routes, ip) {
            Some(i) => {
                proof {
                    let c = choose|c: int| best_route(routes@, ip, c);
                    lemma_best_route_unique(routes@, ip, i as int, c);
                }
                Ok(routes[i].iface.clone())
            },
            None => {
                proof {
                    if exists|c: int| best_route(routes@, ip, c) {
                        let c = choose|c: int| best_route(routes@, ip, c);
                        assert(route_matches(routes@[c], ip));
                    }
                }
                Err(ConfigError::NoRoute)
            },
        },
    }
}

} // verus!
