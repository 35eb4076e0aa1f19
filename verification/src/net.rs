//! How the network checks are judged: which addresses mean a working connection,
//! and what the connectivity probe sends.
use vstd::prelude::*;

verus! {

broadcast use vstd::string::group_string_axioms;

/// An address of a network adapter, as the operating system lists it.
#[derive(Debug, Clone, Copy, PartialEq, Eq)]
pub enum InterfaceAddr {
    /// An IPv4 address, by its four octets.
    V4([u8; 4]),
    /// An IPv6 address; it is never what makes an adapter count as connected.
    V6,
}

/// An IPv4 address stands for a real local connection: it is not `0.0.0.0`
/// (unspecified), not in `127.0.0.0/8` (loopback), not in `169.254.0.0/16` (link-local,
/// which Windows assigns when DHCP fails) and not `255.255.255.255` (broadcast).
pub open spec fn usable_ipv4(o: Seq<u8>) -> bool {
    &&& !(o[0] == 0 && o[1] == 0 && o[2] == 0 && o[3] == 0)
    &&& o[0] != 127
    &&& !(o[0] == 169 && o[1] == 254)
    &&& !(o[0] == 255 && o[1] == 255 && o[2] == 255 && o[3] == 255)
}

/// Whether the IPv4 address with octets `o` stands for a real local connection.
pub fn is_usable_ipv4(o: [u8; 4]) -> (r: bool)
    ensures
        r == usable_ipv4(o@),
{
    let unspecified = o[0] == 0 && o[1] == 0 && o[2] == 0 && o[3] == 0;
    let loopback = o[0] == 127;
    let link_local = o[0] == 169 && o[1] == 254;
    let broadcast = o[0] == 255 && o[1] == 255 && o[2] == 255 && o[3] == 255;
    !unspecified && !loopback && !link_local && !broadcast
}

/// The address is an IPv4 address that stands for a real local connection.
pub open spec fn usable_addr(a: InterfaceAddr) -> bool {
    match a {
        InterfaceAddr::V4(o) => usable_ipv4(o@),
        InterfaceAddr::V6 => false,
    }
}

/// Some adapter has a usable IPv4 address. Adapter names are not looked at (they are
/// localised), nor IPv6 addresses (a link-local one is nearly always there).
pub open spec fn adapters_connected(adapters: Seq<Seq<InterfaceAddr>>) -> bool {
    exists|i: int, j: int|
        0 <= i < adapters.len() && 0 <= j < adapters[i].len() && usable_addr(
            #[trigger] adapters[i][j],
        )
}

/// The adapters with their addresses, as sequences.
pub open spec fn adapters_view(v: Seq<Vec<InterfaceAddr>>) -> Seq<Seq<InterfaceAddr>> {
    v.map_values(|a: Vec<InterfaceAddr>| a@)
}

fn addr_usable(a: &InterfaceAddr) -> (r: bool)
    ensures
        r == usable_addr(*a),
{
    match a {
        InterfaceAddr::V4(o) => is_usable_ipv4(*o),
        InterfaceAddr::V6 => false,
    }
}

/// Whether the network adapters, listed with their addresses, show a working adapter.
/// `None` (the list could not be read) counts as no working adapter.
pub fn adapter_status(adapters: &Option<Vec<Vec<InterfaceAddr>>>) -> (r: bool)
    ensures
        r == match adapters {
            Some(v) => adapters_connected(adapters_view(v@)),
            None => false,
        },
{
    let v = match adapters {
        Some(v) => v,
        None => return false,
    };
    let ghost av = adapters_view(v@);
    let mut i: usize = 0;
    while i < v.len()
        invariant
            i <= v.len(),
            adapters is Some,
            av == adapters_view(v@),
            av.len() == v.len(),
            adapters->0@ == v@,
            forall|a: int, b: int|
                0 <= a < i && 0 <= b < av[a].len() ==> !usable_addr(#[trigger] av[a][b]),
        decreases v.len() - i,
    {
        let addrs = &v[i];
        assert(av[i as int] == addrs@);
        let mut j: usize = 0;
        while j < addrs.len()
            invariant
                i < v.len(),
                av == adapters_view(v@),
                av.len() == v.len(),
                adapters->0@ == v@,
                adapters is Some,
                forall|a: int, b: int|
                    0 <= a < i && 0 <= b < av[a].len() ==> !usable_addr(#[trigger] av[a][b]),
                j <= addrs.len(),
                av[i as int] == addrs@,
                forall|b: int| 0 <= b < j ==> !usable_addr(#[trigger] av[i as int][b]),
            decreases addrs.len() - j,
        {
            if addr_usable(&addrs[j]) {
                assert(usable_addr(av[i as int][j as int]));
                assert(0 <= i < av.len() && 0 <= j < av[i as int].len());
                assert(adapters_connected(av));
                assert(adapters_connected(adapters_view(adapters->0@)));
                return true;
            }
            j = j + 1;
        }
        i = i + 1;
    }
    false
}

/// The hosts the connectivity probe pings, in order; one answer is enough.
pub open spec fn ping_targets_spec() -> Seq<Seq<char>> {
    seq!["8.8.8.8"@, "1.1.1.1"@, "114.114.114.114"@]
}

/// The hosts the connectivity probe pings, in order.
pub fn ping_targets() -> (r: Vec<String>)
    ensures
        r@.map_values(|s: String| s@) == ping_targets_spec(),
{
    let r = vec![
        String::from_str("8.8.8.8"),
        String::from_str("1.1.1.1"),
        String::from_str("114.114.114.114"),
    ];
    assert(r@.map_values(|s: String| s@) =~= ping_targets_spec());
    r
}

/// The arguments of one ping of `target`: a single echo request with a one-second
/// timeout, written as Windows' `ping` (`-n` count, `-w` milliseconds) or as the
/// Unix one (`-c` count, `-W` seconds) wants it.
pub open spec fn ping_args(target: Seq<char>, windows: bool) -> Seq<Seq<char>> {
    if windows {
        seq!["-n"@, "1"@, "-w"@, "1000"@, target]
    } else {
        seq!["-c"@, "1"@, "-W"@, "1"@, target]
    }
}

/// The arguments of one ping of `target` on Windows (`windows`) or elsewhere.
pub fn ping_arguments(target: &str, windows: bool) -> (r: Vec<String>)
    ensures
        r@.map_values(|s: String| s@) == ping_args(target@, windows),
{
    let r = if windows {
        vec![
            String::from_str("-n"),
            String::from_str("1"),
            String::from_str("-w"),
            String::from_str("1000"),
            String::from_str(target),
        ]
    } else {
        vec![
            String::from_str("-c"),
            String::from_str("1"),
            String::from_str("-W"),
            String::from_str("1"),
            String::from_str(target),
        ]
    };
    assert(r@.map_values(|s: String| s@) =~= ping_args(target@, windows));
    r
}

/// The address `127.0.0.1` never counts as a connection, nor does any `169.254.x.y`.
pub proof fn law_loopback_and_link_local_unusable(b: u8, c: u8, d: u8)
    ensures
        !usable_ipv4(seq![127u8, b, c, d]),
        !usable_ipv4(seq![169u8, 254u8, c, d]),
{
}

/// Exactly four kinds of IPv4 address are not a working connection: `0.0.0.0`, anything
/// in `127.0.0.0/8`, anything in `169.254.0.0/16`, and `255.255.255.255`. Every other
/// address is, the private ranges `10.0.0.0/8`, `172.16.0.0/12` and `192.168.0.0/16`
/// included.
pub proof fn law_usable_ipv4_exactly(a: u8, b: u8, c: u8, d: u8)
    ensures
        usable_ipv4(seq![a, b, c, d]) <==> !(a == 0 && b == 0 && c == 0 && d == 0) && a != 127
            && !(a == 169 && b == 254) && !(a == 255 && b == 255 && c == 255 && d == 255),
        a == 10 ==> usable_ipv4(seq![a, b, c, d]),
        a == 172 && 16 <= b <= 31 ==> usable_ipv4(seq![a, b, c, d]),
        a == 192 && b == 168 ==> usable_ipv4(seq![a, b, c, d]),
        1 <= a <= 126 || 128 <= a <= 168 || 170 <= a <= 254 ==> usable_ipv4(seq![a, b, c, d]),
{
}

/// An adapter list shows a working connection exactly when some adapter has an IPv4
/// address outside the four unusable kinds.
pub proof fn law_connected_iff_some_usable(adapters: Seq<Seq<InterfaceAddr>>)
    ensures
        adapters_connected(adapters) <==> exists|i: int, j: int|
            0 <= i < adapters.len() && 0 <= j < adapters[i].len() && match #[trigger] adapters[i][j] {
                InterfaceAddr::V4(o) => !(o@[0] == 0 && o@[1] == 0 && o@[2] == 0 && o@[3] == 0)
                    && o@[0] != 127 && !(o@[0] == 169 && o@[1] == 254) && !(o@[0] == 255
                    && o@[1] == 255 && o@[2] == 255 && o@[3] == 255),
                InterfaceAddr::V6 => false,
            },
{
}

} // verus!
