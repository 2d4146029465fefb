//! Internet addresses and the endpoints that they make with a port.
use crate::ordered::OrderedKey;
use crate::text;
use vstd::prelude::*;

verus! {

/// An Internet address: the number that its octets spell, the first octet being the highest.
#[derive(Debug, Clone, Copy, PartialEq, Eq, PartialOrd, Ord, Hash, Structural)]
pub enum IpAddr {
    V4(u32),
    V6(u128),
}

/// The number that four octets spell, the first being the highest.
pub open spec fn four_octets(octets: Seq<u8>, at: int) -> int {
    octets[at] * 0x100_0000 + octets[at + 1] * 0x1_0000 + octets[at + 2] * 0x100 + octets[at + 3]
}

/// The number that sixteen octets spell, the first being the highest.
pub open spec fn sixteen_octets(octets: Seq<u8>) -> int {
    four_octets(octets, 0) * 0x1_0000_0000_0000_0000_0000_0000 + four_octets(octets, 4)
        * 0x1_0000_0000_0000_0000 + four_octets(octets, 8) * 0x1_0000_0000 + four_octets(octets, 12)
}

fn read_four(a: u8, b: u8, c: u8, d: u8) -> (n: u32)
    ensures
        n == a * 0x100_0000 + b * 0x1_0000 + c * 0x100 + d,
{
    a as u32 * 0x100_0000 + b as u32 * 0x1_0000 + c as u32 * 0x100 + d as u32
}

impl IpAddr {
    /// The address of four octets.
    pub fn from_v4_octets(octets: [u8; 4]) -> (ip: IpAddr)
        ensures
            ip matches IpAddr::V4(n) && n == four_octets(octets@, 0),
    {
        IpAddr::V4(read_four(octets[0], octets[1], octets[2], octets[3]))
    }

    /// The address of sixteen octets.
    pub fn from_v6_octets(octets: [u8; 16]) -> (ip: IpAddr)
        ensures
            ip matches IpAddr::V6(n) && n == sixteen_octets(octets@),
    {
        let a: u128 = read_four(octets[0], octets[1], octets[2], octets[3]) as u128;
        let b: u128 = read_four(octets[4], octets[5], octets[6], octets[7]) as u128;
        let c: u128 = read_four(octets[8], octets[9], octets[10], octets[11]) as u128;
        let d: u128 = read_four(octets[12], octets[13], octets[14], octets[15]) as u128;
        IpAddr::V6(
            a * 0x1_0000_0000_0000_0000_0000_0000 + b * 0x1_0000_0000_0000_0000 + c * 0x1_0000_0000
                + d,
        )
    }

    /// The address as text.
    pub fn text(&self) -> (text: String)
        ensures
            text@ == ip_text(*self),
    {
        match *self {
            IpAddr::V4(n) => v4_to_text(n),
            IpAddr::V6(n) => v6_to_text(n),
        }
    }
}

/// Four decimal octets with dots between them.
pub open spec fn v4_text(n: u32) -> Seq<char> {
    text::decimal(n as nat / 0x100_0000) + "."@ + text::decimal(n as nat / 0x1_0000 % 0x100) + "."@
        + text::decimal(n as nat / 0x100 % 0x100) + "."@ + text::decimal(n as nat % 0x100)
}

/// The eight groups of sixteen bits, the highest first.
pub open spec fn groups(n: u128) -> Seq<u16> {
    seq![
        (n / 0x1_0000_0000_0000_0000_0000_0000_0000 % 0x1_0000) as u16,
        (n / 0x1_0000_0000_0000_0000_0000_0000 % 0x1_0000) as u16,
        (n / 0x1_0000_0000_0000_0000_0000 % 0x1_0000) as u16,
        (n / 0x1_0000_0000_0000_0000 % 0x1_0000) as u16,
        (n / 0x1_0000_0000_0000 % 0x1_0000) as u16,
        (n / 0x1_0000_0000 % 0x1_0000) as u16,
        (n / 0x1_0000 % 0x1_0000) as u16,
        (n % 0x1_0000) as u16,
    ]
}

/// How many groups from a place on are zero without a gap.
pub open spec fn zeros_at(groups: Seq<u16>, at: int) -> nat
    decreases groups.len() - at,
{
    if 0 <= at < groups.len() && groups[at] == 0 {
        1 + zeros_at(groups, at + 1)
    } else {
        0
    }
}

/// Among the first `n` places, the first with the most zeros from it on.
pub open spec fn most_zeros(groups: Seq<u16>, n: nat) -> int
    decreases n,
{
    if n <= 1 {
        0
    } else {
        let best = most_zeros(groups, (n - 1) as nat);
        if zeros_at(groups, n - 1) > zeros_at(groups, best) {
            n - 1
        } else {
            best
        }
    }
}

/// Groups in hexadecimal with colons between them.
pub open spec fn colon_groups(groups: Seq<u16>) -> Seq<char>
    decreases groups.len(),
{
    if groups.len() == 0 {
        ""@
    } else if groups.len() == 1 {
        text::hexadecimal(groups[0] as nat)
    } else {
        colon_groups(groups.drop_last()) + ":"@ + text::hexadecimal(groups.last() as nat)
    }
}

/// The groups with the first of the longest runs of two or more zeros written as `::`. An address
/// that stands for a version 4 one ends in that one's dotted octets.
pub open spec fn v6_text(n: u128) -> Seq<char> {
    let groups = groups(n);
    let start = most_zeros(groups, 8);
    let run = zeros_at(groups, start);
    if n / 0x1_0000_0000 == 0xffff {
        "::ffff:"@ + v4_text((n % 0x1_0000_0000) as u32)
    } else if run > 1 {
        colon_groups(groups.take(start)) + "::"@ + colon_groups(groups.skip(start + run))
    } else {
        colon_groups(groups)
    }
}

pub open spec fn ip_text(ip: IpAddr) -> Seq<char> {
    match ip {
        IpAddr::V4(n) => v4_text(n),
        IpAddr::V6(n) => v6_text(n),
    }
}

fn v4_to_text(n: u32) -> (text: String)
    ensures
        text@ == v4_text(n),
{
    let mut text = text::decimal_text((n / 0x100_0000) as u64);
    text.append(".");
    text.append(text::decimal_text((n / 0x1_0000 % 0x100) as u64).as_str());
    text.append(".");
    text.append(text::decimal_text((n / 0x100 % 0x100) as u64).as_str());
    text.append(".");
    text.append(text::decimal_text((n % 0x100) as u64).as_str());
    text
}

fn count_zeros(groups: &Vec<u16>, at: usize) -> (n: usize)
    requires
        groups@.len() <= 8,
        at <= groups@.len(),
    ensures
        n == zeros_at(groups@, at as int),
        at + n <= groups@.len(),
    decreases groups@.len() - at,
{
    if at < groups.len() && groups[at] == 0 {
        1 + count_zeros(groups, at + 1)
    } else {
        0
    }
}

fn write_groups(groups: &Vec<u16>, from: usize, to: usize) -> (text: String)
    requires
        from <= to <= groups@.len(),
    ensures
        text@ == colon_groups(groups@.subrange(from as int, to as int)),
{
    let mut text = String::new();
    let mut i: usize = from;
    proof {
        assert(text@ =~= ""@) by {
            reveal_strlit("");
        }
        assert(groups@.subrange(from as int, from as int).len() == 0);
    }
    while i < to
        invariant
            from <= i <= to <= groups@.len(),
            text@ == colon_groups(groups@.subrange(from as int, i as int)),
        decreases to - i,
    {
        let ghost shown = groups@.subrange(from as int, i as int);
        let ghost longer = groups@.subrange(from as int, i + 1);
        proof {
            assert(longer.drop_last() =~= shown);
        }
        let digits = text::hexadecimal_text(groups[i] as u64);
        if i == from {
            text = digits;
        } else {
            text.append(":");
            text.append(digits.as_str());
        }
        i += 1;
    }
    text
}

fn v6_to_text(n: u128) -> (text: String)
    ensures
        text@ == v6_text(n),
{
    if n / 0x1_0000_0000 == 0xffff {
        let mut text = "::ffff:".to_owned();
        text.append(v4_to_text((n % 0x1_0000_0000) as u32).as_str());
        return text;
    }
    let mut parts: Vec<u16> = Vec::new();
    parts.push((n / 0x1_0000_0000_0000_0000_0000_0000_0000 % 0x1_0000) as u16);
    parts.push((n / 0x1_0000_0000_0000_0000_0000_0000 % 0x1_0000) as u16);
    parts.push((n / 0x1_0000_0000_0000_0000_0000 % 0x1_0000) as u16);
    parts.push((n / 0x1_0000_0000_0000_0000 % 0x1_0000) as u16);
    parts.push((n / 0x1_0000_0000_0000 % 0x1_0000) as u16);
    parts.push((n / 0x1_0000_0000 % 0x1_0000) as u16);
    parts.push((n / 0x1_0000 % 0x1_0000) as u16);
    parts.push((n % 0x1_0000) as u16);
    assert(parts@ =~= groups(n));
    let mut start: usize = 0;
    let mut run: usize = count_zeros(&parts, 0);
    let mut i: usize = 1;
    while i < 8
        invariant
            1 <= i <= 8,
            parts@.len() == 8,
            start == most_zeros(parts@, i as nat),
            run == zeros_at(parts@, start as int),
            start + run <= 8,
        decreases 8 - i,
    {
        let other: usize = count_zeros(&parts, i);
        if other > run {
            start = i;
            run = other;
        }
        i += 1;
    }
    if run > 1 {
        let mut text = write_groups(&parts, 0, start);
        text.append("::");
        text.append(write_groups(&parts, start + run, 8).as_str());
        proof {
            assert(parts@.subrange(0, start as int) =~= parts@.take(start as int));
            assert(parts@.subrange(start + run, 8) =~= parts@.skip(start + run));
        }
        text
    } else {
        assert(parts@.subrange(0, 8) =~= parts@);
        write_groups(&parts, 0, 8)
    }
}

/// An address with a port. A version 6 endpoint has flow information and a scope besides, which tell
/// endpoints of one address and port apart; those of a version 4 endpoint are zero.
#[derive(Debug, Clone, Copy, PartialEq, Eq, PartialOrd, Ord, Hash, Structural)]
pub struct SocketAddr {
    pub ip: IpAddr,
    pub port: u16,
    pub flow_info: u32,
    pub scope_id: u32,
}

/// The endpoint of an address and a port, without flow information or scope.
pub open spec fn endpoint(ip: IpAddr, port: u16) -> SocketAddr {
    SocketAddr { ip, port, flow_info: 0, scope_id: 0 }
}

/// The scope behind the address, where there is one.
pub open spec fn scope_text(scope_id: u32) -> Seq<char> {
    if scope_id == 0 {
        ""@
    } else {
        "%"@ + text::decimal(scope_id as nat)
    }
}

/// The address and the port with a colon between them; a version 6 address stands in brackets, with
/// its scope where it has one.
pub open spec fn socket_text(address: SocketAddr) -> Seq<char> {
    match address.ip {
        IpAddr::V4(n) => v4_text(n) + ":"@ + text::decimal(address.port as nat),
        IpAddr::V6(n) => "["@ + v6_text(n) + scope_text(address.scope_id) + "]:"@ + text::decimal(
            address.port as nat,
        ),
    }
}

impl SocketAddr {
    /// The endpoint of an address and a port.
    pub fn new(ip: IpAddr, port: u16) -> (address: SocketAddr)
        ensures
            address == endpoint(ip, port),
    {
        SocketAddr { ip, port, flow_info: 0, scope_id: 0 }
    }

    /// The version 6 endpoint of sixteen octets, a port, flow information and a scope.
    pub fn new_v6(octets: [u8; 16], port: u16, flow_info: u32, scope_id: u32) -> (address:
        SocketAddr)
        ensures
            address == (SocketAddr { ip: address.ip, port, flow_info, scope_id }),
            address.ip matches IpAddr::V6(n) && n == sixteen_octets(octets@),
    {
        SocketAddr { ip: IpAddr::from_v6_octets(octets), port, flow_info, scope_id }
    }

    /// The endpoint as text.
    pub fn text(&self) -> (text: String)
        ensures
            text@ == socket_text(*self),
    {
        match self.ip {
            IpAddr::V4(n) => {
                let mut text = v4_to_text(n);
                text.append(":");
                text.append(text::decimal_text(self.port as u64).as_str());
                text
            },
            IpAddr::V6(n) => {
                let mut text = "[".to_owned();
                text.append(v6_to_text(n).as_str());
                let ghost before = text@;
                if self.scope_id != 0 {
                    text.append("%");
                    text.append(text::decimal_text(self.scope_id as u64).as_str());
                }
                assert(text@ =~= before + scope_text(self.scope_id)) by {
                    reveal_strlit("");
                }
                text.append("]:");
                text.append(text::decimal_text(self.port as u64).as_str());
                text
            },
        }
    }
}

/// The place of an address among all: version 4 before version 6, then by number.
pub open spec fn ip_rank(ip: IpAddr) -> int {
    match ip {
        IpAddr::V4(n) => n as int,
        IpAddr::V6(n) => 0x1_0000_0000 + n,
    }
}

impl View for SocketAddr {
    type V = SocketAddr;

    open spec fn view(&self) -> SocketAddr {
        *self
    }
}

/// The place of an endpoint among those of one address: by port, flow information and scope.
pub open spec fn endpoint_rank(address: SocketAddr) -> int {
    (address.port * 0x1_0000_0000 + address.flow_info) * 0x1_0000_0000 + address.scope_id
}

/// Endpoints are ordered by address, then by port, flow information and scope.
impl OrderedKey for SocketAddr {
    open spec fn before(a: SocketAddr, b: SocketAddr) -> bool {
        ip_rank(a.ip) < ip_rank(b.ip) || (a.ip == b.ip && endpoint_rank(a) < endpoint_rank(b))
    }

    proof fn lemma_irreflexive(a: SocketAddr) {
    }

    proof fn lemma_transitive(a: SocketAddr, b: SocketAddr, c: SocketAddr) {
    }

    proof fn lemma_total(a: SocketAddr, b: SocketAddr) {
    }

    fn precedes(&self, other: &Self) -> (r: bool) {
        let earlier = self.port < other.port || (self.port == other.port && (self.flow_info
            < other.flow_info || (self.flow_info == other.flow_info && self.scope_id
            < other.scope_id)));
        match (self.ip, other.ip) {
            (IpAddr::V4(m), IpAddr::V4(n)) => m < n || (m == n && earlier),
            (IpAddr::V6(m), IpAddr::V6(n)) => m < n || (m == n && earlier),
            (IpAddr::V4(_), IpAddr::V6(_)) => true,
            (IpAddr::V6(_), IpAddr::V4(_)) => false,
        }
    }
}

/// No endpoint stands before one.
impl OrderedKey for Option<SocketAddr> {
    open spec fn before(a: Option<SocketAddr>, b: Option<SocketAddr>) -> bool {
        match (a, b) {
            (None, Some(_)) => true,
            (Some(x), Some(y)) => SocketAddr::before(x, y),
            _ => false,
        }
    }

    proof fn lemma_irreflexive(a: Option<SocketAddr>) {
        if let Some(x) = a {
            SocketAddr::lemma_irreflexive(x);
        }
    }

    proof fn lemma_transitive(a: Option<SocketAddr>, b: Option<SocketAddr>, c: Option<SocketAddr>) {
        if a is Some && b is Some && c is Some {
            SocketAddr::lemma_transitive(a->0, b->0, c->0);
        }
    }

    proof fn lemma_total(a: Option<SocketAddr>, b: Option<SocketAddr>) {
        if a is Some && b is Some {
            SocketAddr::lemma_total(a->0, b->0);
        }
    }

    fn precedes(&self, other: &Self) -> (r: bool) {
        match (self, other) {
            (None, Some(_)) => true,
            (Some(x), Some(y)) => x.precedes(y),
            _ => false,
        }
    }
}

/// An address of version 4 is shown as its four bytes with points between them.
pub proof fn law_bytes_of_an_address_are_shown(a: u8, b: u8, c: u8, d: u8, n: u32, port: u16)
    requires
        n == a * 0x100_0000 + b * 0x1_0000 + c * 0x100 + d,
    ensures
        ip_text(IpAddr::V4(n)) == text::decimal(a as nat) + "."@ + text::decimal(b as nat) + "."@
            + text::decimal(c as nat) + "."@ + text::decimal(d as nat),
        socket_text(endpoint(IpAddr::V4(n), port)) == ip_text(IpAddr::V4(n)) + ":"@ + text::decimal(
            port as nat,
        ),
{
    lemma_four_bytes(a as int, b as int, c as int, d as int, n as int);
}

/// The bytes of a number of four.
pub proof fn lemma_four_bytes(a: int, b: int, c: int, d: int, n: int)
    requires
        0 <= a < 256,
        0 <= b < 256,
        0 <= c < 256,
        0 <= d < 256,
        n == a * 0x100_0000 + b * 0x1_0000 + c * 0x100 + d,
    ensures
        n / 0x100_0000 == a,
        n / 0x1_0000 % 0x100 == b,
        n / 0x100 % 0x100 == c,
        n % 0x100 == d,
{
    assert(n / 0x1_0000 == a * 256 + b);
    assert(n / 0x100 == a * 0x1_0000 + b * 256 + c);
}

/// An address of version 6 stands in brackets before its port, with its scope where it has one.
pub proof fn law_long_addresses_stand_in_brackets(n: u128, port: u16, flow_info: u32, scope_id: u32)
    ensures
        ({
            let address = SocketAddr { ip: IpAddr::V6(n), port, flow_info, scope_id };
            let text = ip_text(IpAddr::V6(n));
            let end = "]:"@ + text::decimal(port as nat);
            &&& scope_id == 0 ==> socket_text(address) == "["@ + text + end
            &&& scope_id != 0 ==> socket_text(address) == "["@ + text + "%"@ + text::decimal(
                scope_id as nat,
            ) + end
        }),
{
    reveal_strlit("");
    let address = SocketAddr { ip: IpAddr::V6(n), port, flow_info, scope_id };
    let text = ip_text(IpAddr::V6(n));
    let end = "]:"@ + text::decimal(port as nat);
    if scope_id == 0 {
        assert(socket_text(address) =~= "["@ + text + end);
    } else {
        assert(socket_text(address) =~= "["@ + text + "%"@ + text::decimal(scope_id as nat) + end);
    }
}

/// An address of version 6 that holds one of version 4 is shown as that one.
pub proof fn law_held_address_is_shown(n: u32)
    ensures
        ip_text(IpAddr::V6((0xffff_0000_0000 + n) as u128)) == "::ffff:"@ + ip_text(IpAddr::V4(n)),
{
}

/// Addresses are ordered with version 4 before version 6, then by number, then by port.
pub proof fn law_addresses_are_ordered(m: u32, n: u32, p: u128, q: u128, a: u16, b: u16)
    ensures
        SocketAddr::before(endpoint(IpAddr::V4(m), a), endpoint(IpAddr::V6(p), b)),
        m < n ==> SocketAddr::before(endpoint(IpAddr::V4(m), a), endpoint(IpAddr::V4(n), b)),
        p < q ==> SocketAddr::before(endpoint(IpAddr::V6(p), a), endpoint(IpAddr::V6(q), b)),
        a < b ==> SocketAddr::before(endpoint(IpAddr::V4(m), a), endpoint(IpAddr::V4(m), b)),
        a < b ==> SocketAddr::before(endpoint(IpAddr::V6(p), a), endpoint(IpAddr::V6(p), b)),
{
}

} // verus!
