//! Client discovery: handshake packets, choosing a connectable address, merging
//! discovered clients, and the order in which client addresses are tried.

use vstd::prelude::*;

verus! {

/// An IP address: IPv4 as its 32 bits, IPv6 as its 128 bits (network order).
#[derive(Clone, Copy, Debug, PartialEq, Eq, Structural)]
pub enum IpAddress {
    V4(u32),
    V6(u128),
}

/// `0.0.0.0`, `127.0.0.0/8`, `255.255.255.255` are not connectable.
pub open spec fn v4_connectable(x: u32) -> bool {
    x != 0 && (x >> 24u32) != 127 && x != 0xFFFF_FFFF
}

/// Whether an IPv6 address is link-local unicast (`fe80::/10`).
pub open spec fn v6_link_local(x: u128) -> bool {
    ((x >> 112u32) & 0xffc0) == 0xfe80
}

/// `::`, `::1`, `fe80::/10` (no scope id from discovery) and `ff00::/8` are not connectable.
pub open spec fn v6_connectable(x: u128) -> bool {
    x != 0 && x != 1 && !v6_link_local(x) && (x >> 120u32) != 0xff
}

/// The IPv4 address `a.b.c.d` as its 32 bits.
pub open spec fn v4_of_octets(a: u8, b: u8, c: u8, d: u8) -> u32 {
    (a as int * 0x100_0000 + b as int * 0x1_0000 + c as int * 0x100 + d as int) as u32
}

/// An IPv4 address `a.b.c.d` is connectable exactly when it is not `0.0.0.0`,
/// not in `127.0.0.0/8` and not `255.255.255.255`: every other address,
/// private LAN ones such as `10.0.0.2` or `192.168.1.5` included, is.
pub proof fn lemma_v4_connectable_octets(a: u8, b: u8, c: u8, d: u8)
    ensures
        v4_connectable(v4_of_octets(a, b, c, d)) == (!(a == 0 && b == 0 && c == 0 && d == 0) && a
            != 127 && !(a == 255 && b == 255 && c == 255 && d == 255)),
{
    let x = v4_of_octets(a, b, c, d);
    assert(x == ((a as u32) << 24u32) | ((b as u32) << 16u32) | ((c as u32) << 8u32) | (d as u32))
        by (bit_vector)
        requires
            x == (a as int * 0x100_0000 + b as int * 0x1_0000 + c as int * 0x100 + d as int) as u32,
    ;
    assert(v4_connectable(x) == (!(a == 0 && b == 0 && c == 0 && d == 0) && a != 127 && !(a == 255
        && b == 255 && c == 255 && d == 255))) by (bit_vector)
        requires
            x == ((a as u32) << 24u32) | ((b as u32) << 16u32) | ((c as u32) << 8u32) | (d as u32),
    ;
}

pub fn is_unicast_link_local_v6(x: u128) -> (b: bool)
    ensures
        b == v6_link_local(x),
{
    ((x >> 112u32) & 0xffc0) == 0xfe80
}

fn v4_ok(x: u32) -> (b: bool)
    ensures
        b == v4_connectable(x),
{
    x != 0 && (x >> 24u32) != 127 && x != 0xFFFF_FFFF
}

fn v6_ok(x: u128) -> (b: bool)
    ensures
        b == v6_connectable(x),
{
    x != 0 && x != 1 && !is_unicast_link_local_v6(x) && (x >> 120u32) != 0xff
}

pub open spec fn connectable_v4(a: IpAddress) -> bool {
    a matches IpAddress::V4(x) && v4_connectable(x)
}

pub open spec fn connectable_v6(a: IpAddress) -> bool {
    a matches IpAddress::V6(x) && v6_connectable(x)
}

/// The first connectable IPv4 address, else the first connectable IPv6 address.
pub open spec fn picked_address(addrs: Seq<IpAddress>, r: Option<IpAddress>) -> bool {
    match r {
        Some(a) => exists|i: int|
            0 <= i < addrs.len() && a == addrs[i] && {
                ||| connectable_v4(addrs[i]) && forall|j: int|
                    0 <= j < i ==> !connectable_v4(#[trigger] addrs[j])
                ||| (forall|j: int| 0 <= j < addrs.len() ==> !connectable_v4(#[trigger] addrs[j]))
                    && connectable_v6(addrs[i]) && forall|j: int|
                    0 <= j < i ==> !connectable_v6(#[trigger] addrs[j])
            },
        None => forall|j: int|
            0 <= j < addrs.len() ==> !connectable_v4(#[trigger] addrs[j]) && !connectable_v6(
                addrs[j],
            ),
    }
}

/// Prefers a global IPv4, then a global IPv6 address.
pub fn pick_connectable_address(addrs: &Vec<IpAddress>) -> (r: Option<IpAddress>)
    ensures
        picked_address(addrs@, r),
{
    let mut best_v4: Option<IpAddress> = None;
    let mut best_v6: Option<IpAddress> = None;
    let mut i: usize = 0;
    let ghost mut i4: int = 0;
    let ghost mut i6: int = 0;
    while i < addrs.len()
        invariant
            i <= addrs@.len(),
            match best_v4 {
                None => forall|j: int| 0 <= j < i ==> !connectable_v4(#[trigger] addrs@[j]),
                Some(a) => 0 <= i4 < i && a == addrs@[i4] && connectable_v4(a) && forall|j: int|
                    0 <= j < i4 ==> !connectable_v4(#[trigger] addrs@[j]),
            },
            match best_v6 {
                None => forall|j: int| 0 <= j < i ==> !connectable_v6(#[trigger] addrs@[j]),
                Some(a) => 0 <= i6 < i && a == addrs@[i6] && connectable_v6(a) && forall|j: int|
                    0 <= j < i6 ==> !connectable_v6(#[trigger] addrs@[j]),
            },
        decreases addrs@.len() - i,
    {
        let addr = addrs[i];
        match addr {
            IpAddress::V4(x) => {
                if v4_ok(x) && best_v4.is_none() {
                    best_v4 = Some(addr);
                    proof {
                        i4 = i as int;
                    }
                }
            },
            IpAddress::V6(x) => {
                if v6_ok(x) && best_v6.is_none() {
                    best_v6 = Some(addr);
                    proof {
                        i6 = i as int;
                    }
                }
            },
        }
        i = i + 1;
    }
    match best_v4 {
        Some(a) => Some(a),
        None => best_v6,
    }
}

/// Known clients by host name, at most one address each.
pub struct Clients {
    entries: Vec<(String, IpAddress)>,
}

/// The map of host names to addresses that a list of entries denotes.
pub open spec fn entries_map(v: Seq<(String, IpAddress)>) -> Map<Seq<char>, IpAddress>
    decreases v.len(),
{
    if v.len() == 0 {
        Map::empty()
    } else {
        entries_map(v.drop_last()).insert(v.last().0@, v.last().1)
    }
}

pub open spec fn distinct_names(v: Seq<(String, IpAddress)>) -> bool {
    forall|i: int, j: int| 0 <= i < j < v.len() ==> (#[trigger] v[i]).0@ != (#[trigger] v[j]).0@
}

proof fn lemma_entries_map_index(v: Seq<(String, IpAddress)>, i: int)
    requires
        distinct_names(v),
        0 <= i < v.len(),
    ensures
        entries_map(v).contains_key(v[i].0@),
        entries_map(v)[v[i].0@] == v[i].1,
    decreases v.len(),
{
    if i < v.len() - 1 {
        let w = v.drop_last();
        assert(w[i] == v[i]);
        assert(distinct_names(w));
        lemma_entries_map_index(w, i);
        assert(v[i].0@ != v.last().0@);
    }
}

proof fn lemma_entries_map_keys(v: Seq<(String, IpAddress)>, k: Seq<char>)
    ensures
        entries_map(v).contains_key(k) <==> exists|i: int| 0 <= i < v.len() && (#[trigger] v[i]).0@ == k,
    decreases v.len(),
{
    if v.len() > 0 {
        let w = v.drop_last();
        lemma_entries_map_keys(w, k);
        if exists|i: int| 0 <= i < w.len() && (#[trigger] w[i]).0@ == k {
            let i = choose|i: int| 0 <= i < w.len() && (#[trigger] w[i]).0@ == k;
            assert(v[i] == w[i]);
        }
        if exists|i: int| 0 <= i < v.len() && (#[trigger] v[i]).0@ == k {
            let i = choose|i: int| 0 <= i < v.len() && (#[trigger] v[i]).0@ == k;
            if i < v.len() - 1 {
                assert(w[i] == v[i]);
            }
        }
    }
}

proof fn lemma_entries_map_update(v: Seq<(String, IpAddress)>, i: int, e: (String, IpAddress))
    requires
        distinct_names(v),
        0 <= i < v.len(),
        e.0@ == v[i].0@,
    ensures
        entries_map(v.update(i, e)) == entries_map(v).insert(e.0@, e.1),
    decreases v.len(),
{
    let u = v.update(i, e);
    if i == v.len() - 1 {
        assert(u.drop_last() =~= v.drop_last());
        let w = v.drop_last();
        assert(entries_map(v).insert(e.0@, e.1) =~= entries_map(w).insert(e.0@, e.1));
    } else {
        let w = v.drop_last();
        assert(distinct_names(w));
        assert(u.drop_last() =~= w.update(i, e));
        lemma_entries_map_update(w, i, e);
        assert(v.last().0@ != e.0@);
        assert(entries_map(u) =~= entries_map(v).insert(e.0@, e.1));
    }
}

/// Whether the addresses of the same host are kept: an IPv4 address is not
/// replaced by an IPv6 one.
pub open spec fn keeps_existing(existing: IpAddress, address: IpAddress) -> bool {
    existing is V4 && address is V6
}

impl Clients {
    pub closed spec fn spec_entries(&self) -> Seq<(String, IpAddress)> {
        self.entries@
    }

    pub open spec fn wf(&self) -> bool {
        distinct_names(self.spec_entries())
    }

    /// The known clients by host name.
    pub open spec fn view(&self) -> Map<Seq<char>, IpAddress> {
        entries_map(self.spec_entries())
    }

    pub fn new() -> (c: Clients)
        ensures
            c.wf(),
            c.view() == Map::<Seq<char>, IpAddress>::empty(),
    {
        Clients { entries: Vec::new() }
    }

    /// The known clients as (host name, address) pairs, each host once.
    pub fn into_entries(self) -> (v: Vec<(String, IpAddress)>)
        requires
            self.wf(),
        ensures
            distinct_names(v@),
            entries_map(v@) == self.view(),
    {
        self.entries
    }

    /// The address known for a host name.
    pub fn get(&self, hostname: &String) -> (r: Option<IpAddress>)
        requires
            self.wf(),
        ensures
            match r {
                Some(a) => self.view().contains_key(hostname@) && self.view()[hostname@] == a,
                None => !self.view().contains_key(hostname@),
            },
    {
        let mut i: usize = 0;
        while i < self.entries.len()
            invariant
                i <= self.entries@.len(),
                distinct_names(self.entries@),
                forall|j: int| 0 <= j < i ==> (#[trigger] self.entries@[j]).0@ != hostname@,
            decreases self.entries@.len() - i,
        {
            if self.entries[i].0 == *hostname {
                proof {
                    lemma_entries_map_index(self.entries@, i as int);
                }
                return Some(self.entries[i].1);
            }
            i = i + 1;
        }
        proof {
            lemma_entries_map_keys(self.entries@, hostname@);
        }
        None
    }

    /// Adds or updates a host's address, keeping the better of two candidates
    /// for the same host name (an IPv4 address wins over an IPv6 one).
    pub fn insert_client_address(&mut self, hostname: String, address: IpAddress)
        requires
            old(self).wf(),
        ensures
            final(self).wf(),
            final(self).view() == if old(self).view().contains_key(hostname@) && keeps_existing(
                old(self).view()[hostname@],
                address,
            ) {
                old(self).view()
            } else {
                old(self).view().insert(hostname@, address)
            },
    {
        let mut i: usize = 0;
        while i < self.entries.len()
            invariant
                i <= self.entries@.len(),
                distinct_names(self.entries@),
                self.entries@ == old(self).entries@,
                forall|j: int| 0 <= j < i ==> (#[trigger] self.entries@[j]).0@ != hostname@,
            decreases self.entries@.len() - i,
        {
            if self.entries[i].0 == hostname {
                proof {
                    lemma_entries_map_index(self.entries@, i as int);
                }
                let existing = self.entries[i].1;
                let keep = match (existing, address) {
                    (IpAddress::V4(_), IpAddress::V6(_)) => true,
                    _ => false,
                };
                if !keep {
                    let ghost old_entries = self.entries@;
                    let e = (hostname, address);
                    proof {
                        lemma_entries_map_update(old_entries, i as int, e);
                    }
                    self.entries.set(i, e);
                    assert(distinct_names(self.entries@)) by {
                        assert forall|a: int, b: int| 0 <= a < b < self.entries@.len() implies (
                        #[trigger] self.entries@[a]).0@ != (#[trigger] self.entries@[b]).0@ by {
                            assert(old_entries[a].0@ != old_entries[b].0@);
                        }
                    }
                }
                return;
            }
            i = i + 1;
        }
        proof {
            lemma_entries_map_keys(self.entries@, hostname@);
        }
        let ghost old_entries = self.entries@;
        let e = (hostname, address);
        self.entries.push(e);
        proof {
            assert(self.entries@.drop_last() =~= old_entries);
            assert(distinct_names(self.entries@)) by {
                assert forall|a: int, b: int| 0 <= a < b < self.entries@.len() implies (
                #[trigger] self.entries@[a]).0@ != (#[trigger] self.entries@[b]).0@ by {
                    if b < old_entries.len() {
                        assert(old_entries[a].0@ != old_entries[b].0@);
                    } else {
                        assert(self.entries@[a] == old_entries[a]);
                    }
                }
            }
        }
    }
}

/// Whatever order the candidates of a host arrive in, an IPv4 candidate, once
/// known, is never replaced by an IPv6 one.
pub proof fn lemma_ipv4_kept(old_map: Map<Seq<char>, IpAddress>, host: Seq<char>, address: IpAddress)
    requires
        old_map.contains_key(host),
        old_map[host] is V4,
    ensures
        ({
            let new_map = if old_map.contains_key(host) && keeps_existing(old_map[host], address) {
                old_map
            } else {
                old_map.insert(host, address)
            };
            new_map[host] is V4
        }),
{
}


/// Size of a discovery handshake packet: the name field, the protocol id, the host name.
pub const HANDSHAKE_PACKET_SIZE_BYTES: usize = 56;

/// What a received discovery packet is.
#[derive(Debug, PartialEq, Eq)]
pub enum DiscoveryPacket {
    /// A current client: its protocol id and its host name's bytes without the
    /// trailing NULs.
    Client { protocol_id: u64, hostname: Vec<u8> },
    /// A client of an old, incompatible generation.
    OldClient,
    /// Anything else.
    Unrelated,
}

/// The little-endian number that bytes denote.
pub open spec fn le_value(b: Seq<u8>) -> nat
    decreases b.len(),
{
    if b.len() == 0 {
        0
    } else {
        b[0] as nat + 256 * le_value(b.drop_first())
    }
}

/// Bytes without their trailing zero bytes.
pub open spec fn trim_trailing_nuls(b: Seq<u8>) -> Seq<u8>
    decreases b.len(),
{
    if b.len() > 0 && b.last() == 0 {
        trim_trailing_nuls(b.drop_last())
    } else {
        b
    }
}

/// The name field of a current client: "ALVR" followed by zeros.
pub open spec fn alvr_name_field(b: Seq<u8>) -> bool {
    &&& b[0] == 0x41 && b[1] == 0x4c && b[2] == 0x56 && b[3] == 0x52
    &&& forall|i: int| 4 <= i < 16 ==> b[i] == 0
}

/// The prefixes that clients of older generations send.
pub open spec fn old_client_prefix(b: Seq<u8>) -> bool {
    ||| b.subrange(0, 16) == seq![0u8, 0, 0, 0, 4, 0, 0, 0, 0, 0, 0, 0, 0x41, 0x4c, 0x56, 0x52]
    ||| b.subrange(0, 5) == seq![1u8, 0x41, 0x4c, 0x56, 0x52]
}

/// The meaning of the packet buffer after receiving `size` bytes.
pub open spec fn packet_kind(b: Seq<u8>, size: usize, r: DiscoveryPacket) -> bool {
    if size == HANDSHAKE_PACKET_SIZE_BYTES && alvr_name_field(b) {
        r matches DiscoveryPacket::Client { protocol_id, hostname }
            && protocol_id == le_value(b.subrange(16, 24)) && hostname@ == trim_trailing_nuls(
            b.subrange(24, 56),
        )
    } else if old_client_prefix(b) {
        r == DiscoveryPacket::OldClient
    } else {
        r == DiscoveryPacket::Unrelated
    }
}

fn le_u64(b: &Vec<u8>, start: usize) -> (v: u64)
    requires
        start + 8 <= b@.len(),
        b@.len() <= usize::MAX,
    ensures
        v == le_value(b@.subrange(start as int, start + 8)),
{
    let mut v: u64 = 0;
    let mut k: usize = 8;
    while k > 0
        invariant
            k <= 8,
            start + 8 <= b@.len() <= usize::MAX,
            v == le_value(b@.subrange(start + k, start + 8)),
            v < pow256((8 - k) as nat),
        decreases k,
    {
        k = k - 1;
        let ghost tail = b@.subrange(start + k + 1, start + 8);
        let ghost cur = b@.subrange(start + k, start + 8);
        proof {
            assert(cur.drop_first() =~= tail);
            assert(cur[0] == b@[start + k]);
            lemma_pow256_step((7 - k) as nat);
            assert(v * 256 + b@[start + k] < pow256((8 - k) as nat)) by (nonlinear_arith)
                requires
                    v < pow256((7 - k) as nat),
                    pow256((8 - k) as nat) == 256 * pow256((7 - k) as nat),
                    b@[start + k] < 256,
            ;
            lemma_pow256_le((8 - k) as nat);
        }
        let byte = b[start + k];
        v = v * 256 + byte as u64;
    }
    v
}

pub open spec fn pow256(n: nat) -> nat
    decreases n,
{
    if n == 0 {
        1
    } else {
        256 * pow256((n - 1) as nat)
    }
}

proof fn lemma_pow256_step(n: nat)
    ensures
        pow256(n + 1) == 256 * pow256(n),
{
}

proof fn lemma_pow256_le(n: nat)
    requires
        n <= 8,
    ensures
        pow256(n) <= pow256(8),
        pow256(8) == 0x1_0000_0000_0000_0000,
    decreases 8 - n,
{
    reveal_with_fuel(pow256, 9);
    if n < 8 {
        lemma_pow256_le(n + 1);
    }
}

/// Classifies a received discovery packet (`buf` is the whole receive buffer,
/// `size` the number of bytes received).
pub fn classify_packet(buf: &Vec<u8>, size: usize) -> (r: DiscoveryPacket)
    requires
        buf@.len() == HANDSHAKE_PACKET_SIZE_BYTES,
    ensures
        packet_kind(buf@, size, r),
{
    let mut name_ok = buf[0] == 0x41 && buf[1] == 0x4c && buf[2] == 0x56 && buf[3] == 0x52;
    let mut i: usize = 4;
    while i < 16
        invariant
            4 <= i <= 16,
            buf@.len() == HANDSHAKE_PACKET_SIZE_BYTES,
            name_ok == (buf@[0] == 0x41 && buf@[1] == 0x4c && buf@[2] == 0x56 && buf@[3] == 0x52
                && forall|j: int| 4 <= j < i ==> buf@[j] == 0),
        decreases 16 - i,
    {
        if buf[i] != 0 {
            name_ok = false;
        }
        i = i + 1;
    }
    if size == HANDSHAKE_PACKET_SIZE_BYTES && name_ok {
        proof {
            lemma_pow256_le(0);
        }
        let protocol_id = le_u64(buf, 16);
        let mut end: usize = 56;
        while end > 24 && buf[end - 1] == 0
            invariant
                24 <= end <= 56,
                buf@.len() == HANDSHAKE_PACKET_SIZE_BYTES,
                trim_trailing_nuls(buf@.subrange(24, 56)) == trim_trailing_nuls(buf@.subrange(24, end as int)),
            decreases end,
        {
            assert(buf@.subrange(24, end as int).drop_last() =~= buf@.subrange(24, end - 1));
            end = end - 1;
        }
        let mut hostname: Vec<u8> = Vec::new();
        let mut k: usize = 24;
        while k < end
            invariant
                24 <= k <= end <= 56,
                buf@.len() == HANDSHAKE_PACKET_SIZE_BYTES,
                hostname@ == buf@.subrange(24, k as int),
            decreases end - k,
        {
            hostname.push(buf[k]);
            k = k + 1;
        }
        proof {
            assert(hostname@ =~= buf@.subrange(24, end as int));
            if end > 24 {
                assert(buf@.subrange(24, end as int).last() == buf@[end - 1]);
            }
        }
        return DiscoveryPacket::Client { protocol_id, hostname };
    }
    let old16 = buf[0] == 0 && buf[1] == 0 && buf[2] == 0 && buf[3] == 0 && buf[4] == 4 && buf[5]
        == 0 && buf[6] == 0 && buf[7] == 0 && buf[8] == 0 && buf[9] == 0 && buf[10] == 0 && buf[11]
        == 0 && buf[12] == 0x41 && buf[13] == 0x4c && buf[14] == 0x56 && buf[15] == 0x52;
    let old5 = buf[0] == 1 && buf[1] == 0x41 && buf[2] == 0x4c && buf[3] == 0x56 && buf[4] == 0x52;
    proof {
        let s16 = seq![0u8, 0, 0, 0, 4, 0, 0, 0, 0, 0, 0, 0, 0x41, 0x4c, 0x56, 0x52];
        let s5 = seq![1u8, 0x41, 0x4c, 0x56, 0x52];
        if old16 {
            assert(buf@.subrange(0, 16) =~= s16);
        }
        if buf@.subrange(0, 16) == s16 {
            assert(buf@.subrange(0, 16)[4] == 4);
        }
        if old5 {
            assert(buf@.subrange(0, 5) =~= s5);
        }
        if buf@.subrange(0, 5) == s5 {
            assert(buf@.subrange(0, 5)[0] == 1);
        }
        assert(old16 <==> buf@.subrange(0, 16) == s16) by {
            if buf@.subrange(0, 16) == s16 {
                assert forall|j: int| 0 <= j < 16 implies buf@[j] == s16[j] by {
                    assert(buf@.subrange(0, 16)[j] == buf@[j]);
                }
            }
        }
        assert(old5 <==> buf@.subrange(0, 5) == s5) by {
            if buf@.subrange(0, 5) == s5 {
                assert forall|j: int| 0 <= j < 5 implies buf@[j] == s5[j] by {
                    assert(buf@.subrange(0, 5)[j] == buf@[j]);
                }
            }
        }
    }
    if old16 || old5 {
        DiscoveryPacket::OldClient
    } else {
        DiscoveryPacket::Unrelated
    }
}


/// An IPv4-mapped IPv6 address (`::ffff:a.b.c.d`) as the IPv4 address; others unchanged.
pub open spec fn unmapped(a: IpAddress) -> IpAddress {
    match a {
        IpAddress::V6(x) => if (x >> 32u32) == 0xffff {
            IpAddress::V4((x % 0x1_0000_0000) as u32)
        } else {
            a
        },
        _ => a,
    }
}

pub open spec fn is_v4(a: IpAddress) -> bool {
    a is V4
}

/// `s` without elements equal to the one before them (`Vec::dedup`).
pub open spec fn dedup_seq(s: Seq<IpAddress>) -> Seq<IpAddress>
    decreases s.len(),
{
    if s.len() <= 1 {
        s
    } else if s.last() == s[s.len() - 2] {
        dedup_seq(s.drop_last())
    } else {
        dedup_seq(s.drop_last()).push(s.last())
    }
}

/// The order in which client addresses are tried: IPv4-mapped addresses as IPv4,
/// IPv4 before IPv6 (otherwise in the given order), repeats next to each other
/// removed.
pub open spec fn connect_order(ips: Seq<IpAddress>) -> Seq<IpAddress> {
    let m = ips.map_values(|a: IpAddress| unmapped(a));
    dedup_seq(m.filter(|a: IpAddress| is_v4(a)) + m.filter(|a: IpAddress| !is_v4(a)))
}

fn unmap(a: IpAddress) -> (r: IpAddress)
    ensures
        r == unmapped(a),
{
    match a {
        IpAddress::V6(x) => if (x >> 32u32) == 0xffff {
            IpAddress::V4((x % 0x1_0000_0000) as u32)
        } else {
            a
        },
        _ => a,
    }
}

fn same_ip(a: IpAddress, b: IpAddress) -> (r: bool)
    ensures
        r == (a == b),
{
    match (a, b) {
        (IpAddress::V4(x), IpAddress::V4(y)) => x == y,
        (IpAddress::V6(x), IpAddress::V6(y)) => x == y,
        _ => false,
    }
}

/// IPv4 addresses come before IPv6 ones.
pub open spec fn v4_first(s: Seq<IpAddress>) -> bool {
    forall|i: int, j: int| 0 <= i < j < s.len() && (#[trigger] s[j]) is V4 ==> (#[trigger] s[i]) is V4
}

proof fn lemma_dedup_subseq(s: Seq<IpAddress>)
    ensures
        forall|i: int| 0 <= i < dedup_seq(s).len() ==> s.contains(#[trigger] dedup_seq(s)[i]),
        v4_first(s) ==> v4_first(dedup_seq(s)),
    decreases s.len(),
{
    if s.len() > 1 {
        let t = s.drop_last();
        lemma_dedup_subseq(t);
        let d = dedup_seq(t);
        assert forall|i: int| 0 <= i < d.len() implies s.contains(#[trigger] d[i]) by {
            let k = choose|k: int| 0 <= k < t.len() && t[k] == d[i];
            assert(s[k] == t[k]);
        }
        if v4_first(s) {
            assert(v4_first(t)) by {
                assert forall|i: int, j: int| 0 <= i < j < t.len() && (#[trigger] t[j]) is V4 implies (#[trigger] t[i]) is V4 by {
                    assert(s[i] == t[i] && s[j] == t[j]);
                }
            }
        }
        if s.last() != s[s.len() - 2] {
            let r = d.push(s.last());
            assert forall|i: int| 0 <= i < r.len() implies s.contains(#[trigger] r[i]) by {
                if i == d.len() {
                    assert(s[s.len() - 1] == s.last());
                }
            }
            if v4_first(s) {
                assert forall|i: int, j: int| 0 <= i < j < r.len() && (#[trigger] r[j]) is V4 implies (#[trigger] r[i]) is V4 by {
                    if j == d.len() {
                        let k = choose|k: int| 0 <= k < t.len() && t[k] == d[i];
                        assert(s[k] == t[k]);
                        assert(s[s.len() - 1] == s.last());
                    }
                }
            }
        }
    }
}

proof fn lemma_dedup_len(s: Seq<IpAddress>)
    ensures
        dedup_seq(s).len() <= s.len(),
        s.len() > 0 ==> dedup_seq(s).len() > 0,
    decreases s.len(),
{
    if s.len() > 1 {
        lemma_dedup_len(s.drop_last());
    }
}

proof fn lemma_split_len(m: Seq<IpAddress>)
    ensures
        m.filter(|a: IpAddress| is_v4(a)).len() + m.filter(|a: IpAddress| !is_v4(a)).len() == m.len(),
    decreases m.len(),
{
    reveal_with_fuel(Seq::filter, 1);
    if m.len() > 0 {
        lemma_split_len(m.drop_last());
    }
}

/// There is an address to try exactly when there was a client address, and
/// never more addresses than were given.
pub proof fn lemma_connect_order_len(ips: Seq<IpAddress>)
    ensures
        connect_order(ips).len() <= ips.len(),
        (connect_order(ips).len() > 0) == (ips.len() > 0),
{
    let m = ips.map_values(|a: IpAddress| unmapped(a));
    let a = m.filter(|a: IpAddress| is_v4(a));
    let b = m.filter(|a: IpAddress| !is_v4(a));
    lemma_split_len(m);
    lemma_dedup_len(a + b);
}

/// Every IPv4 address is tried before any IPv6 address.
pub proof fn lemma_connect_order_v4_first(ips: Seq<IpAddress>)
    ensures
        v4_first(connect_order(ips)),
{
    let m = ips.map_values(|a: IpAddress| unmapped(a));
    let a = m.filter(|a: IpAddress| is_v4(a));
    let b = m.filter(|a: IpAddress| !is_v4(a));
    a.filter_lemma(|a: IpAddress| is_v4(a));
    m.filter_lemma(|a: IpAddress| is_v4(a));
    m.filter_lemma(|a: IpAddress| !is_v4(a));
    let s = a + b;
    assert(v4_first(s)) by {
        assert forall|i: int, j: int| 0 <= i < j < s.len() && (#[trigger] s[j]) is V4 implies (#[trigger] s[i]) is V4 by {
            if j >= a.len() {
                assert(b.contains(s[j])) by {
                    assert(b[j - a.len()] == s[j]);
                }
                assert(!is_v4(s[j]));
            }
            assert(a[i] == s[i]);
            assert(a.contains(a[i]));
        }
    }
    lemma_dedup_subseq(s);
}

/// Orders the client addresses to connect to (see `connect_order`).
pub fn order_client_ips(ips: &Vec<IpAddress>) -> (r: Vec<IpAddress>)
    ensures
        r@ == connect_order(ips@),
{
    let ghost m = ips@.map_values(|a: IpAddress| unmapped(a));
    let mut v4s: Vec<IpAddress> = Vec::new();
    let mut v6s: Vec<IpAddress> = Vec::new();
    let mut i: usize = 0;
    while i < ips.len()
        invariant
            i <= ips@.len(),
            m == ips@.map_values(|a: IpAddress| unmapped(a)),
            v4s@ == m.take(i as int).filter(|a: IpAddress| is_v4(a)),
            v6s@ == m.take(i as int).filter(|a: IpAddress| !is_v4(a)),
        decreases ips@.len() - i,
    {
        let a = unmap(ips[i]);
        proof {
            reveal_with_fuel(Seq::filter, 1);
            assert(m.take(i + 1).drop_last() =~= m.take(i as int));
            assert(m.take(i + 1).last() == a);
        }
        match a {
            IpAddress::V4(_) => v4s.push(a),
            IpAddress::V6(_) => v6s.push(a),
        }
        i = i + 1;
    }
    assert(m.take(ips@.len() as int) =~= m);
    let mut all = v4s;
    let mut k: usize = 0;
    let ghost base = all@;
    while k < v6s.len()
        invariant
            k <= v6s@.len(),
            all@ == base + v6s@.take(k as int),
        decreases v6s@.len() - k,
    {
        all.push(v6s[k]);
        k = k + 1;
        assert(base + v6s@.take(k as int) =~= (base + v6s@.take(k - 1)).push(v6s@[k - 1]));
    }
    assert(v6s@.take(v6s@.len() as int) =~= v6s@);
    let ghost joined = all@;
    let mut out: Vec<IpAddress> = Vec::new();
    let mut j: usize = 0;
    while j < all.len()
        invariant
            j <= all@.len(),
            joined == all@,
            out@ == dedup_seq(joined.take(j as int)),
        decreases all@.len() - j,
    {
        let a = all[j];
        proof {
            assert(joined.take(j + 1).drop_last() =~= joined.take(j as int));
            assert(joined.take(j + 1).last() == a);
        }
        if j == 0 {
            out.push(a);
            assert(out@ =~= dedup_seq(joined.take(1)));
        } else {
            proof {
                assert(joined.take(j + 1)[j - 1] == joined[j - 1]);
            }
            if !same_ip(a, all[j - 1]) {
                out.push(a);
            }
        }
        j = j + 1;
    }
    assert(joined.take(joined.len() as int) =~= joined);
    out
}

/// Why a client with another protocol version is incompatible; none when the
/// versions are equal. A version containing "-dev" is a nightly one.
pub open spec fn incompatibility(client: Seq<char>, server: Seq<char>) -> Option<Seq<char>> {
    if client == server {
        None
    } else {
        let client_dev = crate::text::contains_seq(client, "-dev"@);
        let server_dev = crate::text::contains_seq(server, "-dev"@);
        Some(
            if client_dev && server_dev {
                "Please use matching nightly versions."@
            } else if client_dev {
                "Please use nightly server or stable client."@
            } else if server_dev {
                "Please use stable server or nightly client."@
            } else {
                "Please use matching stable versions."@
            },
        )
    }
}

/// Why a client whose protocol differs from the server's is incompatible.
pub fn incompatibility_reason(client_protocol: &str, server_protocol: &str) -> (r: Option<&'static str>)
    ensures
        match r {
            Some(m) => incompatibility(client_protocol@, server_protocol@) == Some(m@),
            None => incompatibility(client_protocol@, server_protocol@) is None,
        },
{
    let c = crate::text::chars_of(client_protocol);
    let s = crate::text::chars_of(server_protocol);
    if crate::text::chars_eq(&c, &s) {
        return None;
    }
    let dev = crate::text::chars_of("-dev");
    let client_dev = crate::text::contains_chars(&c, &dev);
    let server_dev = crate::text::contains_chars(&s, &dev);
    Some(
        if client_dev && server_dev {
            "Please use matching nightly versions."
        } else if client_dev {
            "Please use nightly server or stable client."
        } else if server_dev {
            "Please use stable server or nightly client."
        } else {
            "Please use matching stable versions."
        },
    )
}

} // verus!
