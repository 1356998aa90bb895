//! Raw IPv6 sockets that exchange packets through an in-kernel queue, and
//! packet sockets that answer a few interface requests.
use vstd::prelude::*;

use crate::byte_order::{ByteOrder, decode_u32, machine_byte_order, u32_from_bytes};
use crate::error::SysError;

verus! {

pub const IPPROTO_ICMPV6: u32 = 58;
pub const SIOCSIFFLAGS: u32 = 0x8914;
pub const SIOCGIFINDEX: u32 = 0x8933;
/// `S_IFSOCK | 0o777`: the mode that `stat` reports for a socket.
pub const SOCKET_MODE: u32 = 0o140777;
pub const SOCKET_BLKSIZE: u32 = 4096;

/// One packet in the queue: its sequence number, the id of the sending
/// socket, its protocol and its bytes.
pub struct RawIpv6Packet {
    pub seq: usize,
    pub sender: usize,
    pub protocol: u32,
    pub data: Vec<u8>,
}

/// The shared state of raw sockets: the next socket id, the last packet
/// sequence number, and every packet sent.
pub struct RawNet {
    pub next_id: usize,
    pub seq: usize,
    pub packets: Vec<RawIpv6Packet>,
}

pub struct PacketView {
    pub seq: usize,
    pub sender: usize,
    pub protocol: u32,
    pub data: Seq<u8>,
}

pub open spec fn view_packets(ps: Seq<RawIpv6Packet>) -> Seq<PacketView> {
    ps.map_values(|p: RawIpv6Packet| PacketView { seq: p.seq, sender: p.sender, protocol: p.protocol, data: p.data@ })
}

/// A raw IPv6 socket.
pub struct RawIpv6Socket {
    pub id: usize,
    pub protocol: u32,
    /// The sequence number of the last packet received.
    pub recv_seq: usize,
    pub checksum_offset: Option<usize>,
    pub type_filter: Option<[u32; 8]>,
    pub ipv6_options: Vec<(u32, i32)>,
}

/// A packet socket.
pub struct PacketSocket {
    pub id: usize,
}

pub open spec fn wrapping_succ(x: usize) -> usize {
    if x == usize::MAX {
        0
    } else {
        (x + 1) as usize
    }
}

/// The eight words of `f` are the 32 bytes `bytes` read four at a time, all
/// in byte order `o`.
pub open spec fn filter_words(f: [u32; 8], bytes: Seq<u8>, o: ByteOrder) -> bool {
    forall|k: int| 0 <= k < 8 ==> #[trigger] f@[k] == u32_from_bytes(bytes.subrange(4 * k, 4 * k + 4), o)
}

/// Whether a socket with this protocol and ICMPv6 filter takes `packet`:
/// only ICMPv6 sockets with a filter turn packets away, by the filter bit of
/// the packet's first byte (its ICMPv6 type).
pub open spec fn filter_allows(protocol: u32, filter: Option<[u32; 8]>, packet: Seq<u8>) -> bool {
    if protocol != IPPROTO_ICMPV6 || packet.len() == 0 {
        true
    } else {
        match filter {
            None => true,
            Some(f) => {
                let ty = packet[0] as int;
                f@[ty / 32] & (1u32 << ((ty % 32) as u32)) == 0
            },
        }
    }
}

/// `p` is a packet that the socket would receive.
pub open spec fn deliverable(s: &RawIpv6Socket, p: PacketView) -> bool {
    &&& p.seq > s.recv_seq
    &&& p.sender != s.id
    &&& p.protocol == s.protocol
    &&& filter_allows(s.protocol, s.type_filter, p.data)
}

/// The position of the first packet the socket would receive, or -1.
pub open spec fn first_deliverable(s: &RawIpv6Socket, ps: Seq<PacketView>) -> int
    decreases ps.len(),
{
    if ps.len() == 0 {
        -1
    } else if deliverable(s, ps[0]) {
        0
    } else {
        let r = first_deliverable(s, ps.drop_first());
        if r < 0 {
            -1
        } else {
            r + 1
        }
    }
}

proof fn lemma_first_deliverable(s: &RawIpv6Socket, ps: Seq<PacketView>)
    ensures
        -1 <= first_deliverable(s, ps) < ps.len(),
        first_deliverable(s, ps) >= 0 ==> deliverable(s, ps[first_deliverable(s, ps)]),
        forall|j: int|
            0 <= j < ps.len() && (first_deliverable(s, ps) < 0 || j < first_deliverable(s, ps)) ==> !deliverable(
                s,
                #[trigger] ps[j],
            ),
    decreases ps.len(),
{
    if ps.len() > 0 && !deliverable(s, ps[0]) {
        let rest = ps.drop_first();
        lemma_first_deliverable(s, rest);
        assert forall|j: int|
            0 <= j < ps.len() && (first_deliverable(s, ps) < 0 || j < first_deliverable(s, ps)) implies !deliverable(
            s,
            #[trigger] ps[j],
        ) by {
            if j > 0 {
                assert(ps[j] == rest[j - 1]);
            }
        }
    }
}

/// The position of the first option `optname` in `opts`, or -1.
pub open spec fn first_opt(opts: Seq<(u32, i32)>, optname: u32) -> int
    decreases opts.len(),
{
    if opts.len() == 0 {
        -1
    } else if opts[0].0 == optname {
        0
    } else {
        let r = first_opt(opts.drop_first(), optname);
        if r < 0 {
            -1
        } else {
            r + 1
        }
    }
}

proof fn lemma_first_opt(opts: Seq<(u32, i32)>, optname: u32)
    ensures
        -1 <= first_opt(opts, optname) < opts.len(),
        first_opt(opts, optname) >= 0 ==> opts[first_opt(opts, optname)].0 == optname,
        forall|j: int|
            0 <= j < opts.len() && (first_opt(opts, optname) < 0 || j < first_opt(opts, optname)) ==> #[trigger] opts[j].0
                != optname,
    decreases opts.len(),
{
    if opts.len() > 0 && opts[0].0 != optname {
        let rest = opts.drop_first();
        lemma_first_opt(rest, optname);
        assert forall|j: int|
            0 <= j < opts.len() && (first_opt(opts, optname) < 0 || j < first_opt(opts, optname)) implies #[trigger] opts[j].0
            != optname by {
            if j > 0 {
                assert(opts[j] == rest[j - 1]);
            }
        }
    }
}

/// The value of option `optname`, zero when it was never set.
pub open spec fn opt_value(opts: Seq<(u32, i32)>, optname: u32) -> i32 {
    let k = first_opt(opts, optname);
    if k < 0 {
        0
    } else {
        opts[k].1
    }
}

/// The options after setting `optname` to `value`.
pub open spec fn opts_after_set(opts: Seq<(u32, i32)>, optname: u32, value: i32) -> Seq<(u32, i32)> {
    let k = first_opt(opts, optname);
    if k < 0 {
        opts.push((optname, value))
    } else {
        opts.update(k, (optname, value))
    }
}

/// The control message type that an enabled option asks for, if any.
pub open spec fn cmsg_type_of(opt: u32) -> Option<u32> {
    if opt == 49 {
        Some(50)
    } else if opt == 51 {
        Some(52)
    } else if opt == 53 {
        Some(54)
    } else if opt == 56 {
        Some(57)
    } else if opt == 58 {
        Some(59)
    } else if opt == 66 {
        Some(67)
    } else if opt == 2 || opt == 3 || opt == 4 || opt == 5 || opt == 8 {
        Some(opt)
    } else {
        None
    }
}

/// The control message types for the options of `opts`, in order.
pub open spec fn cmsg_types_of(opts: Seq<(u32, i32)>) -> Seq<u32>
    decreases opts.len(),
{
    if opts.len() == 0 {
        Seq::empty()
    } else {
        let rest = cmsg_types_of(opts.drop_last());
        let (opt, value) = opts.last();
        if value != 0 && cmsg_type_of(opt) is Some {
            rest.push(cmsg_type_of(opt)->Some_0)
        } else {
            rest
        }
    }
}

fn cmsg_type(opt: u32) -> (r: Option<u32>)
    ensures
        r == cmsg_type_of(opt),
{
    if opt == 49 {
        Some(50)
    } else if opt == 51 {
        Some(52)
    } else if opt == 53 {
        Some(54)
    } else if opt == 56 {
        Some(57)
    } else if opt == 58 {
        Some(59)
    } else if opt == 66 {
        Some(67)
    } else if opt == 2 || opt == 3 || opt == 4 || opt == 5 || opt == 8 {
        Some(opt)
    } else {
        None
    }
}

fn find_opt(opts: &Vec<(u32, i32)>, optname: u32) -> (r: Option<usize>)
    ensures
        match r {
            Some(k) => k as int == first_opt(opts@, optname) && k < opts@.len(),
            None => first_opt(opts@, optname) < 0,
        },
{
    proof {
        lemma_first_opt(opts@, optname);
    }
    let mut i: usize = 0;
    while i < opts.len()
        invariant
            i <= opts@.len(),
            forall|j: int| 0 <= j < i ==> #[trigger] opts@[j].0 != optname,
            -1 <= first_opt(opts@, optname) < opts@.len(),
            first_opt(opts@, optname) >= 0 ==> opts@[first_opt(opts@, optname)].0 == optname,
            forall|j: int|
                0 <= j < opts@.len() && (first_opt(opts@, optname) < 0 || j < first_opt(opts@, optname))
                    ==> #[trigger] opts@[j].0 != optname,
        decreases opts@.len() - i,
    {
        if opts[i].0 == optname {
            return Some(i);
        }
        i += 1;
    }
    None
}

fn clone_bytes(v: &Vec<u8>) -> (r: Vec<u8>)
    ensures
        r@ == v@,
{
    let mut r: Vec<u8> = Vec::new();
    let mut i: usize = 0;
    while i < v.len()
        invariant
            i <= v@.len(),
            r@ == v@.take(i as int),
        decreases v@.len() - i,
    {
        r.push(v[i]);
        i += 1;
        proof {
            assert(r@ =~= v@.take(i as int));
        }
    }
    proof {
        assert(v@.take(v@.len() as int) =~= v@);
    }
    r
}

impl RawNet {
    /// No sockets and no packets yet; ids start at 1.
    pub fn new() -> (r: Self)
        ensures
            r.next_id == 1,
            r.seq == 0,
            r.packets@.len() == 0,
    {
        RawNet { next_id: 1, seq: 0, packets: Vec::new() }
    }

    /// A fresh socket id.
    pub fn allocate_id(&mut self) -> (r: usize)
        ensures
            r == old(self).next_id,
            final(self).next_id == wrapping_succ(old(self).next_id),
            final(self).seq == old(self).seq,
            final(self).packets@ == old(self).packets@,
    {
        let id = self.next_id;
        self.next_id = self.next_id.wrapping_add(1);
        id
    }
}

impl RawIpv6Socket {
    /// A socket for `protocol` that receives only packets sent from now on.
    pub fn new(net: &mut RawNet, protocol: u32) -> (r: Self)
        ensures
            r.id == old(net).next_id,
            r.protocol == protocol,
            r.recv_seq == old(net).seq,
            r.checksum_offset is None,
            r.type_filter is None,
            r.ipv6_options@.len() == 0,
            final(net).next_id == wrapping_succ(old(net).next_id),
            final(net).seq == old(net).seq,
            final(net).packets@ == old(net).packets@,
    {
        let id = net.allocate_id();
        RawIpv6Socket {
            id,
            protocol,
            recv_seq: net.seq,
            checksum_offset: None,
            type_filter: None,
            ipv6_options: Vec::new(),
        }
    }

    /// `IPV6_CHECKSUM`: sets where the checksum lies in outgoing packets; the
    /// offset must be even and not negative.
    pub fn set_checksum_offset(&mut self, offset: i32) -> (r: Result<(), SysError>)
        ensures
            if offset < 0 || offset % 2 != 0 {
                r == Err::<(), SysError>(SysError::InvalidInput) && final(self).checksum_offset == old(self).checksum_offset
            } else {
                r == Ok::<(), SysError>(()) && final(self).checksum_offset == Some(offset as usize)
            },
            final(self).id == old(self).id,
            final(self).protocol == old(self).protocol,
            final(self).recv_seq == old(self).recv_seq,
            final(self).type_filter == old(self).type_filter,
            final(self).ipv6_options@ == old(self).ipv6_options@,
    {
        if offset < 0 || offset % 2 != 0 {
            return Err(SysError::InvalidInput);
        }
        self.checksum_offset = Some(offset as usize);
        Ok(())
    }

    /// The checksum offset, or -1 when none is set.
    pub fn checksum_offset(&self) -> (r: i32)
        ensures
            r == match self.checksum_offset {
                Some(o) => o as i32,
                None => -1i32,
            },
    {
        match self.checksum_offset {
            Some(o) => o as i32,
            None => -1,
        }
    }

    /// `ICMP6_FILTER`: installs a 256-bit filter given as 32 bytes, eight
    /// words in the machine's byte order (one order for all eight); a set bit
    /// blocks that ICMPv6 type.
    pub fn set_icmp6_filter(&mut self, filter: &[u8]) -> (r: Result<(), SysError>)
        ensures
            filter@.len() != 32 ==> r == Err::<(), SysError>(SysError::InvalidInput) && final(self).type_filter
                == old(self).type_filter,
            filter@.len() == 32 ==> r == Ok::<(), SysError>(()) && final(self).type_filter is Some,
            filter@.len() == 32 ==> exists|o: ByteOrder|
                #[trigger] filter_words(final(self).type_filter->Some_0, filter@, o),
            final(self).id == old(self).id,
            final(self).protocol == old(self).protocol,
            final(self).recv_seq == old(self).recv_seq,
            final(self).checksum_offset == old(self).checksum_offset,
            final(self).ipv6_options@ == old(self).ipv6_options@,
    {
        if filter.len() != 32 {
            return Err(SysError::InvalidInput);
        }
        let order = machine_byte_order();
        let mut raw: [u32; 8] = [0; 8];
        let mut k: usize = 0;
        while k < 8
            invariant
                filter@.len() == 32,
                k <= 8,
                forall|j: int| 0 <= j < k ==> #[trigger] raw@[j] == u32_from_bytes(filter@.subrange(4 * j, 4 * j + 4), order),
            decreases 8 - k,
        {
            let chunk: [u8; 4] = [filter[4 * k], filter[4 * k + 1], filter[4 * k + 2], filter[4 * k + 3]];
            proof {
                assert(chunk@ =~= filter@.subrange(4 * k, 4 * k + 4));
            }
            raw[k] = decode_u32(chunk, order);
            k += 1;
        }
        proof {
            assert(filter_words(raw, filter@, order));
        }
        self.type_filter = Some(raw);
        assert(filter_words(self.type_filter->Some_0, filter@, order));
        Ok(())
    }

    /// Sets IPv6 option `optname` to `value`.
    pub fn set_ipv6_option(&mut self, optname: u32, value: i32)
        ensures
            final(self).ipv6_options@ == opts_after_set(old(self).ipv6_options@, optname, value),
            final(self).id == old(self).id,
            final(self).protocol == old(self).protocol,
            final(self).recv_seq == old(self).recv_seq,
            final(self).checksum_offset == old(self).checksum_offset,
            final(self).type_filter == old(self).type_filter,
    {
        match find_opt(&self.ipv6_options, optname) {
            Some(k) => {
                self.ipv6_options.set(k, (optname, value));
            },
            None => {
                self.ipv6_options.push((optname, value));
            },
        }
    }

    /// The value of IPv6 option `optname`, zero when never set.
    pub fn ipv6_option(&self, optname: u32) -> (r: i32)
        ensures
            r == opt_value(self.ipv6_options@, optname),
    {
        match find_opt(&self.ipv6_options, optname) {
            Some(k) => self.ipv6_options[k].1,
            None => 0,
        }
    }

    /// The control message types that received packets carry: one for each
    /// enabled option that asks for one, in the order the options were set.
    pub fn cmsg_types(&self) -> (r: Vec<u32>)
        ensures
            r@ == cmsg_types_of(self.ipv6_options@),
    {
        let mut result: Vec<u32> = Vec::new();
        let mut i: usize = 0;
        while i < self.ipv6_options.len()
            invariant
                i <= self.ipv6_options@.len(),
                result@ == cmsg_types_of(self.ipv6_options@.take(i as int)),
            decreases self.ipv6_options@.len() - i,
        {
            let (opt, value) = self.ipv6_options[i];
            proof {
                assert(self.ipv6_options@.take(i + 1).drop_last() =~= self.ipv6_options@.take(i as int));
            }
            if value != 0 {
                if let Some(ty) = cmsg_type(opt) {
                    result.push(ty);
                }
            }
            i += 1;
        }
        proof {
            assert(self.ipv6_options@.take(self.ipv6_options@.len() as int) =~= self.ipv6_options@);
        }
        result
    }

    /// Whether the socket takes `packet`.
    pub fn allows_packet(&self, packet: &[u8]) -> (r: bool)
        ensures
            r == filter_allows(self.protocol, self.type_filter, packet@),
    {
        if self.protocol != IPPROTO_ICMPV6 || packet.len() == 0 {
            return true;
        }
        match self.type_filter {
            None => true,
            Some(filter) => {
                let ty = packet[0] as usize;
                filter[ty / 32] & (1u32 << ((ty % 32) as u32)) == 0
            },
        }
    }

    /// Sends `packet` (the bytes read from the caller's buffer): with a
    /// checksum offset set, the packet must hold the two checksum bytes.
    pub fn send_packet(&self, net: &mut RawNet, packet: Vec<u8>) -> (r: Result<usize, SysError>)
        ensures
            if self.checksum_offset is Some && self.checksum_offset->Some_0 + 2 > packet@.len() {
                r == Err::<usize, SysError>(SysError::InvalidInput) && final(net).seq == old(net).seq
                    && final(net).packets@ == old(net).packets@ && final(net).next_id == old(net).next_id
            } else {
                &&& r == Ok::<usize, SysError>(packet@.len() as usize)
                &&& final(net).seq == wrapping_succ(old(net).seq)
                &&& final(net).next_id == old(net).next_id
                &&& view_packets(final(net).packets@) == view_packets(old(net).packets@).push(
                    PacketView {
                        seq: wrapping_succ(old(net).seq),
                        sender: self.id,
                        protocol: self.protocol,
                        data: packet@,
                    },
                )
            },
    {
        let len = packet.len();
        if let Some(offset) = self.checksum_offset {
            if offset > usize::MAX - 2 || offset + 2 > len {
                return Err(SysError::InvalidInput);
            }
        }
        let read = packet.len();
        let seq = net.seq.wrapping_add(1);
        net.seq = seq;
        let ghost before = net.packets@;
        net.packets.push(RawIpv6Packet { seq, sender: self.id, protocol: self.protocol, data: packet });
        proof {
            assert(view_packets(net.packets@) =~= view_packets(before).push(
                PacketView { seq, sender: self.id, protocol: self.protocol, data: net.packets@.last().data@ },
            ));
        }
        Ok(read)
    }

    /// Receives the first queued packet sent by another socket of the same
    /// protocol after this socket's last one, that the filter lets through.
    pub fn recv_packet(&mut self, net: &RawNet) -> (r: Result<Vec<u8>, SysError>)
        ensures
            ({
                let ps = view_packets(net.packets@);
                let k = first_deliverable(old(self), ps);
                if k < 0 {
                    r matches Err(e) && e == SysError::WouldBlock && final(self).recv_seq == old(self).recv_seq
                } else {
                    r matches Ok(v) && v@ == ps[k].data && final(self).recv_seq == ps[k].seq
                }
            }),
            final(self).id == old(self).id,
            final(self).protocol == old(self).protocol,
            final(self).checksum_offset == old(self).checksum_offset,
            final(self).type_filter == old(self).type_filter,
            final(self).ipv6_options@ == old(self).ipv6_options@,
    {
        let ghost ps = view_packets(net.packets@);
        proof {
            lemma_first_deliverable(self, ps);
        }
        let mut i: usize = 0;
        while i < net.packets.len()
            invariant
                i <= net.packets@.len(),
                ps == view_packets(net.packets@),
                *self == *old(self),
                forall|j: int| 0 <= j < i ==> !deliverable(self, #[trigger] ps[j]),
                -1 <= first_deliverable(self, ps) < ps.len(),
                first_deliverable(self, ps) >= 0 ==> deliverable(self, ps[first_deliverable(self, ps)]),
                forall|j: int|
                    0 <= j < ps.len() && (first_deliverable(self, ps) < 0 || j < first_deliverable(self, ps))
                        ==> !deliverable(self, #[trigger] ps[j]),
            decreases net.packets@.len() - i,
        {
            let p = &net.packets[i];
            proof {
                assert(ps[i as int].data == p.data@);
                assert(ps[i as int].seq == p.seq && ps[i as int].sender == p.sender && ps[i as int].protocol
                    == p.protocol);
            }
            if p.seq > self.recv_seq && p.sender != self.id && p.protocol == self.protocol && self.allows_packet(
                p.data.as_slice(),
            ) {
                assert(deliverable(self, ps[i as int]));
                proof {
                    let f = first_deliverable(self, ps);
                    if f < 0 || i < f {
                        assert(!deliverable(self, ps[i as int]));
                    }
                    if f < i {
                        assert(!deliverable(self, ps[f]));
                    }
                    assert(f == i);
                }
                let data = clone_bytes(&p.data);
                self.recv_seq = p.seq;
                return Ok(data);
            }
            i += 1;
        }
        Err(SysError::WouldBlock)
    }

    /// Whether a read would find a packet; the socket is always writable.
    pub fn poll(&self, net: &RawNet) -> (r: bool)
        ensures
            r == (first_deliverable(self, view_packets(net.packets@)) >= 0),
    {
        let ghost ps = view_packets(net.packets@);
        proof {
            lemma_first_deliverable(self, ps);
        }
        let mut i: usize = 0;
        while i < net.packets.len()
            invariant
                i <= net.packets@.len(),
                ps == view_packets(net.packets@),
                forall|j: int| 0 <= j < i ==> !deliverable(self, #[trigger] ps[j]),
                -1 <= first_deliverable(self, ps) < ps.len(),
                first_deliverable(self, ps) >= 0 ==> deliverable(self, ps[first_deliverable(self, ps)]),
                forall|j: int|
                    0 <= j < ps.len() && (first_deliverable(self, ps) < 0 || j < first_deliverable(self, ps))
                        ==> !deliverable(self, #[trigger] ps[j]),
            decreases net.packets@.len() - i,
        {
            let p = &net.packets[i];
            proof {
                assert(ps[i as int].data == p.data@);
                assert(ps[i as int].seq == p.seq && ps[i as int].sender == p.sender && ps[i as int].protocol
                    == p.protocol);
            }
            if p.seq > self.recv_seq && p.sender != self.id && p.protocol == self.protocol && self.allows_packet(
                p.data.as_slice(),
            ) {
                assert(deliverable(self, ps[i as int]));
                proof {
                    let f = first_deliverable(self, ps);
                    if f < 0 || i < f {
                        assert(!deliverable(self, ps[i as int]));
                    }
                    if f < i {
                        assert(!deliverable(self, ps[f]));
                    }
                }
                return true;
            }
            i += 1;
        }
        false
    }
}

/// What a packet socket does for an `ioctl` request.
#[derive(Clone, Copy, Debug, PartialEq, Eq)]
pub enum PacketIoctl {
    /// `SIOCGIFINDEX`: store this interface index in the request, then return 0.
    SetIfIndex(i32),
    /// Nothing to do; return 0.
    Done,
}

impl PacketSocket {
    /// A packet socket with a fresh id.
    pub fn new(net: &mut RawNet) -> (r: Self)
        ensures
            r.id == old(net).next_id,
            final(net).next_id == wrapping_succ(old(net).next_id),
            final(net).seq == old(net).seq,
            final(net).packets@ == old(net).packets@,
    {
        PacketSocket { id: net.allocate_id() }
    }

    /// `bind` to a link-layer address: accepted.
    pub fn bind_ll(&self) -> (r: Result<(), SysError>)
        ensures
            r == Ok::<(), SysError>(()),
    {
        Ok(())
    }

    /// `ioctl(cmd)`: interface index 1 for `SIOCGIFINDEX`, nothing for
    /// `SIOCSIFFLAGS`, `ENOTTY` for anything else.
    pub fn ioctl(&self, cmd: u32) -> (r: Result<PacketIoctl, SysError>)
        ensures
            r == if cmd == SIOCGIFINDEX {
                Ok(PacketIoctl::SetIfIndex(1))
            } else if cmd == SIOCSIFFLAGS {
                Ok(PacketIoctl::Done)
            } else {
                Err::<PacketIoctl, SysError>(SysError::NotATty)
            },
    {
        if cmd == SIOCGIFINDEX {
            Ok(PacketIoctl::SetIfIndex(1))
        } else if cmd == SIOCSIFFLAGS {
            Ok(PacketIoctl::Done)
        } else {
            Err(SysError::NotATty)
        }
    }
}

/// The mode and block size that `stat` reports for any socket.
pub fn socket_stat() -> (r: (u32, u32))
    ensures
        r == (SOCKET_MODE, SOCKET_BLKSIZE),
{
    (SOCKET_MODE, SOCKET_BLKSIZE)
}

// ----------------------------------------------------------------------------
// Laws
// ----------------------------------------------------------------------------

/// Reading an option gives back the value it was last set to.
pub proof fn law_option_reads_back(opts: Seq<(u32, i32)>, optname: u32, value: i32)
    ensures
        opt_value(opts_after_set(opts, optname, value), optname) == value,
{
    lemma_first_opt(opts, optname);
    let k = first_opt(opts, optname);
    if k < 0 {
        lemma_first_opt_push(opts, optname, value);
    } else {
        let u = opts.update(k, (optname, value));
        lemma_first_opt_same_names(u, opts, optname);
    }
}

proof fn lemma_first_opt_push(opts: Seq<(u32, i32)>, optname: u32, value: i32)
    requires
        first_opt(opts, optname) < 0,
    ensures
        first_opt(opts.push((optname, value)), optname) == opts.len(),
    decreases opts.len(),
{
    if opts.len() > 0 {
        let r = opts.drop_first();
        assert(opts.push((optname, value)).drop_first() =~= r.push((optname, value)));
        lemma_first_opt_push(r, optname, value);
    }
}

proof fn lemma_first_opt_same_names(a: Seq<(u32, i32)>, b: Seq<(u32, i32)>, optname: u32)
    requires
        a.len() == b.len(),
        forall|i: int| 0 <= i < a.len() ==> #[trigger] a[i].0 == b[i].0,
    ensures
        first_opt(a, optname) == first_opt(b, optname),
    decreases a.len(),
{
    if a.len() > 0 {
        assert(a[0].0 == b[0].0);
        let ra = a.drop_first();
        let rb = b.drop_first();
        assert forall|i: int| 0 <= i < ra.len() implies #[trigger] ra[i].0 == rb[i].0 by {
            assert(a[i + 1].0 == b[i + 1].0);
        }
        lemma_first_opt_same_names(ra, rb, optname);
    }
}

/// Setting an option leaves every other option's value as it was.
pub proof fn law_option_set_is_local(opts: Seq<(u32, i32)>, optname: u32, value: i32, other: u32)
    requires
        other != optname,
    ensures
        opt_value(opts_after_set(opts, optname, value), other) == opt_value(opts, other),
{
    lemma_first_opt(opts, optname);
    lemma_first_opt(opts, other);
    let k = first_opt(opts, optname);
    if k < 0 {
        lemma_first_opt_push_other(opts, optname, value, other);
    } else {
        let u = opts.update(k, (optname, value));
        assert forall|i: int| 0 <= i < u.len() implies #[trigger] u[i].0 == opts[i].0 by {}
        lemma_first_opt_same_names(u, opts, other);
        lemma_first_opt(u, other);
    }
}

proof fn lemma_first_opt_push_other(opts: Seq<(u32, i32)>, optname: u32, value: i32, other: u32)
    requires
        other != optname,
    ensures
        first_opt(opts.push((optname, value)), other) == first_opt(opts, other),
        first_opt(opts, other) >= 0 ==> opts.push((optname, value))[first_opt(opts, other)] == opts[first_opt(
            opts,
            other,
        )],
    decreases opts.len(),
{
    lemma_first_opt(opts, other);
    let pushed = opts.push((optname, value));
    if opts.len() == 0 {
        reveal_with_fuel(first_opt, 2);
        assert(pushed.drop_first().len() == 0);
        assert(pushed[0].0 == optname);
    } else if opts[0].0 != other {
        let r = opts.drop_first();
        assert(pushed.drop_first() =~= r.push((optname, value)));
        assert(pushed[0] == opts[0]);
        lemma_first_opt_push_other(r, optname, value, other);
        lemma_first_opt(r, other);
        if first_opt(r, other) >= 0 {
            assert(opts[first_opt(r, other) + 1] == r[first_opt(r, other)]);
        }
    } else {
        assert(pushed[0] == opts[0]);
    }
}

/// A packet sent by one socket reaches another socket of the same protocol
/// that had nothing waiting and whose filter lets it through; the sender
/// itself never receives its own packet.
pub proof fn law_sent_packet_is_received(
    receiver: &RawIpv6Socket,
    before: Seq<PacketView>,
    sent: PacketView,
)
    requires
        first_deliverable(receiver, before) < 0,
        sent.seq > receiver.recv_seq,
        sent.sender != receiver.id,
        sent.protocol == receiver.protocol,
        filter_allows(receiver.protocol, receiver.type_filter, sent.data),
    ensures
        first_deliverable(receiver, before.push(sent)) == before.len(),
    decreases before.len(),
{
    if before.len() > 0 {
        lemma_first_deliverable(receiver, before);
        let r = before.drop_first();
        assert(before.push(sent).drop_first() =~= r.push(sent));
        lemma_first_deliverable(receiver, r);
        law_sent_packet_is_received(receiver, r, sent);
    }
}

/// A socket never receives its own packets.
pub proof fn law_no_self_delivery(s: &RawIpv6Socket, p: PacketView)
    requires
        p.sender == s.id,
    ensures
        !deliverable(s, p),
{
}

/// Packets numbered in the order they were queued reach a socket in that
/// order: once it has received the packet at position `k` (which leaves its
/// last sequence number at that packet's), the next packet it receives, if
/// any, stands after `k` in the queue.
pub proof fn law_receive_in_send_order(sock: &RawIpv6Socket, ps: Seq<PacketView>, k: int)
    requires
        forall|i: int, j: int| 0 <= i < j < ps.len() ==> #[trigger] ps[i].seq < #[trigger] ps[j].seq,
        0 <= k < ps.len(),
        sock.recv_seq == ps[k].seq,
    ensures
        first_deliverable(sock, ps) < 0 || first_deliverable(sock, ps) > k,
{
    lemma_first_deliverable(sock, ps);
    let f = first_deliverable(sock, ps);
    if 0 <= f <= k {
        if f < k {
            assert(ps[f].seq < ps[k].seq);
        }
        assert(!deliverable(sock, ps[f]));
    }
}

/// The control message that an enabled option asks for: each
/// `IPV6_RECV*` option (`IPV6_RECVPKTINFO` 49, `IPV6_RECVHOPLIMIT` 51,
/// `IPV6_RECVHOPOPTS` 53, `IPV6_RECVRTHDR` 56, `IPV6_RECVDSTOPTS` 58,
/// `IPV6_RECVTCLASS` 66) asks for the message type numbered right after it
/// (`IPV6_PKTINFO` 50, `IPV6_HOPLIMIT` 52, `IPV6_HOPOPTS` 54, `IPV6_RTHDR` 57,
/// `IPV6_DSTOPTS` 59, `IPV6_TCLASS` 67); the RFC 2292 options 2, 3, 4, 5 and 8
/// are their own message types; every other option asks for none.
pub proof fn law_cmsg_type_follows_recv_option(opt: u32)
    ensures
        (opt == 49 || opt == 51 || opt == 53 || opt == 56 || opt == 58 || opt == 66) ==> cmsg_type_of(opt)
            == Some((opt + 1) as u32),
        (opt == 2 || opt == 3 || opt == 4 || opt == 5 || opt == 8) ==> cmsg_type_of(opt) == Some(opt),
        cmsg_type_of(opt) is Some <==> (opt == 49 || opt == 51 || opt == 53 || opt == 56 || opt == 58 || opt
            == 66 || opt == 2 || opt == 3 || opt == 4 || opt == 5 || opt == 8),
        cmsg_type_of(opt) matches Some(c) ==> c == opt || c == opt + 1,
{
}

/// What a socket's received packets carry: with the options enabled on an
/// ICMPv6 socket in the order `opts`, one control message per enabled option
/// that asks for one, of the type that option asks for, in order.
pub proof fn law_cmsg_types_follow_options(opts: Seq<(u32, i32)>, opt: u32)
    ensures
        cmsg_types_of(opts.push((opt, 1))) == if opt == 49 || opt == 51 || opt == 53 || opt == 56 || opt == 58
            || opt == 66 {
            cmsg_types_of(opts).push((opt + 1) as u32)
        } else if opt == 2 || opt == 3 || opt == 4 || opt == 5 || opt == 8 {
            cmsg_types_of(opts).push(opt)
        } else {
            cmsg_types_of(opts)
        },
        cmsg_types_of(opts.push((opt, 0))) == cmsg_types_of(opts),
{
    assert(opts.push((opt, 1)).drop_last() =~= opts);
    assert(opts.push((opt, 0)).drop_last() =~= opts);
}

} // verus!
