//! Raw SYN frame construction and response parsing.
//!
//! A probe frame is a link-layer header, a minimal IPv4 header and a minimal
//! TCP header with only the SYN flag set. The layout, including both
//! checksums, is stated byte for byte at the specification level, and the
//! builder is proved to produce exactly that layout. The response parser
//! classifies a captured frame against the scanned target and port.

use vstd::prelude::*;
use crate::checksum::{checksum16, internet_checksum};
use crate::result::PortStatus;

verus! {

/// Length of the link-layer header.
pub const ETHERNET_HEADER_LEN: usize = 14;

/// Length of the minimal IPv4 header.
pub const IPV4_HEADER_LEN: usize = 20;

/// Length of the minimal TCP header.
pub const TCP_HEADER_LEN: usize = 20;

/// Total length of a SYN probe frame.
pub const SYN_FRAME_LEN: usize = 54;

/// A 16-bit value as two big-endian bytes.
pub open spec fn be16(x: u16) -> Seq<u8> {
    seq![(x >> 8) as u8, (x & 0xff) as u8]
}

/// A 32-bit value as four big-endian bytes.
pub open spec fn be32(x: u32) -> Seq<u8> {
    seq![(x >> 24) as u8, ((x >> 16) & 0xff) as u8, ((x >> 8) & 0xff) as u8, (x & 0xff) as u8]
}

/// The link-layer header of a probe frame: broadcast destination, the
/// interface's source address, and the IPv4 ethertype.
pub open spec fn ethernet_header(src_mac: Seq<u8>) -> Seq<u8> {
    seq![0xffu8, 0xffu8, 0xffu8, 0xffu8, 0xffu8, 0xffu8] + src_mac + seq![0x08u8, 0x00u8]
}

/// The minimal IPv4 header of a probe: version 4, header length 5 words,
/// total length 40, don't-fragment, TTL 64, protocol TCP, with the given
/// identification and checksum field.
pub open spec fn ipv4_syn_header(src_ip: Seq<u8>, dst_ip: Seq<u8>, ident: u16, ck: u16) -> Seq<
    u8,
> {
    seq![0x45u8, 0x00u8, 0x00u8, 0x28u8] + be16(ident) + seq![0x40u8, 0x00u8, 64u8, 6u8] + be16(ck)
        + src_ip + dst_ip
}

/// The correct IPv4 header checksum: computed over the header with a zero
/// checksum field.
pub open spec fn ipv4_syn_checksum(src_ip: Seq<u8>, dst_ip: Seq<u8>, ident: u16) -> u16 {
    internet_checksum(ipv4_syn_header(src_ip, dst_ip, ident, 0))
}

/// The minimal TCP header of a probe: SYN flag only, data offset 5 words,
/// window 65535, with the given ports, sequence number and checksum field.
pub open spec fn tcp_syn_header(src_port: u16, dst_port: u16, seq_no: u32, ck: u16) -> Seq<u8> {
    be16(src_port) + be16(dst_port) + be32(seq_no) + be32(0) + seq![0x50u8, 0x02u8] + be16(0xffff)
        + be16(ck) + be16(0)
}

/// The IPv4 pseudo-header for the TCP checksum: source and destination
/// addresses, a zero byte, the TCP protocol number, and the segment length.
pub open spec fn tcp_pseudo_header(src_ip: Seq<u8>, dst_ip: Seq<u8>) -> Seq<u8> {
    src_ip + dst_ip + seq![0x00u8, 6u8] + be16(TCP_HEADER_LEN as u16)
}

/// The correct TCP checksum of a probe: computed over the pseudo-header and
/// the segment with a zero checksum field.
pub open spec fn tcp_syn_checksum(
    src_ip: Seq<u8>,
    dst_ip: Seq<u8>,
    src_port: u16,
    dst_port: u16,
    seq_no: u32,
) -> u16 {
    internet_checksum(
        tcp_pseudo_header(src_ip, dst_ip) + tcp_syn_header(src_port, dst_port, seq_no, 0),
    )
}

/// A complete SYN probe frame, checksums included.
pub open spec fn syn_frame(
    src_mac: Seq<u8>,
    src_ip: Seq<u8>,
    dst_ip: Seq<u8>,
    src_port: u16,
    dst_port: u16,
    seq_no: u32,
    ident: u16,
) -> Seq<u8> {
    ethernet_header(src_mac) + ipv4_syn_header(
        src_ip,
        dst_ip,
        ident,
        ipv4_syn_checksum(src_ip, dst_ip, ident),
    ) + tcp_syn_header(
        src_port,
        dst_port,
        seq_no,
        tcp_syn_checksum(src_ip, dst_ip, src_port, dst_port, seq_no),
    )
}

/// Append a 16-bit value to a buffer as two big-endian bytes.
fn push_be16(buf: &mut Vec<u8>, x: u16)
    ensures
        final(buf)@ == old(buf)@ + be16(x),
{
    buf.push((x >> 8) as u8);
    buf.push((x & 0xff) as u8);
    proof {
        assert(final(buf)@ =~= old(buf)@ + be16(x));
    }
}

/// Append a 32-bit value to a buffer as four big-endian bytes.
fn push_be32(buf: &mut Vec<u8>, x: u32)
    ensures
        final(buf)@ == old(buf)@ + be32(x),
{
    buf.push((x >> 24) as u8);
    buf.push(((x >> 16) & 0xff) as u8);
    buf.push(((x >> 8) & 0xff) as u8);
    buf.push((x & 0xff) as u8);
    proof {
        assert(final(buf)@ =~= old(buf)@ + be32(x));
    }
}

/// Build the IPv4 header with the given checksum field.
fn build_ipv4_header(src_ip: &[u8; 4], dst_ip: &[u8; 4], ident: u16, ck: u16) -> (r: Vec<u8>)
    ensures
        r@ == ipv4_syn_header(src_ip@, dst_ip@, ident, ck),
        r@.len() == IPV4_HEADER_LEN,
{
    let mut buf: Vec<u8> = Vec::new();
    buf.push(0x45);
    buf.push(0x00);
    buf.push(0x00);
    buf.push(0x28);
    push_be16(&mut buf, ident);
    buf.push(0x40);
    buf.push(0x00);
    buf.push(64);
    buf.push(6);
    push_be16(&mut buf, ck);
    let mut i: usize = 0;
    while i < 4
        invariant
            i <= 4,
            buf@ == ipv4_syn_header(src_ip@, dst_ip@, ident, ck).take(12 + i),
        decreases 4 - i,
    {
        buf.push(src_ip[i]);
        proof {
            assert(buf@ =~= ipv4_syn_header(src_ip@, dst_ip@, ident, ck).take(12 + i + 1));
        }
        i = i + 1;
    }
    let mut j: usize = 0;
    while j < 4
        invariant
            j <= 4,
            buf@ == ipv4_syn_header(src_ip@, dst_ip@, ident, ck).take(16 + j),
        decreases 4 - j,
    {
        buf.push(dst_ip[j]);
        proof {
            assert(buf@ =~= ipv4_syn_header(src_ip@, dst_ip@, ident, ck).take(16 + j + 1));
        }
        j = j + 1;
    }
    proof {
        assert(buf@ =~= ipv4_syn_header(src_ip@, dst_ip@, ident, ck));
    }
    buf
}

/// Build the TCP header with the given checksum field.
fn build_tcp_header(src_port: u16, dst_port: u16, seq_no: u32, ck: u16) -> (r: Vec<u8>)
    ensures
        r@ == tcp_syn_header(src_port, dst_port, seq_no, ck),
        r@.len() == TCP_HEADER_LEN,
{
    let mut buf: Vec<u8> = Vec::new();
    push_be16(&mut buf, src_port);
    push_be16(&mut buf, dst_port);
    push_be32(&mut buf, seq_no);
    push_be32(&mut buf, 0);
    buf.push(0x50);
    buf.push(0x02);
    push_be16(&mut buf, 0xffff);
    push_be16(&mut buf, ck);
    push_be16(&mut buf, 0);
    proof {
        assert(buf@ =~= tcp_syn_header(src_port, dst_port, seq_no, ck));
    }
    buf
}

/// Build a complete SYN probe frame for the given addresses, ports,
/// sequence number and IP identification, with both checksums computed.
pub fn build_syn_frame(
    src_mac: &[u8; 6],
    src_ip: &[u8; 4],
    dst_ip: &[u8; 4],
    src_port: u16,
    dst_port: u16,
    seq_no: u32,
    ident: u16,
) -> (r: Vec<u8>)
    ensures
        r@ == syn_frame(src_mac@, src_ip@, dst_ip@, src_port, dst_port, seq_no, ident),
        r@.len() == SYN_FRAME_LEN,
{
    let ip_zero = build_ipv4_header(src_ip, dst_ip, ident, 0);
    let ip_ck = checksum16(ip_zero.as_slice());
    let ip_header = build_ipv4_header(src_ip, dst_ip, ident, ip_ck);

    let mut pseudo: Vec<u8> = Vec::new();
    let mut i: usize = 0;
    while i < 4
        invariant
            i <= 4,
            pseudo@ == src_ip@.take(i as int),
        decreases 4 - i,
    {
        pseudo.push(src_ip[i]);
        proof {
            assert(pseudo@ =~= src_ip@.take(i + 1));
        }
        i = i + 1;
    }
    let mut j: usize = 0;
    while j < 4
        invariant
            j <= 4,
            pseudo@ == src_ip@ + dst_ip@.take(j as int),
        decreases 4 - j,
    {
        pseudo.push(dst_ip[j]);
        proof {
            assert(pseudo@ =~= src_ip@ + dst_ip@.take(j + 1));
        }
        j = j + 1;
    }
    pseudo.push(0x00);
    pseudo.push(6);
    push_be16(&mut pseudo, TCP_HEADER_LEN as u16);
    proof {
        assert(pseudo@ =~= tcp_pseudo_header(src_ip@, dst_ip@));
    }
    let tcp_zero = build_tcp_header(src_port, dst_port, seq_no, 0);
    let mut pseudo_seg = pseudo;
    let mut tcp_zero_tail = tcp_zero;
    pseudo_seg.append(&mut tcp_zero_tail);
    proof {
        assert(pseudo_seg@ == tcp_pseudo_header(src_ip@, dst_ip@) + tcp_syn_header(
            src_port,
            dst_port,
            seq_no,
            0,
        ));
    }
    let tcp_ck = checksum16(pseudo_seg.as_slice());
    let tcp_header = build_tcp_header(src_port, dst_port, seq_no, tcp_ck);

    let mut frame: Vec<u8> = Vec::new();
    let mut k: usize = 0;
    while k < 6
        invariant
            k <= 6,
            frame@ == seq![0xffu8, 0xffu8, 0xffu8, 0xffu8, 0xffu8, 0xffu8].take(k as int),
        decreases 6 - k,
    {
        frame.push(0xff);
        proof {
            assert(frame@ =~= seq![0xffu8, 0xffu8, 0xffu8, 0xffu8, 0xffu8, 0xffu8].take(k + 1));
        }
        k = k + 1;
    }
    let mut m: usize = 0;
    while m < 6
        invariant
            m <= 6,
            frame@ == seq![0xffu8, 0xffu8, 0xffu8, 0xffu8, 0xffu8, 0xffu8] + src_mac@.take(
                m as int,
            ),
        decreases 6 - m,
    {
        frame.push(src_mac[m]);
        proof {
            assert(frame@ =~= seq![0xffu8, 0xffu8, 0xffu8, 0xffu8, 0xffu8, 0xffu8] + src_mac@.take(
                m + 1,
            ));
        }
        m = m + 1;
    }
    frame.push(0x08);
    frame.push(0x00);
    proof {
        assert(frame@ =~= ethernet_header(src_mac@));
    }
    let mut ip_tail = ip_header;
    frame.append(&mut ip_tail);
    let mut tcp_tail = tcp_header;
    frame.append(&mut tcp_tail);
    proof {
        assert(frame@ == syn_frame(
            src_mac@,
            src_ip@,
            dst_ip@,
            src_port,
            dst_port,
            seq_no,
            ident,
        ));
        assert(frame@.len() == SYN_FRAME_LEN) by {
            assert(syn_frame(
                src_mac@,
                src_ip@,
                dst_ip@,
                src_port,
                dst_port,
                seq_no,
                ident,
            ).len() == 54);
        }
    }
    frame
}

/// How a captured frame classifies the scanned port, if it matches the
/// probe at all: the frame must be long enough, come from the target,
/// carry TCP, and answer from the scanned port. SYN+ACK set means open;
/// RST set means closed; anything else is discarded.
pub open spec fn spec_classify_frame(frame: Seq<u8>, target_ip: Seq<u8>, port: u16) -> Option<
    PortStatus,
> {
    if frame.len() < 54 {
        None
    } else if frame.subrange(26, 30) != target_ip {
        None
    } else if frame[23] != 6 {
        None
    } else {
        let tcp_start = 14 + (frame[14] & 0x0f) * 4;
        if frame.len() < tcp_start + 20 {
            None
        } else if (frame[tcp_start as int] as int) * 256 + frame[tcp_start + 1] != port {
            None
        } else {
            let flags = frame[tcp_start + 13];
            if flags & 0x12 == 0x12 {
                Some(PortStatus::Open)
            } else if flags & 0x04 != 0 {
                Some(PortStatus::Closed)
            } else {
                None
            }
        }
    }
}

/// Classify a captured frame against the scanned target and port.
pub fn parse_response(frame: &[u8], target_ip: &[u8; 4], port: u16) -> (r: Option<PortStatus>)
    ensures
        r == spec_classify_frame(frame@, target_ip@, port),
{
    if frame.len() < 54 {
        return None;
    }
    if frame[26] != target_ip[0] || frame[27] != target_ip[1] || frame[28] != target_ip[2]
        || frame[29] != target_ip[3] {
        proof {
            assert(frame@.subrange(26, 30) != target_ip@);
        }
        return None;
    }
    proof {
        assert(frame@.subrange(26, 30) =~= target_ip@);
    }
    if frame[23] != 6 {
        return None;
    }
    let ihl: usize = ((frame[14] & 0x0f) as usize) * 4;
    let tcp_start: usize = 14 + ihl;
    if frame.len() < tcp_start + 20 {
        return None;
    }
    let src_port: u32 = (frame[tcp_start] as u32) * 256 + (frame[tcp_start + 1] as u32);
    if src_port != port as u32 {
        return None;
    }
    let flags = frame[tcp_start + 13];
    if flags & 0x12 == 0x12 {
        Some(PortStatus::Open)
    } else if flags & 0x04 != 0 {
        Some(PortStatus::Closed)
    } else {
        None
    }
}

} // verus!
