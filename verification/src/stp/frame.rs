//! The layout of an Ethernet frame, read and written through `pnet`.
//!
//! A frame is a run of octets: six of destination address, six of source
//! address, two of EtherType, then the payload. The spec functions here say
//! so over `Seq<u8>`. The executable functions hand the octets to `pnet`'s
//! Ethernet packet types; their contracts are taken on trust and restate,
//! for the fields used by the bridge, what `pnet` does with those octets.

use crate::stp::mac::MacAddr;
use pnet::packet::ethernet::{EthernetPacket, MutableEthernetPacket};
use pnet::packet::Packet;
use vstd::prelude::*;

verus! {

/// Octets of an Ethernet header: two addresses and the EtherType.
pub const HEADER_LEN: usize = 14;

/// The address held in the six octets of `bytes` that start at `at`.
pub open spec fn mac_at(bytes: Seq<u8>, at: int) -> MacAddr {
    MacAddr(bytes[at], bytes[at + 1], bytes[at + 2], bytes[at + 3], bytes[at + 4], bytes[at + 5])
}

/// Whether `bytes` is long enough to hold an Ethernet header.
pub open spec fn is_frame(bytes: Seq<u8>) -> bool {
    bytes.len() >= HEADER_LEN
}

/// The destination address of a frame.
pub open spec fn destination_of(bytes: Seq<u8>) -> MacAddr {
    mac_at(bytes, 0)
}

/// The source address of a frame.
pub open spec fn source_of(bytes: Seq<u8>) -> MacAddr {
    mac_at(bytes, 6)
}

/// The two EtherType octets of a frame.
pub open spec fn ethertype_of(bytes: Seq<u8>) -> Seq<u8> {
    bytes.subrange(12, 14)
}

/// What follows the header of a frame.
pub open spec fn payload_of(bytes: Seq<u8>) -> Seq<u8> {
    bytes.subrange(HEADER_LEN as int, bytes.len() as int)
}

/// `bytes` with the six octets from `at` on replaced by `mac`.
pub open spec fn with_mac_at(bytes: Seq<u8>, at: int, mac: MacAddr) -> Seq<u8> {
    bytes.subrange(0, at) + mac@ + bytes.subrange(at + 6, bytes.len() as int)
}

/// `bytes` with the octets that follow the header overwritten, from the
/// first on, by `payload`.
pub open spec fn with_payload(bytes: Seq<u8>, payload: Seq<u8>) -> Seq<u8> {
    bytes.subrange(0, HEADER_LEN as int) + payload + bytes.subrange(
        HEADER_LEN + payload.len(),
        bytes.len() as int,
    )
}

/// The least number of octets that `pnet` takes for an Ethernet frame.
///
/// Trusted: calls `EthernetPacket::minimum_packet_size`, which returns the
/// summed width of the fixed header fields, fourteen octets.
#[verifier::external_body]
pub(crate) fn minimum_packet_size() -> (n: usize)
    ensures
        n == HEADER_LEN,
{
    EthernetPacket::minimum_packet_size()
}

/// The destination address of `frame`, or `None` where `frame` is too short
/// to be an Ethernet frame.
///
/// Trusted: calls `EthernetPacket::new`, which gives no packet for fewer
/// than fourteen octets, and `EthernetPacket::get_destination`, which builds
/// the address from the first six octets.
#[verifier::external_body]
pub(crate) fn get_destination(frame: &[u8]) -> (dst: Option<MacAddr>)
    ensures
        dst == (if is_frame(frame@) {
            Some(destination_of(frame@))
        } else {
            None
        }),
{
    match EthernetPacket::new(frame) {
        Some(pkt) => {
            let mac = pkt.get_destination();
            Some(MacAddr(mac.0, mac.1, mac.2, mac.3, mac.4, mac.5))
        },
        None => None,
    }
}

/// The source address of `frame`, or `None` where `frame` is too short to
/// be an Ethernet frame.
///
/// Trusted: calls `EthernetPacket::new` as above and
/// `EthernetPacket::get_source`, which builds the address from the seventh
/// to twelfth octets.
#[verifier::external_body]
pub(crate) fn get_source(frame: &[u8]) -> (src: Option<MacAddr>)
    ensures
        src == (if is_frame(frame@) {
            Some(source_of(frame@))
        } else {
            None
        }),
{
    match EthernetPacket::new(frame) {
        Some(pkt) => {
            let mac = pkt.get_source();
            Some(MacAddr(mac.0, mac.1, mac.2, mac.3, mac.4, mac.5))
        },
        None => None,
    }
}

/// A copy of the payload of `frame`, or `None` where `frame` is too short
/// to be an Ethernet frame.
///
/// Trusted: calls `EthernetPacket::new` as above and `Packet::payload`,
/// which is the slice from the fifteenth octet to the end (empty for a
/// frame of exactly fourteen octets).
#[verifier::external_body]
pub(crate) fn get_payload(frame: &[u8]) -> (payload: Option<Vec<u8>>)
    ensures
        is_frame(frame@) <==> payload is Some,
        payload is Some ==> payload->0@ == payload_of(frame@),
{
    match EthernetPacket::new(frame) {
        Some(pkt) => Some(pkt.payload().to_vec()),
        None => None,
    }
}

/// Overwrites the destination address of the frame in `buf`.
///
/// Trusted: calls `MutableEthernetPacket::new` on the buffer and
/// `set_destination`, which stores the six octets of the address in the
/// first six octets of the buffer and touches no other.
#[verifier::external_body]
pub(crate) fn set_destination(buf: &mut Vec<u8>, dst: MacAddr)
    requires
        is_frame(old(buf)@),
    ensures
        final(buf)@ == with_mac_at(old(buf)@, 0, dst),
{
    if let Some(mut pkt) = MutableEthernetPacket::new(buf.as_mut_slice()) {
        pkt.set_destination(pnet::util::MacAddr(dst.0, dst.1, dst.2, dst.3, dst.4, dst.5));
    }
}

/// Overwrites the source address of the frame in `buf`.
///
/// Trusted: calls `MutableEthernetPacket::new` on the buffer and
/// `set_source`, which stores the six octets of the address in the seventh
/// to twelfth octets of the buffer and touches no other.
#[verifier::external_body]
pub(crate) fn set_source(buf: &mut Vec<u8>, src: MacAddr)
    requires
        is_frame(old(buf)@),
    ensures
        final(buf)@ == with_mac_at(old(buf)@, 6, src),
{
    if let Some(mut pkt) = MutableEthernetPacket::new(buf.as_mut_slice()) {
        pkt.set_source(pnet::util::MacAddr(src.0, src.1, src.2, src.3, src.4, src.5));
    }
}

/// Copies `payload` into the frame in `buf`, right behind the header.
///
/// Trusted: calls `MutableEthernetPacket::new` on the buffer and
/// `set_payload`, which copies the given octets to the buffer from its
/// fifteenth octet on and touches no other. It panics where the buffer is
/// too short for them, which the precondition excludes.
#[verifier::external_body]
pub(crate) fn set_payload(buf: &mut Vec<u8>, payload: &[u8])
    requires
        old(buf)@.len() >= HEADER_LEN + payload@.len(),
    ensures
        final(buf)@ == with_payload(old(buf)@, payload@),
{
    if let Some(mut pkt) = MutableEthernetPacket::new(buf.as_mut_slice()) {
        pkt.set_payload(payload);
    }
}

} // verus!
