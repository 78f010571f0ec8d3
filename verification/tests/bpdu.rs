use stp_rs::stp::bpdu::{Bpdu, BpduBuf, Verdict, PACKET_LEN, RECORD_LEN};
use stp_rs::stp::mac::MacAddr;
use stp_rs::stp::port::EthPort;

const ROOT: MacAddr = MacAddr(0x02, 0x00, 0x00, 0x00, 0x00, 0x01);
const BRIDGE: MacAddr = MacAddr(0x02, 0x00, 0x00, 0x00, 0x00, 0x03);
const SENDER: MacAddr = MacAddr(0x0a, 0x0b, 0x0c, 0x0d, 0x0e, 0x0f);

#[test]
fn the_announcement_group_address() {
    assert_eq!(Bpdu::bpdu_mac(), MacAddr(0x01, 0x80, 0xc2, 0x00, 0x00, 0x00));
}

#[test]
fn new_and_getters() {
    let bpdu = Bpdu::new(7, ROOT, BRIDGE);
    assert_eq!(bpdu.cost(), 7);
    assert_eq!(bpdu.root_id(), ROOT);
    assert_eq!(bpdu.bridge_id(), BRIDGE);
    assert_eq!(bpdu, Bpdu { root_cost: 7, root_id: ROOT, bridge_id: BRIDGE });
}

#[test]
fn sizes_on_the_wire() {
    assert_eq!(RECORD_LEN, 13);
    assert_eq!(PACKET_LEN, 27);
}

#[test]
fn make_buf_is_zeroed_and_sized_for_one_frame() {
    let buf = Bpdu::make_buf();
    assert_eq!(buf.0, vec![0u8; 27]);
}

#[test]
fn to_bytes_lays_the_record_out() {
    let bpdu = Bpdu::new(3, ROOT, BRIDGE);
    assert_eq!(
        bpdu.to_bytes(),
        [3, 0x02, 0, 0, 0, 0, 0x01, 0x02, 0, 0, 0, 0, 0x03]
    );
}

#[test]
fn from_bytes_reads_the_record_back() {
    let bytes = [255u8, 1, 2, 3, 4, 5, 6, 7, 8, 9, 10, 11, 12];
    let bpdu = Bpdu::from_bytes(&bytes);
    assert_eq!(bpdu.cost(), 255);
    assert_eq!(bpdu.root_id(), MacAddr(1, 2, 3, 4, 5, 6));
    assert_eq!(bpdu.bridge_id(), MacAddr(7, 8, 9, 10, 11, 12));
    assert_eq!(bpdu.to_bytes(), bytes);
}

#[test]
fn make_packet_writes_the_frame() {
    let bpdu = Bpdu::new(1, ROOT, BRIDGE);
    let mut buf = Bpdu::make_buf();
    bpdu.make_packet(&mut buf, SENDER);
    let expected: Vec<u8> = vec![
        0x01, 0x80, 0xc2, 0x00, 0x00, 0x00, // destination
        0x0a, 0x0b, 0x0c, 0x0d, 0x0e, 0x0f, // source
        0x00, 0x00, // ethertype
        0x01, // cost
        0x02, 0x00, 0x00, 0x00, 0x00, 0x01, // root
        0x02, 0x00, 0x00, 0x00, 0x00, 0x03, // bridge
    ];
    assert_eq!(buf.0, expected);
}

#[test]
fn make_packet_leaves_the_ethertype_alone() {
    let bpdu = Bpdu::new(9, BRIDGE, ROOT);
    let mut buf = BpduBuf(vec![0xee; 27]);
    bpdu.make_packet(&mut buf, SENDER);
    assert_eq!(&buf.0[0..6], &[0x01, 0x80, 0xc2, 0x00, 0x00, 0x00]);
    assert_eq!(&buf.0[6..12], &[0x0a, 0x0b, 0x0c, 0x0d, 0x0e, 0x0f]);
    assert_eq!(&buf.0[12..14], &[0xee, 0xee]);
    assert_eq!(&buf.0[14..], &bpdu.to_bytes());
}

#[test]
fn the_buffer_is_reused_across_announcements() {
    let mut buf = Bpdu::make_buf();
    Bpdu::new(1, ROOT, BRIDGE).make_packet(&mut buf, SENDER);
    let second = Bpdu::new(2, BRIDGE, ROOT);
    second.make_packet(&mut buf, ROOT);
    assert_eq!(buf.0.len(), 27);
    assert_eq!(EthPort::try_routing(&buf.0), Some(second));
    assert_eq!(&buf.0[6..12], &ROOT.octets());
}

#[test]
fn decoding_undoes_encoding() {
    let samples = [
        Bpdu::new(0, ROOT, ROOT),
        Bpdu::new(1, ROOT, BRIDGE),
        Bpdu::new(255, MacAddr::broadcast(), MacAddr(0, 0, 0, 0, 0, 0)),
        Bpdu::new(128, MacAddr(1, 2, 3, 4, 5, 6), MacAddr(7, 8, 9, 10, 11, 12)),
    ];
    let mut buf = Bpdu::make_buf();
    for bpdu in samples.iter() {
        bpdu.make_packet(&mut buf, SENDER);
        assert_eq!(EthPort::try_routing(&buf.0), Some(*bpdu));
    }
}

#[test]
fn try_routing_takes_the_record_from_behind_the_header() {
    let frame: Vec<u8> = vec![
        0x01, 0x80, 0xc2, 0x00, 0x00, 0x00, 9, 9, 9, 9, 9, 9, 0x88, 0x99, 4, 1, 2, 3, 4, 5, 6, 7,
        8, 9, 10, 11, 12,
    ];
    assert_eq!(
        EthPort::try_routing(&frame),
        Some(Bpdu::new(4, MacAddr(1, 2, 3, 4, 5, 6), MacAddr(7, 8, 9, 10, 11, 12)))
    );
}

#[test]
fn try_routing_passes_host_frames_by() {
    let mut frame = vec![0u8; 60];
    frame[0..6].copy_from_slice(&[0xbb, 0, 0, 0, 0, 0x02]);
    frame[6..12].copy_from_slice(&[0xaa, 0, 0, 0, 0, 0x01]);
    assert_eq!(EthPort::try_routing(&frame), None);
    // One octet away from the group address is a host address.
    let mut near = vec![0u8; 27];
    near[0..6].copy_from_slice(&[0x01, 0x80, 0xc2, 0x00, 0x00, 0x01]);
    assert_eq!(EthPort::try_routing(&near), None);
    // The source address plays no part.
    let mut from_group = vec![0u8; 27];
    from_group[6..12].copy_from_slice(&[0x01, 0x80, 0xc2, 0x00, 0x00, 0x00]);
    assert_eq!(EthPort::try_routing(&from_group), None);
}

#[test]
fn preference_goes_by_root_then_cost() {
    let best = Bpdu::new(9, ROOT, BRIDGE);
    let near = Bpdu::new(1, BRIDGE, BRIDGE);
    let far = Bpdu::new(2, BRIDGE, ROOT);
    assert!(best.lt(&near));
    assert!(!near.lt(&best));
    assert!(near.lt(&far));
    assert!(!far.lt(&near));
    assert!(best.lt(&far));
    assert!(!best.lt(&best));
    // The bridge takes no part in the order.
    let twin = Bpdu::new(1, BRIDGE, ROOT);
    assert!(!near.lt(&twin));
    assert!(!twin.lt(&near));
}

#[test]
fn judge_names_each_case() {
    let held = Bpdu::new(3, BRIDGE, BRIDGE);
    assert_eq!(held.judge(&Bpdu::new(200, ROOT, ROOT)), Verdict::BetterRoot);
    assert_eq!(
        held.judge(&Bpdu::new(0, MacAddr(0x02, 0, 0, 0, 0, 0x05), ROOT)),
        Verdict::WorseRoot
    );
    assert_eq!(held.judge(&Bpdu::new(1, BRIDGE, ROOT)), Verdict::ShorterPath);
    assert_eq!(held.judge(&Bpdu::new(2, BRIDGE, ROOT)), Verdict::TiedPath);
    assert_eq!(held.judge(&Bpdu::new(3, BRIDGE, ROOT)), Verdict::Downstream);
    assert_eq!(held.judge(&Bpdu::new(255, BRIDGE, ROOT)), Verdict::Downstream);
}

#[test]
fn judge_counts_the_extra_hop_without_wrapping() {
    // 255 + 1 is more than any cost that can be held, also the largest.
    let held = Bpdu::new(255, ROOT, ROOT);
    assert_eq!(held.judge(&Bpdu::new(255, ROOT, BRIDGE)), Verdict::Downstream);
    assert_eq!(held.judge(&Bpdu::new(254, ROOT, BRIDGE)), Verdict::TiedPath);
    assert_eq!(held.judge(&Bpdu::new(253, ROOT, BRIDGE)), Verdict::ShorterPath);
    let at_root = Bpdu::new(0, ROOT, ROOT);
    assert_eq!(at_root.judge(&Bpdu::new(0, ROOT, BRIDGE)), Verdict::Downstream);
}
