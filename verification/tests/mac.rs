use stp_rs::stp::mac::MacAddr;

#[test]
fn new_keeps_the_octets_in_order() {
    let mac = MacAddr::new(0x02, 0x11, 0x22, 0x33, 0x44, 0x55);
    assert_eq!(mac, MacAddr(0x02, 0x11, 0x22, 0x33, 0x44, 0x55));
    assert_eq!(mac.octets(), [0x02, 0x11, 0x22, 0x33, 0x44, 0x55]);
}

#[test]
fn from_octets_undoes_octets() {
    let octets = [0xde, 0xad, 0xbe, 0xef, 0x00, 0x01];
    let mac = MacAddr::from_octets(octets);
    assert_eq!(mac, MacAddr(0xde, 0xad, 0xbe, 0xef, 0x00, 0x01));
    assert_eq!(mac.octets(), octets);
}

#[test]
fn broadcast_is_all_ones() {
    assert_eq!(MacAddr::broadcast(), MacAddr(0xff, 0xff, 0xff, 0xff, 0xff, 0xff));
    assert_eq!(MacAddr::broadcast().to_u64(), 0xffff_ffff_ffff);
}

#[test]
fn to_u64_is_the_big_endian_value() {
    assert_eq!(MacAddr(0, 0, 0, 0, 0, 0).to_u64(), 0);
    assert_eq!(MacAddr(0, 0, 0, 0, 0, 1).to_u64(), 1);
    assert_eq!(MacAddr(0, 0, 0, 0, 1, 0).to_u64(), 0x100);
    assert_eq!(MacAddr(0x01, 0x80, 0xc2, 0, 0, 0).to_u64(), 0x0180_c200_0000);
    assert_eq!(MacAddr(0x02, 0x11, 0x22, 0x33, 0x44, 0x55).to_u64(), 0x0211_2233_4455);
}

#[test]
fn the_first_differing_octet_decides() {
    let low = MacAddr(0x02, 0x00, 0x00, 0x00, 0x00, 0xff);
    let high = MacAddr(0x02, 0x00, 0x00, 0x00, 0x01, 0x00);
    assert!(low.lt(&high));
    assert!(!high.lt(&low));
    assert!(MacAddr(0x01, 0xff, 0xff, 0xff, 0xff, 0xff).lt(&MacAddr(0x02, 0, 0, 0, 0, 0)));
    assert!(MacAddr(0, 0, 0, 0, 0, 1).lt(&MacAddr(0, 0, 0, 0, 0, 2)));
}

#[test]
fn no_address_precedes_itself() {
    let mac = MacAddr(0x02, 0x00, 0x00, 0x00, 0x00, 0x01);
    assert!(!mac.lt(&mac));
    assert!(!MacAddr::broadcast().lt(&MacAddr::broadcast()));
}

#[test]
fn the_order_is_the_numeric_one() {
    let samples = [
        MacAddr(0, 0, 0, 0, 0, 0),
        MacAddr(0, 0, 0, 0, 0, 1),
        MacAddr(0, 0, 0, 0, 1, 0),
        MacAddr(0, 0, 0, 1, 0, 0),
        MacAddr(0, 0, 1, 0, 0, 0),
        MacAddr(0, 1, 0, 0, 0, 0),
        MacAddr(1, 0, 0, 0, 0, 0),
        MacAddr(0x01, 0x80, 0xc2, 0, 0, 0),
        MacAddr(0x02, 0, 0, 0, 0, 0x01),
        MacAddr(0x02, 0, 0, 0, 0, 0x03),
        MacAddr(0xaa, 0xbb, 0xcc, 0xdd, 0xee, 0xff),
        MacAddr::broadcast(),
    ];
    for a in samples.iter() {
        for b in samples.iter() {
            assert_eq!(a.lt(b), a.to_u64() < b.to_u64());
            assert_eq!(a == b, a.to_u64() == b.to_u64());
        }
    }
}

#[test]
fn the_order_is_transitive_on_samples() {
    let a = MacAddr(0x02, 0, 0, 0, 0, 0x01);
    let b = MacAddr(0x02, 0, 0, 0, 0, 0x03);
    let c = MacAddr(0x02, 0, 0, 0, 0, 0x05);
    assert!(a.lt(&b));
    assert!(b.lt(&c));
    assert!(a.lt(&c));
}

#[test]
fn min_picks_the_smaller() {
    let a = MacAddr(0x02, 0, 0, 0, 0, 0x01);
    let b = MacAddr(0x02, 0, 0, 0, 0, 0x02);
    assert_eq!(a.min(b), a);
    assert_eq!(b.min(a), a);
    assert_eq!(a.min(a), a);
    assert_eq!(MacAddr::broadcast().min(b), b);
}
