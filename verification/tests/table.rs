use stp_rs::stp::mac::MacAddr;
use stp_rs::stp::table::FwdTable;

const HOST: MacAddr = MacAddr(0xaa, 0, 0, 0, 0, 0x01);
const OTHER: MacAddr = MacAddr(0xaa, 0, 0, 0, 0x01, 0x00);

#[test]
fn a_new_table_knows_nobody() {
    let table = FwdTable::new();
    assert_eq!(table.lookup(HOST), None);
    assert_eq!(table.lookup(MacAddr::broadcast()), None);
    assert_eq!(table.lookup(MacAddr(0, 0, 0, 0, 0, 0)), None);
}

#[test]
fn what_was_learnt_is_found() {
    let mut table = FwdTable::new();
    table.learn(HOST, 3);
    assert_eq!(table.lookup(HOST), Some(3));
    assert_eq!(table.lookup(OTHER), None);
    table.learn(OTHER, 0);
    assert_eq!(table.lookup(HOST), Some(3));
    assert_eq!(table.lookup(OTHER), Some(0));
}

#[test]
fn learning_again_changes_nothing_and_elsewhere_overwrites() {
    let mut table = FwdTable::new();
    table.learn(HOST, 1);
    table.learn(HOST, 1);
    assert_eq!(table.lookup(HOST), Some(1));
    table.learn(HOST, 2);
    assert_eq!(table.lookup(HOST), Some(2));
    table.learn(HOST, usize::MAX);
    assert_eq!(table.lookup(HOST), Some(usize::MAX));
}

#[test]
fn addresses_that_differ_in_one_octet_are_kept_apart() {
    let mut table = FwdTable::new();
    for last in 0..=255u8 {
        table.learn(MacAddr(0x02, 0, 0, 0, 0, last), last as usize);
        table.learn(MacAddr(last, 0, 0, 0, 0, 0x02), 1_000 + last as usize);
    }
    for last in 0..=255u8 {
        if last != 0x02 {
            assert_eq!(table.lookup(MacAddr(0x02, 0, 0, 0, 0, last)), Some(last as usize));
            assert_eq!(table.lookup(MacAddr(last, 0, 0, 0, 0, 0x02)), Some(1_000 + last as usize));
        }
    }
    // The one address that both loops wrote: the later write stands.
    assert_eq!(table.lookup(MacAddr(0x02, 0, 0, 0, 0, 0x02)), Some(1_002));
}
