use stp_rs::stp::iface::{contains, owns_interface};

#[test]
fn a_switch_owns_its_numbered_interfaces() {
    assert!(owns_interface("br7", "br7-eth0"));
    assert!(owns_interface("br7", "br7-eth1"));
    assert!(owns_interface("br7", "br7-eth12"));
    assert!(owns_interface("switch", "switch-eth3"));
}

#[test]
fn a_switch_does_not_own_other_interfaces() {
    assert!(!owns_interface("br7", "lo"));
    assert!(!owns_interface("br7", "eth0"));
    assert!(!owns_interface("br7", "br8-eth0"));
    assert!(!owns_interface("br7", "br77-eth0"));
    assert!(!owns_interface("br7", "br7-et"));
    assert!(!owns_interface("br7", "br7eth0"));
    assert!(!owns_interface("br7", ""));
}

#[test]
fn the_name_may_stand_anywhere() {
    assert!(owns_interface("br7", "xbr7-eth0"));
    assert!(owns_interface("7", "br7-eth0"));
    assert!(owns_interface("", "br7-eth0"));
    assert!(owns_interface("", "-eth"));
    assert!(!owns_interface("", "eth"));
}

#[test]
fn contains_finds_what_std_finds() {
    let haystacks = ["", "a", "ab", "br7-eth0", "aaab", "abcabcabd", "br7-br7-eth", "héllo-eth", "日本語-eth0"];
    let needles = ["", "a", "b", "ab", "aab", "abd", "br7-eth", "-eth", "eth0", "é", "本語", "語-e", "zz"];
    for haystack in haystacks.iter() {
        for needle in needles.iter() {
            assert_eq!(
                contains(haystack, needle),
                haystack.contains(needle),
                "{:?} in {:?}",
                needle,
                haystack
            );
        }
    }
}

#[test]
fn contains_handles_the_ends() {
    assert!(contains("abc", "abc"));
    assert!(contains("abc", "a"));
    assert!(contains("abc", "c"));
    assert!(contains("abc", "bc"));
    assert!(!contains("abc", "abcd"));
    assert!(!contains("abc", "ca"));
    assert!(contains("", ""));
    assert!(!contains("", "a"));
}
