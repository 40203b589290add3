use sting::{classify, Security, SecurityFlags};

#[test]
fn no_flag_is_open() {
    assert_eq!(classify(false, false, false), Security::Open);
}

#[test]
fn wpa_alone_is_wpa() {
    assert_eq!(classify(true, false, false), Security::Wpa);
}

#[test]
fn rsn_alone_is_wpa2() {
    assert_eq!(classify(false, true, false), Security::Wpa2);
}

#[test]
fn wpa_and_rsn_is_mixed() {
    assert_eq!(classify(true, true, false), Security::WpaWpa2Mixed);
}

#[test]
fn sae_dominates_every_other_flag() {
    for wpa in [false, true] {
        for rsn in [false, true] {
            assert_eq!(classify(wpa, rsn, true), Security::Wpa3);
        }
    }
}

#[test]
fn flags_classify_like_the_table() {
    let f = SecurityFlags { has_wpa: true, has_rsn: true, has_sae: false };
    assert_eq!(f.security(), Security::WpaWpa2Mixed);
    assert_eq!(SecurityFlags::new().security(), Security::Open);
}

#[test]
fn labels_read_as_reported() {
    assert_eq!(Security::Open.label(), "Open");
    assert_eq!(Security::Wpa.label(), "WPA");
    assert_eq!(Security::Wpa2.label(), "WPA2");
    assert_eq!(Security::WpaWpa2Mixed.label(), "WPA/WPA2-mixed");
    assert_eq!(Security::Wpa3.label(), "WPA3");
}
