use sting::{classify_frame, handle_beacon, handle_frame, Catalog, Security};

const RSN_NO_SAE: [u8; 20] = [
    48, 18, 0x01, 0x00, 0x00, 0x0F, 0xAC, 0x04, 0x01, 0x00, 0x00, 0x0F, 0xAC, 0x04, 0x01, 0x00,
    0x00, 0x0F, 0xAC, 0x02,
];
const RSN_SAE: [u8; 20] = [
    48, 18, 0x01, 0x00, 0x00, 0x0F, 0xAC, 0x04, 0x01, 0x00, 0x00, 0x0F, 0xAC, 0x04, 0x01, 0x00,
    0x00, 0x0F, 0xAC, 0x08,
];
const WPA_VENDOR: [u8; 8] = [221, 6, 0x00, 0x50, 0xF2, 0x01, 0x01, 0x00];

fn beacon_frame(ssid: &str, elements: &[u8]) -> Vec<u8> {
    let mut f = vec![0x80, 0x00, 0x00, 0x00];
    f.extend_from_slice(&[0xFF; 6]);
    f.extend_from_slice(&[0x02, 0x11, 0x22, 0x33, 0x44, 0x55]);
    f.extend_from_slice(&[0x02, 0x11, 0x22, 0x33, 0x44, 0x55]);
    f.extend_from_slice(&[0x10, 0x00]);
    f.extend_from_slice(&[0u8; 8]);
    f.extend_from_slice(&[0x64, 0x00]);
    f.extend_from_slice(&[0x11, 0x04]);
    f.push(0);
    f.push(ssid.len() as u8);
    f.extend_from_slice(ssid.as_bytes());
    f.extend_from_slice(elements);
    f
}

fn reported(r: Option<sting::Report>) -> Option<(String, Security)> {
    r.map(|rep| (rep.name, rep.security))
}

#[test]
fn cafenet_with_sae_is_wpa3() {
    let mut c = Catalog::new();
    let r = handle_beacon(&mut c, Some("CafeNet"), &RSN_SAE);
    assert_eq!(reported(r), Some(("CafeNet".to_string(), Security::Wpa3)));
}

#[test]
fn guest_without_security_elements_is_open() {
    let mut c = Catalog::new();
    let r = handle_beacon(&mut c, Some("Guest"), &[1, 2, 0x82, 0x84]);
    assert_eq!(reported(r), Some(("Guest".to_string(), Security::Open)));
}

#[test]
fn office_with_rsn_and_wpa_is_mixed() {
    let mut c = Catalog::new();
    let mut body = RSN_NO_SAE.to_vec();
    body.extend_from_slice(&WPA_VENDOR);
    let r = handle_beacon(&mut c, Some("Office"), &body);
    assert_eq!(reported(r), Some(("Office".to_string(), Security::WpaWpa2Mixed)));
}

#[test]
fn office_twice_is_reported_once() {
    let mut c = Catalog::new();
    assert!(handle_beacon(&mut c, Some("Office"), &RSN_NO_SAE).is_some());
    assert!(handle_beacon(&mut c, Some("Office"), &RSN_NO_SAE).is_none());
    assert!(!c.observe("Office"));
}

#[test]
fn truncated_rsn_classified_from_earlier_elements() {
    let mut c = Catalog::new();
    let mut body = WPA_VENDOR.to_vec();
    body.extend_from_slice(&[48, 250]);
    body.extend_from_slice(&[0u8; 10]);
    let r = handle_beacon(&mut c, Some("Trunc"), &body);
    assert_eq!(reported(r), Some(("Trunc".to_string(), Security::Wpa)));
}

#[test]
fn beacon_without_name_is_dropped() {
    let mut c = Catalog::new();
    assert!(handle_beacon(&mut c, None, &RSN_SAE).is_none());
    assert!(handle_beacon(&mut c, Some(""), &RSN_SAE).is_none());
    assert!(!c.contains(""));
}

#[test]
fn raw_cafenet_beacon_is_wpa3() {
    let mut c = Catalog::new();
    let r = handle_frame(&mut c, &beacon_frame("CafeNet", &RSN_SAE));
    assert_eq!(reported(r), Some(("CafeNet".to_string(), Security::Wpa3)));
    assert!(c.contains("CafeNet"));
}

#[test]
fn raw_guest_beacon_is_open() {
    let mut c = Catalog::new();
    let r = handle_frame(&mut c, &beacon_frame("Guest", &[1, 2, 0x82, 0x84]));
    assert_eq!(reported(r), Some(("Guest".to_string(), Security::Open)));
}

#[test]
fn raw_office_beacons_reported_once() {
    let mut c = Catalog::new();
    let mut body = RSN_NO_SAE.to_vec();
    body.extend_from_slice(&WPA_VENDOR);
    let frame = beacon_frame("Office", &body);
    let r = handle_frame(&mut c, &frame);
    assert_eq!(reported(r), Some(("Office".to_string(), Security::WpaWpa2Mixed)));
    assert!(handle_frame(&mut c, &frame).is_none());
}

#[test]
fn raw_truncated_beacon_keeps_earlier_flags() {
    let mut c = Catalog::new();
    let mut body = RSN_NO_SAE.to_vec();
    body.extend_from_slice(&[48, 250]);
    body.extend_from_slice(&[0u8; 10]);
    let r = handle_frame(&mut c, &beacon_frame("Cut", &body));
    assert_eq!(reported(r), Some(("Cut".to_string(), Security::Wpa2)));
}

#[test]
fn non_beacon_frames_are_dropped() {
    let mut c = Catalog::new();
    let mut probe_request = beacon_frame("Office", &RSN_SAE);
    probe_request[0] = 0x40;
    assert!(handle_frame(&mut c, &probe_request).is_none());
    assert!(handle_frame(&mut c, &[0x80, 0x00, 0x00]).is_none());
    assert!(handle_frame(&mut c, &[]).is_none());
    assert!(!c.contains("Office"));
}

#[test]
fn classify_frame_reads_name_and_label() {
    let mut body = RSN_NO_SAE.to_vec();
    body.extend_from_slice(&WPA_VENDOR);
    let r = classify_frame(&beacon_frame("Office", &body));
    assert_eq!(reported(r), Some(("Office".to_string(), Security::WpaWpa2Mixed)));
    let again = classify_frame(&beacon_frame("Office", &body));
    assert!(again.is_some());
}

#[test]
fn classify_frame_drops_hidden_and_foreign_frames() {
    assert!(classify_frame(&beacon_frame("", &RSN_SAE)).is_none());
    let mut probe_request = beacon_frame("Office", &RSN_SAE);
    probe_request[0] = 0x40;
    assert!(classify_frame(&probe_request).is_none());
}
