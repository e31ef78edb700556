//! Tests of MAC address construction, text formatting and parsing.

use nb2::MacAddr;

#[test]
fn mac_addr_to_string() {
    assert_eq!(
        "00:00:00:00:00:00",
        MacAddr::new(0, 0, 0, 0, 0, 0).to_string()
    );
    assert_eq!(
        "ff:ff:ff:ff:ff:ff",
        MacAddr::new(255, 255, 255, 255, 255, 255).to_string()
    );
    assert_eq!(
        "12:34:56:ab:cd:ef",
        MacAddr::new(0x12, 0x34, 0x56, 0xAB, 0xCD, 0xEF).to_string()
    );
}

#[test]
fn string_to_mac_addr() {
    assert_eq!(
        MacAddr::new(0, 0, 0, 0, 0, 0),
        "00:00:00:00:00:00".parse().unwrap()
    );
    assert_eq!(
        MacAddr::new(255, 255, 255, 255, 255, 255),
        "ff:ff:ff:ff:ff:ff".parse().unwrap()
    );
    assert_eq!(
        MacAddr::new(0x12, 0x34, 0x56, 0xAB, 0xCD, 0xEF),
        "12:34:56:ab:cd:ef".parse().unwrap()
    );
}

#[test]
fn mac_addr_text_round_trip() {
    let mac = MacAddr::new(0x0a, 0x1b, 0x2c, 0x3d, 0x4e, 0x5f);
    let text = mac.to_string();
    assert_eq!("0a:1b:2c:3d:4e:5f", text);
    assert_eq!(mac, text.parse().unwrap());
}

#[test]
fn mac_addr_octets() {
    let mac = MacAddr::new(1, 2, 3, 4, 5, 6);
    assert_eq!([1, 2, 3, 4, 5, 6], mac.octets());
}

#[test]
fn string_to_mac_addr_accepts_dashes_and_loose_groups() {
    // dashes work as separators too
    assert_eq!(
        MacAddr::new(0x12, 0x34, 0x56, 0xAB, 0xCD, 0xEF),
        "12-34-56-ab-cd-ef".parse().unwrap()
    );
    // groups that do not parse as a hexadecimal byte are passed over:
    // exactly six parsable groups still make an address
    assert_eq!(
        MacAddr::new(0x12, 0x34, 0x56, 0xAB, 0xCD, 0xEF),
        "12:34:56:ab:cd:ef:zz".parse::<MacAddr>().unwrap()
    );
}

#[test]
fn string_to_mac_addr_rejects_wrong_group_counts() {
    assert!("".parse::<MacAddr>().is_err());
    assert!("12:34:56:ab:cd".parse::<MacAddr>().is_err());
    assert!("12:34:56:ab:cd:ef:01".parse::<MacAddr>().is_err());
    assert!("1ff:34:56:ab:cd:ef".parse::<MacAddr>().is_err());
}
