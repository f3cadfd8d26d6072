use snap_marketplace::error::MarketError;
use snap_marketplace::listings::SearchFilter;
use snap_marketplace::network::{IpAddress, Subnet};

#[test]
fn subnets_in_cidr_notation() {
    assert_eq!(
        SearchFilter::new("10.1.0.0/16", 0, 0, 0).unwrap().subnet,
        Subnet::V4(0x0a01_0000, 16)
    );
    assert_eq!(
        SearchFilter::new("2001:db8::/32", 0, 0, 0).unwrap().subnet,
        Subnet::V6(0x2001_0db8 << 96, 32)
    );
    let message = SearchFilter::new("10.1.0.0/33", 0, 0, 0).unwrap_err().message();
    assert_eq!(message, "Invalid subnet '10.1.0.0/33'");
    assert!(matches!(
        SearchFilter::new("10.1.0.0", 0, 0, 0),
        Err(MarketError::InvalidSubnet { .. })
    ));
}

#[test]
fn subnets_hold_what_agrees_in_the_fixed_bits() {
    let net = Subnet::V4(0x0a01_0203, 16);
    assert!(net.contains(IpAddress::V4(0x0a01_ffff)));
    assert!(net.contains(IpAddress::V4(0x0a01_0000)));
    assert!(!net.contains(IpAddress::V4(0x0a02_0000)));
    assert!(!net.contains(IpAddress::V6(0x0a01_0203)));
    let one = Subnet::V6(5, 128);
    assert!(one.contains(IpAddress::V6(5)));
    assert!(!one.contains(IpAddress::V6(4)));
}

#[test]
fn a_subnet_without_fixed_bits_holds_all_of_its_kind() {
    assert!(Subnet::V4(0, 0).contains(IpAddress::V4(u32::MAX)));
    assert!(!Subnet::V4(0, 0).contains(IpAddress::V6(0)));
    assert!(Subnet::V6(0, 0).contains(IpAddress::V6(u128::MAX)));
}
