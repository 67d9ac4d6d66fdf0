use ersatz::error::Error;
use ersatz::ethernet;
use ersatz::interface;
use ersatz::ipv4;
use ersatz::netinfo::{
    address_of, default_route, interface_of, mac_address_of, nic_from, IpAdapterIndexMap,
    IpAdapterInfo, IpAdapterName, IpAddrRow, IpForwardRow, IpForwardTable, IpInterfaceInfo,
    IpAddrTable, NIC,
};
use ersatz::ping;
use ersatz::vls::VLS;

fn route(dest: [u8; 4], hop: [u8; 4], if_index: u32) -> IpForwardRow {
    IpForwardRow {
        dest: ipv4::Addr(dest),
        mask: ipv4::Addr([0, 0, 0, 0]),
        policy: 0,
        next_hop: ipv4::Addr(hop),
        if_index,
    }
}

fn name(s: &str) -> IpAdapterName {
    let mut units: Vec<u16> = s.encode_utf16().collect();
    units.resize(128, 0);
    IpAdapterName(units)
}

#[test]
fn default_route_is_the_first_to_zero() {
    let table = IpForwardTable {
        entries: vec![route([10, 0, 0, 0], [0, 0, 0, 0], 3), route([0, 0, 0, 0], [10, 0, 0, 1], 7), route([0, 0, 0, 0], [10, 0, 0, 9], 8)],
    };
    let r = default_route(table.entries()).unwrap();
    assert_eq!(r.next_hop, ipv4::Addr([10, 0, 0, 1]));
    assert_eq!(r.if_index, 7);
    assert_eq!(default_route(&table.entries()[..1]).err(), Some(Error::DefaultRouteMissing));
}

#[test]
fn interface_address_and_mac_lookups() {
    let info = IpInterfaceInfo {
        adapter: vec![
            IpAdapterIndexMap { index: 3, name: name("\\DEVICE\\TCPIP_{OTHER}") },
            IpAdapterIndexMap { index: 7, name: name("\\DEVICE\\TCPIP_{1234-ABCD}") },
        ],
    };
    let i = interface_of(info.adapters(), 7).unwrap();
    assert_eq!(i.index, 7);
    assert_eq!(interface_of(info.adapters(), 9).err(), Some(Error::DefaultInterfaceMissing));
    assert_eq!(i.name.to_string(), "\\DEVICE\\TCPIP_{1234-ABCD}");

    let rows = IpAddrTable {
        entries: vec![IpAddrRow {
            addr: ipv4::Addr([10, 0, 0, 5]),
            index: 7,
            mask: ipv4::Addr([255, 255, 255, 0]),
            bcast_addr: ipv4::Addr([10, 0, 0, 255]),
            reasm_size: 65535,
        }],
    };
    assert_eq!(address_of(rows.entries(), 7), Ok(ipv4::Addr([10, 0, 0, 5])));
    assert_eq!(address_of(rows.entries(), 3).err(), Some(Error::DefaultInterfaceNoIPAddr));

    let adapters = vec![
        IpAdapterInfo { combo_index: 0, address_length: 8, address: ethernet::Addr([9; 6]), address_rest: 0, index: 7, adapter_type: 6 },
        IpAdapterInfo { combo_index: 1, address_length: 6, address: ethernet::Addr([2; 6]), address_rest: 0, index: 7, adapter_type: 6 },
    ];
    assert!(mac_address_of(&adapters, 7).unwrap() == ethernet::Addr([2; 6]));
    assert_eq!(mac_address_of(&adapters, 3).err(), Some(Error::DefaultInterfaceNoMACAddr));
}

#[test]
fn nic_guid_from_the_name() {
    let r = route([0, 0, 0, 0], [10, 0, 0, 1], 7);
    let i = IpAdapterIndexMap { index: 7, name: name("\\DEVICE\\TCPIP_{1234-ABCD}") };
    let nic: NIC = nic_from(r, &i, ipv4::Addr([10, 0, 0, 5]), ethernet::Addr([2; 6])).unwrap();
    assert_eq!(nic.guid, "{1234-ABCD}");
    assert_eq!(nic.gateway, ipv4::Addr([10, 0, 0, 1]));
    assert_eq!(nic.address, ipv4::Addr([10, 0, 0, 5]));
    let plain = IpAdapterIndexMap { index: 7, name: name("no guid") };
    assert_eq!(
        nic_from(r, &plain, ipv4::Addr([10, 0, 0, 5]), ethernet::Addr([2; 6])).err().map(|e| e),
        Some(Error::DefaultInterfaceUnidentified)
    );
    // A surrogate pair is one character; a lone surrogate reads as U+FFFD.
    let mut units: Vec<u16> = "x{".encode_utf16().collect();
    units.extend_from_slice(&[0xD83D, 0xDE00, 0xD800, 0x41, 0, 0]);
    let i = IpAdapterIndexMap { index: 7, name: IpAdapterName(units) };
    assert_eq!(i.name.to_string(), "x{\u{1F600}\u{FFFD}A");
    let nic = nic_from(r, &i, ipv4::Addr([1, 1, 1, 1]), ethernet::Addr([2; 6])).unwrap();
    assert_eq!(nic.guid, "{\u{1F600}\u{FFFD}A");
}

#[test]
fn variable_length_structures() {
    let buf = VLS::<u32>::buffer_for(122, 5).unwrap();
    assert_eq!(buf, vec![0; 5]);
    assert_eq!(VLS::<u32>::buffer_for(111, 0).unwrap(), Vec::<u8>::new());
    assert_eq!(VLS::<u32>::buffer_for(0, 5).err(), Some(Error::Win32(0)));
    assert_eq!(VLS::<u32>::buffer_for(5, 5).err(), Some(Error::Win32(5)));
    let v = VLS::<u32>::new(vec![1, 2, 3], 0).ok().unwrap();
    assert_eq!(v.as_bytes(), &[1, 2, 3]);
    assert_eq!(VLS::<u32>::new(vec![1], 87).err().map(|e| e), Some(Error::Win32(87)));
}

#[test]
fn ping_outcomes() {
    assert_eq!(ping::icmp::ping(0), Err("icmp_send_echo failed".to_string()));
    assert_eq!(ping::icmp::ping(1), Ok(()));
    assert_eq!(ping::icmp::reply_buffer_size(28, 11), 47);
}

#[test]
fn gateway_reply_is_found() {
    let gw_ip = ipv4::Addr([10, 0, 0, 1]);
    let gw_mac = ethernet::Addr([0xAA, 0xBB, 0xCC, 0xDD, 0xEE, 0xFF]);
    let reply = ersatz::arp::Packet {
        operation: ersatz::arp::Operation::Reply,
        sender_hw_addr: gw_mac,
        sender_ip_addr: gw_ip,
        target_hw_addr: ethernet::Addr([2; 6]),
        target_ip_addr: ipv4::Addr([10, 0, 0, 5]),
    };
    let frame = ethernet::Frame {
        dst: ethernet::Addr([2; 6]),
        src: gw_mac,
        ether_type: None,
        payload: reply.as_ethernet_payload(),
    };
    let mut bytes = Vec::new();
    frame.serialize(&mut bytes);
    assert!(interface::gateway_mac_from(&bytes, gw_ip).unwrap() == gw_mac);
    assert!(interface::gateway_mac_from(&bytes, ipv4::Addr([10, 0, 0, 2])).is_none());
    assert!(interface::gateway_mac_from(&bytes[..20], gw_ip).is_none());
}

#[test]
fn echo_request_settings() {
    assert_eq!(ping::icmp::echo_data(), b"Foo Bar Baz".to_vec());
    assert_eq!(ping::icmp::request_size(11), 11);
    assert_eq!(ping::icmp::request_size(65537), 1);
    assert_eq!(ping::icmp::ECHO_TIMEOUT_MS, 4000);
}
