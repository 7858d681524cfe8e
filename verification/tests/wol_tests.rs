use wakecore::connection::{Connection, ConnectionConfig};
use wakecore::ident::ConnectionId;
use wakecore::wol::{
    build_magic_packet, parse_mac_address, send_wol_packet, wol_packet_for_connection, WakeError,
    WolError,
};

fn ssh_connection(wol_enabled: bool, mac_address: Option<String>) -> Connection {
    Connection {
        id: ConnectionId::new(7),
        name: "server".to_string(),
        icon: None,
        icon_color: None,
        order: 0,
        config: ConnectionConfig::Ssh {
            host: "server.local".to_string(),
            port: 22,
            username: "admin".to_string(),
            wol_enabled,
            mac_address,
            broadcast_addr: None,
        },
        created_at: "2024-01-01T00:00:00+00:00".to_string(),
        updated_at: "2024-01-01T00:00:00+00:00".to_string(),
    }
}

#[test]
fn test_parse_mac_address() {
    // arrange
    let mac = "AA:BB:CC:DD:EE:FF";

    // act
    let result = parse_mac_address(mac);

    // assert
    assert!(result.is_ok());
    assert_eq!(result.unwrap(), [0xAA, 0xBB, 0xCC, 0xDD, 0xEE, 0xFF]);
}

#[test]
fn test_parse_mac_address_dashes() {
    // arrange
    let mac = "AA-BB-CC-DD-EE-FF";

    // act
    let result = parse_mac_address(mac);

    // assert
    assert!(result.is_ok());
}

#[test]
fn test_parse_mac_address_invalid() {
    // arrange
    let mac = "invalid";

    // act
    let result = parse_mac_address(mac);

    // assert
    assert!(result.is_err());
}

#[test]
fn test_parse_mac_address_dots_and_bare() {
    assert_eq!(
        parse_mac_address("AA.BB.CC.DD.EE.FF").unwrap(),
        [0xAA, 0xBB, 0xCC, 0xDD, 0xEE, 0xFF]
    );
    assert_eq!(
        parse_mac_address("aabbccddeeff").unwrap(),
        [0xAA, 0xBB, 0xCC, 0xDD, 0xEE, 0xFF]
    );
    assert_eq!(parse_mac_address("AA:BB:CC:DD:EE").unwrap_err(), WolError::InvalidMacAddress);
    assert_eq!(parse_mac_address("AA:BB:CC:DD:EE:FG").unwrap_err(), WolError::InvalidMacAddress);
    assert_eq!(parse_mac_address("").unwrap_err(), WolError::InvalidMacAddress);
}

#[test]
fn test_magic_packet_layout() {
    let mac = [0xAAu8, 0xBB, 0xCC, 0xDD, 0xEE, 0xFF];
    let packet = build_magic_packet(&mac);
    assert_eq!(packet.len(), 102);
    for i in 0..6 {
        assert_eq!(packet[i], 0xFF);
    }
    for rep in 0..16 {
        for j in 0..6 {
            assert_eq!(packet[6 + 6 * rep + j], mac[j]);
        }
    }
}

#[test]
fn test_send_wol_packet_targets() {
    let p = send_wol_packet("AA:BB:CC:DD:EE:FF", None).unwrap();
    assert_eq!(p.payload.len(), 102);
    assert_eq!(p.target, "255.255.255.255:9");

    let p = send_wol_packet("AA:BB:CC:DD:EE:FF", Some("192.168.1.255")).unwrap();
    assert_eq!(p.target, "192.168.1.255:9");

    assert_eq!(send_wol_packet("nope", None).unwrap_err(), WolError::InvalidMacAddress);
}

#[test]
fn test_wake_gating_not_enabled() {
    let conn = ssh_connection(false, Some("AA:BB:CC:DD:EE:FF".to_string()));
    let err = wol_packet_for_connection(&conn).unwrap_err();
    assert_eq!(err, WakeError::WolNotEnabled);
    assert_eq!(err.message(), "Wake-on-LAN is not enabled for this connection");
}

#[test]
fn test_wake_gating_no_mac() {
    let conn = ssh_connection(true, None);
    let err = wol_packet_for_connection(&conn).unwrap_err();
    assert_eq!(err, WakeError::NoMacConfigured);
    assert_eq!(err.message(), "No MAC address configured");
}

#[test]
fn test_wake_gating_not_ssh() {
    let mut conn = ssh_connection(true, Some("AA:BB:CC:DD:EE:FF".to_string()));
    conn.config = ConnectionConfig::Website { url: "http://example.com".to_string(), check_path: None };
    let err = wol_packet_for_connection(&conn).unwrap_err();
    assert_eq!(err, WakeError::NotSshConnection);
    assert_eq!(err.message(), "Wake-on-LAN is only supported for SSH connections");
}

#[test]
fn test_wake_gating_ok_and_invalid_mac() {
    let conn = ssh_connection(true, Some("AA:BB:CC:DD:EE:FF".to_string()));
    let p = wol_packet_for_connection(&conn).unwrap();
    assert_eq!(p.payload.len(), 102);
    assert_eq!(p.payload[6], 0xAA);
    assert_eq!(p.target, "255.255.255.255:9");

    let conn = ssh_connection(true, Some("not-a-mac".to_string()));
    assert_eq!(wol_packet_for_connection(&conn).unwrap_err(), WakeError::InvalidMac);
}

#[test]
fn test_wol_error_messages() {
    assert_eq!(WolError::InvalidMacAddress.message(), "Invalid MAC address format");
    assert_eq!(WolError::MacNotFound.message(), "Could not resolve MAC address for host");
    assert_eq!(
        WolError::PacketCreation("bad address".to_string()).message(),
        "Failed to create magic packet: bad address"
    );
    assert_eq!(
        WolError::SendFailed("unreachable".to_string()).message(),
        "Failed to send packet: unreachable"
    );
}
