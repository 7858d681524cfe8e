use vstd::prelude::*;
use crate::connection::{Connection, ConnectionConfig};
use crate::ident::{hex_digit_value, is_hex_digit};
use crate::text::{all_hex, hex_val, is_hex_char};

verus! {

/// Failures of Wake-on-LAN packet preparation and dispatch.
#[derive(Debug, Clone, PartialEq, Eq)]
pub enum WolError {
    InvalidMacAddress,
    MacNotFound,
    PacketCreation(String),
    SendFailed(String),
}

impl WolError {
    /// A short description of the failure.
    pub fn message(&self) -> (r: String)
        ensures
            self is InvalidMacAddress ==> r@ == "Invalid MAC address format"@,
            self is MacNotFound ==> r@ == "Could not resolve MAC address for host"@,
    {
        match self {
            WolError::InvalidMacAddress => String::from_str("Invalid MAC address format"),
            WolError::MacNotFound => String::from_str("Could not resolve MAC address for host"),
            WolError::PacketCreation(detail) => String::from_str("Failed to create magic packet: ")
                .concat(detail.as_str()),
            WolError::SendFailed(detail) => String::from_str("Failed to send packet: ").concat(
                detail.as_str(),
            ),
        }
    }
}

pub open spec fn is_mac_sep(c: char) -> bool {
    c == ':' || c == '-' || c == '.'
}

/// The characters of a MAC text with the accepted separators removed.
pub open spec fn mac_digits(s: Seq<char>) -> Seq<char>
    decreases s.len(),
{
    if s.len() == 0 {
        Seq::empty()
    } else {
        let rest = mac_digits(s.drop_last());
        if is_mac_sep(s.last()) {
            rest
        } else {
            rest.push(s.last())
        }
    }
}

/// Which MAC texts are well-formed, and the six bytes they denote:
/// after separator stripping, exactly twelve hexadecimal characters,
/// each adjacent pair one byte.
pub open spec fn spec_parse_mac(s: Seq<char>) -> Option<Seq<u8>> {
    let d = mac_digits(s);
    if d.len() == 12 && all_hex(d) {
        Some(Seq::new(6, |i: int| (hex_val(d[2 * i]) * 16 + hex_val(d[2 * i + 1])) as u8))
    } else {
        None
    }
}

/// Parses MAC text with `:`, `-` or `.` separators at any position,
/// or none at all.
#[verifier::rlimit(60)]
pub fn parse_mac_address(mac: &str) -> (r: Result<[u8; 6], WolError>)
    ensures
        match r {
            Ok(b) => spec_parse_mac(mac@) == Some(b@),
            Err(e) => spec_parse_mac(mac@) is None && e == WolError::InvalidMacAddress,
        },
{
    let len: usize = mac.unicode_len();
    let mut cleaned: Vec<char> = Vec::new();
    let mut k: usize = 0;
    while k < len
        invariant
            k <= len,
            len as int == mac@.len(),
            cleaned@ == mac_digits(mac@.subrange(0, k as int)),
        decreases len - k,
    {
        let c = mac.get_char(k);
        if !(c == ':' || c == '-' || c == '.') {
            cleaned.push(c);
        }
        k = k + 1;
        proof {
            assert(mac@.subrange(0, k as int).drop_last() == mac@.subrange(0, k as int - 1));
        }
    }
    proof {
        assert(mac@.subrange(0, len as int) == mac@);
    }
    if cleaned.len() != 12 {
        return Err(WolError::InvalidMacAddress);
    }
    let mut bytes: Vec<u8> = Vec::new();
    let mut i: usize = 0;
    while i < 6
        invariant
            i <= 6,
            cleaned@.len() == 12,
            cleaned@ == mac_digits(mac@),
            bytes@.len() == i,
            forall|j: int|
                0 <= j < i ==> is_hex_char(#[trigger] cleaned@[2 * j]) && is_hex_char(
                    cleaned@[2 * j + 1],
                ),
            forall|j: int|
                0 <= j < i ==> #[trigger] bytes@[j] == (hex_val(cleaned@[2 * j]) * 16 + hex_val(
                    cleaned@[2 * j + 1],
                )) as u8,
        decreases 6 - i,
    {
        let c1 = cleaned[2 * i];
        let c2 = cleaned[2 * i + 1];
        if !is_hex_digit(c1) || !is_hex_digit(c2) {
            return Err(WolError::InvalidMacAddress);
        }
        let b: u8 = hex_digit_value(c1) * 16 + hex_digit_value(c2);
        bytes.push(b);
        i = i + 1;
    }
    proof {
        assert(all_hex(cleaned@)) by {
            assert(forall|j: int| 0 <= j < 12 ==> is_hex_char(#[trigger] cleaned@[j])) by {
                assert(forall|j: int|
                    0 <= j < 12 && j % 2 == 0 ==> is_hex_char(#[trigger] cleaned@[j])) by {
                    assert(forall|j: int|
                        0 <= j < 12 && j % 2 == 0 ==> #[trigger] cleaned@[j] == cleaned@[2 * (j
                            / 2)] && 0 <= j / 2 < 6);
                }
                assert(forall|j: int|
                    0 <= j < 12 && j % 2 == 1 ==> is_hex_char(#[trigger] cleaned@[j])) by {
                    assert(forall|j: int|
                        0 <= j < 12 && j % 2 == 1 ==> #[trigger] cleaned@[j] == cleaned@[2 * ((j
                            - 1) / 2) + 1] && 0 <= (j - 1) / 2 < 6);
                }
            }
        }
    }
    let out: [u8; 6] = [bytes[0], bytes[1], bytes[2], bytes[3], bytes[4], bytes[5]];
    proof {
        let d = mac_digits(mac@);
        assert(out@ =~= Seq::new(6, |i: int| (hex_val(d[2 * i]) * 16 + hex_val(d[2 * i + 1])) as u8));
    }
    Ok(out)
}

/// The standard 102-byte magic packet: six `0xFF` bytes, then the
/// six MAC bytes repeated sixteen times.
pub open spec fn spec_magic_packet(mac: Seq<u8>) -> Seq<u8> {
    Seq::new(102, |i: int| if i < 6 { 0xffu8 } else { mac[(i - 6) % 6] })
}

proof fn lemma_rep_index(r: int, j: int)
    requires
        0 <= r,
        0 <= j < 6,
    ensures
        (6 * r + j) % 6 == j,
{
    assert((6 * r + j) % 6 == j) by (nonlinear_arith)
        requires
            0 <= r,
            0 <= j < 6,
    ;
}

/// The magic-packet layout, stated byte by byte.
pub proof fn lemma_magic_packet_layout(mac: Seq<u8>)
    requires
        mac.len() == 6,
    ensures
        spec_magic_packet(mac).len() == 102,
        forall|i: int| 0 <= i < 6 ==> spec_magic_packet(mac)[i] == 0xff,
        forall|r: int, j: int|
            0 <= r < 16 && 0 <= j < 6 ==> #[trigger] spec_magic_packet(mac)[6 + 6 * r + j]
                == mac[j],
{
    assert forall|r: int, j: int|
        0 <= r < 16 && 0 <= j < 6 implies #[trigger] spec_magic_packet(mac)[6 + 6 * r + j]
        == mac[j] by {
        lemma_rep_index(r, j);
        assert(0 <= 6 * r + j && 6 + 6 * r + j < 102) by (nonlinear_arith)
            requires
                0 <= r < 16,
                0 <= j < 6,
        ;
    }
}

/// Builds the 102-byte magic packet for the given MAC bytes.
pub fn build_magic_packet(mac: &[u8; 6]) -> (r: Vec<u8>)
    ensures
        r@ == spec_magic_packet(mac@),
{
    let ghost target = spec_magic_packet(mac@);
    let mut out: Vec<u8> = Vec::new();
    let mut i: usize = 0;
    while i < 6
        invariant
            i <= 6,
            out@ =~= target.subrange(0, i as int),
            target == spec_magic_packet(mac@),
        decreases 6 - i,
    {
        out.push(0xff);
        i = i + 1;
        proof {
            assert(out@ =~= target.subrange(0, i as int));
        }
    }
    let mut rep: usize = 0;
    while rep < 16
        invariant
            rep <= 16,
            out@.len() == 6 + 6 * rep,
            out@ =~= target.subrange(0, 6 + 6 * rep as int),
            target == spec_magic_packet(mac@),
        decreases 16 - rep,
    {
        let mut j: usize = 0;
        while j < 6
            invariant
                j <= 6,
                rep < 16,
                out@.len() == 6 + 6 * rep + j,
                out@ =~= target.subrange(0, 6 + 6 * rep as int + j as int),
                target == spec_magic_packet(mac@),
            decreases 6 - j,
        {
            out.push(mac[j]);
            j = j + 1;
            proof {
                lemma_rep_index(rep as int, j as int - 1);
                assert(target[6 + 6 * rep as int + j as int - 1] == mac@[j as int - 1]);
                assert(out@ =~= target.subrange(0, 6 + 6 * rep as int + j as int));
            }
        }
        rep = rep + 1;
    }
    proof {
        assert(target.subrange(0, 102) == target);
    }
    out
}

/// A prepared Wake-on-LAN dispatch: the datagram payload and the
/// `address:port` text of its destination.
#[derive(Debug, Clone)]
pub struct WolPacket {
    pub payload: Vec<u8>,
    pub target: String,
}

/// Prepares the magic packet for MAC text, addressed to
/// `broadcast:9`, or `255.255.255.255:9` when no broadcast address
/// is given. Handing the datagram to the network is the caller's
/// part.
pub fn send_wol_packet(mac_address: &str, broadcast_addr: Option<&str>) -> (r: Result<
    WolPacket,
    WolError,
>)
    ensures
        match r {
            Ok(p) => {
                &&& spec_parse_mac(mac_address@) matches Some(b) && p.payload@ == spec_magic_packet(
                    b,
                )
                &&& match broadcast_addr {
                    Some(b) => p.target@ == b@ + ":9"@,
                    None => p.target@ == "255.255.255.255:9"@,
                }
            },
            Err(e) => spec_parse_mac(mac_address@) is None && e == WolError::InvalidMacAddress,
        },
{
    let mac_bytes = match parse_mac_address(mac_address) {
        Ok(b) => b,
        Err(e) => {
            return Err(e);
        },
    };
    let payload = build_magic_packet(&mac_bytes);
    let target = match broadcast_addr {
        Some(b) => String::from_str(b).concat(":9"),
        None => String::from_str("255.255.255.255:9"),
    };
    Ok(WolPacket { payload, target })
}

/// Why a wake request was refused before any packet was prepared.
#[derive(Debug, Clone, PartialEq, Eq)]
pub enum WakeError {
    NotSshConnection,
    WolNotEnabled,
    NoMacConfigured,
    InvalidMac,
}

impl WakeError {
    /// A short description distinguishing the refusals.
    pub fn message(&self) -> (r: String)
        ensures
            self is NotSshConnection ==> r@ == "Wake-on-LAN is only supported for SSH connections"@,
            self is WolNotEnabled ==> r@ == "Wake-on-LAN is not enabled for this connection"@,
            self is NoMacConfigured ==> r@ == "No MAC address configured"@,
            self is InvalidMac ==> r@ == "Invalid MAC address format"@,
    {
        match self {
            WakeError::NotSshConnection => String::from_str(
                "Wake-on-LAN is only supported for SSH connections",
            ),
            WakeError::WolNotEnabled => String::from_str(
                "Wake-on-LAN is not enabled for this connection",
            ),
            WakeError::NoMacConfigured => String::from_str("No MAC address configured"),
            WakeError::InvalidMac => String::from_str("Invalid MAC address format"),
        }
    }
}

/// Applies the wake gating rules to a connection and prepares its
/// packet: the connection must be an SSH endpoint, Wake-on-LAN must
/// be enabled on it, and a well-formed MAC address must be
/// configured.
pub fn wol_packet_for_connection(conn: &Connection) -> (r: Result<WolPacket, WakeError>)
    ensures
        match r {
            Ok(p) => {
                &&& conn.config matches ConnectionConfig::Ssh {
                    wol_enabled: true,
                    mac_address: Some(m),
                    broadcast_addr,
                    ..
                }
                &&& {
                    let m = conn_mac(conn.config);
                    &&& spec_parse_mac(m@) matches Some(b) && p.payload@ == spec_magic_packet(b)
                    &&& match conn_broadcast(conn.config) {
                        Some(b) => p.target@ == b@ + ":9"@,
                        None => p.target@ == "255.255.255.255:9"@,
                    }
                }
            },
            Err(WakeError::NotSshConnection) => conn.config matches ConnectionConfig::Website {
                ..
            },
            Err(WakeError::WolNotEnabled) => conn.config matches ConnectionConfig::Ssh {
                wol_enabled: false,
                ..
            },
            Err(WakeError::NoMacConfigured) => conn.config matches ConnectionConfig::Ssh {
                wol_enabled: true,
                mac_address: None,
                ..
            },
            Err(WakeError::InvalidMac) => conn.config matches ConnectionConfig::Ssh {
                wol_enabled: true,
                mac_address: Some(m),
                ..
            } && spec_parse_mac(conn_mac(conn.config)@) is None,
        },
{
    match &conn.config {
        ConnectionConfig::Ssh { wol_enabled, mac_address, broadcast_addr, .. } => {
            if !*wol_enabled {
                return Err(WakeError::WolNotEnabled);
            }
            let mac = match mac_address {
                Some(m) => m,
                None => {
                    return Err(WakeError::NoMacConfigured);
                },
            };
            let broadcast: Option<&str> = match broadcast_addr {
                Some(b) => Some(b.as_str()),
                None => None,
            };
            match send_wol_packet(mac.as_str(), broadcast) {
                Ok(p) => Ok(p),
                Err(_) => Err(WakeError::InvalidMac),
            }
        },
        ConnectionConfig::Website { .. } => Err(WakeError::NotSshConnection),
    }
}

/// The configured MAC text of an SSH connection.
pub open spec fn conn_mac(config: ConnectionConfig) -> String
    recommends
        config matches ConnectionConfig::Ssh { mac_address: Some(..), .. },
{
    config->Ssh_mac_address->0
}

/// The configured broadcast address of an SSH connection.
pub open spec fn conn_broadcast(config: ConnectionConfig) -> Option<String>
    recommends
        config is Ssh,
{
    config->Ssh_broadcast_addr
}

} // verus!
