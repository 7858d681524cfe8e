use vstd::prelude::*;
use crate::ident::ConnectionId;

verus! {

/// The protocol-specific part of a connection record: exactly one of
/// a website to request or an SSH endpoint to reach.
#[derive(Debug, Clone)]
pub enum ConnectionConfig {
    Website {
        url: String,
        check_path: Option<String>,
    },
    Ssh {
        host: String,
        port: u16,
        username: String,
        wol_enabled: bool,
        mac_address: Option<String>,
        broadcast_addr: Option<String>,
    },
}

/// A user-visible endpoint. `id` is unique across the stored set and
/// immutable after creation; `order` is only a sort hint.
#[derive(Debug, Clone)]
pub struct Connection {
    pub id: ConnectionId,
    pub name: String,
    pub icon: Option<String>,
    pub icon_color: Option<String>,
    pub order: i32,
    pub config: ConnectionConfig,
    pub created_at: String,
    pub updated_at: String,
}

/// Relies on `chrono::Utc::now` and `chrono::DateTime::to_rfc3339`:
/// the current time rendered as a non-empty RFC 3339 timestamp.
#[verifier::external_body]
pub(crate) fn now_rfc3339() -> (r: String)
    ensures
        r@.len() > 0,
{
    chrono::Utc::now().to_rfc3339()
}

/// Relies on `uuid::Uuid::new_v4` and `uuid::Uuid::as_u128`: a random
/// identifier whose version nibble is 4 and whose variant bits are
/// `10`, as RFC 9562 prescribes; nothing else is promised of it.
#[verifier::external_body]
pub(crate) fn fresh_id() -> (r: ConnectionId)
    ensures
        r.value & 0xF0000000000000000000u128 == 0x40000000000000000000u128,
        r.value & 0xC000000000000000u128 == 0x8000000000000000u128,
{
    ConnectionId { value: uuid::Uuid::new_v4().as_u128() }
}

pub fn clone_option_string(o: &Option<String>) -> (r: Option<String>)
    ensures
        r == *o,
{
    match o {
        Some(s) => Some(s.clone()),
        None => None,
    }
}

pub fn clone_config(c: &ConnectionConfig) -> (r: ConnectionConfig)
    ensures
        r == *c,
{
    match c {
        ConnectionConfig::Website { url, check_path } => ConnectionConfig::Website {
            url: url.clone(),
            check_path: clone_option_string(check_path),
        },
        ConnectionConfig::Ssh { host, port, username, wol_enabled, mac_address, broadcast_addr } => {
            ConnectionConfig::Ssh {
                host: host.clone(),
                port: *port,
                username: username.clone(),
                wol_enabled: *wol_enabled,
                mac_address: clone_option_string(mac_address),
                broadcast_addr: clone_option_string(broadcast_addr),
            }
        },
    }
}

pub fn clone_connection(c: &Connection) -> (r: Connection)
    ensures
        r == *c,
{
    Connection {
        id: c.id,
        name: c.name.clone(),
        icon: clone_option_string(&c.icon),
        icon_color: clone_option_string(&c.icon_color),
        order: c.order,
        config: clone_config(&c.config),
        created_at: c.created_at.clone(),
        updated_at: c.updated_at.clone(),
    }
}

impl Connection {
    /// A fresh record: a random identifier, no display hints, and
    /// matching creation and update timestamps.
    pub fn new(name: String, config: ConnectionConfig, order: i32) -> (r: Connection)
        ensures
            r.name == name,
            r.config == config,
            r.order == order,
            r.icon is None,
            r.icon_color is None,
            r.created_at == r.updated_at,
    {
        let now = now_rfc3339();
        let now_again = now.clone();
        Connection {
            id: fresh_id(),
            name,
            icon: None,
            icon_color: None,
            order,
            config,
            created_at: now,
            updated_at: now_again,
        }
    }
}

} // verus!
