use vstd::prelude::*;
use crate::connection::{Connection, ConnectionConfig};
use crate::ident::{ConnectionId, parse_id_chars, lemma_id_roundtrip, lemma_pow16_32};
use crate::json::{Json, obj_get, obj_get_from, obj_get_exec};
use crate::text::{
    spec_parse_dec, spec_parse_i32, parse_u16_text, parse_i32_text, u16_to_string, i32_to_string,
    lemma_parse_dec_str, lemma_parse_i32_text, pow16,
};

verus! {

// Validation of one parsed JSON value against the connection record
// schema, and the rendering of a record back into such a value. A
// value is a valid record exactly when `conn_of_json` accepts it.

/// A required string field: present and a JSON string.
pub open spec fn req_str(f: Seq<(String, Json)>, key: Seq<char>) -> Option<String> {
    match obj_get(f, key) {
        Some(Json::Str(s)) => Some(s),
        _ => None,
    }
}

/// An optional string field: absent or `null` mean none; any other
/// non-string value is invalid.
pub open spec fn opt_str(f: Seq<(String, Json)>, key: Seq<char>) -> Option<Option<String>> {
    match obj_get(f, key) {
        Some(j) => match j {
            Json::Null => Some(None),
            Json::Str(s) => Some(Some(s)),
            _ => None,
        },
        None => Some(None),
    }
}

/// The identifier field: a string in an accepted identifier form.
pub open spec fn id_field(f: Seq<(String, Json)>) -> Option<ConnectionId> {
    match req_str(f, "id"@) {
        Some(s) => match parse_id_chars(s@) {
            Some(v) => Some(ConnectionId { value: v as u128 }),
            None => None,
        },
        None => None,
    }
}

/// The sort key: absent means zero; otherwise a number literal that
/// is a plain decimal in `i32` range.
pub open spec fn order_field(f: Seq<(String, Json)>) -> Option<i32> {
    match obj_get(f, "order"@) {
        Some(j) => match j {
            Json::Num(t) => match spec_parse_i32(t@) {
                Some(v) => Some(v as i32),
                None => None,
            },
            _ => None,
        },
        None => Some(0i32),
    }
}

/// The SSH port: a required number literal in `u16` range.
pub open spec fn port_field(f: Seq<(String, Json)>) -> Option<u16> {
    match obj_get(f, "port"@) {
        Some(j) => match j {
            Json::Num(t) => match spec_parse_dec(t@, 0xffff) {
                Some(v) => Some(v as u16),
                None => None,
            },
            _ => None,
        },
        None => None,
    }
}

/// The wake flag: absent means disabled.
pub open spec fn flag_field(f: Seq<(String, Json)>) -> Option<bool> {
    match obj_get(f, "wolEnabled"@) {
        Some(j) => match j {
            Json::Bool(b) => Some(b),
            _ => None,
        },
        None => Some(false),
    }
}

/// Validates the tagged `config` object.
pub open spec fn config_of_json(v: Json) -> Option<ConnectionConfig> {
    match v {
        Json::Obj(g) => match req_str(g@, "type"@) {
            Some(t) => if t@ == "website"@ {
                match req_str(g@, "url"@) {
                    Some(url) => match opt_str(g@, "checkPath"@) {
                        Some(check_path) => Some(ConnectionConfig::Website { url, check_path }),
                        None => None,
                    },
                    None => None,
                }
            } else if t@ == "ssh"@ {
                match req_str(g@, "host"@) {
                    Some(host) => match port_field(g@) {
                        Some(port) => match req_str(g@, "username"@) {
                            Some(username) => match flag_field(g@) {
                                Some(wol_enabled) => match opt_str(g@, "macAddress"@) {
                                    Some(mac_address) => match opt_str(g@, "broadcastAddr"@) {
                                        Some(broadcast_addr) => Some(ConnectionConfig::Ssh {
                                            host,
                                            port,
                                            username,
                                            wol_enabled,
                                            mac_address,
                                            broadcast_addr,
                                        }),
                                        None => None,
                                    },
                                    None => None,
                                },
                                None => None,
                            },
                            None => None,
                        },
                        None => None,
                    },
                    None => None,
                }
            } else {
                None
            },
            None => None,
        },
        _ => None,
    }
}

/// Validates one parsed JSON value as a connection record.
pub open spec fn conn_of_json(v: Json) -> Option<Connection> {
    match v {
        Json::Obj(f) => match id_field(f@) {
            Some(id) => match req_str(f@, "name"@) {
                Some(name) => match opt_str(f@, "icon"@) {
                    Some(icon) => match opt_str(f@, "iconColor"@) {
                        Some(icon_color) => match order_field(f@) {
                            Some(order) => match obj_get(f@, "config"@) {
                                Some(cv) => match config_of_json(cv) {
                                    Some(config) => match req_str(f@, "createdAt"@) {
                                        Some(created_at) => match req_str(f@, "updatedAt"@) {
                                            Some(updated_at) => Some(Connection {
                                                id,
                                                name,
                                                icon,
                                                icon_color,
                                                order,
                                                config,
                                                created_at,
                                                updated_at,
                                            }),
                                            None => None,
                                        },
                                        None => None,
                                    },
                                    None => None,
                                },
                                None => None,
                            },
                            None => None,
                        },
                        None => None,
                    },
                    None => None,
                },
                None => None,
            },
            None => None,
        },
        _ => None,
    }
}

fn get_req_str(f: &Vec<(String, Json)>, key: &String) -> (r: Option<String>)
    ensures
        r == req_str(f@, key@),
{
    match obj_get_exec(f, key) {
        Some(j) => match j {
            Json::Str(s) => Some(s.clone()),
            _ => None,
        },
        None => None,
    }
}

fn get_opt_str(f: &Vec<(String, Json)>, key: &String) -> (r: Option<Option<String>>)
    ensures
        r == opt_str(f@, key@),
{
    match obj_get_exec(f, key) {
        Some(j) => match j {
            Json::Null => Some(None),
            Json::Str(s) => Some(Some(s.clone())),
            _ => None,
        },
        None => Some(None),
    }
}

fn get_id(f: &Vec<(String, Json)>) -> (r: Option<ConnectionId>)
    ensures
        r == id_field(f@),
{
    let key = String::from_str("id");
    match get_req_str(f, &key) {
        Some(s) => match ConnectionId::parse(s.as_str()) {
            Some(id) => {
                proof {
                    assert((id.value as int) as u128 == id.value);
                }
                Some(id)
            },
            None => None,
        },
        None => None,
    }
}

fn get_order(f: &Vec<(String, Json)>) -> (r: Option<i32>)
    ensures
        r == order_field(f@),
{
    let key = String::from_str("order");
    match obj_get_exec(f, &key) {
        Some(j) => match j {
            Json::Num(t) => match parse_i32_text(t.as_str()) {
                Some(v) => Some(v),
                None => None,
            },
            _ => None,
        },
        None => Some(0i32),
    }
}

fn get_port(f: &Vec<(String, Json)>) -> (r: Option<u16>)
    ensures
        r == port_field(f@),
{
    let key = String::from_str("port");
    match obj_get_exec(f, &key) {
        Some(j) => match j {
            Json::Num(t) => match parse_u16_text(t.as_str()) {
                Some(v) => Some(v),
                None => None,
            },
            _ => None,
        },
        None => None,
    }
}

fn get_flag(f: &Vec<(String, Json)>) -> (r: Option<bool>)
    ensures
        r == flag_field(f@),
{
    let key = String::from_str("wolEnabled");
    match obj_get_exec(f, &key) {
        Some(j) => match j {
            Json::Bool(b) => Some(*b),
            _ => None,
        },
        None => Some(false),
    }
}

/// Validates the tagged `config` object.
pub fn config_from_json(v: &Json) -> (r: Option<ConnectionConfig>)
    ensures
        r == config_of_json(*v),
{
    let g = match v {
        Json::Obj(g) => g,
        _ => {
            return None;
        },
    };
    let t = match get_req_str(g, &String::from_str("type")) {
        Some(t) => t,
        None => {
            return None;
        },
    };
    if t == String::from_str("website") {
        let url = match get_req_str(g, &String::from_str("url")) {
            Some(u) => u,
            None => {
                return None;
            },
        };
        let check_path = match get_opt_str(g, &String::from_str("checkPath")) {
            Some(p) => p,
            None => {
                return None;
            },
        };
        Some(ConnectionConfig::Website { url, check_path })
    } else if t == String::from_str("ssh") {
        let host = match get_req_str(g, &String::from_str("host")) {
            Some(h) => h,
            None => {
                return None;
            },
        };
        let port = match get_port(g) {
            Some(p) => p,
            None => {
                return None;
            },
        };
        let username = match get_req_str(g, &String::from_str("username")) {
            Some(u) => u,
            None => {
                return None;
            },
        };
        let wol_enabled = match get_flag(g) {
            Some(w) => w,
            None => {
                return None;
            },
        };
        let mac_address = match get_opt_str(g, &String::from_str("macAddress")) {
            Some(m) => m,
            None => {
                return None;
            },
        };
        let broadcast_addr = match get_opt_str(g, &String::from_str("broadcastAddr")) {
            Some(b) => b,
            None => {
                return None;
            },
        };
        Some(ConnectionConfig::Ssh {
            host,
            port,
            username,
            wol_enabled,
            mac_address,
            broadcast_addr,
        })
    } else {
        None
    }
}

/// Validates one parsed JSON value as a connection record.
pub fn conn_from_json(v: &Json) -> (r: Option<Connection>)
    ensures
        r == conn_of_json(*v),
{
    let f = match v {
        Json::Obj(f) => f,
        _ => {
            return None;
        },
    };
    let id = match get_id(f) {
        Some(id) => id,
        None => {
            return None;
        },
    };
    let name = match get_req_str(f, &String::from_str("name")) {
        Some(n) => n,
        None => {
            return None;
        },
    };
    let icon = match get_opt_str(f, &String::from_str("icon")) {
        Some(i) => i,
        None => {
            return None;
        },
    };
    let icon_color = match get_opt_str(f, &String::from_str("iconColor")) {
        Some(i) => i,
        None => {
            return None;
        },
    };
    let order = match get_order(f) {
        Some(o) => o,
        None => {
            return None;
        },
    };
    let cv = match obj_get_exec(f, &String::from_str("config")) {
        Some(cv) => cv,
        None => {
            return None;
        },
    };
    let config = match config_from_json(cv) {
        Some(c) => c,
        None => {
            return None;
        },
    };
    let created_at = match get_req_str(f, &String::from_str("createdAt")) {
        Some(c) => c,
        None => {
            return None;
        },
    };
    let updated_at = match get_req_str(f, &String::from_str("updatedAt")) {
        Some(u) => u,
        None => {
            return None;
        },
    };
    Some(Connection { id, name, icon, icon_color, order, config, created_at, updated_at })
}

/// An optional string as a JSON value: `null` when absent.
fn json_opt_str(o: &Option<String>) -> (r: Json)
    ensures
        r == match *o {
            Some(s) => Json::Str(s),
            None => Json::Null,
        },
{
    match o {
        Some(s) => Json::Str(s.clone()),
        None => Json::Null,
    }
}

/// Renders the tagged `config` object; the result validates back to
/// exactly the given configuration.
#[verifier::rlimit(100)]
pub fn config_json_from(c: &ConnectionConfig) -> (r: Json)
    ensures
        config_of_json(r) == Some(*c),
{
    match c {
        ConnectionConfig::Website { url, check_path } => {
            let mut g: Vec<(String, Json)> = Vec::new();
            g.push((String::from_str("type"), Json::Str(String::from_str("website"))));
            g.push((String::from_str("url"), Json::Str(url.clone())));
            g.push((String::from_str("checkPath"), json_opt_str(check_path)));
            let r = Json::Obj(g);
            proof {
                reveal_strlit("type");
                reveal_strlit("website");
                reveal_strlit("ssh");
                reveal_strlit("url");
                reveal_strlit("checkPath");
                reveal_with_fuel(obj_get_from, 6);
                let gs = r->Obj_0@;
                assert(gs.len() == 3);
                assert(gs[0].0@ == "type"@);
                assert(gs[1].0@ == "url"@);
                assert(gs[2].0@ == "checkPath"@);
                assert("type"@ != "url"@);
                assert("type"@ != "checkPath"@);
                assert("url"@ != "checkPath"@);
                assert(obj_get(gs, "type"@) == Some(gs[0].1));
                assert(obj_get(gs, "url"@) == Some(gs[1].1));
                assert(obj_get(gs, "checkPath"@) == Some(gs[2].1));
                assert(req_str(gs, "type"@) matches Some(t) && t@ == "website"@);
                assert("website"@ != "ssh"@);
                assert(req_str(gs, "url"@) == Some(*url));
                assert(opt_str(gs, "checkPath"@) == Some(*check_path));
            }
            r
        },
        ConnectionConfig::Ssh { host, port, username, wol_enabled, mac_address, broadcast_addr } => {
            let mut g: Vec<(String, Json)> = Vec::new();
            g.push((String::from_str("type"), Json::Str(String::from_str("ssh"))));
            g.push((String::from_str("host"), Json::Str(host.clone())));
            g.push((String::from_str("port"), Json::Num(u16_to_string(*port))));
            g.push((String::from_str("username"), Json::Str(username.clone())));
            g.push((String::from_str("wolEnabled"), Json::Bool(*wol_enabled)));
            g.push((String::from_str("macAddress"), json_opt_str(mac_address)));
            g.push((String::from_str("broadcastAddr"), json_opt_str(broadcast_addr)));
            let r = Json::Obj(g);
            proof {
                reveal_strlit("type");
                reveal_strlit("website");
                reveal_strlit("ssh");
                reveal_strlit("host");
                reveal_strlit("port");
                reveal_strlit("username");
                reveal_strlit("wolEnabled");
                reveal_strlit("macAddress");
                reveal_strlit("broadcastAddr");
                reveal_with_fuel(obj_get_from, 10);
                let gs = r->Obj_0@;
                assert(gs.len() == 7);
                assert(gs[0].0@ == "type"@);
                assert(gs[1].0@ == "host"@);
                assert(gs[2].0@ == "port"@);
                assert(gs[3].0@ == "username"@);
                assert(gs[4].0@ == "wolEnabled"@);
                assert(gs[5].0@ == "macAddress"@);
                assert(gs[6].0@ == "broadcastAddr"@);
                assert("type"@ != "host"@) by {
                    assert("type"@[0] != "host"@[0]);
                }
                assert("type"@ != "port"@) by {
                    assert("type"@[0] != "port"@[0]);
                }
                assert("host"@ != "port"@) by {
                    assert("host"@[0] != "port"@[0]);
                }
                assert("wolEnabled"@ != "macAddress"@) by {
                    assert("wolEnabled"@[0] != "macAddress"@[0]);
                }
                assert(obj_get(gs, "type"@) == Some(gs[0].1));
                assert(obj_get(gs, "host"@) == Some(gs[1].1));
                assert(obj_get(gs, "port"@) == Some(gs[2].1));
                assert(obj_get(gs, "username"@) == Some(gs[3].1));
                assert(obj_get(gs, "wolEnabled"@) == Some(gs[4].1));
                assert(obj_get(gs, "macAddress"@) == Some(gs[5].1));
                assert(obj_get(gs, "broadcastAddr"@) == Some(gs[6].1));
                assert(req_str(gs, "type"@) matches Some(t) && t@ == "ssh"@);
                assert("ssh"@ != "website"@);
                assert(req_str(gs, "host"@) == Some(*host));
                lemma_parse_dec_str(*port as nat, 0xffff);
                assert(port_field(gs) == Some(*port));
                assert(req_str(gs, "username"@) == Some(*username));
                assert(flag_field(gs) == Some(*wol_enabled));
                assert(opt_str(gs, "macAddress"@) == Some(*mac_address));
                assert(opt_str(gs, "broadcastAddr"@) == Some(*broadcast_addr));
            }
            r
        },
    }
}

/// Renders a connection record as a JSON object; the result
/// validates back to exactly the given record, which is what makes
/// a saved set load unchanged.
#[verifier::rlimit(100)]
pub fn json_from_conn(c: &Connection) -> (r: Json)
    ensures
        conn_of_json(r) == Some(*c),
{
    let config_value = config_json_from(&c.config);
    let mut f: Vec<(String, Json)> = Vec::new();
    f.push((String::from_str("id"), Json::Str(c.id.to_canonical_string())));
    f.push((String::from_str("name"), Json::Str(c.name.clone())));
    f.push((String::from_str("icon"), json_opt_str(&c.icon)));
    f.push((String::from_str("iconColor"), json_opt_str(&c.icon_color)));
    f.push((String::from_str("order"), Json::Num(i32_to_string(c.order))));
    f.push((String::from_str("config"), config_value));
    f.push((String::from_str("createdAt"), Json::Str(c.created_at.clone())));
    f.push((String::from_str("updatedAt"), Json::Str(c.updated_at.clone())));
    let r = Json::Obj(f);
    proof {
        reveal_strlit("id");
        reveal_strlit("name");
        reveal_strlit("icon");
        reveal_strlit("iconColor");
        reveal_strlit("order");
        reveal_strlit("config");
        reveal_strlit("createdAt");
        reveal_strlit("updatedAt");
        reveal_with_fuel(obj_get_from, 11);
        let fs = r->Obj_0@;
        assert(fs.len() == 8);
        assert(fs[0].0@ == "id"@);
        assert(fs[1].0@ == "name"@);
        assert(fs[2].0@ == "icon"@);
        assert(fs[3].0@ == "iconColor"@);
        assert(fs[4].0@ == "order"@);
        assert(fs[5].0@ == "config"@);
        assert(fs[6].0@ == "createdAt"@);
        assert(fs[7].0@ == "updatedAt"@);
        assert("name"@ != "icon"@) by {
            assert("name"@[0] != "icon"@[0]);
        }
        assert("iconColor"@ != "createdAt"@) by {
            assert("iconColor"@[0] != "createdAt"@[0]);
        }
        assert("iconColor"@ != "updatedAt"@) by {
            assert("iconColor"@[0] != "updatedAt"@[0]);
        }
        assert("createdAt"@ != "updatedAt"@) by {
            assert("createdAt"@[0] != "updatedAt"@[0]);
        }
        assert(obj_get(fs, "id"@) == Some(fs[0].1));
        assert(obj_get(fs, "name"@) == Some(fs[1].1));
        assert(obj_get(fs, "icon"@) == Some(fs[2].1));
        assert(obj_get(fs, "iconColor"@) == Some(fs[3].1));
        assert(obj_get(fs, "order"@) == Some(fs[4].1));
        assert(obj_get(fs, "config"@) == Some(fs[5].1));
        assert(obj_get(fs, "createdAt"@) == Some(fs[6].1));
        assert(obj_get(fs, "updatedAt"@) == Some(fs[7].1));
        lemma_pow16_32();
        assert((c.id.value as nat) < pow16(32));
        lemma_id_roundtrip(c.id.value as nat);
        assert(id_field(fs) == Some(c.id));
        assert(req_str(fs, "name"@) == Some(c.name));
        assert(opt_str(fs, "icon"@) == Some(c.icon));
        assert(opt_str(fs, "iconColor"@) == Some(c.icon_color));
        lemma_parse_i32_text(c.order as int);
        assert(order_field(fs) == Some(c.order));
        assert(req_str(fs, "createdAt"@) == Some(c.created_at));
        assert(req_str(fs, "updatedAt"@) == Some(c.updated_at));
    }
    r
}

} // verus!
