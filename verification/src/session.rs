//! The Jellyfin WebSocket session: its URL and the messages it carries.
use crate::cast::{cast_event_for, event_view, CastEvent};
use crate::json::{get, get_str, json_get, json_get_str, lenient_u64, value_as_u64, Json};
use crate::text::{owned, push_str, str_eq, trim_end_char};
use crate::jellyfin::trim_end_matches;
use crate::weburl::{
    opt_chars, parse_url, parsed_url, url_with_only_query_pair, url_with_path,
    url_with_query_pair_appended, url_with_scheme, with_only_query_pair, with_path,
    with_query_pair_appended, with_scheme,
};
use vstd::prelude::*;

verus! {

/// The WebSocket scheme for a server scheme: `wss` for `https`, `ws` for
/// every other.
pub open spec fn websocket_scheme_for(scheme: Seq<char>) -> Seq<char> {
    if scheme == "https"@ {
        "wss"@
    } else {
        "ws"@
    }
}

/// The WebSocket scheme for the server scheme `scheme`.
pub fn websocket_scheme(scheme: &str) -> (r: &'static str)
    ensures
        r@ == websocket_scheme_for(scheme@),
{
    proof {
        reveal_strlit("https");
    }
    if str_eq(scheme, "https") {
        "wss"
    } else {
        "ws"
    }
}

/// The socket's path under the server path: its trailing slashes dropped,
/// then `/socket`.
pub open spec fn socket_path_for(path: Seq<char>) -> Seq<char> {
    trim_end_char(path, '/') + "/socket"@
}

/// The socket's path under the server path `path`.
pub fn socket_path(path: &str) -> (r: String)
    ensures
        r@ == socket_path_for(path@),
{
    let mut p = trim_end_matches(path, '/');
    push_str(&mut p, "/socket");
    p
}

/// The session WebSocket URL for `server`, as the `url` crate builds it:
/// the server URL with the scheme from [`websocket_scheme_for`], the path
/// from [`socket_path_for`], and `api_key` and `deviceId` as the only query
/// parameters; `None` when the URL does not parse or refuses the scheme.
pub open spec fn websocket_url_for(server: Seq<char>, token: Seq<char>, device_id: Seq<char>) -> Option<Seq<char>> {
    match parsed_url(server) {
        Some(parts) => match url_with_scheme(server, websocket_scheme_for(parts.0)) {
            Some(ws) => match url_with_path(ws, socket_path_for(parts.5)) {
                Some(at_socket) => match url_with_only_query_pair(at_socket, "api_key"@, token) {
                    Some(keyed) => url_with_query_pair_appended(keyed, "deviceId"@, device_id),
                    None => None,
                },
                None => None,
            },
            None => None,
        },
        None => None,
    }
}

/// The session WebSocket URL for `server`; `None` when the server URL does
/// not parse or cannot take the `ws` scheme (a scheme that is not special,
/// or no host).
pub fn websocket_url(server: &str, token: &str, device_id: &str) -> (r: Option<String>)
    ensures
        opt_chars(r) == websocket_url_for(server@, token@, device_id@),
{
    proof {
        reveal_strlit("api_key");
        reveal_strlit("deviceId");
    }
    let parts = match parse_url(server) {
        Some(u) => u,
        None => return None,
    };
    let ws = match with_scheme(server, websocket_scheme(parts.scheme.as_str())) {
        Some(u) => u,
        None => return None,
    };
    let path = socket_path(parts.path.as_str());
    let at_socket = match with_path(ws.as_str(), path.as_str()) {
        Some(u) => u,
        None => return None,
    };
    let keyed = match with_only_query_pair(at_socket.as_str(), "api_key", token) {
        Some(u) => u,
        None => return None,
    };
    with_query_pair_appended(keyed.as_str(), "deviceId", device_id)
}

/// A message from the session WebSocket, by what the daemon does with it.
#[derive(Debug, PartialEq)]
pub enum WsIncoming {
    Cast(CastEvent),
    KeepAlive,
    /// The server's keepalive interval, in seconds.
    ForceKeepAlive { seconds: u64 },
    Ignored { message_type: String },
}

/// A WebSocket text that is not a session message.
#[derive(Debug, Clone, Copy, PartialEq, Eq, Structural)]
pub enum WsError {
    /// No string `MessageType`.
    MissingMessageType,
}

/// The `ForceKeepAlive` interval: the data as a number of seconds, 60 when
/// it is none, and never below 1.
pub open spec fn keepalive_seconds(data: Option<Json>) -> u64 {
    let s = match data {
        Some(d) => match lenient_u64(d) {
            Some(n) => n,
            None => 60,
        },
        None => 60,
    };
    if s < 1 {
        1
    } else {
        s
    }
}

/// `r` is what the decoded message `v` means.
pub open spec fn ws_incoming_for(v: Json, r: Result<WsIncoming, WsError>) -> bool {
    match get_str(v, "MessageType"@) {
        None => r == Err::<WsIncoming, WsError>(WsError::MissingMessageType),
        Some(t) => {
            let data = match get(v, "Data"@) {
                Some(Json::Null) => None,
                other => other,
            };
            if t == "KeepAlive"@ {
                r == Ok::<WsIncoming, WsError>(WsIncoming::KeepAlive)
            } else if t == "ForceKeepAlive"@ {
                r == Ok::<WsIncoming, WsError>(
                    WsIncoming::ForceKeepAlive { seconds: keepalive_seconds(data) },
                )
            } else {
                match cast_event_for(
                    t,
                    match data {
                        Some(d) => d,
                        None => Json::Null,
                    },
                ) {
                    Some(ev) => r matches Ok(WsIncoming::Cast(e)) && event_view(Some(e)) == Some(ev),
                    None => r matches Ok(WsIncoming::Ignored { message_type }) && message_type@ == t,
                }
            }
        },
    }
}

/// Reads a decoded WebSocket message.
pub fn ws_incoming(v: &Json) -> (r: Result<WsIncoming, WsError>)
    ensures
        ws_incoming_for(*v, r),
{
    let message_type = match json_get_str(v, "MessageType") {
        Some(t) => t,
        None => return Err(WsError::MissingMessageType),
    };
    let data: Option<&Json> = match json_get(v, "Data") {
        Some(Json::Null) => None,
        other => other,
    };
    if str_eq(message_type.as_str(), "KeepAlive") {
        return Ok(WsIncoming::KeepAlive);
    }
    if str_eq(message_type.as_str(), "ForceKeepAlive") {
        let s: u64 = match data {
            Some(d) => match value_as_u64(d) {
                Some(n) => n,
                None => 60,
            },
            None => 60,
        };
        let seconds = if s < 1 {
            1
        } else {
            s
        };
        return Ok(WsIncoming::ForceKeepAlive { seconds });
    }
    let null = Json::Null;
    let payload: &Json = match data {
        Some(d) => d,
        None => &null,
    };
    match CastEvent::from_ws(message_type.as_str(), payload) {
        Some(ev) => Ok(WsIncoming::Cast(ev)),
        None => Ok(WsIncoming::Ignored { message_type: message_type.clone() }),
    }
}

/// The keepalive period for a server interval of `seconds`: half of it, so
/// a tick is never the one that arrives late, and at least a second.
pub fn keepalive_period(seconds: u64) -> (r: u64)
    ensures
        r == if seconds / 2 < 1 {
            1
        } else {
            seconds / 2
        },
{
    if seconds / 2 < 1 {
        1
    } else {
        seconds / 2
    }
}

/// The keepalive the daemon sends: `{"MessageType":"KeepAlive"}`.
pub fn keepalive_message() -> (r: Json)
    ensures
        r matches Json::Object(fields) && fields@.len() == 1 && fields@[0].0@ == "MessageType"@
            && (fields@[0].1 matches Json::Str(t) && t@ == "KeepAlive"@),
{
    let mut f: Vec<(String, Json)> = Vec::new();
    f.push((owned("MessageType"), Json::Str(owned("KeepAlive"))));
    Json::Object(f)
}

} // verus!
