use jellysink::session::{keepalive_message, keepalive_period};
use jellysink::cast::CastEvent;
use jellysink::json::Json;
use jellysink::session::{socket_path, websocket_scheme, websocket_url, ws_incoming, WsError, WsIncoming};

fn message(message_type: &str, data: Json) -> Json {
    Json::Object(vec![
        ("MessageType".to_string(), Json::Str(message_type.to_string())),
        ("Data".to_string(), data),
    ])
}

#[test]
fn ws_url_http() {
    let u = websocket_url("http://h:8096", "tok", "dev").unwrap();
    assert!(u.starts_with("ws://h:8096/socket?"));
    assert!(u.contains("api_key=tok"));
    assert!(u.contains("deviceId=dev"));
}

#[test]
fn ws_url_https_subpath() {
    let u = websocket_url("https://h/jellyfin", "tok", "dev").unwrap();
    assert!(u.starts_with("wss://h/jellyfin/socket?"));
}

#[test]
fn parse_force_keepalive() {
    let m = ws_incoming(&message("ForceKeepAlive", Json::Int(60))).unwrap();
    assert_eq!(m, WsIncoming::ForceKeepAlive { seconds: 60 });
}

#[test]
fn parse_unknown_is_ignored() {
    let m = ws_incoming(&message("UserDataChanged", Json::Object(vec![]))).unwrap();
    assert!(matches!(m, WsIncoming::Ignored { .. }));
}

#[test]
fn the_whole_socket_url_is_exact_and_encodes_its_values() {
    assert_eq!(
        websocket_url("http://h:8096/", "a+b", "d v").unwrap(),
        "ws://h:8096/socket?api_key=a%2Bb&deviceId=d+v"
    );
}

#[test]
fn a_server_that_is_no_url_has_no_socket() {
    assert_eq!(websocket_url("not a url", "t", "d"), None);
}

#[test]
fn keepalive_messages_and_missing_types() {
    assert_eq!(ws_incoming(&message("KeepAlive", Json::Null)).unwrap(), WsIncoming::KeepAlive);
    assert_eq!(
        ws_incoming(&message("ForceKeepAlive", Json::Null)).unwrap(),
        WsIncoming::ForceKeepAlive { seconds: 60 }
    );
    assert_eq!(
        ws_incoming(&message("ForceKeepAlive", Json::Int(0))).unwrap(),
        WsIncoming::ForceKeepAlive { seconds: 1 }
    );
    assert_eq!(
        ws_incoming(&Json::Object(vec![("Data".to_string(), Json::Null)])),
        Err(WsError::MissingMessageType)
    );
}

#[test]
fn a_playstate_command_becomes_a_cast_event() {
    let data = Json::Object(vec![("Command".to_string(), Json::Str("Pause".to_string()))]);
    assert_eq!(
        ws_incoming(&message("Playstate", data)).unwrap(),
        WsIncoming::Cast(CastEvent::Pause)
    );
}

#[test]
fn the_keepalive_period_is_half_the_server_interval() {
    assert_eq!(keepalive_period(60), 30);
    assert_eq!(keepalive_period(1), 1);
    assert_eq!(keepalive_period(0), 1);
    assert_eq!(keepalive_period(7), 3);
    assert_eq!(
        keepalive_message(),
        Json::Object(vec![("MessageType".to_string(), Json::Str("KeepAlive".to_string()))])
    );
}

#[test]
fn the_socket_keeps_user_info_port_and_fragment() {
    assert_eq!(
        websocket_url("https://user:pw@h:8443/jf/#top", "t", "d").unwrap(),
        "wss://user:pw@h:8443/jf/socket?api_key=t&deviceId=d#top"
    );
    assert_eq!(
        websocket_url("https://h:80", "t", "d").unwrap(),
        "wss://h:80/socket?api_key=t&deviceId=d"
    );
}

#[test]
fn other_special_schemes_become_ws_and_lose_its_default_port() {
    assert_eq!(
        websocket_url("wss://h:80/", "t", "d").unwrap(),
        "ws://h/socket?api_key=t&deviceId=d"
    );
    assert_eq!(
        websocket_url("ftp://h/x", "t", "d").unwrap(),
        "ws://h/x/socket?api_key=t&deviceId=d"
    );
}

#[test]
fn a_server_url_without_a_special_scheme_or_host_has_no_socket() {
    assert_eq!(websocket_url("foo://h/x", "t", "d"), None);
    assert_eq!(websocket_url("mailto:a@b", "t", "d"), None);
    assert_eq!(websocket_url("file:///srv/jf", "t", "d"), None);
}

#[test]
fn only_https_turns_into_wss() {
    assert_eq!(websocket_scheme("https"), "wss");
    assert_eq!(websocket_scheme("http"), "ws");
    assert_eq!(websocket_scheme("ftp"), "ws");
}

#[test]
fn the_socket_path_follows_the_server_path() {
    assert_eq!(socket_path("/"), "/socket");
    assert_eq!(socket_path("/jellyfin//"), "/jellyfin/socket");
    assert_eq!(socket_path(""), "/socket");
}
