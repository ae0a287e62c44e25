use jellysink::jellyfin::{credentials_from_login, login_body};
use jellysink::json::Json;
use jellysink::config::Credentials;
use jellysink::jellyfin::{authorization_header, ApiIdentity};

fn check_header_without_token() {
    let h = authorization_header("box", "abc", None);
    assert!(h.starts_with("MediaBrowser Client=\"jellysink\""));
    assert!(h.contains("Device=\"box\""));
    assert!(h.contains("DeviceId=\"abc\""));
    assert!(!h.contains("Token="));
}

fn check_header_with_token() {
    let h = authorization_header("box", "abc", Some("sekrit"));
    assert!(h.contains("Token=\"sekrit\""));
}

fn check_quotes_stripped() {
    let h = authorization_header(r#"weird"name"#, "id", None);
    assert!(!h.contains(r#"Device="weird"name""#));
    assert!(h.contains("Device=\"weirdname\""));
}

fn check_api_debug() {
    let api = ApiIdentity::from_credentials(
        &Credentials {
            server: "http://s".into(),
            username: "u".into(),
            user_id: "uid".into(),
            access_token: "sekrit".into(),
            device_id: "d".into(),
        },
        "host",
    );
    let rendered = api.debug_string();
    assert!(!rendered.contains("sekrit"), "{rendered}");
    assert!(rendered.contains("<redacted>"), "{rendered}");
}

fn check_header_computed_once() {
    let creds = Credentials {
        server: "http://s/".into(),
        username: "u".into(),
        user_id: "uid".into(),
        access_token: "sekrit".into(),
        device_id: "dev".into(),
    };
    let api = ApiIdentity::from_credentials(&creds, "host");
    assert_eq!(
        api.auth_header(),
        authorization_header(&api.device_name, "dev", Some("sekrit"))
    );
    assert_eq!(api.server, "http://s", "trailing slash is trimmed");
    assert!(api.mpv_auth_header_field().starts_with("Authorization: "));
}

#[test]
fn auth_header_without_token() {
    check_header_without_token();
}

#[test]
fn auth_test_header_without_token() {
    check_header_without_token();
}

#[test]
fn auth_header_with_token() {
    check_header_with_token();
}

#[test]
fn auth_test_header_with_token() {
    check_header_with_token();
}

#[test]
fn auth_quotes_stripped_from_device_name() {
    check_quotes_stripped();
}

#[test]
fn auth_test_quotes_stripped_from_device_name() {
    check_quotes_stripped();
}

#[test]
fn auth_api_debug_never_prints_the_token() {
    check_api_debug();
}

#[test]
fn auth_test_api_debug_never_prints_the_token() {
    check_api_debug();
}

#[test]
fn auth_the_auth_header_is_computed_once_and_matches_the_free_function() {
    check_header_computed_once();
}

#[test]
fn auth_test_the_auth_header_is_computed_once_and_matches_the_free_function() {
    check_header_computed_once();
}

#[test]
fn the_whole_header_is_exact() {
    assert_eq!(
        authorization_header("a\\b", "id", Some("t")),
        "MediaBrowser Client=\"jellysink\", Device=\"ab\", DeviceId=\"id\", Version=\"0.1.0\", Token=\"t\""
    );
}

#[test]
fn the_api_debug_rendering_is_exact() {
    let api = ApiIdentity::from_credentials(
        &Credentials {
            server: "http://s//".into(),
            username: "u".into(),
            user_id: "uid".into(),
            access_token: "sekrit".into(),
            device_id: "d".into(),
        },
        "host",
    );
    assert_eq!(
        api.debug_string(),
        "Api { server: \"http://s\", token: \"<redacted>\", device_id: \"d\", device_name: \"host\", user_id: \"uid\", .. }"
    );
    assert_eq!(
        api.mpv_auth_header_field(),
        "Authorization: MediaBrowser Client=\"jellysink\", Device=\"host\", DeviceId=\"d\", Version=\"0.1.0\", Token=\"sekrit\""
    );
}

#[test]
fn the_login_body_names_user_and_password() {
    let b = login_body("u", "p w");
    assert_eq!(
        b,
        Json::Object(vec![
            ("Username".to_string(), Json::Str("u".to_string())),
            ("Pw".to_string(), Json::Str("p w".to_string())),
        ])
    );
}

#[test]
fn a_login_answer_becomes_credentials() {
    let reply = Json::Object(vec![
        ("AccessToken".to_string(), Json::Str("tok".to_string())),
        (
            "User".to_string(),
            Json::Object(vec![
                ("Id".to_string(), Json::Str("uid".to_string())),
                ("Name".to_string(), Json::Str("tomas".to_string())),
            ]),
        ),
    ]);
    let c = credentials_from_login("http://s", "dev", &reply).unwrap();
    assert_eq!(c.username, "tomas");
    assert_eq!(c.user_id, "uid");
    assert_eq!(c.access_token, "tok");
    assert_eq!(c.device_id, "dev");
    assert_eq!(c.server, "http://s");
    let no_user = Json::Object(vec![("AccessToken".to_string(), Json::Str("tok".to_string()))]);
    assert!(credentials_from_login("http://s", "dev", &no_user).is_none());
}
