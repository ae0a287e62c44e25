use jellysink::jellyfin::{direct_stream_url, encode_query_value, redact_api_key};

#[test]
fn unreserved_characters_pass_through() {
    assert_eq!(encode_query_value("a-Z_0.9~"), "a-Z_0.9~");
}

#[test]
fn plus_and_equals_are_escaped() {
    assert_eq!(encode_query_value("ab+cd=="), "ab%2Bcd%3D%3D");
}

#[test]
fn separators_cannot_inject_extra_parameters() {
    assert_eq!(encode_query_value("x&Foo=1"), "x%26Foo%3D1");
}

#[test]
fn non_ascii_is_percent_encoded_per_utf8_byte() {
    assert_eq!(encode_query_value("é"), "%C3%A9");
}

fn check_url_direct_stream_without_token() {
    let url = direct_stream_url("http://h:8096", "item1", "src1", None, None);
    assert_eq!(
        url,
        "http://h:8096/Videos/item1/stream?static=true&MediaSourceId=src1"
    );
}

fn check_url_puts_apikey_when_no_header() {
    let url = direct_stream_url("http://h:8096", "item1", "src1", None, Some("tok"));
    assert!(url.contains("ApiKey=tok"));
    assert!(url.contains("static=true"));
}

#[test]
fn url_url_direct_stream_without_token() {
    check_url_direct_stream_without_token();
}

#[test]
fn url_url_puts_apikey_when_no_header() {
    check_url_puts_apikey_when_no_header();
}

#[test]
fn media_url_direct_stream_without_token() {
    check_url_direct_stream_without_token();
}

#[test]
fn media_url_puts_apikey_when_no_header() {
    check_url_puts_apikey_when_no_header();
}

#[test]
fn redact_api_key_hides_a_trailing_token() {
    assert_eq!(
        redact_api_key("http://s/Videos/i/stream?static=true&ApiKey=sekrit"),
        "http://s/Videos/i/stream?static=true&ApiKey=<redacted>"
    );
}

#[test]
fn redact_api_key_keeps_later_parameters() {
    assert_eq!(
        redact_api_key("http://s/v?ApiKey=sekrit&LiveStreamId=xyz"),
        "http://s/v?ApiKey=<redacted>&LiveStreamId=xyz"
    );
}

#[test]
fn redact_api_key_leaves_a_tokenless_url_alone() {
    let url = "http://s/Videos/i/stream?static=true";
    assert_eq!(redact_api_key(url), url);
}

#[test]
fn direct_stream_url_encodes_a_live_stream_id_with_base64_padding() {
    let url = direct_stream_url("http://s", "item", "src", Some("ab+cd=="), None);
    assert!(url.contains("LiveStreamId=ab%2Bcd%3D%3D"), "{url}");
}

#[test]
fn direct_stream_url_values_cannot_inject_parameters() {
    let url = direct_stream_url("http://s", "item", "a&Foo=1", None, None);
    assert!(url.contains("MediaSourceId=a%26Foo%3D1"), "{url}");
    assert!(!url.contains("&Foo=1"), "{url}");
}

// --- further cases -------------------------------------------------------------

#[test]
fn trailing_slashes_on_the_server_are_dropped_and_all_parts_appear_in_order() {
    assert_eq!(
        direct_stream_url("http://s//", "i", "m", Some("l"), Some("t k")),
        "http://s/Videos/i/stream?static=true&MediaSourceId=m&LiveStreamId=l&ApiKey=t%20k"
    );
}

#[test]
fn redaction_leaves_non_ascii_text_intact() {
    assert_eq!(
        redact_api_key("http://s/é?ApiKey=ž&x=1"),
        "http://s/é?ApiKey=<redacted>&x=1"
    );
}

#[test]
fn an_encoded_value_holds_no_separator() {
    let e = encode_query_value("a&b=c d#e+f?g/h");
    for c in ['&', '=', ' ', '#', '+', '?', '/'] {
        assert!(!e.contains(c), "{e} holds {c}");
    }
    assert_eq!(e, "a%26b%3Dc%20d%23e%2Bf%3Fg%2Fh");
}
