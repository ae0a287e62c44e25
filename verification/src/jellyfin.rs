//! Talking to Jellyfin: query strings, stream URLs, the auth header.
use crate::config::Credentials;
use crate::json::{get, get_str, json_get, json_get_str, Json};
use crate::text::{chars_of, debug_quoted, debug_str, find, find_str, owned, push_str, string_of, trim_end_char};
use vstd::prelude::*;
use vstd::string::StringSliceAdditionalSpecFns;

verus! {

/// RFC 3986 unreserved bytes, which a query value may carry as they are.
pub open spec fn is_unreserved(b: u8) -> bool {
    (65 <= b && b <= 90) || (97 <= b && b <= 122) || (48 <= b && b <= 57) || b == 45 || b == 95
        || b == 46 || b == 126
}

/// An upper-case hexadecimal digit.
pub open spec fn hex_digit(d: u8) -> char {
    if d < 10 {
        ((48 + d) as u8) as char
    } else {
        ((55 + d) as u8) as char
    }
}

/// One byte of a query value: itself when unreserved, else `%XX`.
pub open spec fn encode_byte(b: u8) -> Seq<char> {
    if is_unreserved(b) {
        seq![b as char]
    } else {
        seq!['%', hex_digit(b / 16), hex_digit(b % 16)]
    }
}

/// A query value percent-encoded byte by byte.
pub open spec fn encode_bytes(bs: Seq<u8>) -> Seq<char>
    decreases bs.len(),
{
    if bs.len() == 0 {
        Seq::empty()
    } else {
        encode_bytes(bs.drop_last()) + encode_byte(bs.last())
    }
}

/// A character a query value may carry once encoded: an unreserved one or
/// the `%` of an escape.
pub open spec fn query_safe(c: char) -> bool {
    let n = c as u32;
    (65 <= n && n <= 90) || (97 <= n && n <= 122) || (48 <= n && n <= 57) || n == 45 || n == 95
        || n == 46 || n == 126 || n == 37
}

/// An encoded value cannot end itself or start another parameter: every
/// character it holds is unreserved or `%`, so no `&`, `=`, `#`, `+` or
/// space.
pub proof fn law_encoded_value_cannot_break_out(bs: Seq<u8>)
    ensures
        forall|i: int| 0 <= i < encode_bytes(bs).len() ==> query_safe(#[trigger] encode_bytes(bs)[i]),
    decreases bs.len(),
{
    if bs.len() > 0 {
        law_encoded_value_cannot_break_out(bs.drop_last());
        let b = bs.last();
        let head = encode_bytes(bs.drop_last());
        let tail = encode_byte(b);
        assert forall|k: int| 0 <= k < tail.len() implies query_safe(#[trigger] tail[k]) by {
            let hi = b / 16;
            let lo = b % 16;
            assert(hi < 16 && lo < 16);
        }
        assert forall|i: int| 0 <= i < encode_bytes(bs).len() implies query_safe(
            #[trigger] encode_bytes(bs)[i],
        ) by {
            if i < head.len() {
                assert(encode_bytes(bs)[i] == head[i]);
            } else {
                assert(encode_bytes(bs)[i] == tail[i - head.len()]);
            }
        }
    }
}

fn hex_digit_exec(d: u8) -> (c: char)
    requires
        d < 16,
    ensures
        c == hex_digit(d),
{
    if d < 10 {
        (48 + d) as char
    } else {
        (55 + d) as char
    }
}

/// Percent-encodes a value for a query string (RFC 3986 unreserved set), one
/// UTF-8 byte at a time.
pub fn encode_query_value(value: &str) -> (out: String)
    ensures
        out@ == encode_bytes(value.spec_bytes()),
{
    let bytes = value.as_bytes();
    let mut out = String::new();
    let mut i: usize = 0;
    while i < bytes.len()
        invariant
            i <= bytes@.len(),
            bytes@ == value.spec_bytes(),
            out@ == encode_bytes(bytes@.take(i as int)),
        decreases bytes@.len() - i,
    {
        let b = bytes[i];
        if (65 <= b && b <= 90) || (97 <= b && b <= 122) || (48 <= b && b <= 57) || b == 45 || b
            == 95 || b == 46 || b == 126 {
            out.push(b as char);
        } else {
            out.push('%');
            out.push(hex_digit_exec(b / 16));
            out.push(hex_digit_exec(b % 16));
        }
        assert(bytes@.take(i + 1).drop_last() == bytes@.take(i as int));
        i = i + 1;
    }
    assert(bytes@.take(bytes@.len() as int) == bytes@);
    out
}

/// `s` without trailing `c`s.
pub fn trim_end_matches(s: &str, c: char) -> (r: String)
    ensures
        r@ == trim_end_char(s@, c),
{
    let cs = chars_of(s);
    let mut hi: usize = cs.len();
    assert(s@.take(hi as int) == s@);
    while hi > 0 && cs[hi - 1] == c
        invariant
            hi <= cs@.len(),
            cs@ == s@,
            trim_end_char(s@, c) == trim_end_char(s@.take(hi as int), c),
        decreases hi,
    {
        assert(s@.take(hi as int).drop_last() == s@.take(hi - 1));
        hi = hi - 1;
    }
    proof {
        let t = s@.take(hi as int);
        if t.len() > 0 {
            assert(t.last() != c);
        }
        assert(trim_end_char(t, c) == t);
    }
    string_of(&cs, 0, hi)
}

/// `{server}/Videos/{item}/stream?static=true&MediaSourceId={source}`, then
/// `&LiveStreamId=` and `&ApiKey=` when given; the three values are
/// percent-encoded and the server loses its trailing slashes.
pub open spec fn stream_url(
    server: Seq<char>,
    item_id: Seq<char>,
    media_source_bytes: Seq<u8>,
    live_bytes: Option<Seq<u8>>,
    token_bytes: Option<Seq<u8>>,
) -> Seq<char> {
    trim_end_char(server, '/') + "/Videos/"@ + item_id + "/stream?static=true&MediaSourceId="@
        + encode_bytes(media_source_bytes) + match live_bytes {
        Some(b) => "&LiveStreamId="@ + encode_bytes(b),
        None => Seq::empty(),
    } + match token_bytes {
        Some(b) => "&ApiKey="@ + encode_bytes(b),
        None => Seq::empty(),
    }
}

pub open spec fn opt_bytes(s: Option<&str>) -> Option<Seq<u8>> {
    match s {
        Some(x) => Some(x.spec_bytes()),
        None => None,
    }
}

/// The DirectPlay stream URL for one media source of an item.
pub fn direct_stream_url(
    server: &str,
    item_id: &str,
    media_source_id: &str,
    live_stream_id: Option<&str>,
    token: Option<&str>,
) -> (url: String)
    ensures
        url@ == stream_url(
            server@,
            item_id@,
            media_source_id.spec_bytes(),
            opt_bytes(live_stream_id),
            opt_bytes(token),
        ),
{
    let mut url = trim_end_matches(server, '/');
    push_str(&mut url, "/Videos/");
    push_str(&mut url, item_id);
    push_str(&mut url, "/stream?static=true&MediaSourceId=");
    let source = encode_query_value(media_source_id);
    push_str(&mut url, source.as_str());
    let ghost base = url@;
    if let Some(live) = live_stream_id {
        push_str(&mut url, "&LiveStreamId=");
        let e = encode_query_value(live);
        push_str(&mut url, e.as_str());
    }
    let ghost with_live = url@;
    if let Some(token) = token {
        push_str(&mut url, "&ApiKey=");
        let e = encode_query_value(token);
        push_str(&mut url, e.as_str());
    }
    proof {
        let live_part = match opt_bytes(live_stream_id) {
            Some(b) => "&LiveStreamId="@ + encode_bytes(b),
            None => Seq::<char>::empty(),
        };
        let token_part = match opt_bytes(token) {
            Some(b) => "&ApiKey="@ + encode_bytes(b),
            None => Seq::<char>::empty(),
        };
        assert(with_live =~= base + live_part);
        assert(url@ =~= base + live_part + token_part);
    }
    url
}

/// The URL with the value of its `ApiKey=` parameter replaced by
/// `<redacted>`; a URL without one is returned as it is.
pub open spec fn redacted(url: Seq<char>) -> Seq<char> {
    match find(url, "ApiKey="@) {
        None => url,
        Some(at) => {
            let value_start = at + 7;
            let value_end = match find(url.skip(value_start), "&"@) {
                Some(i) => value_start + i,
                None => url.len() as int,
            };
            url.take(value_start) + "<redacted>"@ + url.skip(value_end)
        },
    }
}

/// Replaces the value of an `ApiKey=` query parameter with a placeholder, so
/// a stream URL can reach a log line without the access token.
pub fn redact_api_key(url: &str) -> (r: String)
    ensures
        r@ == redacted(url@),
{
    proof {
        reveal_strlit("ApiKey=");
    }
    let at = match find_str(url, "ApiKey=") {
        None => return crate::text::owned(url),
        Some(at) => at,
    };
    let cs = chars_of(url);
    proof {
        crate::text::lemma_find_bounds(url@, "ApiKey="@);
        assert("ApiKey="@.len() == 7);
        assert(at + 7 <= cs@.len());
        assert(cs@.len() == cs.len());
    }
    let value_start = at + 7;
    let rest = string_of(&cs, value_start, cs.len());
    let value_end = match find_str(rest.as_str(), "&") {
        Some(i) => {
            proof {
                crate::text::lemma_find_bounds(rest@, "&"@);
            }
            value_start + i
        },
        None => cs.len(),
    };
    assert(rest@ == url@.skip(value_start as int));
    let mut r = string_of(&cs, 0, value_start);
    push_str(&mut r, "<redacted>");
    let tail = string_of(&cs, value_end, cs.len());
    push_str(&mut r, tail.as_str());
    proof {
        assert(url@.take(value_start as int) == cs@.subrange(0, value_start as int));
        assert(url@.skip(value_end as int) == cs@.subrange(value_end as int, cs@.len() as int));
    }
    r
}

/// The client name jellysink reports to the server.
pub const CLIENT_NAME: &'static str = "jellysink";

/// The version jellysink reports to the server.
pub const VERSION: &'static str = "0.1.0";

/// `s` without `"` and `\`, which would end or escape a quoted header field.
pub open spec fn sanitized(s: Seq<char>) -> Seq<char> {
    s.filter(|c: char| c != '"' && c != '\\')
}

/// A sanitised header field cannot end its quotes or escape them: it holds
/// neither `"` nor a backslash.
pub proof fn law_sanitized_field_stays_quoted(s: Seq<char>)
    ensures
        forall|i: int| 0 <= i < sanitized(s).len() ==> #[trigger] sanitized(s)[i] != '"'
            && sanitized(s)[i] != '\\',
{
    assert forall|i: int| 0 <= i < sanitized(s).len() implies #[trigger] sanitized(s)[i] != '"'
        && sanitized(s)[i] != '\\' by {
        s.lemma_filter_pred(|c: char| c != '"' && c != '\\', i);
    }
}

fn sanitize_token_field(s: &str) -> (r: String)
    ensures
        r@ == sanitized(s@),
{
    let cs = chars_of(s);
    let mut out = String::new();
    let mut i: usize = 0;
    while i < cs.len()
        invariant
            i <= cs@.len(),
            cs@ == s@,
            out@ == sanitized(s@.take(i as int)),
        decreases cs@.len() - i,
    {
        let c = cs[i];
        proof {
            s@.take(i as int).lemma_filter_push(c, |c: char| c != '"' && c != '\\');
            assert(s@.take(i + 1) == s@.take(i as int).push(c));
        }
        if c != '"' && c != '\\' {
            out.push(c);
        }
        i = i + 1;
    }
    assert(s@.take(cs@.len() as int) == s@);
    out
}

/// The `Authorization` header Jellyfin expects: client, device (with quotes
/// and backslashes removed), device id and version, then the token when
/// there is one.
pub open spec fn authorization(device: Seq<char>, device_id: Seq<char>, token: Option<Seq<char>>) -> Seq<char> {
    "MediaBrowser Client=\"jellysink\", Device=\""@ + sanitized(device) + "\", DeviceId=\""@
        + device_id + "\", Version=\"0.1.0\""@ + match token {
        Some(t) => ", Token=\""@ + t + "\""@,
        None => Seq::empty(),
    }
}

pub fn authorization_header(device: &str, device_id: &str, token: Option<&str>) -> (r: String)
    ensures
        r@ == authorization(device@, device_id@, crate::series::opt_str(token)),
{
    let d = sanitize_token_field(device);
    let mut h = owned("MediaBrowser Client=\"jellysink\", Device=\"");
    push_str(&mut h, d.as_str());
    push_str(&mut h, "\", DeviceId=\"");
    push_str(&mut h, device_id);
    push_str(&mut h, "\", Version=\"0.1.0\"");
    match token {
        Some(t) => {
            push_str(&mut h, ", Token=\"");
            push_str(&mut h, t);
            push_str(&mut h, "\"");
        },
        None => {},
    }
    h
}

/// Who jellysink is to the server: everything a request needs besides the
/// HTTP client itself.
#[derive(Clone, PartialEq, Eq)]
pub struct ApiIdentity {
    pub server: String,
    pub token: String,
    pub device_id: String,
    pub device_name: String,
    pub user_id: String,
    /// Computed once from the other fields; see [`ApiIdentity::from_credentials`].
    pub auth_header: String,
}

impl ApiIdentity {
    pub open spec fn auth_header_spec(&self) -> Seq<char> {
        self.auth_header@
    }

    /// The identity stored credentials give, on the device called
    /// `device_name`; the header is computed once, for the process lifetime.
    pub fn from_credentials(creds: &Credentials, device_name: &str) -> (r: ApiIdentity)
        ensures
            r.server@ == trim_end_char(creds.server@, '/'),
            r.token@ == creds.access_token@,
            r.device_id@ == creds.device_id@,
            r.device_name@ == device_name@,
            r.user_id@ == creds.user_id@,
            r.auth_header_spec() == authorization(
                device_name@,
                creds.device_id@,
                Some(creds.access_token@),
            ),
    {
        ApiIdentity {
            server: trim_end_matches(creds.server.as_str(), '/'),
            token: creds.access_token.clone(),
            device_id: creds.device_id.clone(),
            device_name: owned(device_name),
            user_id: creds.user_id.clone(),
            auth_header: authorization_header(
                device_name,
                creds.device_id.as_str(),
                Some(creds.access_token.as_str()),
            ),
        }
    }

    pub fn auth_header(&self) -> (r: &str)
        ensures
            r@ == self.auth_header_spec(),
    {
        self.auth_header.as_str()
    }

    /// The header as mpv's `http-header-fields` takes it.
    pub fn mpv_auth_header_field(&self) -> (r: String)
        ensures
            r@ == "Authorization: "@ + self.auth_header_spec(),
    {
        let mut f = owned("Authorization: ");
        push_str(&mut f, self.auth_header.as_str());
        f
    }

    /// The `Debug` rendering, with the token left out.
    pub fn debug_string(&self) -> (r: String)
        ensures
            r@ == "Api { server: "@ + debug_str(self.server@) + ", token: \"<redacted>\", device_id: "@
                + debug_str(self.device_id@) + ", device_name: "@ + debug_str(self.device_name@)
                + ", user_id: "@ + debug_str(self.user_id@) + ", .. }"@,
    {
        let mut r = owned("Api { server: ");
        let a = debug_quoted(self.server.as_str());
        push_str(&mut r, a.as_str());
        push_str(&mut r, ", token: \"<redacted>\", device_id: ");
        let b = debug_quoted(self.device_id.as_str());
        push_str(&mut r, b.as_str());
        push_str(&mut r, ", device_name: ");
        let c = debug_quoted(self.device_name.as_str());
        push_str(&mut r, c.as_str());
        push_str(&mut r, ", user_id: ");
        let d = debug_quoted(self.user_id.as_str());
        push_str(&mut r, d.as_str());
        push_str(&mut r, ", .. }");
        r
    }
}

/// The body of `POST /Users/AuthenticateByName`.
pub fn login_body(username: &str, password: &str) -> (r: Json)
    ensures
        r matches Json::Object(fields) && fields@.len() == 2 && fields@[0].0@ == "Username"@
            && (fields@[0].1 matches Json::Str(u) && u@ == username@) && fields@[1].0@ == "Pw"@
            && (fields@[1].1 matches Json::Str(p) && p@ == password@),
{
    let mut f: Vec<(String, Json)> = Vec::new();
    f.push((owned("Username"), Json::Str(owned(username))));
    f.push((owned("Pw"), Json::Str(owned(password))));
    Json::Object(f)
}

/// `reply.User[key]` as a string.
pub open spec fn user_field(reply: Json, key: Seq<char>) -> Option<Seq<char>> {
    match get(reply, "User"@) {
        Some(u) => get_str(u, key),
        None => None,
    }
}

/// The credentials a successful login answer gives: its `AccessToken`, and
/// the `Id` and `Name` of its `User`; `None` when one of them is missing.
pub fn credentials_from_login(server: &str, device_id: &str, reply: &Json) -> (r: Option<Credentials>)
    ensures
        match (get_str(*reply, "AccessToken"@), user_field(*reply, "Id"@), user_field(*reply, "Name"@)) {
            (Some(token), Some(id), Some(name)) => r matches Some(c) && c.server@ == server@
                && c.username@ == name && c.user_id@ == id && c.access_token@ == token
                && c.device_id@ == device_id@,
            _ => r is None,
        },
{
    let token = match json_get_str(reply, "AccessToken") {
        Some(t) => t,
        None => return None,
    };
    let user = match json_get(reply, "User") {
        Some(u) => u,
        None => return None,
    };
    let id = match json_get_str(user, "Id") {
        Some(i) => i,
        None => return None,
    };
    let name = match json_get_str(user, "Name") {
        Some(n) => n,
        None => return None,
    };
    Some(Credentials {
        server: owned(server),
        username: name.clone(),
        user_id: id.clone(),
        access_token: token.clone(),
        device_id: owned(device_id),
    })
}

} // verus!
