//! Configuration: where the files live, the user-facing keys, and the
//! server URL a user types in.
use crate::text::{
    all_digits, ascii_lower, ascii_lowercase, bool_string, bool_text, chars_of, debug_quoted, debug_str, digits_value, split_char,
    decimal, eq_ignore_ascii_case, find, find_str, has_char, is_white_space, is_white_space_exec,
    find_from, lemma_find_bounds, occurs_at, owned, parse_i64, parse_i64_exec, push_str, same_ignoring_ascii_case, str_eq, string_of, trim, trim_end, trim_start,
    trim_end_char, trim_str, u64_decimal,
};
use crate::jellyfin::trim_end_matches;
use crate::weburl::{opt_chars, parse_url, parsed_url};
use vstd::prelude::*;

verus! {

/// Why a server URL was refused.
#[derive(Debug, Clone, Copy, PartialEq, Eq, Structural)]
pub enum ServerUrlError {
    Empty,
    /// `http:host` or `https/host`: a scheme without its `//`.
    MissingSlashes,
    /// The URL parser refused it.
    Invalid,
    NoHost,
}

impl ServerUrlError {
    pub fn message(&self) -> (r: &'static str)
        ensures
            r@ == server_url_error_text(*self),
    {
        match self {
            ServerUrlError::Empty => "server URL is empty",
            ServerUrlError::MissingSlashes => "scheme is missing '//' — expected e.g. 'http://host:8096'",
            ServerUrlError::Invalid => "invalid server URL",
            ServerUrlError::NoHost => "server URL has no host",
        }
    }

    /// The message shown for refusing `input`: an unparsable URL is named,
    /// quoted; the other refusals are their fixed text.
    pub fn message_for(&self, input: &str) -> (r: String)
        ensures
            r@ == server_url_error_message(*self, input@),
    {
        match self {
            ServerUrlError::Invalid => {
                let mut m = owned("invalid server URL ");
                let q = debug_quoted(input);
                push_str(&mut m, q.as_str());
                m
            },
            _ => owned(self.message()),
        }
    }
}

/// What the user is told when `input` is refused for `e`.
pub open spec fn server_url_error_message(e: ServerUrlError, input: Seq<char>) -> Seq<char> {
    match e {
        ServerUrlError::Invalid => "invalid server URL "@ + debug_str(input),
        _ => server_url_error_text(e),
    }
}

pub open spec fn server_url_error_text(e: ServerUrlError) -> Seq<char> {
    match e {
        ServerUrlError::Empty => "server URL is empty"@,
        ServerUrlError::MissingSlashes => "scheme is missing '//' — expected e.g. 'http://host:8096'"@,
        ServerUrlError::Invalid => "invalid server URL"@,
        ServerUrlError::NoHost => "server URL has no host"@,
    }
}

/// `s` up to the first `/`, as `s.split('/').next()` gives it.
pub open spec fn first_segment(s: Seq<char>) -> Seq<char> {
    match find(s, "/"@) {
        Some(i) => s.take(i),
        None => s,
    }
}

/// Whether the user wrote a port: after the scheme, a `:` right behind an
/// IPv6 literal's `]`, or any `:` in the host part before the first `/`.
pub open spec fn explicit_port_spec(input: Seq<char>) -> bool {
    let rest = match find(input, "://"@) {
        Some(i) => input.skip(i + 3),
        None => input,
    };
    match find(rest, "]"@) {
        Some(end) => ":"@.is_prefix_of(rest.skip(end + 1)),
        None => find(first_segment(rest), ":"@) is Some,
    }
}

/// `host`, bracketed when it is a bare IPv6 literal.
pub open spec fn bracketed_host(host: Seq<char>) -> Seq<char> {
    if find(host, ":"@) is Some && !"["@.is_prefix_of(host) {
        "["@ + host + "]"@
    } else {
        host
    }
}

/// The normalised server URL, or why there is none: a bare host gets
/// `http://` and Jellyfin's port 8096; a scheme, port or path the user wrote
/// is kept (a default port written out included); trailing slashes go.
pub open spec fn normalized_server_url(input: Seq<char>) -> Result<Seq<char>, ServerUrlError> {
    let trimmed = trim_end_char(trim(input), '/');
    let has_scheme = find(trimmed, "://"@) is Some;
    let first = ascii_lower(first_segment(trimmed));
    if trimmed.len() == 0 {
        Err(ServerUrlError::Empty)
    } else if !has_scheme && (first == "http"@ || first == "https"@ || first == "http:"@ || first
        == "https:"@) {
        Err(ServerUrlError::MissingSlashes)
    } else {
        let with_scheme = if has_scheme {
            trimmed
        } else {
            "http://"@ + trimmed
        };
        match parsed_url(with_scheme) {
            None => Err(ServerUrlError::Invalid),
            Some((scheme, _, _, host, port, path, _)) => match host {
                None => Err(ServerUrlError::NoHost),
                Some(h) => {
                    let port_part = match port {
                        Some(p) => ":"@ + decimal(p as nat),
                        None => if explicit_port_spec(trimmed) {
                            match crate::weburl::default_port(scheme) {
                                Some(p) => ":"@ + decimal(p as nat),
                                None => Seq::empty(),
                            }
                        } else if scheme == "http"@ {
                            ":8096"@
                        } else {
                            Seq::empty()
                        },
                    };
                    Ok(scheme + "://"@ + bracketed_host(h) + port_part + trim_end_char(path, '/'))
                },
            },
        }
    }
}

fn first_segment_exec(s: &str) -> (r: String)
    ensures
        r@ == first_segment(s@),
{
    proof {
        reveal_strlit("/");
    }
    match find_str(s, "/") {
        Some(i) => {
            proof {
                lemma_find_bounds(s@, "/"@);
            }
            let cs = chars_of(s);
            string_of(&cs, 0, i)
        },
        None => owned(s),
    }
}

/// `s` from the end of the first occurrence of `pat`, which it has.
fn after_first(s: &str, pat: &str, at: usize) -> (r: String)
    requires
        find(s@, pat@) == Some(at as int),
    ensures
        r@ == s@.skip(at + pat@.len()),
{
    proof {
        lemma_find_bounds(s@, pat@);
    }
    let cs = chars_of(s);
    let p = chars_of(pat);
    let n = cs.len();
    let m = p.len();
    assert(at + m <= n);
    string_of(&cs, at + m, n)
}

/// Whether the user wrote a port; see [`explicit_port_spec`].
pub fn explicit_port(input: &str) -> (r: bool)
    ensures
        r == explicit_port_spec(input@),
{
    proof {
        reveal_strlit("://");
        reveal_strlit("]");
        reveal_strlit(":");
    }
    let rest = match find_str(input, "://") {
        Some(i) => after_first(input, "://", i),
        None => owned(input),
    };
    match find_str(rest.as_str(), "]") {
        Some(end) => {
            let after = after_first(rest.as_str(), "]", end);
            crate::text::starts_with(after.as_str(), ":")
        },
        None => {
            let hostport = first_segment_exec(rest.as_str());
            find_str(hostport.as_str(), ":").is_some()
        },
    }
}

fn bracketed_host_exec(host: &str) -> (r: String)
    ensures
        r@ == bracketed_host(host@),
{
    if find_str(host, ":").is_some() && !crate::text::starts_with(host, "[") {
        let mut b = owned("[");
        push_str(&mut b, host);
        push_str(&mut b, "]");
        b
    } else {
        owned(host)
    }
}

fn port_text(p: u16) -> (r: String)
    ensures
        r@ == ":"@ + decimal(p as nat),
{
    let mut t = owned(":");
    let d = u64_decimal(p as u64);
    push_str(&mut t, d.as_str());
    t
}

/// Bare host to `http://host:8096`; an existing scheme, port or path is kept
/// and trailing slashes are stripped.
pub fn normalize_server_url(input: &str) -> (r: Result<String, ServerUrlError>)
    ensures
        match normalized_server_url(input@) {
            Ok(u) => r matches Ok(s) && s@ == u,
            Err(e) => r == Err::<String, ServerUrlError>(e),
        },
{
    proof {
        reveal_strlit("");
        reveal_strlit("://");
        reveal_strlit("http");
        reveal_strlit("https");
        reveal_strlit("http:");
        reveal_strlit("https:");
        reveal_strlit("http://");
        reveal_strlit(":8096");
    }
    let t = trim_str(input);
    let trimmed = trim_end_matches(t.as_str(), '/');
    let trimmed_chars = chars_of(trimmed.as_str());
    if trimmed_chars.len() == 0 {
        return Err(ServerUrlError::Empty);
    }
    let has_scheme = find_str(trimmed.as_str(), "://").is_some();
    if !has_scheme {
        let first_raw = first_segment_exec(trimmed.as_str());
        let first = ascii_lowercase(first_raw.as_str());
        if str_eq(first.as_str(), "http") || str_eq(first.as_str(), "https") || str_eq(
            first.as_str(),
            "http:",
        ) || str_eq(first.as_str(), "https:") {
            return Err(ServerUrlError::MissingSlashes);
        }
    }
    let with_scheme = if has_scheme {
        owned(trimmed.as_str())
    } else {
        let mut w = owned("http://");
        push_str(&mut w, trimmed.as_str());
        w
    };
    let url = match parse_url(with_scheme.as_str()) {
        Some(u) => u,
        None => return Err(ServerUrlError::Invalid),
    };
    let host = match &url.host {
        Some(h) => bracketed_host_exec(h.as_str()),
        None => return Err(ServerUrlError::NoHost),
    };
    let port_part = match url.port {
        Some(p) => port_text(p),
        None => if explicit_port(trimmed.as_str()) {
            match url.known_port {
                Some(p) => port_text(p),
                None => String::new(),
            }
        } else if str_eq(url.scheme.as_str(), "http") {
            owned(":8096")
        } else {
            String::new()
        },
    };
    let path = trim_end_matches(url.path.as_str(), '/');
    let mut out = owned(url.scheme.as_str());
    push_str(&mut out, "://");
    push_str(&mut out, host.as_str());
    push_str(&mut out, port_part.as_str());
    push_str(&mut out, path.as_str());
    Ok(out)
}

/// The program's name, which also names its directories.
pub const APP_NAME: &'static str = "jellysink";

/// The help line of `config set`, which names every key.
pub const CONFIG_SET_HELP: &'static str =
    "Set a key (mpv_path, mpv_args, log_level, autoplay, prepend_previous, cover_cache_mb)";

/// A refusal to show the user as it is, without a backtrace.
#[derive(Debug, Clone, PartialEq, Eq)]
pub struct UsageError(pub String);

impl UsageError {
    pub fn message(&self) -> (r: &str)
        ensures
            r@ == self.0@,
    {
        self.0.as_str()
    }
}

/// `dir` joined with the relative file name `name`: a separator is added
/// unless `dir` is empty or already ends with one.
pub open spec fn joined(dir: Seq<char>, name: Seq<char>) -> Seq<char> {
    if dir.len() == 0 {
        name
    } else if dir.last() == '/' {
        dir + name
    } else {
        dir + "/"@ + name
    }
}

/// Where jellysink keeps its files.
#[derive(Debug, Clone, PartialEq, Eq)]
pub struct Paths {
    pub config_dir: String,
}

impl Paths {
    pub fn new(config_dir: String) -> (r: Paths)
        ensures
            r.config_dir == config_dir,
    {
        Paths { config_dir }
    }

    fn file(&self, name: &str) -> (r: String)
        ensures
            r@ == joined(self.config_dir@, name@),
    {
        proof {
            reveal_strlit("/");
        }
        let cs = chars_of(self.config_dir.as_str());
        if cs.len() == 0 {
            return owned(name);
        }
        let mut p = self.config_dir.clone();
        if cs[cs.len() - 1] != '/' {
            push_str(&mut p, "/");
        }
        push_str(&mut p, name);
        p
    }

    pub fn config_file(&self) -> (r: String)
        ensures
            r@ == joined(self.config_dir@, "config.toml"@),
    {
        self.file("config.toml")
    }

    pub fn cred_file(&self) -> (r: String)
        ensures
            r@ == joined(self.config_dir@, "cred.json"@),
    {
        self.file("cred.json")
    }

    pub fn lock_file(&self) -> (r: String)
        ensures
            r@ == joined(self.config_dir@, "instance.lock"@),
    {
        self.file("instance.lock")
    }

    pub fn stop_socket(&self) -> (r: String)
        ensures
            r@ == joined(self.config_dir@, "stop.sock"@),
    {
        self.file("stop.sock")
    }

    pub fn mpv_socket(&self) -> (r: String)
        ensures
            r@ == joined(self.config_dir@, "mpv.sock"@),
    {
        self.file("mpv.sock")
    }

    pub fn mpv_args_file(&self) -> (r: String)
        ensures
            r@ == joined(self.config_dir@, "mpv_args.conf"@),
    {
        self.file("mpv_args.conf")
    }
}

proof fn lemma_scheme_prefix(t: Seq<char>)
    ensures
        find("http://"@ + t, "://"@) == Some(4int),
        ("http://"@ + t).skip(7) == t,
{
    reveal_strlit("http://");
    reveal_strlit("://");
    let p = "http://"@ + t;
    let pat = "://"@;
    assert(p[0] == 'h' && p[1] == 't' && p[2] == 't' && p[3] == 'p' && p[4] == ':' && p[5] == '/'
        && p[6] == '/');
    assert(pat[0] == ':');
    assert(!occurs_at(p, pat, 0)) by {
        if occurs_at(p, pat, 0) {
            assert(p.subrange(0, 3)[0] == pat[0]);
        }
    }
    assert(!occurs_at(p, pat, 1)) by {
        if occurs_at(p, pat, 1) {
            assert(p.subrange(1, 4)[0] == pat[0]);
        }
    }
    assert(!occurs_at(p, pat, 2)) by {
        if occurs_at(p, pat, 2) {
            assert(p.subrange(2, 5)[0] == pat[0]);
        }
    }
    assert(!occurs_at(p, pat, 3)) by {
        if occurs_at(p, pat, 3) {
            assert(p.subrange(3, 6)[0] == pat[0]);
        }
    }
    assert(occurs_at(p, pat, 4)) by {
        assert(p.subrange(4, 7) =~= pat);
    }
    reveal_with_fuel(find_from, 6);
    assert(p.skip(7) =~= t);
}

/// Writing the `http://` out changes nothing: a bare host (with any port
/// or path) normalises exactly as the same text behind `http://` does, so
/// an http URL without a port gets Jellyfin's port 8096 either way.
pub proof fn law_writing_http_changes_nothing(t: Seq<char>)
    requires
        t.len() > 0,
        !is_white_space(t[0]),
        !is_white_space(t.last()),
        t.last() != '/',
        find(t, "://"@) is None,
        ascii_lower(first_segment(t)) != "http"@,
        ascii_lower(first_segment(t)) != "https"@,
        ascii_lower(first_segment(t)) != "http:"@,
        ascii_lower(first_segment(t)) != "https:"@,
    ensures
        normalized_server_url("http://"@ + t) == normalized_server_url(t),
{
    reveal_strlit("http://");
    let p = "http://"@ + t;
    assert(p[0] == 'h');
    assert(p.last() == t.last());
    lemma_scheme_prefix(t);
    assert(trim_start(t) == t);
    assert(trim_end(t) == t);
    assert(trim_end_char(t, '/') == t);
    assert(trim_start(p) == p);
    assert(trim_end(p) == p);
    assert(trim_end_char(p, '/') == p);
    assert(trim(p) == p);
    assert(trim(t) == t);
}

/// An http server URL in which the user wrote no port gets Jellyfin's port
/// 8096, right after the host and before the path.
pub proof fn law_an_http_url_without_a_port_gets_8096(input: Seq<char>)
    requires
        ({
            let trimmed = trim_end_char(trim(input), '/');
            let with_scheme = if find(trimmed, "://"@) is Some {
                trimmed
            } else {
                "http://"@ + trimmed
            };
            &&& normalized_server_url(input) is Ok
            &&& parsed_url(with_scheme) matches Some(u) && u.0 == "http"@ && u.4 is None
            &&& !explicit_port_spec(trimmed)
        }),
    ensures
        ({
            let trimmed = trim_end_char(trim(input), '/');
            let with_scheme = if find(trimmed, "://"@) is Some {
                trimmed
            } else {
                "http://"@ + trimmed
            };
            let u = parsed_url(with_scheme).unwrap();
            normalized_server_url(input) == Ok::<Seq<char>, ServerUrlError>(
                "http://"@ + bracketed_host(u.3.unwrap()) + ":8096"@ + trim_end_char(u.5, '/'),
            )
        }),
{
    reveal_strlit("http");
    reveal_strlit("://");
    reveal_strlit("http://");
    assert("http"@ + "://"@ =~= "http://"@);
}

/// Every user-facing configuration key.
#[derive(Debug, Clone, Copy, PartialEq, Eq, Structural)]
pub enum Field {
    MpvPath,
    /// Lives in `mpv_args.conf`, not `config.toml`: a running daemon
    /// re-reads it on every mpv spawn.
    MpvArgs,
    LogLevel,
    Autoplay,
    PrependPrevious,
    /// Megabytes of disk the terminal frontend's cover cache may use; 0
    /// turns the cache off.
    CoverCacheMb,
}

pub open spec fn field_name(f: Field) -> Seq<char> {
    match f {
        Field::MpvPath => "mpv_path"@,
        Field::MpvArgs => "mpv_args"@,
        Field::LogLevel => "log_level"@,
        Field::Autoplay => "autoplay"@,
        Field::PrependPrevious => "prepend_previous"@,
        Field::CoverCacheMb => "cover_cache_mb"@,
    }
}

/// The message for a key that names no field: the key, and every valid one.
pub open spec fn unknown_key_message(key: Seq<char>) -> Seq<char> {
    "unknown config key "@ + debug_str(key)
        + " (valid: mpv_path, mpv_args, log_level, autoplay, prepend_previous, cover_cache_mb)"@
}

impl Field {
    /// Every field, in the order the help lists them.
    pub fn all() -> (r: [Field; 6])
        ensures
            r@ == seq![
                Field::MpvPath,
                Field::MpvArgs,
                Field::LogLevel,
                Field::Autoplay,
                Field::PrependPrevious,
                Field::CoverCacheMb,
            ],
    {
        [
            Field::MpvPath,
            Field::MpvArgs,
            Field::LogLevel,
            Field::Autoplay,
            Field::PrependPrevious,
            Field::CoverCacheMb,
        ]
    }

    pub fn name(self) -> (r: &'static str)
        ensures
            r@ == field_name(self),
    {
        match self {
            Field::MpvPath => "mpv_path",
            Field::MpvArgs => "mpv_args",
            Field::LogLevel => "log_level",
            Field::Autoplay => "autoplay",
            Field::PrependPrevious => "prepend_previous",
            Field::CoverCacheMb => "cover_cache_mb",
        }
    }

    /// The field named `key`, or a usage error listing the valid names.
    pub fn parse(key: &str) -> (r: Result<Field, UsageError>)
        ensures
            match r {
                Ok(f) => field_name(f) == key@,
                Err(e) => (forall|f: Field| field_name(f) != key@) && e.0@ == unknown_key_message(key@),
            },
    {
        let all = Field::all();
        let mut i: usize = 0;
        while i < 6
            invariant
                i <= 6,
                all@ == seq![
                    Field::MpvPath,
                    Field::MpvArgs,
                    Field::LogLevel,
                    Field::Autoplay,
                    Field::PrependPrevious,
                    Field::CoverCacheMb,
                ],
                forall|j: int| 0 <= j < i ==> field_name(#[trigger] all@[j]) != key@,
            decreases 6 - i,
        {
            let f = all[i];
            if str_eq(f.name(), key) {
                return Ok(f);
            }
            i = i + 1;
        }
        proof {
            assert forall|f: Field| field_name(f) != key@ by {
                match f {
                    Field::MpvPath => assert(field_name(all@[0]) != key@),
                    Field::MpvArgs => assert(field_name(all@[1]) != key@),
                    Field::LogLevel => assert(field_name(all@[2]) != key@),
                    Field::Autoplay => assert(field_name(all@[3]) != key@),
                    Field::PrependPrevious => assert(field_name(all@[4]) != key@),
                    Field::CoverCacheMb => assert(field_name(all@[5]) != key@),
                }
            }
        }
        let mut msg = owned("unknown config key ");
        let q = debug_quoted(key);
        push_str(&mut msg, q.as_str());
        push_str(&mut msg, " (valid: mpv_path, mpv_args, log_level, autoplay, prepend_previous, cover_cache_mb)");
        Err(UsageError(msg))
    }
}

/// Each field has its own name: reading a field back from its name gives
/// that field.
pub proof fn law_field_names_are_distinct(a: Field, b: Field)
    ensures
        field_name(a) == field_name(b) ==> a == b,
{
    reveal_strlit("mpv_path");
    reveal_strlit("mpv_args");
    reveal_strlit("log_level");
    reveal_strlit("autoplay");
    reveal_strlit("prepend_previous");
    reveal_strlit("cover_cache_mb");
    if a != b && field_name(a).len() == field_name(b).len() {
        if field_name(a)[0] == field_name(b)[0] {
            assert(field_name(a)[4] != field_name(b)[4]);
        }
    }
}

/// The configuration in `config.toml`.
#[derive(Debug, Clone, PartialEq, Eq)]
pub struct Config {
    pub mpv_path: String,
    pub log_level: String,
    pub autoplay: bool,
    pub prepend_previous: bool,
    pub cover_cache_mb: u64,
}

impl Default for Config {
    fn default() -> (c: Config)
        ensures
            c.mpv_path@ == "mpv"@,
            c.log_level@ == "info"@,
            c.autoplay,
            c.prepend_previous,
            c.cover_cache_mb == 256,
    {
        Config {
            mpv_path: owned("mpv"),
            log_level: owned("info"),
            autoplay: true,
            prepend_previous: true,
            cover_cache_mb: 256,
        }
    }
}

/// The booleans a user may write, as `Some(value)`; `None` for anything else.
pub open spec fn bool_word(value: Seq<char>) -> Option<bool> {
    let w = ascii_lower(trim(value));
    if w == "true"@ || w == "1"@ || w == "yes"@ || w == "on"@ {
        Some(true)
    } else if w == "false"@ || w == "0"@ || w == "no"@ || w == "off"@ {
        Some(false)
    } else {
        None
    }
}

/// The boolean words read as what they say: `true`, `1`, `yes` and `on` are
/// true, `false`, `0`, `no` and `off` are false, in any case and with white
/// space around them, and no other text is a boolean.
pub proof fn law_boolean_words_read_as_they_say(v: Seq<char>)
    ensures
        ({
            let w = ascii_lower(trim(v));
            &&& w == "true"@ ==> bool_word(v) == Some(true)
            &&& w == "1"@ ==> bool_word(v) == Some(true)
            &&& w == "yes"@ ==> bool_word(v) == Some(true)
            &&& w == "on"@ ==> bool_word(v) == Some(true)
            &&& w == "false"@ ==> bool_word(v) == Some(false)
            &&& w == "0"@ ==> bool_word(v) == Some(false)
            &&& w == "no"@ ==> bool_word(v) == Some(false)
            &&& w == "off"@ ==> bool_word(v) == Some(false)
            &&& bool_word(v) == Some(true) ==> (w == "true"@ || w == "1"@ || w == "yes"@ || w == "on"@)
            &&& bool_word(v) == Some(false) ==> (w == "false"@ || w == "0"@ || w == "no"@ || w
                == "off"@)
        }),
{
    reveal_strlit("true");
    reveal_strlit("1");
    reveal_strlit("yes");
    reveal_strlit("on");
    reveal_strlit("false");
    reveal_strlit("0");
    reveal_strlit("no");
    reveal_strlit("off");
    assert("true"@.len() == 4 && "1"@.len() == 1 && "yes"@.len() == 3 && "on"@.len() == 2
        && "false"@.len() == 5 && "0"@.len() == 1 && "no"@.len() == 2 && "off"@.len() == 3);
    assert("1"@[0] != "0"@[0]);
    assert("on"@[0] != "no"@[0]);
    assert("yes"@[0] != "off"@[0]);
    assert("1"@ != "0"@ && "on"@ != "no"@ && "yes"@ != "off"@);
}

/// Reads a boolean setting: `true/1/yes/on` or `false/0/no/off`, in any case
/// and with surrounding white space.
pub fn parse_bool(value: &str) -> (r: Result<bool, UsageError>)
    ensures
        match bool_word(value@) {
            Some(b) => r == Ok::<bool, UsageError>(b),
            None => r matches Err(e) && e.0@ == "invalid boolean "@ + debug_str(value@)
                + "; use true/false"@,
        },
{
    let t = trim_str(value);
    let w = ascii_lowercase(t.as_str());
    let w = w.as_str();
    if str_eq(w, "true") || str_eq(w, "1") || str_eq(w, "yes") || str_eq(w, "on") {
        Ok(true)
    } else if str_eq(w, "false") || str_eq(w, "0") || str_eq(w, "no") || str_eq(w, "off") {
        Ok(false)
    } else {
        let mut msg = owned("invalid boolean ");
        let q = debug_quoted(value);
        push_str(&mut msg, q.as_str());
        push_str(&mut msg, "; use true/false");
        Err(UsageError(msg))
    }
}

/// A level as `LevelFilter::from_str` reads it: an unsigned number up to 5
/// (an optional `+`, then digits), nothing at all, or a level name in any
/// case.
pub open spec fn level_filter_accepts(p: Seq<char>) -> bool {
    let body = if p.len() > 0 && p[0] == '+' {
        p.drop_first()
    } else {
        p
    };
    ||| body.len() > 0 && all_digits(body) && digits_value(body) <= 5
    ||| p.len() == 0
    ||| same_ignoring_ascii_case(p, "error"@) || same_ignoring_ascii_case(p, "warn"@)
        || same_ignoring_ascii_case(p, "info"@) || same_ignoring_ascii_case(p, "debug"@)
        || same_ignoring_ascii_case(p, "trace"@) || same_ignoring_ascii_case(p, "off"@)
}

/// A target with an optional field list: at most one `[{`, and after it the
/// text ends in `}]`.
pub open spec fn target_fields_accepted(t: Seq<char>) -> bool {
    match find(t, "[{"@) {
        None => true,
        Some(i) => {
            let rest = t.skip(i + 2);
            find(rest, "[{"@) is None && "}]"@.is_suffix_of(rest)
        },
    }
}

/// One directive as `StaticDirective::from_str` reads it: without `=` any
/// text (a level or a target); with one `=` a target as above and a level;
/// more than one `=` is refused.
pub open spec fn directive_accepted(d: Seq<char>) -> bool {
    let parts = split_char(d, '=');
    ||| parts.len() == 1
    ||| parts.len() == 2 && target_fields_accepted(parts[0]) && level_filter_accepts(parts[1])
}

/// Whether `tracing_subscriber`'s `Targets` parser accepts `spec`: every
/// comma-separated directive is accepted.
pub open spec fn targets_accepts(spec: Seq<char>) -> bool {
    forall|i: int| 0 <= i < split_char(spec, ',').len() ==> #[trigger] directive_accepted(
        split_char(spec, ',')[i],
    )
}

/// Parses `spec` with `<tracing_subscriber::filter::Targets as FromStr>`.
///
/// Trusted: the answer is whether the parse succeeded, which is what
/// `targets_accepts` writes out from the source of `Targets::from_str`,
/// `StaticDirective::from_str` and `LevelFilter::from_str`.
#[verifier::external_body]
fn targets_parse(spec: &str) -> (r: bool)
    ensures
        r == targets_accepts(spec@),
{
    spec.parse::<tracing_subscriber::filter::Targets>().is_ok()
}

/// The levels a bare log level may name.
pub open spec fn is_level_name(s: Seq<char>) -> bool {
    same_ignoring_ascii_case(s, "trace"@) || same_ignoring_ascii_case(s, "debug"@)
        || same_ignoring_ascii_case(s, "info"@) || same_ignoring_ascii_case(s, "warn"@)
        || same_ignoring_ascii_case(s, "error"@) || same_ignoring_ascii_case(s, "off"@)
}

/// The message for a bare word that is no level.
pub open spec fn not_a_level_message() -> Seq<char> {
    "expected one of trace, debug, info, warn, error, off (or a target filter like `jellysink=debug,warn`)"@
}

/// A `log_level` may be stored: the filter parses, and a spec without `=`
/// or `,` is a level name (the parser would read any other bare word as a
/// target and silence everything jellysink logs).
pub open spec fn valid_log_level(spec: Seq<char>) -> bool {
    &&& targets_accepts(spec)
    &&& (trim(spec).contains('=') || trim(spec).contains(',') || is_level_name(trim(spec)))
}

/// Validates a `log_level` before it is written to config.toml; the error
/// says why it was refused.
pub fn validate_log_level(spec: &str) -> (r: Result<(), String>)
    ensures
        r is Ok <==> valid_log_level(spec@),
        r matches Err(m) ==> if !targets_accepts(spec@) {
            m@ == "invalid log filter "@ + debug_str(spec@)
        } else {
            m@ == not_a_level_message()
        },
{
    if !targets_parse(spec) {
        let mut msg = owned("invalid log filter ");
        let q = debug_quoted(spec);
        push_str(&mut msg, q.as_str());
        return Err(msg);
    }
    let bare = trim_str(spec);
    if !has_char(bare.as_str(), '=') && !has_char(bare.as_str(), ',') {
        let b = bare.as_str();
        if !(eq_ignore_ascii_case(b, "trace") || eq_ignore_ascii_case(b, "debug")
            || eq_ignore_ascii_case(b, "info") || eq_ignore_ascii_case(b, "warn")
            || eq_ignore_ascii_case(b, "error") || eq_ignore_ascii_case(b, "off")) {
            return Err(owned(
                "expected one of trace, debug, info, warn, error, off (or a target filter like `jellysink=debug,warn`)",
            ));
        }
    }
    Ok(())
}

/// A size in megabytes as a user may write it: a whole number, at least 0,
/// with surrounding white space allowed.
pub open spec fn megabytes(v: Seq<char>) -> Option<u64> {
    match parse_i64(trim(v)) {
        Some(n) => if n >= 0 {
            Some(n as u64)
        } else {
            None
        },
        None => None,
    }
}

/// Reads a size in megabytes; `None` for anything [`megabytes`] refuses.
pub fn parse_megabytes(value: &str) -> (r: Option<u64>)
    ensures
        r == megabytes(value@),
{
    let t = trim_str(value);
    match parse_i64_exec(t.as_str()) {
        Some(n) => if n >= 0 {
            Some(n as u64)
        } else {
            None
        },
        None => None,
    }
}

/// A key's value as `config get` shows it; `None` for `mpv_args`, which
/// lives in its own file.
pub open spec fn shown(c: Config, f: Field) -> Option<Seq<char>> {
    match f {
        Field::MpvArgs => None,
        Field::MpvPath => Some(c.mpv_path@),
        Field::LogLevel => Some(c.log_level@),
        Field::Autoplay => Some(bool_text(c.autoplay)),
        Field::PrependPrevious => Some(bool_text(c.prepend_previous)),
        Field::CoverCacheMb => Some(decimal(c.cover_cache_mb as nat)),
    }
}

/// The value `config set` takes for a key: any path, a log filter that
/// `valid_log_level` admits, a boolean word for the switches.
pub open spec fn accepts(f: Field, v: Seq<char>) -> bool {
    match f {
        Field::MpvArgs => true,
        Field::MpvPath => true,
        Field::LogLevel => valid_log_level(v),
        Field::Autoplay => bool_word(v) is Some,
        Field::PrependPrevious => bool_word(v) is Some,
        Field::CoverCacheMb => megabytes(v) is Some,
    }
}

/// The text a key reads back as once set to `v`: `v` itself, or the
/// canonical `true`/`false` of a boolean word.
pub open spec fn stored_text(f: Field, v: Seq<char>) -> Seq<char> {
    match f {
        Field::Autoplay => bool_text(bool_word(v).unwrap()),
        Field::PrependPrevious => bool_text(bool_word(v).unwrap()),
        Field::CoverCacheMb => decimal(megabytes(v).unwrap() as nat),
        _ => v,
    }
}

/// `after` is `before` with key `f` set to `v` and every other key kept.
pub open spec fn stores(before: Config, after: Config, f: Field, v: Seq<char>) -> bool {
    match f {
        Field::MpvArgs => after == before,
        Field::MpvPath => after.mpv_path@ == v && after.log_level == before.log_level
            && after.autoplay == before.autoplay && after.prepend_previous == before.prepend_previous
            && after.cover_cache_mb == before.cover_cache_mb,
        Field::LogLevel => after.log_level@ == v && after.mpv_path == before.mpv_path
            && after.autoplay == before.autoplay && after.prepend_previous == before.prepend_previous
            && after.cover_cache_mb == before.cover_cache_mb,
        Field::Autoplay => after.autoplay == bool_word(v).unwrap() && after.mpv_path == before.mpv_path
            && after.log_level == before.log_level && after.prepend_previous == before.prepend_previous
            && after.cover_cache_mb == before.cover_cache_mb,
        Field::PrependPrevious => after.prepend_previous == bool_word(v).unwrap() && after.mpv_path
            == before.mpv_path && after.log_level == before.log_level && after.autoplay
            == before.autoplay && after.cover_cache_mb == before.cover_cache_mb,
        Field::CoverCacheMb => after.cover_cache_mb == megabytes(v).unwrap() && after.mpv_path
            == before.mpv_path && after.log_level == before.log_level && after.autoplay
            == before.autoplay && after.prepend_previous == before.prepend_previous,
    }
}

/// Why `config set` refused `v` for key `f`.
pub open spec fn refusal(f: Field, v: Seq<char>) -> Seq<char> {
    match f {
        Field::LogLevel => "invalid log_level "@ + debug_str(v) + ": "@ + if !targets_accepts(v) {
            "invalid log filter "@ + debug_str(v)
        } else {
            not_a_level_message()
        },
        Field::CoverCacheMb => "invalid cover_cache_mb "@ + debug_str(v)
            + "; use a whole number of megabytes"@,
        _ => "invalid boolean "@ + debug_str(v) + "; use true/false"@,
    }
}

/// What `config set` stores, `config get` shows: the key reads back as the
/// value set (a boolean in its canonical spelling), and every other key
/// reads as it did before.
pub proof fn law_a_stored_key_reads_back(before: Config, after: Config, f: Field, v: Seq<char>)
    requires
        f != Field::MpvArgs,
        accepts(f, v),
        stores(before, after, f, v),
    ensures
        shown(after, f) == Some(stored_text(f, v)),
        forall|g: Field| g != f ==> #[trigger] shown(after, g) == shown(before, g),
{
}

impl Config {
    /// A key's value as `config get` prints it; `None` for `mpv_args`, which
    /// lives in its own file.
    pub fn get(&self, field: Field) -> (r: Option<String>)
        ensures
            crate::cast::opt_view(r) == shown(*self, field),
            match field {
                Field::MpvArgs => r is None,
                Field::MpvPath => r matches Some(v) && v@ == self.mpv_path@,
                Field::LogLevel => r matches Some(v) && v@ == self.log_level@,
                Field::Autoplay => r matches Some(v) && v@ == bool_text(self.autoplay),
                Field::PrependPrevious => r matches Some(v) && v@ == bool_text(self.prepend_previous),
                Field::CoverCacheMb => r matches Some(v) && v@ == decimal(self.cover_cache_mb as nat),
            },
    {
        match field {
            Field::MpvArgs => None,
            Field::MpvPath => Some(self.mpv_path.clone()),
            Field::LogLevel => Some(self.log_level.clone()),
            Field::Autoplay => Some(bool_string(self.autoplay)),
            Field::PrependPrevious => Some(bool_string(self.prepend_previous)),
            Field::CoverCacheMb => Some(u64_decimal(self.cover_cache_mb)),
        }
    }

    /// Sets a key. `Ok(false)` for `mpv_args`, which the caller writes to
    /// its own file; a refused value leaves the configuration as it was.
    pub fn set(&mut self, field: Field, value: &str) -> (r: Result<bool, UsageError>)
        ensures
            field == Field::MpvArgs ==> r == Ok::<bool, UsageError>(false) && *final(self) == *old(self),
            field != Field::MpvArgs && accepts(field, value@) ==> r == Ok::<bool, UsageError>(true)
                && stores(*old(self), *final(self), field, value@),
            field != Field::MpvArgs && !accepts(field, value@) ==> *final(self) == *old(self) && (r matches Err(
                e,
            ) && e.0@ == refusal(field, value@)),
    {
        match field {
            Field::MpvArgs => Ok(false),
            Field::MpvPath => {
                self.mpv_path = owned(value);
                Ok(true)
            },
            Field::LogLevel => match validate_log_level(value) {
                Ok(()) => {
                    self.log_level = owned(value);
                    Ok(true)
                },
                Err(e) => {
                    let mut msg = owned("invalid log_level ");
                    let q = debug_quoted(value);
                    push_str(&mut msg, q.as_str());
                    push_str(&mut msg, ": ");
                    push_str(&mut msg, e.as_str());
                    Err(UsageError(msg))
                },
            },
            Field::Autoplay => match parse_bool(value) {
                Ok(b) => {
                    self.autoplay = b;
                    Ok(true)
                },
                Err(e) => Err(e),
            },
            Field::PrependPrevious => match parse_bool(value) {
                Ok(b) => {
                    self.prepend_previous = b;
                    Ok(true)
                },
                Err(e) => Err(e),
            },
            Field::CoverCacheMb => match parse_megabytes(value) {
                Some(n) => {
                    self.cover_cache_mb = n;
                    Ok(true)
                },
                None => {
                    let mut msg = owned("invalid cover_cache_mb ");
                    let q = debug_quoted(value);
                    push_str(&mut msg, q.as_str());
                    push_str(&mut msg, "; use a whole number of megabytes");
                    Err(UsageError(msg))
                },
            },
        }
    }
}

/// The lines of `s`, split at each `\n` (a last, possibly empty, line
/// included).
pub open spec fn lines_of(s: Seq<char>) -> Seq<Seq<char>>
    decreases s.len(),
{
    if s.len() == 0 {
        seq![Seq::<char>::empty()]
    } else {
        let l = lines_of(s.drop_last());
        if s.last() == '\n' {
            l.push(Seq::empty())
        } else {
            l.update(l.len() - 1, l.last().push(s.last()))
        }
    }
}

/// The white-space separated words of `s`, as `str::split_whitespace`
/// yields them.
pub open spec fn words(s: Seq<char>) -> Seq<Seq<char>>
    decreases s.len(),
{
    if s.len() == 0 {
        Seq::empty()
    } else {
        let w = words(s.drop_last());
        let c = s.last();
        if is_white_space(c) {
            w
        } else if s.len() > 1 && !is_white_space(s[s.len() - 2]) {
            w.update(w.len() - 1, w.last().push(c))
        } else {
            w.push(seq![c])
        }
    }
}

/// The mpv arguments one line holds: none for a blank line or a `#`
/// comment, else its words.
pub open spec fn line_args(line: Seq<char>) -> Seq<Seq<char>> {
    let t = trim(line);
    if t.len() == 0 || t[0] == '#' {
        Seq::empty()
    } else {
        words(line)
    }
}

/// The arguments of all `lines`, in order.
pub open spec fn all_line_args(lines: Seq<Seq<char>>) -> Seq<Seq<char>>
    decreases lines.len(),
{
    if lines.len() == 0 {
        Seq::empty()
    } else {
        all_line_args(lines.drop_last()) + line_args(lines.last())
    }
}

proof fn lemma_lines_nonempty(s: Seq<char>)
    ensures
        lines_of(s).len() >= 1,
    decreases s.len(),
{
    if s.len() > 0 {
        lemma_lines_nonempty(s.drop_last());
    }
}

proof fn lemma_words_last_open(s: Seq<char>)
    ensures
        s.len() > 0 && !is_white_space(s.last()) ==> words(s).len() >= 1,
    decreases s.len(),
{
    if s.len() > 0 {
        lemma_words_last_open(s.drop_last());
    }
}

fn words_exec(line: &Vec<char>) -> (r: Vec<String>)
    ensures
        crate::cast::id_views(r@) == words(line@),
{
    let mut out: Vec<String> = Vec::new();
    let mut i: usize = 0;
    assert(crate::cast::id_views(out@) =~= words(line@.take(0)));
    while i < line.len()
        invariant
            i <= line@.len(),
            crate::cast::id_views(out@) == words(line@.take(i as int)),
        decreases line@.len() - i,
    {
        let c = line[i];
        let ghost prefix = line@.take(i as int);
        assert(line@.take(i + 1).drop_last() == prefix);
        assert(line@.take(i + 1).last() == c);
        if is_white_space_exec(c) {
        } else if i > 0 && !is_white_space_exec(line[i - 1]) {
            proof {
                assert(prefix.last() == line@[i - 1]);
                lemma_words_last_open(prefix);
                assert(line@.take(i + 1)[i - 1] == line@[i - 1]);
            }
            let mut last = out.pop().unwrap();
            last.push(c);
            out.push(last);
            assert(crate::cast::id_views(out@) =~= words(prefix).update(
                words(prefix).len() - 1,
                words(prefix).last().push(c),
            ));
        } else {
            let mut w = String::new();
            w.push(c);
            out.push(w);
            assert(crate::cast::id_views(out@) =~= words(prefix).push(seq![c]));
        }
        i = i + 1;
    }
    assert(line@.take(line@.len() as int) == line@);
    out
}

fn line_args_exec(line: &Vec<char>) -> (r: Vec<String>)
    ensures
        crate::cast::id_views(r@) == line_args(line@),
{
    let text = string_of(line, 0, line.len());
    assert(line@.subrange(0, line@.len() as int) == line@);
    let t = trim_str(text.as_str());
    let tc = chars_of(t.as_str());
    if tc.len() == 0 || tc[0] == '#' {
        let e: Vec<String> = Vec::new();
        assert(crate::cast::id_views(e@) =~= Seq::<Seq<char>>::empty());
        return e;
    }
    words_exec(line)
}

/// Splits the text of `mpv_args.conf` into mpv arguments: per line, blank
/// lines and `#` comments are skipped and the rest splits at white space.
pub fn parse_mpv_args(value: &str) -> (r: Vec<String>)
    ensures
        crate::cast::id_views(r@) == all_line_args(lines_of(value@)),
{
    let cs = chars_of(value);
    let mut out: Vec<String> = Vec::new();
    let mut line: Vec<char> = Vec::new();
    let mut i: usize = 0;
    assert(cs@.take(0) == Seq::<char>::empty());
    assert(lines_of(cs@.take(0)).drop_last() =~= Seq::<Seq<char>>::empty());
    assert(crate::cast::id_views(out@) =~= Seq::<Seq<char>>::empty());
    while i < cs.len()
        invariant
            i <= cs@.len(),
            cs@ == value@,
            lines_of(cs@.take(i as int)).len() >= 1,
            crate::cast::id_views(out@) == all_line_args(lines_of(cs@.take(i as int)).drop_last()),
            line@ == lines_of(cs@.take(i as int)).last(),
        decreases cs@.len() - i,
    {
        let c = cs[i];
        let ghost prefix = cs@.take(i as int);
        let ghost before = lines_of(prefix);
        assert(cs@.take(i + 1).drop_last() == prefix);
        assert(cs@.take(i + 1).last() == c);
        if c == '\n' {
            let mut args = line_args_exec(&line);
            let ghost old_out = crate::cast::id_views(out@);
            out.append(&mut args);
            assert(lines_of(cs@.take(i + 1)) == before.push(Seq::<char>::empty()));
            assert(lines_of(cs@.take(i + 1)).drop_last() == before);
            assert(before.drop_last().push(before.last()) == before);
            assert(crate::cast::id_views(out@) =~= old_out + line_args(before.last()));
            line = Vec::new();
        } else {
            line.push(c);
            assert(lines_of(cs@.take(i + 1)).drop_last() =~= before.drop_last());
        }
        proof {
            lemma_lines_nonempty(cs@.take(i + 1));
        }
        i = i + 1;
    }
    assert(cs@.take(cs@.len() as int) == value@);
    let ghost ls = lines_of(value@);
    let mut last = line_args_exec(&line);
    let ghost old_out = crate::cast::id_views(out@);
    out.append(&mut last);
    assert(ls.drop_last().push(ls.last()) == ls);
    assert(crate::cast::id_views(out@) =~= old_out + line_args(ls.last()));
    out
}

/// The extra mpv arguments, one per entry.
#[derive(Debug, Clone, PartialEq, Eq)]
pub struct MpvArgs(pub Vec<String>);

/// `args`, each followed by a newline.
pub open spec fn args_file_text(args: Seq<Seq<char>>) -> Seq<char>
    decreases args.len(),
{
    if args.len() == 0 {
        Seq::empty()
    } else {
        args_file_text(args.drop_last()) + args.last() + "\n"@
    }
}

/// `args` joined by single spaces.
pub open spec fn spaced(args: Seq<Seq<char>>) -> Seq<char>
    decreases args.len(),
{
    if args.len() == 0 {
        Seq::empty()
    } else if args.len() == 1 {
        args[0]
    } else {
        spaced(args.drop_last()) + " "@ + args.last()
    }
}

/// An argument that reads back from `mpv_args.conf` as itself: not empty,
/// no white space, not a `#` comment.
pub open spec fn is_plain_arg(a: Seq<char>) -> bool {
    &&& a.len() > 0
    &&& a[0] != '#'
    &&& forall|i: int| 0 <= i < a.len() ==> !is_white_space(#[trigger] a[i])
}

proof fn lemma_lines_of_word(p: Seq<char>, w: Seq<char>)
    requires
        forall|i: int| 0 <= i < w.len() ==> #[trigger] w[i] != '\n',
    ensures
        lines_of(p + w) == lines_of(p).update(lines_of(p).len() - 1, lines_of(p).last() + w),
    decreases w.len(),
{
    lemma_lines_nonempty(p);
    if w.len() == 0 {
        assert(p + w == p);
        assert(lines_of(p).last() + w == lines_of(p).last());
        assert(lines_of(p).update(lines_of(p).len() - 1, lines_of(p).last()) == lines_of(p));
    } else {
        let w0 = w.drop_last();
        lemma_lines_of_word(p, w0);
        assert((p + w).drop_last() == p + w0);
        assert((p + w).last() == w.last());
        assert(lines_of(p).last() + w == (lines_of(p).last() + w0).push(w.last()));
    }
}

proof fn lemma_words_of_plain(a: Seq<char>)
    requires
        a.len() > 0,
        forall|i: int| 0 <= i < a.len() ==> !is_white_space(#[trigger] a[i]),
    ensures
        words(a) == seq![a],
    decreases a.len(),
{
    if a.len() == 1 {
        assert(a.drop_last().len() == 0);
        assert(words(a.drop_last()) == Seq::<Seq<char>>::empty());
        assert(!is_white_space(a[0]));
        assert(seq![a.last()] == a);
        assert(words(a) == Seq::<Seq<char>>::empty().push(seq![a.last()]));
    } else {
        let a0 = a.drop_last();
        assert forall|i: int| 0 <= i < a0.len() implies !is_white_space(#[trigger] a0[i]) by {
            assert(a0[i] == a[i]);
        }
        lemma_words_of_plain(a0);
        assert(!is_white_space(a[a.len() - 2]));
        assert(!is_white_space(a.last()));
        assert(a0.push(a.last()) == a);
        assert(seq![a0].update(0, a0.push(a.last())) == seq![a]);
        assert(words(a) == words(a0).update(words(a0).len() - 1, words(a0).last().push(a.last())));
    }
}

proof fn lemma_line_args_of_plain(a: Seq<char>)
    requires
        is_plain_arg(a),
    ensures
        line_args(a) == seq![a],
{
    assert(!is_white_space(a[0]));
    assert(trim_start(a) == a);
    assert(!is_white_space(a.last()));
    assert(trim_end(a) == a);
    lemma_words_of_plain(a);
}

proof fn lemma_file_lines(args: Seq<Seq<char>>)
    requires
        forall|k: int| 0 <= k < args.len() ==> is_plain_arg(#[trigger] args[k]),
    ensures
        lines_of(args_file_text(args)) == args.push(Seq::<char>::empty()),
    decreases args.len(),
{
    if args.len() > 0 {
        let init = args.drop_last();
        let a = args.last();
        assert forall|k: int| 0 <= k < init.len() implies is_plain_arg(#[trigger] init[k]) by {
            assert(init[k] == args[k]);
        }
        lemma_file_lines(init);
        assert(is_plain_arg(args[args.len() - 1]));
        assert forall|i: int| 0 <= i < a.len() implies #[trigger] a[i] != '\n' by {
            assert(!is_white_space(a[i]));
        }
        let t0 = args_file_text(init);
        lemma_lines_of_word(t0, a);
        reveal_strlit("\n");
        let t = t0 + a + "\n"@;
        assert(t.drop_last() == t0 + a);
        assert(t.last() == '\n');
        assert(init.push(Seq::<char>::empty()).update(init.len() as int, Seq::<char>::empty() + a)
            == init.push(a));
        assert(Seq::<char>::empty() + a == a);
        assert(init.push(a) == args);
    }
}

proof fn lemma_all_line_args_of_plain(args: Seq<Seq<char>>)
    requires
        forall|k: int| 0 <= k < args.len() ==> is_plain_arg(#[trigger] args[k]),
    ensures
        all_line_args(args) == args,
    decreases args.len(),
{
    if args.len() > 0 {
        let init = args.drop_last();
        assert forall|k: int| 0 <= k < init.len() implies is_plain_arg(#[trigger] init[k]) by {
            assert(init[k] == args[k]);
        }
        lemma_all_line_args_of_plain(init);
        assert(is_plain_arg(args[args.len() - 1]));
        lemma_line_args_of_plain(args.last());
        assert(init + seq![args.last()] == args);
    }
}

/// What `mpv_args.conf` is written with reads back as the same arguments,
/// for arguments that are single words and no comments: a saved value is
/// what a running daemon loads on its next mpv spawn.
pub proof fn law_saved_args_read_back(args: Seq<Seq<char>>)
    requires
        forall|k: int| 0 <= k < args.len() ==> is_plain_arg(#[trigger] args[k]),
    ensures
        all_line_args(lines_of(args_file_text(args))) == args,
{
    lemma_file_lines(args);
    lemma_all_line_args_of_plain(args);
    let lines = args.push(Seq::<char>::empty());
    assert(lines.drop_last() == args);
    assert(trim(Seq::<char>::empty()).len() == 0);
    assert(line_args(Seq::<char>::empty()) == Seq::<Seq<char>>::empty());
    assert(all_line_args(lines) == all_line_args(args) + Seq::<Seq<char>>::empty());
    assert(args + Seq::<Seq<char>>::empty() == args);
}

impl MpvArgs {
    /// The arguments the text of `mpv_args.conf` holds.
    pub fn parse(text: &str) -> (r: MpvArgs)
        ensures
            crate::cast::id_views(r.0@) == all_line_args(lines_of(text@)),
    {
        MpvArgs(parse_mpv_args(text))
    }

    /// The text written to `mpv_args.conf`: one argument per line.
    pub fn file_text(&self) -> (r: String)
        ensures
            r@ == args_file_text(crate::cast::id_views(self.0@)),
    {
        let mut text = String::new();
        let mut i: usize = 0;
        while i < self.0.len()
            invariant
                i <= self.0@.len(),
                text@ == args_file_text(crate::cast::id_views(self.0@.take(i as int))),
            decreases self.0@.len() - i,
        {
            assert(crate::cast::id_views(self.0@.take(i + 1)).drop_last() == crate::cast::id_views(
                self.0@.take(i as int),
            ));
            push_str(&mut text, self.0[i].as_str());
            push_str(&mut text, "\n");
            i = i + 1;
        }
        assert(self.0@.take(self.0@.len() as int) == self.0@);
        text
    }

    /// The arguments as `config get` prints them: separated by spaces.
    pub fn joined(&self) -> (r: String)
        ensures
            r@ == spaced(crate::cast::id_views(self.0@)),
    {
        let mut text = String::new();
        let mut i: usize = 0;
        while i < self.0.len()
            invariant
                i <= self.0@.len(),
                text@ == spaced(crate::cast::id_views(self.0@.take(i as int))),
            decreases self.0@.len() - i,
        {
            assert(crate::cast::id_views(self.0@.take(i + 1)).drop_last() == crate::cast::id_views(
                self.0@.take(i as int),
            ));
            if i > 0 {
                push_str(&mut text, " ");
            }
            push_str(&mut text, self.0[i].as_str());
            i = i + 1;
        }
        assert(self.0@.take(self.0@.len() as int) == self.0@);
        text
    }
}

/// What `jellysink login` stores in `cred.json`.
#[derive(Clone, PartialEq, Eq)]
pub struct Credentials {
    pub server: String,
    pub username: String,
    pub user_id: String,
    pub access_token: String,
    pub device_id: String,
}

impl Credentials {
    /// The `Debug` rendering, with the access token left out so it cannot
    /// reach a log line or an error report.
    pub fn debug_string(&self) -> (r: String)
        ensures
            r@ == "Credentials { server: "@ + debug_str(self.server@) + ", username: "@ + debug_str(
                self.username@,
            ) + ", user_id: "@ + debug_str(self.user_id@)
                + ", access_token: \"<redacted>\", device_id: "@ + debug_str(self.device_id@)
                + " }"@,
    {
        let mut r = owned("Credentials { server: ");
        let a = debug_quoted(self.server.as_str());
        push_str(&mut r, a.as_str());
        push_str(&mut r, ", username: ");
        let b = debug_quoted(self.username.as_str());
        push_str(&mut r, b.as_str());
        push_str(&mut r, ", user_id: ");
        let c = debug_quoted(self.user_id.as_str());
        push_str(&mut r, c.as_str());
        push_str(&mut r, ", access_token: \"<redacted>\", device_id: ");
        let d = debug_quoted(self.device_id.as_str());
        push_str(&mut r, d.as_str());
        push_str(&mut r, " }");
        r
    }
}

/// The device name jellysink reports: the host name, or the program's name
/// when the host has none.
pub fn device_label(hostname: &str) -> (r: String)
    ensures
        r@ == if hostname@.len() == 0 {
            "jellysink"@
        } else {
            hostname@
        },
{
    if chars_of(hostname).len() == 0 {
        owned(APP_NAME)
    } else {
        owned(hostname)
    }
}

} // verus!
