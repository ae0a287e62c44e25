//! The mpv JSON IPC protocol: what mpv sends, what we ask of it.
use crate::cast::{id_views, opt_view};
use crate::json::{as_i64, get, get_i64, get_str, json_as_array, json_get_i64, json_get_str, json_take, Json};
use crate::text::{push_str, str_eq};
use vstd::prelude::*;

verus! {

/// Why mpv ended a file.
#[derive(Debug, Clone, Copy, PartialEq, Eq, Structural)]
pub enum EndFileReason {
    /// Played through to the end.
    Eof,
    /// mpv followed the file to another URL.
    Redirect,
    /// Playback was stopped, by the user or by moving off the playlist entry.
    Stop,
    /// mpv is exiting.
    Quit,
    Error,
    /// A reason mpv added later, or no `reason` field at all.
    Other,
}

/// The reason mpv's `reason` field names.
pub open spec fn reason_named(reason: Option<Seq<char>>) -> EndFileReason {
    match reason {
        Some(r) => if r == "eof"@ {
            EndFileReason::Eof
        } else if r == "redirect"@ {
            EndFileReason::Redirect
        } else if r == "stop"@ {
            EndFileReason::Stop
        } else if r == "quit"@ {
            EndFileReason::Quit
        } else if r == "error"@ {
            EndFileReason::Error
        } else {
            EndFileReason::Other
        },
        None => EndFileReason::Other,
    }
}

/// How a reason is spelled in logs: mpv's own word, `unknown` for others.
pub open spec fn reason_text(r: EndFileReason) -> Seq<char> {
    match r {
        EndFileReason::Eof => "eof"@,
        EndFileReason::Redirect => "redirect"@,
        EndFileReason::Stop => "stop"@,
        EndFileReason::Quit => "quit"@,
        EndFileReason::Error => "error"@,
        EndFileReason::Other => "unknown"@,
    }
}

/// Reading a reason's spelling back gives that reason: mpv's words and the
/// reasons the player acts on correspond one to one, and `unknown` (like any
/// word mpv may add) reads as `Other`.
pub proof fn law_end_file_reasons_read_back(r: EndFileReason)
    ensures
        reason_named(Some(reason_text(r))) == r,
        reason_named(None) == EndFileReason::Other,
{
    reveal_strlit("eof");
    reveal_strlit("redirect");
    reveal_strlit("stop");
    reveal_strlit("quit");
    reveal_strlit("error");
    reveal_strlit("unknown");
    assert("eof"@.len() == 3 && "redirect"@.len() == 8 && "stop"@.len() == 4 && "quit"@.len() == 4
        && "error"@.len() == 5 && "unknown"@.len() == 7);
    assert("stop"@[0] != "quit"@[0]);
    assert("stop"@ != "quit"@);
}

impl EndFileReason {
    pub fn parse(reason: Option<&str>) -> (r: EndFileReason)
        ensures
            r == reason_named(
                match reason {
                    Some(s) => Some(s@),
                    None => None,
                },
            ),
    {
        match reason {
            Some(s) => if str_eq(s, "eof") {
                EndFileReason::Eof
            } else if str_eq(s, "redirect") {
                EndFileReason::Redirect
            } else if str_eq(s, "stop") {
                EndFileReason::Stop
            } else if str_eq(s, "quit") {
                EndFileReason::Quit
            } else if str_eq(s, "error") {
                EndFileReason::Error
            } else {
                EndFileReason::Other
            },
            None => EndFileReason::Other,
        }
    }

    /// mpv's own spelling, so log lines read the same as mpv's.
    pub fn name(&self) -> (r: &'static str)
        ensures
            r@ == reason_text(*self),
    {
        match self {
            EndFileReason::Eof => "eof",
            EndFileReason::Redirect => "redirect",
            EndFileReason::Stop => "stop",
            EndFileReason::Quit => "quit",
            EndFileReason::Error => "error",
            EndFileReason::Other => "unknown",
        }
    }
}

/// An inbound IPC message from mpv.
#[derive(Debug, PartialEq)]
pub enum IpcMessage {
    Reply { request_id: i64, error: String, data: Json },
    Event { name: String, reason: Option<String> },
    /// The new value is dropped: the runtime re-reads the property.
    PropertyChange { property: String },
}

/// Why an IPC line is not a message.
#[derive(Debug, Clone, Copy, PartialEq, Eq, Structural)]
pub enum IpcError {
    /// Not an event, and no `request_id` to match a reply by.
    MissingRequestId,
}

impl IpcError {
    pub fn message(&self) -> (r: &'static str)
        ensures
            r@ == "IPC reply missing request_id"@,
    {
        "IPC reply missing request_id"
    }
}

pub open spec fn str_or(s: Option<Seq<char>>, d: Seq<char>) -> Seq<char> {
    match s {
        Some(x) => x,
        None => d,
    }
}

/// `message` is what the JSON object `v` says: an event (a property change
/// by the property's name, empty when absent), else a reply by its
/// `request_id`, with `error` defaulting to `success` and `data` to `null`.
pub open spec fn ipc_message_for(v: Json, message: Result<IpcMessage, IpcError>) -> bool {
    match get_str(v, "event"@) {
        Some(name) => if name == "property-change"@ {
            message matches Ok(IpcMessage::PropertyChange { property }) && property@ == str_or(
                get_str(v, "name"@),
                Seq::empty(),
            )
        } else {
            message matches Ok(IpcMessage::Event { name: n, reason }) && n@ == name && opt_view(reason)
                == get_str(v, "reason"@)
        },
        None => match get_i64(v, "request_id"@) {
            None => message == Err::<IpcMessage, IpcError>(IpcError::MissingRequestId),
            Some(id) => message matches Ok(IpcMessage::Reply { request_id, error, data }) && request_id
                == id && error@ == str_or(get_str(v, "error"@), "success"@) && data == match get(v, "data"@) {
                Some(d) => d,
                None => Json::Null,
            },
        },
    }
}

/// Reads one decoded IPC line.
pub fn ipc_message(v: Json) -> (r: Result<IpcMessage, IpcError>)
    ensures
        ipc_message_for(v, r),
{
    proof {
        reveal_strlit("success");
    }
    match json_get_str(&v, "event") {
        Some(name) => {
            if str_eq(name.as_str(), "property-change") {
                let property = match json_get_str(&v, "name") {
                    Some(p) => p.clone(),
                    None => String::new(),
                };
                return Ok(IpcMessage::PropertyChange { property });
            }
            let reason = match json_get_str(&v, "reason") {
                Some(r) => Some(r.clone()),
                None => None,
            };
            return Ok(IpcMessage::Event { name: name.clone(), reason });
        },
        None => {},
    }
    let request_id = match json_get_i64(&v, "request_id") {
        Some(id) => id,
        None => return Err(IpcError::MissingRequestId),
    };
    let error = match json_get_str(&v, "error") {
        Some(e) => e.clone(),
        None => crate::text::owned("success"),
    };
    let data = match json_take(v, "data") {
        Some(d) => d,
        None => Json::Null,
    };
    Ok(IpcMessage::Reply { request_id, error, data })
}

/// The mpv property holding the selected subtitle track.
pub const SUBTITLE_TRACK_PROPERTY: &'static str = "sid";

/// The mpv property holding the selected audio track.
pub const AUDIO_TRACK_PROPERTY: &'static str = "aid";

/// `yes` auto-plays the rest of the playlist and emits the `end-file`
/// autoplay keys off; `always` unloads nothing and never emits it.
pub const KEEP_OPEN: &'static str = "yes";

/// What the runtime hears from mpv.
#[derive(Debug, Clone, Copy, PartialEq, Eq, Structural)]
pub enum MpvEvent {
    EndFile { reason: EndFileReason },
    FileLoaded,
    /// The selected subtitle track changed; carries no id, the runtime
    /// re-reads `sid`.
    SubtitleTrackChanged,
    /// The selected audio track changed; carries no id, the runtime
    /// re-reads `aid`.
    AudioTrackChanged,
    Exited,
}

pub open spec fn mpv_event_spec(msg: IpcMessage) -> Option<MpvEvent> {
    match msg {
        IpcMessage::Event { name, reason } => if name@ == "end-file"@ {
            Some(MpvEvent::EndFile { reason: reason_named(opt_view(reason)) })
        } else if name@ == "file-loaded"@ {
            Some(MpvEvent::FileLoaded)
        } else {
            None
        },
        IpcMessage::PropertyChange { property } => if property@ == "sid"@ {
            Some(MpvEvent::SubtitleTrackChanged)
        } else if property@ == "aid"@ {
            Some(MpvEvent::AudioTrackChanged)
        } else {
            None
        },
        IpcMessage::Reply { .. } => None,
    }
}

/// The runtime-level event an inbound mpv message means, if any.
pub fn mpv_event_for(msg: &IpcMessage) -> (r: Option<MpvEvent>)
    ensures
        r == mpv_event_spec(*msg),
{
    match msg {
        IpcMessage::Event { name, reason } => {
            if str_eq(name.as_str(), "end-file") {
                let reason_text: Option<&str> = match reason {
                    Some(r) => Some(r.as_str()),
                    None => None,
                };
                Some(MpvEvent::EndFile { reason: EndFileReason::parse(reason_text) })
            } else if str_eq(name.as_str(), "file-loaded") {
                Some(MpvEvent::FileLoaded)
            } else {
                None
            }
        },
        IpcMessage::PropertyChange { property } => {
            if str_eq(property.as_str(), SUBTITLE_TRACK_PROPERTY) {
                Some(MpvEvent::SubtitleTrackChanged)
            } else if str_eq(property.as_str(), AUDIO_TRACK_PROPERTY) {
                Some(MpvEvent::AudioTrackChanged)
            } else {
                None
            }
        },
        IpcMessage::Reply { .. } => None,
    }
}

/// What mpv answers for a track-id property such as `sid`: `false` (off)
/// and `auto` (not picked yet) stay apart, since a loading file is not a
/// decision.
#[derive(Debug, Clone, Copy, PartialEq, Eq, Structural)]
pub enum SelectedTrack {
    /// This track is selected.
    Id(i64),
    /// Explicitly off.
    Off,
    /// `auto`: mpv has not picked a track yet.
    Unresolved,
}

impl Default for SelectedTrack {
    fn default() -> (r: SelectedTrack)
        ensures
            r == SelectedTrack::Unresolved,
    {
        SelectedTrack::Unresolved
    }
}

pub open spec fn selected_track_spec(v: Json) -> SelectedTrack {
    match v {
        Json::Bool(false) => SelectedTrack::Off,
        Json::Str(s) => if s@ == "no"@ {
            SelectedTrack::Off
        } else {
            SelectedTrack::Unresolved
        },
        Json::Int(_) => match as_i64(v) {
            Some(n) => SelectedTrack::Id(n),
            None => SelectedTrack::Unresolved,
        },
        _ => SelectedTrack::Unresolved,
    }
}

/// Reads a track-id property: a number that fits `i64` is a track, `false`
/// or `"no"` is off, anything else (`auto`, a fraction) is unresolved.
pub fn selected_track_from_property(v: &Json) -> (r: SelectedTrack)
    ensures
        r == selected_track_spec(*v),
{
    match v {
        Json::Bool(false) => SelectedTrack::Off,
        Json::Str(s) => if str_eq(s.as_str(), "no") {
            SelectedTrack::Off
        } else {
            SelectedTrack::Unresolved
        },
        Json::Int(n) => if -9223372036854775808i128 <= *n && *n <= 9223372036854775807i128 {
            SelectedTrack::Id(*n as i64)
        } else {
            SelectedTrack::Unresolved
        },
        _ => SelectedTrack::Unresolved,
    }
}

/// The subtitle track id of one `track-list` entry, if it is a subtitle.
pub open spec fn sub_track_id(t: Json) -> Option<i64> {
    if get_str(t, "type"@) == Some("sub"@) {
        get_i64(t, "id"@)
    } else {
        None
    }
}

/// The largest subtitle id among `tracks`, or 0.
pub open spec fn max_sub_id(tracks: Seq<Json>) -> i64
    decreases tracks.len(),
{
    if tracks.len() == 0 {
        0
    } else {
        let m = max_sub_id(tracks.drop_last());
        match sub_track_id(tracks.last()) {
            Some(id) => if id > m {
                id
            } else {
                m
            },
            None => m,
        }
    }
}

/// Highest mpv subtitle track id (`sid`) in a `track-list`, typically read
/// after `sub-add`; 0 when there is none.
pub fn max_subtitle_track_id_from_track_list(list: &Json) -> (r: i64)
    ensures
        r == match *list {
            Json::Array(items) => max_sub_id(items@),
            _ => 0,
        },
{
    let mut max: i64 = 0;
    let items = match json_as_array(list) {
        Some(a) => a,
        None => return 0,
    };
    let mut i: usize = 0;
    while i < items.len()
        invariant
            i <= items@.len(),
            max == max_sub_id(items@.take(i as int)),
        decreases items@.len() - i,
    {
        assert(items@.take(i + 1).drop_last() == items@.take(i as int));
        let t = &items[i];
        let is_sub = match json_get_str(t, "type") {
            Some(k) => str_eq(k.as_str(), "sub"),
            None => false,
        };
        if is_sub {
            match json_get_i64(t, "id") {
                Some(id) => if id > max {
                    max = id;
                },
                None => {},
            }
        }
        i = i + 1;
    }
    assert(items@.take(items@.len() as int) == items@);
    max
}

/// A playlist title on one line: carriage returns and newlines become spaces.
pub open spec fn one_line(s: Seq<char>) -> Seq<char> {
    s.map_values(|c: char| if c == '\r' || c == '\n' { ' ' } else { c })
}

/// The M3U lines of `entries`, each `#EXTINF:-1,title` then the URL.
pub open spec fn m3u_entries(entries: Seq<(String, String)>) -> Seq<char>
    decreases entries.len(),
{
    if entries.len() == 0 {
        Seq::empty()
    } else {
        m3u_entries(entries.drop_last()) + "#EXTINF:-1,"@ + one_line(entries.last().0@) + "\n"@
            + entries.last().1@ + "\n"@
    }
}

fn one_line_exec(s: &str) -> (r: String)
    ensures
        r@ == one_line(s@),
{
    let cs = crate::text::chars_of(s);
    let mut out = String::new();
    let mut i: usize = 0;
    while i < cs.len()
        invariant
            i <= cs@.len(),
            cs@ == s@,
            out@ == one_line(s@.take(i as int)),
        decreases cs@.len() - i,
    {
        let c = cs[i];
        if c == '\r' || c == '\n' {
            out.push(' ');
        } else {
            out.push(c);
        }
        assert(one_line(s@.take(i + 1)) =~= one_line(s@.take(i as int)).push(
            if c == '\r' || c == '\n' { ' ' } else { c },
        ));
        i = i + 1;
    }
    assert(s@.take(cs@.len() as int) == s@);
    out
}

/// M3U with one `#EXTINF` entry per `(title, url)`: the only way to give
/// unloaded playlist entries a title.
pub fn playlist_m3u(entries: &[(String, String)]) -> (r: String)
    ensures
        r@ == "#EXTM3U\n"@ + m3u_entries(entries@),
{
    let mut body = crate::text::owned("#EXTM3U\n");
    let ghost head = body@;
    let mut i: usize = 0;
    while i < entries.len()
        invariant
            i <= entries@.len(),
            body@ == head + m3u_entries(entries@.take(i as int)),
        decreases entries@.len() - i,
    {
        assert(entries@.take(i + 1).drop_last() == entries@.take(i as int));
        let title = one_line_exec(entries[i].0.as_str());
        push_str(&mut body, "#EXTINF:-1,");
        push_str(&mut body, title.as_str());
        push_str(&mut body, "\n");
        push_str(&mut body, entries[i].1.as_str());
        push_str(&mut body, "\n");
        i = i + 1;
    }
    assert(entries@.take(entries@.len() as int) == entries@);
    body
}

/// `loadlist <path> append`.
pub fn loadlist_append_args(path: &str) -> (r: [Json; 3])
    ensures
        r@.len() == 3,
        r@[0] matches Json::Str(a) && a@ == "loadlist"@,
        r@[1] matches Json::Str(b) && b@ == path@,
        r@[2] matches Json::Str(c) && c@ == "append"@,
{
    [
        Json::Str(crate::text::owned("loadlist")),
        Json::Str(crate::text::owned(path)),
        Json::Str(crate::text::owned("append")),
    ]
}

/// `loadlist <path> insert-at <index>`; `insert-at` and the index stay
/// separate arguments (`"insert-at0"` is an invalid parameter).
pub fn loadlist_insert_at_args(path: &str, index: usize) -> (r: [Json; 4])
    ensures
        r@.len() == 4,
        r@[0] matches Json::Str(a) && a@ == "loadlist"@,
        r@[1] matches Json::Str(b) && b@ == path@,
        r@[2] matches Json::Str(c) && c@ == "insert-at"@,
        r@[3] == Json::Int(index as i128),
{
    [
        Json::Str(crate::text::owned("loadlist")),
        Json::Str(crate::text::owned(path)),
        Json::Str(crate::text::owned("insert-at")),
        Json::Int(index as i128),
    ]
}

/// The IPC request `{"command": args, "request_id": id}`; the line written
/// is its JSON text and a newline.
pub fn command_message(request_id: i64, args: Vec<Json>) -> (r: Json)
    ensures
        r matches Json::Object(fields) && fields@.len() == 2 && fields@[0].0@ == "command"@
            && fields@[0].1 == Json::Array(args) && fields@[1].0@ == "request_id"@ && fields@[1].1
            == Json::Int(request_id as i128),
{
    let mut fields: Vec<(String, Json)> = Vec::new();
    fields.push((crate::text::owned("command"), Json::Array(args)));
    fields.push((crate::text::owned("request_id"), Json::Int(request_id as i128)));
    Json::Object(fields)
}

/// Why an mpv property answer is not the type asked for.
#[derive(Debug, Clone, Copy, PartialEq, Eq, Structural)]
pub enum PropertyError {
    NotAnInteger,
    NotABoolean,
}

/// An integer property answer, with no fallback value: callers make
/// autoplay decisions from these numbers.
pub fn as_i64_property(v: &Json) -> (r: Result<i64, PropertyError>)
    ensures
        match as_i64(*v) {
            Some(n) => r == Ok::<i64, PropertyError>(n),
            None => r == Err::<i64, PropertyError>(PropertyError::NotAnInteger),
        },
{
    match crate::json::json_as_i64(v) {
        Some(n) => Ok(n),
        None => Err(PropertyError::NotAnInteger),
    }
}

/// A boolean property answer.
pub fn as_bool_property(v: &Json) -> (r: Result<bool, PropertyError>)
    ensures
        match *v {
            Json::Bool(b) => r == Ok::<bool, PropertyError>(b),
            _ => r == Err::<bool, PropertyError>(PropertyError::NotABoolean),
        },
{
    match v {
        Json::Bool(b) => Ok(*b),
        _ => Err(PropertyError::NotABoolean),
    }
}

/// The value that selects a track through `aid` or `sid`: the id, or `no`
/// for none (a negative id included).
pub fn track_property_value(track_id: Option<i64>) -> (r: Json)
    ensures
        match track_id {
            Some(id) => if id >= 0 {
                r == Json::Int(id as i128)
            } else {
                r matches Json::Str(s) && s@ == "no"@
            },
            None => r matches Json::Str(s) && s@ == "no"@,
        },
{
    match track_id {
        Some(id) => if id >= 0 {
            Json::Int(id as i128)
        } else {
            Json::Str(crate::text::owned("no"))
        },
        None => Json::Str(crate::text::owned("no")),
    }
}

/// The argv mpv is started with: its IPC socket, a window even before the
/// first file, idle between files, then the user's `mpv_args` as they are.
pub open spec fn mpv_argv_for(socket: Seq<char>, extra: Seq<Seq<char>>) -> Seq<Seq<char>> {
    seq!["--input-ipc-server="@ + socket, "--force-window=yes"@, "--idle=yes"@] + extra
}

/// Whether the argument `arg` sets mpv's option `name`: `--name`, or
/// `--name=` and a value.
pub open spec fn sets_option(arg: Seq<char>, name: Seq<char>) -> bool {
    arg == "--"@ + name || ("--"@ + name + "="@).is_prefix_of(arg)
}

/// The options that stay with the user's own mpv configuration: the video
/// output, hardware decoding, scaling and shaders, and `no-config`, which
/// would drop that configuration.
pub open spec fn user_owned_option(name: Seq<char>) -> bool {
    name == "vo"@ || name == "hwdec"@ || name == "scale"@ || name == "glsl-shaders"@ || name
        == "no-config"@
}

/// The arguments mpv is started with: its IPC socket, a window that is
/// always open, idling between files, then the user's own arguments.
pub fn mpv_argv(socket: &str, extra: &Vec<String>) -> (r: Vec<String>)
    ensures
        id_views(r@) == mpv_argv_for(socket@, id_views(extra@)),
{
    let mut first = crate::text::owned("--input-ipc-server=");
    push_str(&mut first, socket);
    let mut r: Vec<String> = Vec::new();
    r.push(first);
    r.push(crate::text::owned("--force-window=yes"));
    r.push(crate::text::owned("--idle=yes"));
    let ghost head = seq!["--input-ipc-server="@ + socket@, "--force-window=yes"@, "--idle=yes"@];
    assert(id_views(r@) =~= head);
    let mut i: usize = 0;
    while i < extra.len()
        invariant
            i <= extra@.len(),
            id_views(r@) == head + id_views(extra@).take(i as int),
        decreases extra@.len() - i,
    {
        let ghost before = r@;
        let item = extra[i].clone();
        assert(item == extra@[i as int]);
        r.push(item);
        assert(id_views(r@) =~= id_views(before).push(extra@[i as int]@));
        assert(id_views(extra@).take(i + 1) =~= id_views(extra@).take(i as int).push(extra@[i as int]@));
        assert(id_views(r@) =~= head + id_views(extra@).take(i + 1));
        i = i + 1;
    }
    assert(id_views(extra@).take(extra@.len() as int) =~= id_views(extra@));
    r
}

/// Law: of the arguments mpv is started with, the library's own set none of
/// the options that belong to the user's mpv configuration (`vo`, `hwdec`,
/// `scale`, `glsl-shaders`) and none is `--no-config`; after them come the
/// user's arguments, unchanged and in order.
pub proof fn law_mpv_starts_on_top_of_the_user_configuration(socket: Seq<char>, extra: Seq<Seq<char>>)
    ensures
        forall|i: int, name: Seq<char>|
            0 <= i < 3 && user_owned_option(name) ==> !#[trigger] sets_option(
                mpv_argv_for(socket, extra)[i],
                name,
            ),
        mpv_argv_for(socket, extra).skip(3) == extra,
{
    reveal_strlit("--input-ipc-server=");
    reveal_strlit("--force-window=yes");
    reveal_strlit("--idle=yes");
    reveal_strlit("--");
    reveal_strlit("=");
    reveal_strlit("vo");
    reveal_strlit("hwdec");
    reveal_strlit("scale");
    reveal_strlit("glsl-shaders");
    reveal_strlit("no-config");
    let argv = mpv_argv_for(socket, extra);
    assert forall|i: int, name: Seq<char>|
        0 <= i < 3 && user_owned_option(name) implies !#[trigger] sets_option(argv[i], name) by {
        let arg = argv[i];
        // Every library argument has a third character that no user-owned
        // option name starts with.
        assert(arg.len() > 2);
        assert(arg[2] == 'i' || arg[2] == 'f');
        assert(name[0] != 'i' && name[0] != 'f');
        let long = "--"@ + name;
        assert(long[2] == name[0]);
        assert((long + "="@)[2] == name[0]);
    }
    assert(argv.skip(3) =~= extra);
}

/// Each inbound mpv message names what happened: a change of the audio
/// track property (`aid`) is an audio track change, of the subtitle track
/// property (`sid`) a subtitle track change, `end-file` ends the file with
/// the reason mpv gave, `file-loaded` is a newly loaded file, and a reply is
/// no event.
pub proof fn law_mpv_events_name_what_changed(msg: IpcMessage)
    ensures
        msg matches IpcMessage::PropertyChange { property } && property@ == AUDIO_TRACK_PROPERTY@
            ==> mpv_event_spec(msg) == Some(MpvEvent::AudioTrackChanged),
        msg matches IpcMessage::PropertyChange { property } && property@ == SUBTITLE_TRACK_PROPERTY@
            ==> mpv_event_spec(msg) == Some(MpvEvent::SubtitleTrackChanged),
        mpv_event_spec(msg) == Some(MpvEvent::AudioTrackChanged) ==> (msg matches IpcMessage::PropertyChange {
            property,
        } && property@ == AUDIO_TRACK_PROPERTY@),
        mpv_event_spec(msg) == Some(MpvEvent::SubtitleTrackChanged) ==> (msg matches IpcMessage::PropertyChange {
            property,
        } && property@ == SUBTITLE_TRACK_PROPERTY@),
        match msg {
            IpcMessage::Event { name, reason } => name@ == "end-file"@ ==> mpv_event_spec(msg) == Some(
                MpvEvent::EndFile { reason: reason_named(opt_view(reason)) },
            ),
            _ => true,
        },
        msg matches IpcMessage::Event { name, .. } && name@ == "file-loaded"@ ==> mpv_event_spec(msg)
            == Some(MpvEvent::FileLoaded),
        msg is Reply ==> mpv_event_spec(msg) is None,
{
    reveal_strlit("aid");
    reveal_strlit("sid");
    reveal_strlit("end-file");
    reveal_strlit("file-loaded");
    assert("aid"@[0] != "sid"@[0]);
    assert("aid"@ != "sid"@);
    assert("end-file"@.len() == 8 && "file-loaded"@.len() == 11);
    assert("end-file"@ != "file-loaded"@);
}

} // verus!
