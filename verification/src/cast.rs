//! Cast commands from Jellyfin, the play queue, and what to do when a file ends.
use crate::mpv::{EndFileReason, reason_named};
use crate::json::{
    as_str, get, get_str, json_as_array, json_as_str, json_get, lenient_i64, value_as_i64, Json,
};
use crate::text::{owned, str_eq};
use vstd::prelude::*;

verus! {

/// A command a Jellyfin remote sent over the WebSocket.
#[derive(Debug, Clone, PartialEq, Eq)]
pub enum CastEvent {
    PlayNow {
        item_ids: Vec<String>,
        start_index: usize,
        start_ticks: Option<i64>,
        audio_stream_index: Option<i64>,
        subtitle_stream_index: Option<i64>,
        media_source_id: Option<String>,
    },
    PlayNext { item_ids: Vec<String> },
    PlayLast { item_ids: Vec<String> },
    PlayPause,
    Pause,
    Unpause,
    Stop,
    Seek { ticks: i64 },
    Next,
    Previous,
    SetVolume { volume: i64 },
    VolumeUp,
    VolumeDown,
    Mute,
    Unmute,
    ToggleMute,
    SetAudio { stream_index: i64 },
    SetSubtitle { stream_index: i64 },
    ToggleFullscreen,
}

/// [`CastEvent`] with its strings as character sequences.
pub ghost enum CastEventView {
    PlayNow {
        item_ids: Seq<Seq<char>>,
        start_index: usize,
        start_ticks: Option<i64>,
        audio_stream_index: Option<i64>,
        subtitle_stream_index: Option<i64>,
        media_source_id: Option<Seq<char>>,
    },
    PlayNext { item_ids: Seq<Seq<char>> },
    PlayLast { item_ids: Seq<Seq<char>> },
    PlayPause,
    Pause,
    Unpause,
    Stop,
    Seek { ticks: i64 },
    Next,
    Previous,
    SetVolume { volume: i64 },
    VolumeUp,
    VolumeDown,
    Mute,
    Unmute,
    ToggleMute,
    SetAudio { stream_index: i64 },
    SetSubtitle { stream_index: i64 },
    ToggleFullscreen,
}

pub open spec fn opt_view(s: Option<String>) -> Option<Seq<char>> {
    match s {
        Some(x) => Some(x@),
        None => None,
    }
}

impl View for CastEvent {
    type V = CastEventView;

    open spec fn view(&self) -> CastEventView {
        match *self {
            CastEvent::PlayNow {
                item_ids,
                start_index,
                start_ticks,
                audio_stream_index,
                subtitle_stream_index,
                media_source_id,
            } => CastEventView::PlayNow {
                item_ids: id_views(item_ids@),
                start_index,
                start_ticks,
                audio_stream_index,
                subtitle_stream_index,
                media_source_id: opt_view(media_source_id),
            },
            CastEvent::PlayNext { item_ids } => CastEventView::PlayNext { item_ids: id_views(item_ids@) },
            CastEvent::PlayLast { item_ids } => CastEventView::PlayLast { item_ids: id_views(item_ids@) },
            CastEvent::PlayPause => CastEventView::PlayPause,
            CastEvent::Pause => CastEventView::Pause,
            CastEvent::Unpause => CastEventView::Unpause,
            CastEvent::Stop => CastEventView::Stop,
            CastEvent::Seek { ticks } => CastEventView::Seek { ticks },
            CastEvent::Next => CastEventView::Next,
            CastEvent::Previous => CastEventView::Previous,
            CastEvent::SetVolume { volume } => CastEventView::SetVolume { volume },
            CastEvent::VolumeUp => CastEventView::VolumeUp,
            CastEvent::VolumeDown => CastEventView::VolumeDown,
            CastEvent::Mute => CastEventView::Mute,
            CastEvent::Unmute => CastEventView::Unmute,
            CastEvent::ToggleMute => CastEventView::ToggleMute,
            CastEvent::SetAudio { stream_index } => CastEventView::SetAudio { stream_index },
            CastEvent::SetSubtitle { stream_index } => CastEventView::SetSubtitle { stream_index },
            CastEvent::ToggleFullscreen => CastEventView::ToggleFullscreen,
        }
    }
}

/// `ItemIds`: the strings of an array, or a lone string as a list of one.
pub open spec fn string_list_spec(v: Json) -> Seq<Seq<char>> {
    match v {
        Json::Array(a) => a@.filter_map(|x: Json| as_str(x)),
        Json::Str(s) => seq![s@],
        _ => Seq::empty(),
    }
}

pub open spec fn get_lenient_i64(v: Json, key: Seq<char>) -> Option<i64> {
    match get(v, key) {
        Some(x) => lenient_i64(x),
        None => None,
    }
}

/// What a `Play` message asks for.
pub open spec fn play_event(data: Json) -> Option<CastEventView> {
    match get(data, "ItemIds"@) {
        None => None,
        Some(ids_value) => {
            let item_ids = string_list_spec(ids_value);
            if item_ids.len() == 0 {
                None
            } else {
                let start = match get_lenient_i64(data, "StartIndex"@) {
                    Some(n) => n,
                    None => 0,
                };
                let start_index = (if start < 0 {
                    0
                } else {
                    start
                }) as usize;
                let command = match get(data, "PlayCommand"@) {
                    Some(c) => as_str(c),
                    None => None,
                };
                if command == Some("PlayNext"@) {
                    Some(CastEventView::PlayNext { item_ids })
                } else if command == Some("PlayLast"@) {
                    Some(CastEventView::PlayLast { item_ids })
                } else {
                    Some(
                        CastEventView::PlayNow {
                            item_ids,
                            start_index,
                            start_ticks: get_lenient_i64(data, "StartPositionTicks"@),
                            audio_stream_index: get_lenient_i64(data, "AudioStreamIndex"@),
                            subtitle_stream_index: get_lenient_i64(data, "SubtitleStreamIndex"@),
                            media_source_id: match get(data, "MediaSourceId"@) {
                                Some(m) => as_str(m),
                                None => None,
                            },
                        },
                    )
                }
            }
        },
    }
}

/// What a `Playstate` message asks for.
pub open spec fn playstate_event(data: Json) -> Option<CastEventView> {
    match get(data, "Command"@) {
        None => None,
        Some(c) => match as_str(c) {
            None => None,
            Some(command) => if command == "PlayPause"@ {
                Some(CastEventView::PlayPause)
            } else if command == "Pause"@ {
                Some(CastEventView::Pause)
            } else if command == "Unpause"@ {
                Some(CastEventView::Unpause)
            } else if command == "Stop"@ {
                Some(CastEventView::Stop)
            } else if command == "NextTrack"@ {
                Some(CastEventView::Next)
            } else if command == "PreviousTrack"@ {
                Some(CastEventView::Previous)
            } else if command == "Seek"@ {
                match get_lenient_i64(data, "SeekPositionTicks"@) {
                    Some(ticks) => Some(CastEventView::Seek { ticks }),
                    None => None,
                }
            } else {
                None
            },
        },
    }
}

pub open spec fn clamp_volume(v: i64) -> i64 {
    if v < 0 {
        0
    } else if v > 100 {
        100
    } else {
        v
    }
}

/// What a `GeneralCommand` message asks for. Navigation commands and anything
/// else a remote may send are not player commands.
pub open spec fn general_event(data: Json) -> Option<CastEventView> {
    match get(data, "Name"@) {
        None => None,
        Some(n) => match as_str(n) {
            None => None,
            Some(name) => {
                let args = match get(data, "Arguments"@) {
                    Some(a) => a,
                    None => Json::Null,
                };
                if name == "SetVolume"@ {
                    match get_lenient_i64(args, "Volume"@) {
                        Some(v) => Some(CastEventView::SetVolume { volume: clamp_volume(v) }),
                        None => None,
                    }
                } else if name == "SetAudioStreamIndex"@ {
                    match get_lenient_i64(args, "Index"@) {
                        Some(i) => Some(CastEventView::SetAudio { stream_index: i }),
                        None => None,
                    }
                } else if name == "SetSubtitleStreamIndex"@ {
                    match get_lenient_i64(args, "Index"@) {
                        Some(i) => Some(CastEventView::SetSubtitle { stream_index: i }),
                        None => None,
                    }
                } else if name == "Mute"@ {
                    Some(CastEventView::Mute)
                } else if name == "Unmute"@ {
                    Some(CastEventView::Unmute)
                } else if name == "ToggleMute"@ {
                    Some(CastEventView::ToggleMute)
                } else if name == "VolumeUp"@ {
                    Some(CastEventView::VolumeUp)
                } else if name == "VolumeDown"@ {
                    Some(CastEventView::VolumeDown)
                } else if name == "ToggleFullscreen"@ {
                    Some(CastEventView::ToggleFullscreen)
                } else {
                    None
                }
            },
        },
    }
}

/// The command a WebSocket message of type `message_type` carrying `data` means.
pub open spec fn cast_event_for(message_type: Seq<char>, data: Json) -> Option<CastEventView> {
    if message_type == "Play"@ {
        play_event(data)
    } else if message_type == "Playstate"@ {
        playstate_event(data)
    } else if message_type == "PlayPause"@ {
        Some(CastEventView::PlayPause)
    } else if message_type == "GeneralCommand"@ {
        general_event(data)
    } else {
        None
    }
}

pub open spec fn event_view(e: Option<CastEvent>) -> Option<CastEventView> {
    match e {
        Some(x) => Some(x@),
        None => None,
    }
}

impl CastEvent {
    /// The command a WebSocket message means, or `None` for one that is not a
    /// player command.
    pub fn from_ws(message_type: &str, data: &Json) -> (r: Option<CastEvent>)
        ensures
            event_view(r) == cast_event_for(message_type@, *data),
    {
        if str_eq(message_type, "Play") {
            parse_play(data)
        } else if str_eq(message_type, "Playstate") {
            parse_playstate(data)
        } else if str_eq(message_type, "PlayPause") {
            Some(CastEvent::PlayPause)
        } else if str_eq(message_type, "GeneralCommand") {
            parse_general(data)
        } else {
            None
        }
    }
}

fn get_i64_lenient(data: &Json, key: &str) -> (r: Option<i64>)
    ensures
        r == get_lenient_i64(*data, key@),
{
    match json_get(data, key) {
        Some(x) => value_as_i64(x),
        None => None,
    }
}

fn string_list(v: &Json) -> (r: Vec<String>)
    ensures
        id_views(r@) == string_list_spec(*v),
{
    match v {
        Json::Array(arr) => {
            let mut out: Vec<String> = Vec::new();
            let mut i: usize = 0;
            while i < arr.len()
                invariant
                    i <= arr@.len(),
                    id_views(out@) == arr@.take(i as int).filter_map(|x: Json| as_str(x)),
                decreases arr@.len() - i,
            {
                proof {
                    arr@.lemma_filter_map_take_succ(|x: Json| as_str(x), i as int);
                }
                match json_as_str(&arr[i]) {
                    Some(s) => {
                        out.push(s.clone());
                        assert(id_views(out@) == id_views(out@.drop_last()).push(s@));
                    },
                    None => {},
                }
                i = i + 1;
            }
            assert(arr@.take(arr@.len() as int) == arr@);
            out
        },
        Json::Str(s) => {
            let mut out: Vec<String> = Vec::new();
            out.push(s.clone());
            assert(id_views(out@) =~= seq![s@]);
            out
        },
        _ => {
            let out: Vec<String> = Vec::new();
            assert(id_views(out@) =~= Seq::<Seq<char>>::empty());
            out
        },
    }
}

fn parse_play(data: &Json) -> (r: Option<CastEvent>)
    ensures
        event_view(r) == play_event(*data),
{
    let ids_value = match json_get(data, "ItemIds") {
        Some(v) => v,
        None => return None,
    };
    let item_ids = string_list(ids_value);
    if item_ids.len() == 0 {
        return None;
    }
    let start = match get_i64_lenient(data, "StartIndex") {
        Some(n) => n,
        None => 0,
    };
    let start_index: usize = (if start < 0 {
        0
    } else {
        start
    }) as usize;
    let start_ticks = get_i64_lenient(data, "StartPositionTicks");
    let audio_stream_index = get_i64_lenient(data, "AudioStreamIndex");
    let subtitle_stream_index = get_i64_lenient(data, "SubtitleStreamIndex");
    let media_source_id: Option<String> = match json_get(data, "MediaSourceId") {
        Some(m) => match json_as_str(m) {
            Some(s) => Some(s.clone()),
            None => None,
        },
        None => None,
    };
    let command: Option<&String> = match json_get(data, "PlayCommand") {
        Some(c) => json_as_str(c),
        None => None,
    };
    let is_next = match command {
        Some(c) => str_eq(c.as_str(), "PlayNext"),
        None => false,
    };
    let is_last = match command {
        Some(c) => str_eq(c.as_str(), "PlayLast"),
        None => false,
    };
    if is_next {
        Some(CastEvent::PlayNext { item_ids })
    } else if is_last {
        Some(CastEvent::PlayLast { item_ids })
    } else {
        Some(
            CastEvent::PlayNow {
                item_ids,
                start_index,
                start_ticks,
                audio_stream_index,
                subtitle_stream_index,
                media_source_id,
            },
        )
    }
}

fn parse_playstate(data: &Json) -> (r: Option<CastEvent>)
    ensures
        event_view(r) == playstate_event(*data),
{
    let command = match json_get(data, "Command") {
        Some(c) => match json_as_str(c) {
            Some(s) => s,
            None => return None,
        },
        None => return None,
    };
    let command = command.as_str();
    if str_eq(command, "PlayPause") {
        Some(CastEvent::PlayPause)
    } else if str_eq(command, "Pause") {
        Some(CastEvent::Pause)
    } else if str_eq(command, "Unpause") {
        Some(CastEvent::Unpause)
    } else if str_eq(command, "Stop") {
        Some(CastEvent::Stop)
    } else if str_eq(command, "NextTrack") {
        Some(CastEvent::Next)
    } else if str_eq(command, "PreviousTrack") {
        Some(CastEvent::Previous)
    } else if str_eq(command, "Seek") {
        match get_i64_lenient(data, "SeekPositionTicks") {
            Some(ticks) => Some(CastEvent::Seek { ticks }),
            None => None,
        }
    } else {
        None
    }
}

fn parse_general(data: &Json) -> (r: Option<CastEvent>)
    ensures
        event_view(r) == general_event(*data),
{
    let name = match json_get(data, "Name") {
        Some(n) => match json_as_str(n) {
            Some(s) => s,
            None => return None,
        },
        None => return None,
    };
    let null = Json::Null;
    let args: &Json = match json_get(data, "Arguments") {
        Some(a) => a,
        None => &null,
    };
    let name = name.as_str();
    if str_eq(name, "SetVolume") {
        match get_i64_lenient(args, "Volume") {
            Some(v) => {
                let volume = if v < 0 {
                    0
                } else if v > 100 {
                    100
                } else {
                    v
                };
                Some(CastEvent::SetVolume { volume })
            },
            None => None,
        }
    } else if str_eq(name, "SetAudioStreamIndex") {
        match get_i64_lenient(args, "Index") {
            Some(i) => Some(CastEvent::SetAudio { stream_index: i }),
            None => None,
        }
    } else if str_eq(name, "SetSubtitleStreamIndex") {
        match get_i64_lenient(args, "Index") {
            Some(i) => Some(CastEvent::SetSubtitle { stream_index: i }),
            None => None,
        }
    } else if str_eq(name, "Mute") {
        Some(CastEvent::Mute)
    } else if str_eq(name, "Unmute") {
        Some(CastEvent::Unmute)
    } else if str_eq(name, "ToggleMute") {
        Some(CastEvent::ToggleMute)
    } else if str_eq(name, "VolumeUp") {
        Some(CastEvent::VolumeUp)
    } else if str_eq(name, "VolumeDown") {
        Some(CastEvent::VolumeDown)
    } else if str_eq(name, "ToggleFullscreen") {
        Some(CastEvent::ToggleFullscreen)
    } else {
        None
    }
}

/// The characters of each string, in order.
pub open spec fn id_views(items: Seq<String>) -> Seq<Seq<char>> {
    items.map_values(|s: String| s@)
}

/// The items a remote asked to play, and which one is current.
#[derive(Debug, Clone, Default, PartialEq, Eq)]
pub struct Queue {
    pub items: Vec<String>,
    pub index: usize,
}

impl Queue {
    pub open spec fn ids(&self) -> Seq<Seq<char>> {
        id_views(self.items@)
    }

    /// The current item, when the index is inside the queue.
    pub open spec fn current_id(&self) -> Option<Seq<char>> {
        if self.index < self.items@.len() {
            Some(self.items@[self.index as int]@)
        } else {
            None
        }
    }

    pub open spec fn has_next_spec(&self) -> bool {
        self.index + 1 < self.items@.len()
    }

    pub fn current(&self) -> (r: Option<&str>)
        ensures
            match r {
                Some(s) => self.current_id() == Some(s@),
                None => self.current_id() is None,
            },
    {
        if self.index < self.items.len() {
            Some(self.items[self.index].as_str())
        } else {
            None
        }
    }

    /// Replaces the queue, clamping the start to the last item.
    pub fn replace(&mut self, items: Vec<String>, start_index: usize)
        ensures
            final(self).items@ == items@,
            final(self).index == (if items@.len() == 0 {
                0
            } else if start_index < items@.len() {
                start_index as int
            } else {
                items@.len() - 1
            }),
    {
        self.items = items;
        let last: usize = if self.items.len() > 0 {
            self.items.len() - 1
        } else {
            0
        };
        self.index = if start_index < last {
            start_index
        } else {
            last
        };
        if self.items.len() == 0 {
            self.index = 0;
        }
    }

    /// Inserts `ids` right after the current item (at the end when the index
    /// is past it).
    pub fn insert_next(&mut self, ids: Vec<String>)
        ensures
            ({
                let at = if old(self).index < old(self).items@.len() {
                    old(self).index + 1
                } else {
                    old(self).items@.len() as int
                };
                final(self).items@ == old(self).items@.take(at) + ids@ + old(self).items@.skip(at)
            }),
            final(self).index == old(self).index,
    {
        let mut ids = ids;
        let at: usize = if self.index < self.items.len() {
            self.index + 1
        } else {
            self.items.len()
        };
        let mut tail = self.items.split_off(at);
        self.items.append(&mut ids);
        self.items.append(&mut tail);
    }

    /// Appends `ids` to the end of the queue.
    pub fn append(&mut self, ids: Vec<String>)
        ensures
            final(self).items@ == old(self).items@ + ids@,
            final(self).index == old(self).index,
    {
        let mut ids = ids;
        self.items.append(&mut ids);
    }

    /// Splices `ids` in immediately before the current item, keeping `index`
    /// on the same item. Returns how many were inserted.
    ///
    /// The splice is at `index`, not at 0: mpv's playlist is a contiguous
    /// window of the queue around the current item, so entries inserted ahead
    /// of it must land inside that window.
    pub fn insert_before_current(&mut self, ids: Vec<String>) -> (n: usize)
        requires
            old(self).index <= old(self).items@.len(),
        ensures
            n == ids@.len(),
            final(self).items@ == old(self).items@.take(old(self).index as int) + ids@
                + old(self).items@.skip(old(self).index as int),
            final(self).index == old(self).index + n,
    {
        let mut ids = ids;
        let n = ids.len();
        let at = self.index;
        let mut tail = self.items.split_off(at);
        self.items.append(&mut ids);
        self.index = self.items.len();
        self.items.append(&mut tail);
        n
    }

    /// Moves to the next item, if there is one.
    pub fn advance(&mut self) -> (r: Option<&str>)
        ensures
            final(self).items@ == old(self).items@,
            old(self).has_next_spec() ==> final(self).index == old(self).index + 1,
            !old(self).has_next_spec() ==> final(self).index == old(self).index,
            match r {
                Some(s) => old(self).has_next_spec() && final(self).current_id() == Some(s@),
                None => !old(self).has_next_spec(),
            },
    {
        if self.items.len() > 0 && self.index < self.items.len() - 1 {
            self.index = self.index + 1;
            self.current()
        } else {
            None
        }
    }

    /// Moves to the previous item when there is one, and returns the current item.
    pub fn previous(&mut self) -> (r: Option<&str>)
        ensures
            final(self).items@ == old(self).items@,
            final(self).index == (if old(self).index > 0 {
                old(self).index - 1
            } else {
                0
            }),
            match r {
                Some(s) => final(self).current_id() == Some(s@),
                None => final(self).current_id() is None,
            },
    {
        if self.index > 0 {
            self.index = self.index - 1;
        }
        self.current()
    }

    pub fn has_next(&self) -> (r: bool)
        ensures
            r == self.has_next_spec(),
    {
        self.items.len() > 0 && self.index < self.items.len() - 1
    }

    /// The item after the current one, if any.
    pub fn peek_next(&self) -> (r: Option<&str>)
        ensures
            match r {
                Some(s) => self.has_next_spec() && self.items@[self.index + 1]@ == s@,
                None => !self.has_next_spec(),
            },
    {
        if self.items.len() > 0 && self.index < self.items.len() - 1 {
            Some(self.items[self.index + 1].as_str())
        } else {
            None
        }
    }
}

#[derive(Debug, Clone, Copy, PartialEq, Eq, Structural)]
pub enum EndFileAction {
    Ignore,
    Advance,
    Stop,
}

/// What an mpv `end-file` means for the session.
pub open spec fn end_file_action_for(
    transitioning: bool,
    stopping: bool,
    reason: EndFileReason,
) -> EndFileAction {
    if transitioning || stopping {
        EndFileAction::Ignore
    } else {
        match reason {
            EndFileReason::Eof | EndFileReason::Redirect => EndFileAction::Advance,
            EndFileReason::Quit | EndFileReason::Stop | EndFileReason::Error => EndFileAction::Stop,
            EndFileReason::Other => EndFileAction::Ignore,
        }
    }
}

/// [`end_file_action_for`] on mpv's spelling of the reason.
pub fn end_file_action(transitioning: bool, stopping: bool, reason: &str) -> (r: EndFileAction)
    ensures
        r == end_file_action_for(transitioning, stopping, reason_named(Some(reason@))),
{
    crate::window::end_file_action(transitioning, stopping, EndFileReason::parse(Some(reason)))
}

#[derive(Debug, Clone, Copy, PartialEq, Eq, Structural)]
pub enum PlaylistEof {
    NextInMpv,
    NextNotInMpv,
    WaitForMpv,
    Stop,
}

/// `playlist-pos` p corresponds to `queue.index = origin + p`.
pub fn queue_index_at(origin: usize, playlist_pos: usize, queue_len: usize) -> (r: Option<usize>)
    ensures
        r == (if origin + playlist_pos < queue_len {
            Some((origin + playlist_pos) as usize)
        } else {
            None
        }),
{
    if origin <= usize::MAX - playlist_pos {
        let i = origin + playlist_pos;
        if i < queue_len {
            Some(i)
        } else {
            None
        }
    } else {
        None
    }
}

pub open spec fn playlist_eof_for(
    playlist_pos: int,
    playlist_count: int,
    queue_has_next: bool,
    expected_pos: int,
    from_eof: bool,
) -> PlaylistEof {
    if playlist_pos > expected_pos {
        PlaylistEof::WaitForMpv
    } else if playlist_pos + 1 < playlist_count {
        if from_eof {
            PlaylistEof::WaitForMpv
        } else {
            PlaylistEof::NextInMpv
        }
    } else if queue_has_next {
        PlaylistEof::NextNotInMpv
    } else {
        PlaylistEof::Stop
    }
}

/// What to do after a file ends (the caller already applied `end_file_action`).
///
/// `playlist_count` is mpv's playlist length and `expected_pos` the playlist
/// index of the file that just ended. `from_eof` is true for mpv `end-file`,
/// false for a user Next: with `keep-open=yes` mpv already auto-plays the next
/// playlist entry on EOF, and `playlist-next` on top of that would skip one.
pub fn playlist_eof(
    playlist_pos: usize,
    playlist_count: usize,
    queue_has_next: bool,
    expected_pos: usize,
    from_eof: bool,
) -> (r: PlaylistEof)
    ensures
        r == playlist_eof_for(
            playlist_pos as int,
            playlist_count as int,
            queue_has_next,
            expected_pos as int,
            from_eof,
        ),
{
    if playlist_pos > expected_pos {
        PlaylistEof::WaitForMpv
    } else if playlist_count > 0 && playlist_pos < playlist_count - 1 {
        if from_eof {
            PlaylistEof::WaitForMpv
        } else {
            PlaylistEof::NextInMpv
        }
    } else if queue_has_next {
        PlaylistEof::NextNotInMpv
    } else {
        PlaylistEof::Stop
    }
}

/// `playlist-next` or an OSC jump ends the old file with `stop`; while mpv
/// still holds a playlist that is not a user Stop.
pub fn ignore_stop_for_playlist(reason: &str, playlist_count: usize) -> (r: bool)
    ensures
        r == (reason@ == "stop"@ && playlist_count > 1),
{
    str_eq(reason, "stop") && playlist_count > 1
}

/// Each `Playstate` command names the event it is: `NextTrack` moves to the
/// next item and `PreviousTrack` to the previous one, `Pause`, `Unpause`,
/// `PlayPause` and `Stop` are those transport commands, and `Seek` seeks to
/// the ticks it carries.
pub proof fn law_playstate_commands_name_their_event(data: Json)
    ensures
        get_str(data, "Command"@) == Some("NextTrack"@) ==> cast_event_for("Playstate"@, data)
            == Some(CastEventView::Next),
        get_str(data, "Command"@) == Some("PreviousTrack"@) ==> cast_event_for("Playstate"@, data)
            == Some(CastEventView::Previous),
        get_str(data, "Command"@) == Some("Pause"@) ==> cast_event_for("Playstate"@, data)
            == Some(CastEventView::Pause),
        get_str(data, "Command"@) == Some("Unpause"@) ==> cast_event_for("Playstate"@, data)
            == Some(CastEventView::Unpause),
        get_str(data, "Command"@) == Some("PlayPause"@) ==> cast_event_for("Playstate"@, data)
            == Some(CastEventView::PlayPause),
        get_str(data, "Command"@) == Some("Stop"@) ==> cast_event_for("Playstate"@, data)
            == Some(CastEventView::Stop),
        get_str(data, "Command"@) == Some("Seek"@) ==> match get_lenient_i64(data, "SeekPositionTicks"@) {
            Some(t) => cast_event_for("Playstate"@, data) == Some(CastEventView::Seek { ticks: t }),
            None => cast_event_for("Playstate"@, data) is None,
        },
        cast_event_for("Playstate"@, data) == Some(CastEventView::Next) ==> get_str(data, "Command"@)
            == Some("NextTrack"@),
        cast_event_for("Playstate"@, data) == Some(CastEventView::Previous) ==> get_str(
            data,
            "Command"@,
        ) == Some("PreviousTrack"@),
{
    reveal_strlit("Play");
    reveal_strlit("Playstate");
    reveal_strlit("NextTrack");
    reveal_strlit("PreviousTrack");
    reveal_strlit("Pause");
    reveal_strlit("Unpause");
    reveal_strlit("PlayPause");
    reveal_strlit("Stop");
    reveal_strlit("Seek");
    assert("Play"@.len() == 4 && "Playstate"@.len() == 9);
    assert("Playstate"@ != "Play"@);
    assert(cast_event_for("Playstate"@, data) == playstate_event(data));
    let cmd = get_str(data, "Command"@);
    assert("Seek"@[1] != "Stop"@[1]);
    assert("NextTrack"@[0] != "PlayPause"@[0]);
    assert("Seek"@ != "Stop"@ && "NextTrack"@ != "PlayPause"@);
    assert("PlayPause"@.len() == 9 && "Pause"@.len() == 5 && "Unpause"@.len() == 7
        && "Stop"@.len() == 4 && "NextTrack"@.len() == 9 && "PreviousTrack"@.len() == 13
        && "Seek"@.len() == 4);
    if cmd == Some("Pause"@) {
        assert("Pause"@ != "PlayPause"@);
    } else if cmd == Some("Unpause"@) {
        assert("Unpause"@ != "PlayPause"@ && "Unpause"@ != "Pause"@);
    } else if cmd == Some("Stop"@) {
        assert("Stop"@ != "PlayPause"@ && "Stop"@ != "Pause"@ && "Stop"@ != "Unpause"@);
    } else if cmd == Some("NextTrack"@) {
        assert("NextTrack"@[0] != "PlayPause"@[0]);
        assert("NextTrack"@ != "PlayPause"@ && "NextTrack"@ != "Pause"@ && "NextTrack"@ != "Unpause"@
            && "NextTrack"@ != "Stop"@);
    } else if cmd == Some("PreviousTrack"@) {
        assert("PreviousTrack"@ != "PlayPause"@ && "PreviousTrack"@ != "Pause"@ && "PreviousTrack"@
            != "Unpause"@ && "PreviousTrack"@ != "Stop"@ && "PreviousTrack"@ != "NextTrack"@);
    } else if cmd == Some("Seek"@) {
        assert("Seek"@[0] != "Stop"@[1]);
        assert("Seek"@[1] != "Stop"@[1]);
        assert("Seek"@ != "PlayPause"@ && "Seek"@ != "Pause"@ && "Seek"@ != "Unpause"@ && "Seek"@
            != "Stop"@ && "Seek"@ != "NextTrack"@ && "Seek"@ != "PreviousTrack"@);
        match get_lenient_i64(data, "SeekPositionTicks"@) {
            Some(t) => {
                assert(playstate_event(data) == Some(CastEventView::Seek { ticks: t }));
                assert(cast_event_for("Playstate"@, data) == Some(CastEventView::Seek { ticks: t }));
            },
            None => {
                assert(playstate_event(data) is None);
                assert(cast_event_for("Playstate"@, data) is None);
            },
        }
    }
}

/// Each `GeneralCommand` name names the event it is: `Mute`, `Unmute`,
/// `ToggleMute`, `VolumeUp`, `VolumeDown` and `ToggleFullscreen` are those
/// commands, `SetVolume` sets the volume it carries clamped to 0..=100, and
/// `SetAudioStreamIndex` / `SetSubtitleStreamIndex` select the audio or
/// subtitle stream they carry.
pub proof fn law_general_commands_name_their_event(data: Json)
    ensures
        get_str(data, "Name"@) == Some("Mute"@) ==> cast_event_for("GeneralCommand"@, data)
            == Some(CastEventView::Mute),
        get_str(data, "Name"@) == Some("Unmute"@) ==> cast_event_for("GeneralCommand"@, data)
            == Some(CastEventView::Unmute),
        get_str(data, "Name"@) == Some("ToggleMute"@) ==> cast_event_for("GeneralCommand"@, data)
            == Some(CastEventView::ToggleMute),
        get_str(data, "Name"@) == Some("VolumeUp"@) ==> cast_event_for("GeneralCommand"@, data)
            == Some(CastEventView::VolumeUp),
        get_str(data, "Name"@) == Some("VolumeDown"@) ==> cast_event_for("GeneralCommand"@, data)
            == Some(CastEventView::VolumeDown),
        get_str(data, "Name"@) == Some("ToggleFullscreen"@) ==> cast_event_for(
            "GeneralCommand"@,
            data,
        ) == Some(CastEventView::ToggleFullscreen),
        get_str(data, "Name"@) == Some("SetVolume"@) ==> match cast_event_for("GeneralCommand"@, data) {
            Some(CastEventView::SetVolume { volume }) => 0 <= volume <= 100,
            None => true,
            _ => false,
        },
        get_str(data, "Name"@) == Some("SetAudioStreamIndex"@) ==> match cast_event_for(
            "GeneralCommand"@,
            data,
        ) {
            Some(CastEventView::SetAudio { .. }) => true,
            None => true,
            _ => false,
        },
        get_str(data, "Name"@) == Some("SetSubtitleStreamIndex"@) ==> match cast_event_for(
            "GeneralCommand"@,
            data,
        ) {
            Some(CastEventView::SetSubtitle { .. }) => true,
            None => true,
            _ => false,
        },
{
    reveal_strlit("Play");
    reveal_strlit("Playstate");
    reveal_strlit("PlayPause");
    reveal_strlit("GeneralCommand");
    reveal_strlit("SetVolume");
    reveal_strlit("SetAudioStreamIndex");
    reveal_strlit("SetSubtitleStreamIndex");
    reveal_strlit("Mute");
    reveal_strlit("Unmute");
    reveal_strlit("ToggleMute");
    reveal_strlit("VolumeUp");
    reveal_strlit("VolumeDown");
    reveal_strlit("ToggleFullscreen");
    assert("GeneralCommand"@.len() == 14 && "Play"@.len() == 4 && "Playstate"@.len() == 9
        && "PlayPause"@.len() == 9);
    assert("GeneralCommand"@ != "Play"@ && "GeneralCommand"@ != "Playstate"@ && "GeneralCommand"@
        != "PlayPause"@);
    assert(cast_event_for("GeneralCommand"@, data) == general_event(data));
    assert("SetVolume"@.len() == 9 && "SetAudioStreamIndex"@.len() == 19
        && "SetSubtitleStreamIndex"@.len() == 22 && "Mute"@.len() == 4 && "Unmute"@.len() == 6
        && "ToggleMute"@.len() == 10 && "VolumeUp"@.len() == 8 && "VolumeDown"@.len() == 10
        && "ToggleFullscreen"@.len() == 16);
    let name = get_str(data, "Name"@);
    assert("VolumeDown"@[0] != "ToggleMute"@[0]);
    assert("VolumeDown"@ != "ToggleMute"@);
    if name == Some("SetVolume"@) {
    } else if name == Some("SetAudioStreamIndex"@) {
        assert("SetAudioStreamIndex"@ != "SetVolume"@);
    } else if name == Some("SetSubtitleStreamIndex"@) {
        assert("SetSubtitleStreamIndex"@ != "SetVolume"@ && "SetSubtitleStreamIndex"@
            != "SetAudioStreamIndex"@);
    } else if name == Some("Mute"@) {
        assert("Mute"@ != "SetVolume"@ && "Mute"@ != "SetAudioStreamIndex"@ && "Mute"@
            != "SetSubtitleStreamIndex"@);
    } else if name == Some("Unmute"@) {
        assert("Unmute"@ != "SetVolume"@ && "Unmute"@ != "SetAudioStreamIndex"@ && "Unmute"@
            != "SetSubtitleStreamIndex"@ && "Unmute"@ != "Mute"@);
    } else if name == Some("ToggleMute"@) {
        assert("ToggleMute"@ != "SetVolume"@ && "ToggleMute"@ != "SetAudioStreamIndex"@
            && "ToggleMute"@ != "SetSubtitleStreamIndex"@ && "ToggleMute"@ != "Mute"@ && "ToggleMute"@
            != "Unmute"@);
    } else if name == Some("VolumeUp"@) {
        assert("VolumeUp"@ != "SetVolume"@ && "VolumeUp"@ != "SetAudioStreamIndex"@ && "VolumeUp"@
            != "SetSubtitleStreamIndex"@ && "VolumeUp"@ != "Mute"@ && "VolumeUp"@ != "Unmute"@
            && "VolumeUp"@ != "ToggleMute"@);
    } else if name == Some("VolumeDown"@) {
        assert("VolumeDown"@[0] != "ToggleMute"@[0]);
        assert("VolumeDown"@ != "SetVolume"@ && "VolumeDown"@ != "SetAudioStreamIndex"@
            && "VolumeDown"@ != "SetSubtitleStreamIndex"@ && "VolumeDown"@ != "Mute"@ && "VolumeDown"@
            != "Unmute"@ && "VolumeDown"@ != "ToggleMute"@ && "VolumeDown"@ != "VolumeUp"@);
        assert(general_event(data) == Some(CastEventView::VolumeDown));
    } else if name == Some("ToggleFullscreen"@) {
        assert("ToggleFullscreen"@ != "SetVolume"@ && "ToggleFullscreen"@ != "SetAudioStreamIndex"@
            && "ToggleFullscreen"@ != "SetSubtitleStreamIndex"@ && "ToggleFullscreen"@ != "Mute"@
            && "ToggleFullscreen"@ != "Unmute"@ && "ToggleFullscreen"@ != "ToggleMute"@
            && "ToggleFullscreen"@ != "VolumeUp"@ && "ToggleFullscreen"@ != "VolumeDown"@);
    }
}

/// A `Play` message plays the items it lists: `PlayNext` queues them after
/// the current item, `PlayLast` at the end, any other command starts them
/// now; a message that lists no item asks for nothing.
pub proof fn law_play_commands_name_their_event(data: Json)
    ensures
        ({
            let ids = match get(data, "ItemIds"@) {
                Some(v) => string_list_spec(v),
                None => Seq::empty(),
            };
            &&& ids.len() == 0 ==> cast_event_for("Play"@, data) is None
            &&& ids.len() > 0 && get_str(data, "PlayCommand"@) == Some("PlayNext"@) ==> cast_event_for(
                "Play"@,
                data,
            ) == Some(CastEventView::PlayNext { item_ids: ids })
            &&& ids.len() > 0 && get_str(data, "PlayCommand"@) == Some("PlayLast"@) ==> cast_event_for(
                "Play"@,
                data,
            ) == Some(CastEventView::PlayLast { item_ids: ids })
            &&& ids.len() > 0 && get_str(data, "PlayCommand"@) != Some("PlayNext"@) && get_str(
                data,
                "PlayCommand"@,
            ) != Some("PlayLast"@) ==> (cast_event_for("Play"@, data) matches Some(
                CastEventView::PlayNow { item_ids, .. },
            ) && item_ids == ids)
        }),
{
    reveal_strlit("Play");
    reveal_strlit("PlayNext");
    reveal_strlit("PlayLast");
    assert("PlayNext"@[4] != "PlayLast"@[4]);
    assert("PlayNext"@ != "PlayLast"@);
}

} // verus!
