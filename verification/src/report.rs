//! Session reports back to Jellyfin: what is playing, and where.
use crate::json::Json;
use crate::text::owned;
use vstd::prelude::*;

verus! {

/// The current playing state of the player.
#[derive(Debug, PartialEq)]
pub struct PlayingState {
    pub item_id: String,
    pub media_source_id: String,
    pub play_session_id: String,
    pub position_ticks: i64,
    pub is_paused: bool,
    pub is_muted: bool,
    pub volume: i64,
    pub audio_stream_index: i64,
    pub subtitle_stream_index: i64,
    pub can_seek: bool,
    /// The `NowPlayingQueue` payload.
    pub now_playing_queue: Vec<Json>,
}

/// A report, by the session endpoint it goes to.
#[derive(Debug, PartialEq)]
pub enum Report {
    Start(PlayingState),
    Progress(PlayingState),
    Stopped(PlayingState),
}

/// The member names of the report payload, in order.
pub open spec fn report_keys() -> Seq<Seq<char>> {
    seq![
        "VolumeLevel"@,
        "IsMuted"@,
        "IsPaused"@,
        "RepeatMode"@,
        "PositionTicks"@,
        "SubtitleStreamIndex"@,
        "AudioStreamIndex"@,
        "PlayMethod"@,
        "PlaySessionId"@,
        "MediaSourceId"@,
        "CanSeek"@,
        "ItemId"@,
        "NowPlayingQueue"@,
    ]
}

/// `v` is the payload Jellyfin's session endpoints take for `s`: always
/// `DirectPlay`, never repeating.
pub open spec fn is_report_payload(v: Json, s: PlayingState) -> bool {
    &&& v matches Json::Object(fields)
    &&& fields@.len() == 13
    &&& forall|i: int| 0 <= i < 13 ==> #[trigger] fields@[i].0@ == report_keys()[i]
    &&& fields@[0].1 == Json::Int(s.volume as i128)
    &&& fields@[1].1 == Json::Bool(s.is_muted)
    &&& fields@[2].1 matches Json::Bool(p) && p == s.is_paused
    &&& fields@[3].1 matches Json::Str(r) && r@ == "RepeatNone"@
    &&& fields@[4].1 == Json::Int(s.position_ticks as i128)
    &&& fields@[5].1 == Json::Int(s.subtitle_stream_index as i128)
    &&& fields@[6].1 == Json::Int(s.audio_stream_index as i128)
    &&& fields@[7].1 matches Json::Str(m) && m@ == "DirectPlay"@
    &&& fields@[8].1 matches Json::Str(a) && a@ == s.play_session_id@
    &&& fields@[9].1 matches Json::Str(b) && b@ == s.media_source_id@
    &&& fields@[10].1 == Json::Bool(s.can_seek)
    &&& fields@[11].1 matches Json::Str(c) && c@ == s.item_id@
    &&& fields@[12].1 == Json::Array(s.now_playing_queue)
}

impl PlayingState {
    /// The payload sent to Jellyfin; consumes the state, whose queue it
    /// carries.
    pub fn to_json(self) -> (r: Json)
        ensures
            is_report_payload(r, self),
    {
        proof {
            reveal_strlit("VolumeLevel");
            reveal_strlit("IsMuted");
            reveal_strlit("IsPaused");
            reveal_strlit("RepeatMode");
            reveal_strlit("PositionTicks");
            reveal_strlit("SubtitleStreamIndex");
            reveal_strlit("AudioStreamIndex");
            reveal_strlit("PlayMethod");
            reveal_strlit("PlaySessionId");
            reveal_strlit("MediaSourceId");
            reveal_strlit("CanSeek");
            reveal_strlit("ItemId");
            reveal_strlit("NowPlayingQueue");
        }
        let ghost s = self;
        let mut f: Vec<(String, Json)> = Vec::new();
        f.push((owned("VolumeLevel"), Json::Int(self.volume as i128)));
        f.push((owned("IsMuted"), Json::Bool(self.is_muted)));
        f.push((owned("IsPaused"), Json::Bool(self.is_paused)));
        f.push((owned("RepeatMode"), Json::Str(owned("RepeatNone"))));
        f.push((owned("PositionTicks"), Json::Int(self.position_ticks as i128)));
        f.push((owned("SubtitleStreamIndex"), Json::Int(self.subtitle_stream_index as i128)));
        f.push((owned("AudioStreamIndex"), Json::Int(self.audio_stream_index as i128)));
        f.push((owned("PlayMethod"), Json::Str(owned("DirectPlay"))));
        f.push((owned("PlaySessionId"), Json::Str(self.play_session_id)));
        f.push((owned("MediaSourceId"), Json::Str(self.media_source_id)));
        f.push((owned("CanSeek"), Json::Bool(self.can_seek)));
        f.push((owned("ItemId"), Json::Str(self.item_id)));
        f.push((owned("NowPlayingQueue"), Json::Array(self.now_playing_queue)));
        assert(forall|i: int| 0 <= i < 13 ==> #[trigger] f@[i].0@ == report_keys()[i]);
        Json::Object(f)
    }
}

} // verus!
