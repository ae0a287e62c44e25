use jellysink::json::{json_as_array, json_get, json_get_str, Json};
use jellysink::report::PlayingState;

#[test]
fn payload_is_direct_play() {
    let state = PlayingState {
        item_id: "i".into(),
        media_source_id: "m".into(),
        play_session_id: "p".into(),
        position_ticks: 10,
        is_paused: false,
        is_muted: false,
        volume: 80,
        audio_stream_index: 1,
        subtitle_stream_index: -1,
        can_seek: true,
        now_playing_queue: vec![Json::Object(vec![
            ("Id".to_string(), Json::Str("i".to_string())),
            ("PlaylistItemId".to_string(), Json::Str("playlistItem0".to_string())),
        ])],
    };
    let v = state.to_json();
    assert_eq!(json_get_str(&v, "PlayMethod").unwrap(), "DirectPlay");
    assert_eq!(json_get_str(&v, "ItemId").unwrap(), "i");
    assert_eq!(json_get(&v, "VolumeLevel"), Some(&Json::Int(80)));
    let queue = json_as_array(json_get(&v, "NowPlayingQueue").unwrap()).unwrap();
    assert_eq!(json_get_str(&queue[0], "PlaylistItemId").unwrap(), "playlistItem0");
    assert_eq!(json_get(&v, "SubtitleStreamIndex"), Some(&Json::Int(-1)));
    assert_eq!(json_get_str(&v, "RepeatMode").unwrap(), "RepeatNone");
}
