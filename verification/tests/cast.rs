use jellysink::cast::{
    end_file_action, ignore_stop_for_playlist, playlist_eof, queue_index_at, CastEvent,
    EndFileAction, PlaylistEof, Queue,
};
use jellysink::json::{FloatCasts, Json};

fn s(v: &str) -> Json {
    Json::Str(v.to_string())
}

fn num(n: i128) -> Json {
    Json::Int(n)
}

fn obj(fields: Vec<(&str, Json)>) -> Json {
    Json::Object(fields.into_iter().map(|(k, v)| (k.to_string(), v)).collect())
}

fn arr(items: Vec<Json>) -> Json {
    Json::Array(items)
}

fn play_now_message() -> Json {
    obj(vec![
        ("PlayCommand", s("PlayNow")),
        ("ItemIds", arr(vec![s("a"), s("b")])),
        ("StartIndex", num(1)),
        ("StartPositionTicks", num(150000000)),
        ("AudioStreamIndex", num(1)),
        ("SubtitleStreamIndex", num(2)),
    ])
}

fn check_play_now() {
    let ev = CastEvent::from_ws("Play", &play_now_message()).unwrap();
    assert_eq!(
        ev,
        CastEvent::PlayNow {
            item_ids: vec!["a".into(), "b".into()],
            start_index: 1,
            start_ticks: Some(150_000_000),
            audio_stream_index: Some(1),
            subtitle_stream_index: Some(2),
            media_source_id: None,
        }
    );
}

fn check_play_without_command() {
    let ev = CastEvent::from_ws("Play", &obj(vec![("ItemIds", arr(vec![s("x")]))])).unwrap();
    assert!(matches!(ev, CastEvent::PlayNow { .. }));
}

fn check_play_next_and_last() {
    assert!(matches!(
        CastEvent::from_ws(
            "Play",
            &obj(vec![("PlayCommand", s("PlayNext")), ("ItemIds", arr(vec![s("z")]))])
        ),
        Some(CastEvent::PlayNext { .. })
    ));
    assert!(matches!(
        CastEvent::from_ws(
            "Play",
            &obj(vec![("PlayCommand", s("PlayLast")), ("ItemIds", arr(vec![s("z")]))])
        ),
        Some(CastEvent::PlayLast { .. })
    ));
}

fn check_playstate_seek_and_pause() {
    assert_eq!(
        CastEvent::from_ws(
            "Playstate",
            &obj(vec![("Command", s("Seek")), ("SeekPositionTicks", num(10))])
        ),
        Some(CastEvent::Seek { ticks: 10 })
    );
    assert_eq!(
        CastEvent::from_ws("Playstate", &obj(vec![("Command", s("PlayPause"))])),
        Some(CastEvent::PlayPause)
    );
}

fn check_general_volume_accepts_string() {
    let ev = CastEvent::from_ws(
        "GeneralCommand",
        &obj(vec![
            ("Name", s("SetVolume")),
            ("Arguments", obj(vec![("Volume", s("40"))])),
        ]),
    )
    .unwrap();
    assert_eq!(ev, CastEvent::SetVolume { volume: 40 });
}

fn check_navigation_commands_are_ignored() {
    assert_eq!(
        CastEvent::from_ws("GeneralCommand", &obj(vec![("Name", s("MoveUp"))])),
        None
    );
}

#[test]
fn cast_play_now() {
    check_play_now();
}

#[test]
fn cast_test_play_now() {
    check_play_now();
}

#[test]
fn cast_play_without_command_is_play_now() {
    check_play_without_command();
}

#[test]
fn cast_test_play_without_command_is_play_now() {
    check_play_without_command();
}

#[test]
fn cast_play_next_and_last() {
    check_play_next_and_last();
}

#[test]
fn cast_test_play_next_and_last() {
    check_play_next_and_last();
}

#[test]
fn cast_playstate_seek_and_pause() {
    check_playstate_seek_and_pause();
}

#[test]
fn cast_test_playstate_seek_and_pause() {
    check_playstate_seek_and_pause();
}

#[test]
fn cast_general_volume_accepts_string() {
    check_general_volume_accepts_string();
}

#[test]
fn cast_test_general_volume_accepts_string() {
    check_general_volume_accepts_string();
}

#[test]
fn cast_navigation_commands_are_ignored() {
    check_navigation_commands_are_ignored();
}

#[test]
fn cast_test_navigation_commands_are_ignored() {
    check_navigation_commands_are_ignored();
}

#[test]
fn cast_queue_play_next_inserts_after_current() {
    let mut q = Queue {
        items: vec!["a".into(), "c".into()],
        index: 0,
    };
    q.insert_next(vec!["b".into()]);
    assert_eq!(q.items, vec!["a", "b", "c"]);
    assert_eq!(q.advance(), Some("b"));
}

#[test]
fn cast_queue_has_next_is_false_on_the_last_item() {
    let mut q = Queue {
        items: vec!["a".into(), "b".into()],
        index: 0,
    };
    assert!(q.has_next());
    assert_eq!(q.advance(), Some("b"));
    assert!(!q.has_next());
    q.append(vec!["c".into()]);
    assert!(q.has_next());
    assert_eq!(q.current(), Some("b"));
}

#[test]
fn cast_end_file_eof_always_tries_the_next_item() {
    assert_eq!(end_file_action(false, false, "eof"), EndFileAction::Advance);
    assert_eq!(
        end_file_action(false, false, "redirect"),
        EndFileAction::Advance
    );
}

#[test]
fn cast_end_file_is_ignored_while_replacing_the_current_file() {
    assert_eq!(end_file_action(true, false, "stop"), EndFileAction::Ignore);
    assert_eq!(end_file_action(true, false, "eof"), EndFileAction::Ignore);
    assert_eq!(end_file_action(false, true, "eof"), EndFileAction::Ignore);
}

#[test]
fn cast_end_file_quit_or_error_stops() {
    assert_eq!(end_file_action(false, false, "quit"), EndFileAction::Stop);
    assert_eq!(end_file_action(false, false, "stop"), EndFileAction::Stop);
    assert_eq!(end_file_action(false, false, "error"), EndFileAction::Stop);
}

#[test]
fn cast_queue_index_tracks_playlist_origin() {
    assert_eq!(queue_index_at(2, 0, 5), Some(2));
    assert_eq!(queue_index_at(2, 2, 5), Some(4));
    assert_eq!(queue_index_at(2, 3, 5), None);
    assert_eq!(queue_index_at(0, 0, 0), None);
}

#[test]
fn cast_eof_uses_mpv_next_when_it_is_already_appended() {
    assert_eq!(playlist_eof(0, 3, true, 0, false), PlaylistEof::NextInMpv);
    assert_eq!(
        playlist_eof(2, 3, true, 2, false),
        PlaylistEof::NextNotInMpv
    );
    assert_eq!(playlist_eof(2, 3, false, 2, false), PlaylistEof::Stop);
    assert_eq!(playlist_eof(0, 1, false, 0, false), PlaylistEof::Stop);
}

#[test]
fn cast_eof_does_not_playlist_next_if_mpv_already_advanced() {
    assert_eq!(playlist_eof(1, 3, true, 0, true), PlaylistEof::WaitForMpv);
    assert_eq!(playlist_eof(2, 3, true, 1, true), PlaylistEof::WaitForMpv);
}

#[test]
fn cast_eof_lets_mpv_autoplay_when_next_is_already_appended() {
    assert_eq!(playlist_eof(0, 3, true, 0, true), PlaylistEof::WaitForMpv);
    assert_eq!(playlist_eof(2, 3, true, 2, true), PlaylistEof::NextNotInMpv);
    assert_eq!(playlist_eof(2, 3, false, 2, true), PlaylistEof::Stop);
}

#[test]
fn cast_playlist_jump_stop_is_not_a_session_stop() {
    assert!(ignore_stop_for_playlist("stop", 3));
    assert!(!ignore_stop_for_playlist("stop", 1));
    assert!(!ignore_stop_for_playlist("eof", 3));
    assert!(!ignore_stop_for_playlist("quit", 3));
    assert!(!ignore_stop_for_playlist("error", 2));
}

#[test]
fn cast_insert_before_current_keeps_index_on_the_same_item() {
    let mut q = Queue {
        items: vec!["c".into(), "d".into()],
        index: 0,
    };
    assert_eq!(q.insert_before_current(vec!["a".into(), "b".into()]), 2);
    assert_eq!(q.items, vec!["a", "b", "c", "d"]);
    assert_eq!(q.index, 2);
    assert_eq!(q.current(), Some("c"));
}

#[test]
fn cast_insert_before_current_splices_at_the_index_not_at_zero() {
    let mut q = Queue {
        items: vec!["a".into(), "b".into(), "c".into()],
        index: 2,
    };
    assert_eq!(q.insert_before_current(vec!["z".into()]), 1);
    assert_eq!(q.index, 3);
    assert_eq!(q.current(), Some("c"));
    assert_eq!(q.items, vec!["a", "b", "z", "c"]);
}

#[test]
fn cast_insert_before_current_nothing_is_a_no_op() {
    let mut q = Queue {
        items: vec!["a".into()],
        index: 0,
    };
    assert_eq!(q.insert_before_current(vec![]), 0);
    assert_eq!(q.index, 0);
    assert_eq!(q.items, vec!["a"]);
}

// --- further cases -------------------------------------------------------------

#[test]
fn a_lone_string_item_id_is_a_list_of_one() {
    let ev = CastEvent::from_ws("Play", &obj(vec![("ItemIds", s("solo"))])).unwrap();
    assert!(matches!(ev, CastEvent::PlayNow { ref item_ids, .. } if item_ids == &vec!["solo".to_string()]));
}

#[test]
fn an_empty_item_list_is_not_a_play() {
    assert_eq!(CastEvent::from_ws("Play", &obj(vec![("ItemIds", arr(vec![]))])), None);
    assert_eq!(CastEvent::from_ws("Play", &obj(vec![])), None);
}

#[test]
fn a_negative_start_index_starts_at_the_first_item() {
    let ev = CastEvent::from_ws(
        "Play",
        &obj(vec![("ItemIds", arr(vec![s("a")])), ("StartIndex", num(-3))]),
    )
    .unwrap();
    assert!(matches!(ev, CastEvent::PlayNow { start_index: 0, .. }));
}

#[test]
fn set_volume_is_clamped_and_floats_truncate() {
    let ev = CastEvent::from_ws(
        "GeneralCommand",
        &obj(vec![
            ("Name", s("SetVolume")),
            ("Arguments", obj(vec![("Volume", num(250))])),
        ]),
    );
    assert_eq!(ev, Some(CastEvent::SetVolume { volume: 100 }));
    let ev = CastEvent::from_ws(
        "GeneralCommand",
        &obj(vec![
            ("Name", s("SetVolume")),
            (
                "Arguments",
                obj(vec![("Volume", Json::Float(FloatCasts { as_i64: 33, as_u64: 33, floor: 33, fraction: 0 }))]),
            ),
        ]),
    );
    assert_eq!(ev, Some(CastEvent::SetVolume { volume: 33 }));
}

#[test]
fn a_seek_without_a_position_is_ignored() {
    assert_eq!(
        CastEvent::from_ws("Playstate", &obj(vec![("Command", s("Seek"))])),
        None
    );
}

#[test]
fn an_unknown_message_type_is_not_a_command() {
    assert_eq!(CastEvent::from_ws("UserDataChanged", &obj(vec![])), None);
    assert_eq!(
        CastEvent::from_ws("PlayPause", &Json::Null),
        Some(CastEvent::PlayPause)
    );
}

#[test]
fn previous_on_the_first_item_stays_put() {
    let mut q = Queue {
        items: vec!["a".into(), "b".into()],
        index: 0,
    };
    assert_eq!(q.previous(), Some("a"));
    assert_eq!(q.index, 0);
    q.replace(vec!["x".into(), "y".into()], 9);
    assert_eq!(q.index, 1);
    assert_eq!(q.peek_next(), None);
    q.replace(vec![], 3);
    assert_eq!(q.index, 0);
    assert_eq!(q.current(), None);
}
