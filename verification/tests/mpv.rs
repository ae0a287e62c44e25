use jellysink::mpv::{mpv_argv, track_property_value};
use jellysink::json::Json;
use jellysink::mpv::{
    as_bool_property, as_i64_property, command_message, ipc_message,
    loadlist_insert_at_args, max_subtitle_track_id_from_track_list, mpv_event_for, playlist_m3u,
    selected_track_from_property, EndFileReason, IpcError, IpcMessage, MpvEvent, PropertyError,
    SelectedTrack,
};

fn obj(fields: Vec<(&str, Json)>) -> Json {
    Json::Object(fields.into_iter().map(|(k, v)| (k.to_string(), v)).collect())
}

fn s(v: &str) -> Json {
    Json::Str(v.to_string())
}

#[test]
fn end_file_reasons_read_mpv_spelling() {
    assert_eq!(EndFileReason::parse(Some("eof")), EndFileReason::Eof);
    assert_eq!(EndFileReason::parse(Some("stop")), EndFileReason::Stop);
    assert_eq!(EndFileReason::parse(Some("later")), EndFileReason::Other);
    assert_eq!(EndFileReason::parse(None), EndFileReason::Other);
    assert_eq!(EndFileReason::Quit.name(), "quit");
    assert_eq!(EndFileReason::Other.name(), "unknown");
}

#[test]
fn an_end_file_event_becomes_an_mpv_event() {
    let m = ipc_message(obj(vec![("event", s("end-file")), ("reason", s("eof"))])).unwrap();
    assert_eq!(
        m,
        IpcMessage::Event { name: "end-file".into(), reason: Some("eof".into()) }
    );
    assert_eq!(
        mpv_event_for(&m),
        Some(MpvEvent::EndFile { reason: EndFileReason::Eof })
    );
}

#[test]
fn a_reply_defaults_its_error_and_data() {
    let m = ipc_message(obj(vec![("request_id", Json::Int(4))])).unwrap();
    assert_eq!(
        m,
        IpcMessage::Reply { request_id: 4, error: "success".into(), data: Json::Null }
    );
    assert_eq!(mpv_event_for(&m), None);
    assert_eq!(ipc_message(obj(vec![("data", Json::Int(1))])), Err(IpcError::MissingRequestId));
}

#[test]
fn a_property_change_names_its_property() {
    let m = ipc_message(obj(vec![
        ("event", s("property-change")),
        ("name", s("sid")),
        ("data", Json::Int(2)),
    ]))
    .unwrap();
    assert_eq!(m, IpcMessage::PropertyChange { property: "sid".into() });
    assert_eq!(mpv_event_for(&m), Some(MpvEvent::SubtitleTrackChanged));
}

#[test]
fn track_properties_read_off_and_auto() {
    assert_eq!(selected_track_from_property(&Json::Int(3)), SelectedTrack::Id(3));
    assert_eq!(selected_track_from_property(&Json::Bool(false)), SelectedTrack::Off);
    assert_eq!(selected_track_from_property(&s("no")), SelectedTrack::Off);
    assert_eq!(selected_track_from_property(&s("auto")), SelectedTrack::Unresolved);
}

#[test]
fn the_highest_subtitle_id_ignores_other_tracks() {
    let list = Json::Array(vec![
        obj(vec![("type", s("sub")), ("id", Json::Int(2))]),
        obj(vec![("type", s("audio")), ("id", Json::Int(9))]),
        obj(vec![("type", s("sub")), ("id", Json::Int(5))]),
    ]);
    assert_eq!(max_subtitle_track_id_from_track_list(&list), 5);
    assert_eq!(max_subtitle_track_id_from_track_list(&Json::Null), 0);
}

#[test]
fn a_playlist_keeps_titles_on_one_line() {
    let m3u = playlist_m3u(&[
        ("Pilot\nPart 1".to_string(), "http://a".to_string()),
        ("Two".to_string(), "http://b".to_string()),
    ]);
    assert_eq!(
        m3u,
        "#EXTM3U\n#EXTINF:-1,Pilot Part 1\nhttp://a\n#EXTINF:-1,Two\nhttp://b\n"
    );
}

#[test]
fn insert_at_keeps_the_index_a_separate_argument() {
    let args = loadlist_insert_at_args("/tmp/q.m3u", 0);
    assert_eq!(args[2], s("insert-at"));
    assert_eq!(args[3], Json::Int(0));
    let msg = command_message(7, args.into_iter().collect());
    assert_eq!(
        msg,
        obj(vec![
            (
                "command",
                Json::Array(vec![s("loadlist"), s("/tmp/q.m3u"), s("insert-at"), Json::Int(0)])
            ),
            ("request_id", Json::Int(7)),
        ])
    );
}

#[test]
fn property_answers_have_no_fallback() {
    assert_eq!(as_i64_property(&Json::Int(3)), Ok(3));
    assert_eq!(as_i64_property(&s("3")), Err(PropertyError::NotAnInteger));
    assert_eq!(as_bool_property(&Json::Bool(true)), Ok(true));
    assert_eq!(as_bool_property(&Json::Null), Err(PropertyError::NotABoolean));
}

#[test]
fn a_negative_or_missing_track_id_selects_no_track() {
    assert_eq!(track_property_value(Some(2)), Json::Int(2));
    assert_eq!(track_property_value(Some(0)), Json::Int(0));
    assert_eq!(track_property_value(Some(-1)), s("no"));
    assert_eq!(track_property_value(None), s("no"));
}

#[test]
fn mpv_is_started_idle_on_its_socket_before_the_extra_arguments() {
    let extra = vec!["--fs".to_string(), "--volume=40".to_string()];
    let argv = mpv_argv("/run/user/1000/jellysink/mpv.sock", &extra);
    assert_eq!(
        argv,
        vec![
            "--input-ipc-server=/run/user/1000/jellysink/mpv.sock".to_string(),
            "--force-window=yes".to_string(),
            "--idle=yes".to_string(),
            "--fs".to_string(),
            "--volume=40".to_string(),
        ]
    );
    assert_eq!(mpv_argv("s", &Vec::new()).len(), 3);
}

#[test]
fn mpv_gets_no_option_that_belongs_to_the_user_configuration() {
    let extra = vec!["--profile=anime".to_string()];
    let argv = mpv_argv("/tmp/s", &extra);
    for arg in &argv[..3] {
        for name in ["vo", "hwdec", "scale", "glsl-shaders", "no-config"] {
            assert_ne!(arg, &format!("--{name}"));
            assert!(!arg.starts_with(&format!("--{name}=")));
        }
    }
    assert_eq!(&argv[3..], &extra[..]);
}
