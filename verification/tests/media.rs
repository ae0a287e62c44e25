use jellysink::json::{FloatCasts, Json};
use jellysink::media::{
    display_title, episode_titles, foreign_subtitle_hosts, item_type, map_streams,
    mpv_audio_track_id, mpv_embedded_subtitle_track_id, prepare_play, select_media_source,
    series_id, sorted_entries, stream_identities, PlayRequest, PrepareError, PreparedPlay, StreamMaps,
};
use jellysink::runtime::jellyfin_index_of;
use jellysink::track::{TrackId, TrackKind};
use std::collections::HashMap;

fn refused(r: Result<PreparedPlay, PrepareError>) -> PrepareError {
    match r {
        Ok(_) => panic!("expected prepare_play to refuse"),
        Err(e) => e,
    }
}

fn s(v: &str) -> Json {
    Json::Str(v.to_string())
}

fn num(n: i128) -> Json {
    Json::Int(n)
}

fn yes(b: bool) -> Json {
    Json::Bool(b)
}

fn obj(fields: Vec<(&str, Json)>) -> Json {
    Json::Object(fields.into_iter().map(|(k, v)| (k.to_string(), v)).collect())
}

fn arr(items: Vec<Json>) -> Json {
    Json::Array(items)
}

fn id_of(v: &Json) -> Option<String> {
    match v {
        Json::Object(fields) => fields.iter().find(|(k, _)| k == "Id").and_then(|(_, v)| match v {
            Json::Str(s) => Some(s.clone()),
            _ => None,
        }),
        _ => None,
    }
}

fn source_direct(id: &str, bitrate: i128) -> Json {
    obj(vec![
        ("Id", s(id)),
        ("SupportsDirectPlay", yes(true)),
        ("SupportsDirectStream", yes(true)),
        ("SupportsTranscoding", yes(true)),
        ("Bitrate", num(bitrate)),
        ("MediaStreams", arr(vec![])),
    ])
}

fn transcode_only_info() -> Json {
    obj(vec![
        ("PlaySessionId", s("ps")),
        (
            "MediaSources",
            arr(vec![obj(vec![
                ("Id", s("src")),
                ("SupportsDirectPlay", yes(false)),
                ("SupportsDirectStream", yes(false)),
                ("SupportsTranscoding", yes(true)),
                ("TranscodingUrl", s("/videos/x/master.m3u8")),
                ("MediaStreams", arr(vec![])),
            ])]),
        ),
    ])
}

fn check_transcode_only_is_an_error() {
    let err = refused(prepare_play(
        "http://h:8096",
        "item",
        &transcode_only_info(),
        None,
        None,
        None,
        "tok",
    ));
    assert_eq!(err, PrepareError::TranscodingOnly);
    assert!(err.message().contains("transcoding is disabled"));
}

#[test]
fn media_transcode_only_is_an_error() {
    check_transcode_only_is_an_error();
}

#[test]
fn prepare_test_transcode_only_is_an_error() {
    check_transcode_only_is_an_error();
}

fn check_prefers_direct_play_then_bitrate() {
    let sources = vec![
        obj(vec![("Id", s("low")), ("SupportsDirectPlay", yes(true)), ("Bitrate", num(1000))]),
        obj(vec![("Id", s("high")), ("SupportsDirectPlay", yes(true)), ("Bitrate", num(9000000))]),
        obj(vec![("Id", s("trans")), ("SupportsDirectPlay", yes(false)), ("Bitrate", num(1000))]),
    ];
    let sel = select_media_source(&sources, None).unwrap();
    assert_eq!(id_of(sel).as_deref(), Some("high"));
}

#[test]
fn media_prefers_direct_play_then_bitrate() {
    check_prefers_direct_play_then_bitrate();
}

#[test]
fn prepare_test_prefers_direct_play_then_bitrate() {
    check_prefers_direct_play_then_bitrate();
}

fn check_preferred_source_wins() {
    let sources = vec![source_direct("a", 1), source_direct("b", 9)];
    let sel = select_media_source(&sources, Some("a")).unwrap();
    assert_eq!(id_of(sel).as_deref(), Some("a"));
}

#[test]
fn media_preferred_source_wins() {
    check_preferred_source_wins();
}

#[test]
fn prepare_test_preferred_source_wins() {
    check_preferred_source_wins();
}

#[test]
fn direct_play_outweighs_a_much_higher_bitrate() {
    let sources = vec![
        obj(vec![("Id", s("trans")), ("SupportsDirectPlay", yes(false)), ("Bitrate", num(49_000_000))]),
        obj(vec![("Id", s("direct")), ("SupportsDirectPlay", yes(true)), ("Bitrate", num(1))]),
    ];
    let sel = select_media_source(&sources, None).unwrap();
    assert_eq!(id_of(sel).as_deref(), Some("direct"));
}

#[test]
fn equal_weights_keep_the_first_source() {
    let sources = vec![source_direct("first", 5), source_direct("second", 5)];
    let sel = select_media_source(&sources, None).unwrap();
    assert_eq!(id_of(sel).as_deref(), Some("first"));
}

#[test]
fn an_unknown_preferred_source_falls_back_to_the_heaviest() {
    let sources = vec![source_direct("a", 1), source_direct("b", 9)];
    let sel = select_media_source(&sources, Some("zzz")).unwrap();
    assert_eq!(id_of(sel).as_deref(), Some("b"));
}

fn float(x: f64) -> Json {
    let floor = x.floor();
    Json::Float(FloatCasts {
        as_i64: x as i64,
        as_u64: x as u64,
        floor: floor as i64,
        fraction: ((x - floor) * 18_446_744_073_709_551_616.0) as u64,
    })
}

#[test]
fn a_fractional_bitrate_counts_with_its_fraction() {
    let sources = vec![
        obj(vec![("Id", s("a")), ("Bitrate", float(1000.2))]),
        obj(vec![("Id", s("b")), ("Bitrate", float(1000.7))]),
    ];
    let sel = select_media_source(&sources, None).unwrap();
    assert_eq!(id_of(sel).as_deref(), Some("b"));
    let sources = vec![
        obj(vec![("Id", s("a")), ("Bitrate", float(7.5))]),
        obj(vec![("Id", s("b")), ("Bitrate", num(7))]),
        obj(vec![("Id", s("c")), ("Bitrate", num(6))]),
    ];
    let sel = select_media_source(&sources, None).unwrap();
    assert_eq!(id_of(sel).as_deref(), Some("a"));
    let sources = vec![
        obj(vec![("Id", s("a")), ("Bitrate", num(7))]),
        obj(vec![("Id", s("b")), ("Bitrate", float(7.0))]),
    ];
    let sel = select_media_source(&sources, None).unwrap();
    assert_eq!(id_of(sel).as_deref(), Some("a"), "equal weights keep the first");
}

#[test]
fn no_sources_select_nothing() {
    assert!(select_media_source(&[], None).is_none());
}

fn subs_source() -> Json {
    obj(vec![(
        "MediaStreams",
        arr(vec![
            obj(vec![("Type", s("Audio")), ("Index", num(1)), ("IsExternal", yes(false))]),
            obj(vec![
                ("Type", s("Subtitle")),
                ("Index", num(2)),
                ("DeliveryMethod", s("Embed")),
                ("IsExternal", yes(false)),
            ]),
            obj(vec![
                ("Type", s("Subtitle")),
                ("Index", num(3)),
                ("DeliveryMethod", s("External")),
                ("DeliveryUrl", s("/Videos/i/Subtitles/3/Stream.srt")),
                ("IsExternalUrl", yes(false)),
                ("IsExternal", yes(true)),
            ]),
        ]),
    )])
}

fn check_maps_embedded_and_external_subs() {
    let maps = map_streams("http://h:8096", &subs_source());
    assert_eq!(maps.audio_track_id_by_stream_index.get(&1), Some(&1));
    assert_eq!(maps.subtitle_track_id_by_stream_index.get(&2), Some(&1));
    assert_eq!(
        maps.subtitle_url.get(&3).map(String::as_str),
        Some("http://h:8096/Videos/i/Subtitles/3/Stream.srt")
    );
}

#[test]
fn media_maps_embedded_and_external_subs() {
    check_maps_embedded_and_external_subs();
}

#[test]
fn streams_test_maps_embedded_and_external_subs() {
    check_maps_embedded_and_external_subs();
}

#[test]
fn an_external_audio_stream_does_not_steal_the_next_embedded_track_id() {
    let source = obj(vec![(
        "MediaStreams",
        arr(vec![
            obj(vec![("Type", s("Audio")), ("Index", num(1)), ("IsExternal", yes(true))]),
            obj(vec![("Type", s("Audio")), ("Index", num(2)), ("IsExternal", yes(false))]),
        ]),
    )]);
    let maps = map_streams("http://s", &source);
    // mpv never loads the external stream, so it has no aid at all.
    assert_eq!(mpv_audio_track_id(&maps, 1), None);
    // The embedded stream is mpv's first audio track, not its second.
    assert_eq!(mpv_audio_track_id(&maps, 2), Some(1));
}

#[test]
fn embedded_audio_tracks_are_numbered_from_one_in_order() {
    let source = obj(vec![(
        "MediaStreams",
        arr(vec![
            obj(vec![("Type", s("Audio")), ("Index", num(1)), ("IsExternal", yes(false))]),
            obj(vec![
                ("Type", s("Subtitle")),
                ("Index", num(2)),
                ("DeliveryMethod", s("Embed")),
                ("IsExternal", yes(false)),
            ]),
            obj(vec![("Type", s("Audio")), ("Index", num(3)), ("IsExternal", yes(false))]),
        ]),
    )]);
    let maps = map_streams("http://s", &source);
    assert_eq!(mpv_audio_track_id(&maps, 1), Some(1));
    assert_eq!(mpv_audio_track_id(&maps, 3), Some(2));
    assert_eq!(maps.audio_stream_index_by_track_id.get(&2), Some(&3));
}

#[test]
fn an_extracted_subtitle_still_advances_the_mpv_subtitle_numbering() {
    let source = obj(vec![(
        "MediaStreams",
        arr(vec![
            obj(vec![
                ("Type", s("Subtitle")),
                ("Index", num(1)),
                ("DeliveryMethod", s("External")),
                ("DeliveryUrl", s("/sub1.srt")),
                ("IsExternalUrl", yes(false)),
                ("IsExternal", yes(false)),
            ]),
            obj(vec![
                ("Type", s("Subtitle")),
                ("Index", num(2)),
                ("DeliveryMethod", s("Embed")),
                ("IsExternal", yes(false)),
            ]),
        ]),
    )]);
    let maps = map_streams("http://s", &source);
    assert_eq!(mpv_embedded_subtitle_track_id(&maps, 2), Some(2));
    assert_eq!(maps.subtitle_url.get(&1).map(String::as_str), Some("http://s/sub1.srt"));
}

#[test]
fn an_unknown_delivery_method_does_not_fail_the_whole_response() {
    let source = obj(vec![(
        "MediaStreams",
        arr(vec![
            obj(vec![("Type", s("Subtitle")), ("Index", num(1)), ("DeliveryMethod", s("Hls"))]),
            obj(vec![("Type", s("Subtitle")), ("Index", num(2)), ("DeliveryMethod", s("Embed"))]),
        ]),
    )]);
    let maps = map_streams("http://s", &source);
    assert_eq!(mpv_embedded_subtitle_track_id(&maps, 2), Some(2));
    assert_eq!(mpv_embedded_subtitle_track_id(&maps, 1), None);
}

#[test]
fn an_unknown_stream_type_is_neither_audio_nor_subtitle() {
    let source = obj(vec![("MediaStreams", arr(vec![obj(vec![("Type", s("Video")), ("Index", num(0))])]))]);
    let maps = map_streams("http://s", &source);
    assert!(maps.audio_track_id_by_stream_index.is_empty());
    assert!(maps.subtitle_track_id_by_stream_index.is_empty());
}

#[test]
fn an_external_url_subtitle_is_used_as_it_is() {
    let source = obj(vec![(
        "MediaStreams",
        arr(vec![obj(vec![
            ("Type", s("Subtitle")),
            ("Index", num(4)),
            ("DeliveryMethod", s("External")),
            ("DeliveryUrl", s("https://cdn.example/4.srt")),
            ("IsExternalUrl", yes(true)),
            ("IsExternal", yes(true)),
        ])]),
    )]);
    let maps = map_streams("http://s/", &source);
    assert_eq!(maps.subtitle_url.get(&4).map(String::as_str), Some("https://cdn.example/4.srt"));
}

#[test]
fn a_source_without_streams_maps_nothing() {
    let maps = map_streams("http://s", &obj(vec![]));
    assert_eq!(maps, StreamMaps::default());
}

fn subtitle_at(path: &str) -> Json {
    obj(vec![(
        "MediaStreams",
        arr(vec![obj(vec![("Type", s("Subtitle")), ("Index", num(1)), ("Path", s(path))])]),
    )])
}

#[test]
fn a_subtitle_on_the_jellyfin_host_is_not_foreign() {
    assert!(foreign_subtitle_hosts("http://h:8096", &subtitle_at("http://h:8096/subs/1.srt")).is_empty());
}

#[test]
fn a_subtitle_on_another_host_is_foreign() {
    for path in ["http://elsewhere/1.srt", "https://h:8096/1.srt", "http://h:9000/1.srt"] {
        assert!(
            !foreign_subtitle_hosts("http://h:8096", &subtitle_at(path)).is_empty(),
            "{path} should be foreign"
        );
    }
    assert_eq!(
        foreign_subtitle_hosts("http://h:8096", &subtitle_at("http://elsewhere/1.srt")),
        vec!["elsewhere".to_string()]
    );
}

#[test]
fn a_local_subtitle_path_is_not_a_foreign_host() {
    assert!(foreign_subtitle_hosts("http://h:8096", &subtitle_at("/media/show/1.srt")).is_empty());
}

#[test]
fn a_default_port_written_out_is_the_same_origin() {
    assert!(foreign_subtitle_hosts("http://h", &subtitle_at("http://h:80/1.srt")).is_empty());
}

#[test]
fn a_foreign_host_is_listed_once() {
    let source = obj(vec![(
        "MediaStreams",
        arr(vec![
            obj(vec![("Type", s("Subtitle")), ("Path", s("http://cdn/1.srt"))]),
            obj(vec![("Type", s("Subtitle")), ("Path", s("http://cdn/2.srt"))]),
        ]),
    )]);
    assert_eq!(foreign_subtitle_hosts("http://h:8096", &source), vec!["cdn".to_string()]);
}

#[test]
fn an_unparsable_server_has_no_foreign_hosts() {
    assert!(foreign_subtitle_hosts("not a url", &subtitle_at("http://elsewhere/1.srt")).is_empty());
}

fn happy_info() -> Json {
    obj(vec![
        ("PlaySessionId", s("sess")),
        (
            "MediaSources",
            arr(vec![obj(vec![
                ("Id", s("src")),
                ("SupportsDirectPlay", yes(true)),
                ("SupportsDirectStream", yes(true)),
                ("DefaultAudioStreamIndex", num(1)),
                ("DefaultSubtitleStreamIndex", num(2)),
                (
                    "MediaStreams",
                    arr(vec![obj(vec![("Type", s("Audio")), ("Index", num(1)), ("IsExternal", yes(false))])]),
                ),
            ])]),
        ),
    ])
}

fn check_prepare_play_happy_path() {
    let prep = prepare_play("http://h:8096", "item", &happy_info(), None, None, None, "tok").unwrap();
    assert_eq!(prep.play_session_id, "sess");
    assert_eq!(prep.media_source_id, "src");
    assert!(prep.uses_auth_header);
    assert!(!prep.url.contains("ApiKey="));
    assert_eq!(prep.audio_stream_index, Some(1));
    assert_eq!(prep.subtitle_stream_index, Some(2));
    assert_eq!(prep.title, "Jellyfin");
}

#[test]
fn media_prepare_play_happy_path() {
    check_prepare_play_happy_path();
}

#[test]
fn prepare_test_prepare_play_happy_path() {
    check_prepare_play_happy_path();
}

fn default_off_info() -> Json {
    obj(vec![
        ("PlaySessionId", s("sess")),
        (
            "MediaSources",
            arr(vec![obj(vec![
                ("Id", s("src")),
                ("SupportsDirectPlay", yes(true)),
                ("SupportsDirectStream", yes(true)),
                ("DefaultAudioStreamIndex", num(1)),
                ("DefaultSubtitleStreamIndex", num(-1)),
                (
                    "MediaStreams",
                    arr(vec![
                        obj(vec![("Type", s("Audio")), ("Index", num(1)), ("IsExternal", yes(false))]),
                        obj(vec![
                            ("Type", s("Subtitle")),
                            ("Index", num(2)),
                            ("DeliveryMethod", s("Embed")),
                            ("IsExternal", yes(false)),
                            ("IsDefault", yes(false)),
                            ("IsForced", yes(false)),
                        ]),
                    ]),
                ),
            ])]),
        ),
    ])
}

fn check_prepare_play_keeps_server_default_of_off() {
    let prep = prepare_play("http://h:8096", "item", &default_off_info(), None, None, None, "tok").unwrap();
    assert_eq!(prep.subtitle_stream_index, Some(-1));
}

#[test]
fn media_prepare_play_keeps_server_default_of_off() {
    check_prepare_play_keeps_server_default_of_off();
}

#[test]
fn prepare_test_prepare_play_keeps_server_default_of_off() {
    check_prepare_play_keeps_server_default_of_off();
}

fn check_explicit_subtitle_wins() {
    let info = obj(vec![
        ("PlaySessionId", s("sess")),
        (
            "MediaSources",
            arr(vec![obj(vec![
                ("Id", s("src")),
                ("SupportsDirectPlay", yes(true)),
                ("SupportsDirectStream", yes(true)),
                ("DefaultSubtitleStreamIndex", num(-1)),
                ("MediaStreams", arr(vec![])),
            ])]),
        ),
    ]);
    let prep = prepare_play("http://h:8096", "item", &info, None, None, Some(2), "tok").unwrap();
    assert_eq!(prep.subtitle_stream_index, Some(2));
}

#[test]
fn media_prepare_play_explicit_subtitle_stream_index_wins_over_default_off() {
    check_explicit_subtitle_wins();
}

#[test]
fn prepare_test_prepare_play_explicit_subtitle_stream_index_wins_over_default_off() {
    check_explicit_subtitle_wins();
}

#[test]
fn prepare_play_errors_name_what_is_missing() {
    let no_session = obj(vec![("MediaSources", arr(vec![source_direct("a", 1)]))]);
    assert_eq!(
        refused(prepare_play("http://h", "i", &no_session, None, None, None, "t")),
        PrepareError::MissingPlaySessionId
    );
    let no_sources = obj(vec![("PlaySessionId", s("p"))]);
    assert_eq!(
        refused(prepare_play("http://h", "i", &no_sources, None, None, None, "t")),
        PrepareError::MissingMediaSources
    );
    let empty = obj(vec![("PlaySessionId", s("p")), ("MediaSources", arr(vec![]))]);
    assert_eq!(
        refused(prepare_play("http://h", "i", &empty, None, None, None, "t")),
        PrepareError::NoMediaSources
    );
    let no_id = obj(vec![
        ("PlaySessionId", s("p")),
        ("MediaSources", arr(vec![obj(vec![("SupportsDirectStream", yes(true))])])),
    ]);
    let err = refused(prepare_play("http://h", "i", &no_id, None, None, None, "t"));
    assert_eq!(err, PrepareError::MissingMediaSourceId);
    assert_eq!(err.message(), "MediaSource missing Id");
}

#[test]
fn a_foreign_subtitle_moves_the_token_onto_the_url() {
    let info = obj(vec![
        ("PlaySessionId", s("sess")),
        (
            "MediaSources",
            arr(vec![obj(vec![
                ("Id", s("src")),
                ("LiveStreamId", s("live")),
                ("SupportsDirectPlay", yes(true)),
                (
                    "MediaStreams",
                    arr(vec![
                        obj(vec![("Type", s("Subtitle")), ("Index", num(5)), ("Path", s("http://cdn/5.srt"))]),
                        obj(vec![
                            ("Type", s("Subtitle")),
                            ("Index", num(4)),
                            ("DeliveryMethod", s("External")),
                            ("DeliveryUrl", s("/4.srt")),
                            ("IsExternal", yes(true)),
                        ]),
                        obj(vec![
                            ("Type", s("Subtitle")),
                            ("Index", num(3)),
                            ("DeliveryMethod", s("External")),
                            ("DeliveryUrl", s("/3.srt")),
                            ("IsExternal", yes(true)),
                        ]),
                    ]),
                ),
            ])]),
        ),
    ]);
    let prep = prepare_play("http://h:8096/", "item", &info, None, Some(7), None, "tok").unwrap();
    assert!(!prep.uses_auth_header);
    assert_eq!(
        prep.url,
        "http://h:8096/Videos/item/stream?static=true&MediaSourceId=src&LiveStreamId=live&ApiKey=tok"
    );
    assert_eq!(prep.live_stream_id.as_deref(), Some("live"));
    assert_eq!(prep.audio_stream_index, Some(7));
    assert_eq!(
        prep.external_sub_urls,
        vec![(3, "http://h:8096/3.srt".to_string()), (4, "http://h:8096/4.srt".to_string())]
    );
}

#[test]
fn sorted_entries_orders_by_key() {
    let mut m = HashMap::new();
    m.insert(9i64, "c".to_string());
    m.insert(-2i64, "a".to_string());
    m.insert(4i64, "b".to_string());
    assert_eq!(
        sorted_entries(&m),
        vec![(-2, "a".to_string()), (4, "b".to_string()), (9, "c".to_string())]
    );
}

fn check_episode_title_includes_series_and_numbers() {
    let item = obj(vec![
        ("Type", s("Episode")),
        ("Name", s("The One")),
        ("SeriesName", s("Friends")),
        ("ParentIndexNumber", num(1)),
        ("IndexNumber", num(2)),
    ]);
    assert_eq!(display_title(&item), "Friends - s1e02 - The One");
}

#[test]
fn episode_title_includes_series_and_numbers() {
    check_episode_title_includes_series_and_numbers();
}

#[test]
fn movie_title_includes_year() {
    let item = obj(vec![("Type", s("Movie")), ("Name", s("Heat")), ("ProductionYear", num(1995))]);
    assert_eq!(display_title(&item), "Heat (1995)");
}

#[test]
fn plain_name_when_metadata_is_thin() {
    assert_eq!(display_title(&obj(vec![("Name", s("Home Video"))])), "Home Video");
    assert_eq!(display_title(&obj(vec![])), "Jellyfin");
}

#[test]
fn an_episode_without_numbers_is_its_name() {
    let item = obj(vec![("Type", s("Episode")), ("Name", s("Pilot")), ("SeriesName", s("Show"))]);
    assert_eq!(display_title(&item), "Pilot");
}

fn lookup<'a>(titles: &'a [(String, String)], id: &str) -> Option<&'a str> {
    titles.iter().find(|(k, _)| k == id).map(|(_, v)| v.as_str())
}

#[test]
fn episode_titles_use_display_title() {
    let v = obj(vec![(
        "Items",
        arr(vec![
            obj(vec![
                ("Id", s("e1")),
                ("Type", s("Episode")),
                ("Name", s("Pilot")),
                ("SeriesName", s("Show")),
                ("ParentIndexNumber", num(1)),
                ("IndexNumber", num(1)),
            ]),
            obj(vec![
                ("Id", s("e2")),
                ("Type", s("Episode")),
                ("Name", s("Next")),
                ("SeriesName", s("Show")),
                ("ParentIndexNumber", num(1)),
                ("IndexNumber", num(2)),
            ]),
        ]),
    )]);
    let titles = episode_titles(&v);
    assert_eq!(lookup(&titles, "e1").unwrap(), "Show - s1e01 - Pilot");
    assert_eq!(lookup(&titles, "e2").unwrap(), "Show - s1e02 - Next");
}

#[test]
fn episode_titles_empty_on_malformed_payload() {
    assert!(episode_titles(&obj(vec![])).is_empty());
    assert!(episode_titles(&obj(vec![("Items", s("nope"))])).is_empty());
}

#[test]
fn a_repeated_id_keeps_the_later_title() {
    let v = obj(vec![(
        "Items",
        arr(vec![
            obj(vec![("Id", s("e1")), ("Name", s("Old"))]),
            obj(vec![("Id", s("e2")), ("Name", s("Two"))]),
            obj(vec![("Id", s("e1")), ("Name", s("New"))]),
        ]),
    )]);
    assert_eq!(
        episode_titles(&v),
        vec![("e1".to_string(), "New".to_string()), ("e2".to_string(), "Two".to_string())]
    );
}

#[test]
fn item_type_and_series_id_read_their_fields() {
    let item = obj(vec![("Type", s("Episode")), ("SeriesId", s("series-1"))]);
    assert_eq!(item_type(&item), Some("Episode"));
    assert_eq!(series_id(&item), Some("series-1"));
    assert_eq!(series_id(&obj(vec![])), None);
}

#[test]
fn a_default_play_request_is_plain_so_a_cached_prepare_can_be_reused() {
    assert!(PlayRequest::default().is_plain());
    assert!(
        PlayRequest { start_ticks: Some(0), ..Default::default() }.is_plain(),
        "a zero resume offset is still just \"play it\""
    );
}

#[test]
fn any_explicit_choice_makes_a_play_request_non_plain() {
    for req in [
        PlayRequest { start_ticks: Some(1), ..Default::default() },
        PlayRequest { audio_stream_index: Some(1), ..Default::default() },
        PlayRequest { subtitle_stream_index: Some(-1), ..Default::default() },
        PlayRequest { media_source_id: Some("m".into()), ..Default::default() },
    ] {
        assert!(!req.is_plain(), "{req:?} must re-fetch PlaybackInfo");
    }
}

#[test]
fn prepared_play_debug_never_prints_the_token() {
    let prep = PreparedPlay {
        url: "http://s/Videos/i/stream?static=true&ApiKey=sekrit".into(),
        media_source_id: "m".into(),
        play_session_id: "p".into(),
        live_stream_id: None,
        maps: StreamMaps::default(),
        audio_stream_index: None,
        subtitle_stream_index: None,
        uses_auth_header: false,
        external_sub_urls: vec![],
        title: "t".into(),
    };
    let rendered = prep.debug_string();
    assert!(!rendered.contains("sekrit"), "{rendered}");
    assert!(rendered.contains("<redacted>"), "{rendered}");
}

#[test]
fn prepared_play_debug_lists_every_shown_field() {
    let prep = PreparedPlay {
        url: "http://s/v?ApiKey=k&x=1".into(),
        media_source_id: "m".into(),
        play_session_id: "p".into(),
        live_stream_id: Some("l".into()),
        maps: StreamMaps::default(),
        audio_stream_index: Some(1),
        subtitle_stream_index: Some(-1),
        uses_auth_header: true,
        external_sub_urls: vec![(3, "u".into()), (4, "w".into())],
        title: "t".into(),
    };
    assert_eq!(
        prep.debug_string(),
        "PreparedPlay { url: \"http://s/v?ApiKey=<redacted>&x=1\", media_source_id: \"m\", \
         play_session_id: \"p\", live_stream_id: Some(\"l\"), audio_stream_index: Some(1), \
         subtitle_stream_index: Some(-1), uses_auth_header: true, \
         external_sub_urls: [(3, \"u\"), (4, \"w\")], title: \"t\", .. }"
    );
}

fn source_with(streams: Vec<Json>) -> Json {
    obj(vec![("MediaStreams", arr(streams))])
}

#[test]
fn an_audio_identity_carries_the_raw_track_title_not_only_the_display_title() {
    let source = source_with(vec![obj(vec![
        ("Type", s("Audio")),
        ("Index", num(1)),
        ("IsExternal", yes(false)),
        ("Language", s("jpn")),
        ("Title", s("Original")),
        ("DisplayTitle", s("Japanese - FLAC - 5.1")),
        ("Codec", s("flac")),
    ])]);
    assert_eq!(
        stream_identities(&source, TrackKind::Audio),
        vec![TrackId {
            index: 1,
            language: Some("jpn".into()),
            title: Some("Original".into()),
            display_title: Some("Japanese - FLAC - 5.1".into()),
            codec: Some("flac".into()),
            is_forced: false,
            is_external: false,
        }]
    );
}

#[test]
fn an_external_audio_stream_is_not_offered_as_an_identity() {
    let source = source_with(vec![
        obj(vec![("Type", s("Audio")), ("Index", num(1)), ("IsExternal", yes(true)), ("Language", s("eng"))]),
        obj(vec![("Type", s("Audio")), ("Index", num(2)), ("IsExternal", yes(false)), ("Language", s("jpn"))]),
    ]);
    assert_eq!(
        stream_identities(&source, TrackKind::Audio)
            .iter()
            .map(|a| a.index)
            .collect::<Vec<_>>(),
        vec![2]
    );
}

#[test]
fn a_subtitle_identity_carries_the_raw_track_title_not_only_the_display_title() {
    let source = source_with(vec![obj(vec![
        ("Type", s("Subtitle")),
        ("Index", num(2)),
        ("DeliveryMethod", s("Embed")),
        ("Language", s("eng")),
        ("Title", s("Dialogue")),
        ("DisplayTitle", s("English - Dialogue - SRT")),
        ("Codec", s("subrip")),
        ("IsForced", yes(false)),
        ("IsExternal", yes(false)),
    ])]);
    assert_eq!(
        stream_identities(&source, TrackKind::Subtitle),
        vec![TrackId {
            index: 2,
            language: Some("eng".into()),
            title: Some("Dialogue".into()),
            display_title: Some("English - Dialogue - SRT".into()),
            codec: Some("subrip".into()),
            is_forced: false,
            is_external: false,
        }]
    );
}

#[test]
fn an_unselectable_subtitle_is_not_offered_as_an_identity() {
    let source = source_with(vec![
        obj(vec![("Type", s("Subtitle")), ("Index", num(1)), ("DeliveryMethod", s("Hls")), ("Language", s("eng"))]),
        obj(vec![("Type", s("Subtitle")), ("Index", num(2)), ("DeliveryMethod", s("External")), ("Language", s("eng"))]),
        obj(vec![("Type", s("Subtitle")), ("Index", num(3)), ("DeliveryMethod", s("Embed")), ("Language", s("eng"))]),
    ]);
    assert_eq!(
        stream_identities(&source, TrackKind::Subtitle)
            .iter()
            .map(|s| s.index)
            .collect::<Vec<_>>(),
        vec![3],
        "Hls has no mapping and the External entry has no DeliveryUrl"
    );
}

#[test]
fn an_extracted_subtitle_is_still_a_selectable_identity() {
    let source = source_with(vec![obj(vec![
        ("Type", s("Subtitle")),
        ("Index", num(1)),
        ("DeliveryMethod", s("External")),
        ("DeliveryUrl", s("/sub1.srt")),
        ("IsExternalUrl", yes(false)),
        ("IsExternal", yes(false)),
        ("Language", s("ces")),
    ])]);
    assert_eq!(
        stream_identities(&source, TrackKind::Subtitle)
            .iter()
            .map(|s| s.index)
            .collect::<Vec<_>>(),
        vec![1]
    );
}

#[test]
fn track_ids_map_back_to_their_stream_indexes() {
    let source = source_with(vec![
        obj(vec![("Type", s("Audio")), ("Index", num(1)), ("IsExternal", yes(false))]),
        obj(vec![("Type", s("Audio")), ("Index", num(4)), ("IsExternal", yes(false))]),
        obj(vec![("Type", s("Subtitle")), ("Index", num(2)), ("DeliveryMethod", s("Embed"))]),
        obj(vec![("Type", s("Subtitle")), ("Index", num(5)), ("DeliveryMethod", s("Embed"))]),
    ]);
    let maps = map_streams("http://s", &source);
    for j in [1, 4] {
        let t = mpv_audio_track_id(&maps, j).unwrap();
        assert_eq!(maps.audio_stream_index_by_track_id.get(&t), Some(&j));
    }
    for j in [2, 5] {
        let t = mpv_embedded_subtitle_track_id(&maps, j).unwrap();
        assert_eq!(maps.subtitle_stream_index_by_track_id.get(&t), Some(&j));
    }
}

#[test]
fn an_embedded_subtitle_track_id_maps_back_to_its_jellyfin_index() {
    let source = source_with(vec![
        obj(vec![("Type", s("Subtitle")), ("Index", num(2)), ("DeliveryMethod", s("Embed")), ("IsExternal", yes(false))]),
        obj(vec![("Type", s("Subtitle")), ("Index", num(5)), ("DeliveryMethod", s("Embed")), ("IsExternal", yes(false))]),
    ]);
    let maps = map_streams("http://s", &source);
    let none = HashMap::new();
    assert_eq!(jellyfin_index_of(Some(&maps), &none, TrackKind::Subtitle, 1), Some(2));
    assert_eq!(jellyfin_index_of(Some(&maps), &none, TrackKind::Subtitle, 2), Some(5));
    // A `sub-add`ed external track; the runtime resolves those from its own
    // map, and this one must not guess at an embedded stream.
    assert_eq!(jellyfin_index_of(Some(&maps), &none, TrackKind::Subtitle, 3), None);
}

#[test]
fn an_audio_track_id_maps_back_to_its_jellyfin_index() {
    let source = source_with(vec![
        obj(vec![("Type", s("Audio")), ("Index", num(1)), ("IsExternal", yes(false))]),
        obj(vec![("Type", s("Audio")), ("Index", num(4)), ("IsExternal", yes(false))]),
    ]);
    let maps = map_streams("http://s", &source);
    let none = HashMap::new();
    assert_eq!(jellyfin_index_of(Some(&maps), &none, TrackKind::Audio, 1), Some(1));
    assert_eq!(jellyfin_index_of(Some(&maps), &none, TrackKind::Audio, 2), Some(4));
    // mpv numbers audio tracks from 1, so there is no third one here.
    assert_eq!(jellyfin_index_of(Some(&maps), &none, TrackKind::Audio, 3), None);
}
