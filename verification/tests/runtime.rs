use jellysink::window::PlaylistWindow;
use jellysink::runtime::{bumped_volume, playback_url, set_volume_level, stream_url_with_token, wants_auth_header};
use jellysink::json::Json;
use jellysink::media::{PreparedPlay, StreamMaps};
use jellysink::mpv::SelectedTrack;
use jellysink::runtime::{
    grown_backoff, jellyfin_index_of, mpv_track_id_for, plan_series_expansion,
    playlist_stub_entries, reconnect_delay, resume_seek_ticks, snapshot, track_adoption,
    track_apply, wants_series_listing, PlayerStatus, TrackAdoption, TrackApply, BACKOFF_MAX_MS,
    BACKOFF_MIN_MS, SESSION_HEALTHY_AFTER_MS,
};
use jellysink::track::TrackKind;
use std::collections::HashMap;

#[test]
fn a_quick_failure_keeps_the_grown_backoff() {
    let grown = 8_000;
    assert_eq!(
        reconnect_delay(grown, 2_000, false),
        grown,
        "a session that died immediately should keep backing off"
    );
}

#[test]
fn a_healthy_session_resets_the_backoff() {
    assert_eq!(
        reconnect_delay(BACKOFF_MAX_MS, SESSION_HEALTHY_AFTER_MS, false),
        BACKOFF_MIN_MS,
        "a session that stayed up should reconnect promptly"
    );
}

#[test]
fn an_expired_token_backs_off_to_the_maximum_however_long_the_session_ran() {
    assert_eq!(
        reconnect_delay(BACKOFF_MIN_MS, 3_600_000, true),
        BACKOFF_MAX_MS,
        "retrying a rejected token fast is pointless"
    );
}

#[test]
fn the_backoff_doubles_up_to_its_cap() {
    assert_eq!(grown_backoff(1_000), 2_000);
    assert_eq!(grown_backoff(16_000), 32_000);
    assert_eq!(grown_backoff(32_000), 60_000);
    assert_eq!(grown_backoff(60_000), 60_000);
}

#[test]
fn resume_seek_ticks_applies_only_positive_offsets() {
    assert_eq!(resume_seek_ticks(None), None);
    assert_eq!(resume_seek_ticks(Some(0)), None);
    assert_eq!(resume_seek_ticks(Some(-1)), None);
    assert_eq!(resume_seek_ticks(Some(1)), Some(1));
    assert_eq!(resume_seek_ticks(Some(600_000_000)), Some(600_000_000));
}

#[test]
fn idle_status_has_no_now_playing() {
    let s = PlayerStatus::idle("http://x".into(), "tomas".into());
    assert!(s.now_playing.is_none());
    assert_eq!(s.username, "tomas");
}

fn listing(ids: &[&str]) -> Json {
    let items = ids
        .iter()
        .map(|id| Json::Object(vec![("Id".to_string(), Json::Str(id.to_string()))]))
        .collect();
    Json::Object(vec![("Items".to_string(), Json::Array(items))])
}

fn strings(ids: &[&str]) -> Vec<String> {
    ids.iter().map(|s| s.to_string()).collect()
}

#[test]
fn only_an_episode_of_a_series_wants_a_listing() {
    assert!(wants_series_listing(Some("Episode"), Some("s")));
    assert!(!wants_series_listing(Some("Movie"), Some("s")));
    assert!(!wants_series_listing(Some("Episode"), None));
    assert!(!wants_series_listing(None, Some("s")));
}

#[test]
fn a_series_expansion_appends_the_rest_and_prepends_what_the_queue_lacks() {
    let l = listing(&["e1", "e2", "e3", "e4", "e5"]);
    let x = plan_series_expansion(&l, "e3", None, None, &strings(&["e2", "e3"])).unwrap();
    assert_eq!(x.append, strings(&["e4", "e5"]));
    assert_eq!(x.prepend, strings(&["e1"]));
}

#[test]
fn a_series_expansion_fails_closed_when_the_current_episode_is_missing() {
    let l = listing(&["e1", "e2"]);
    assert_eq!(plan_series_expansion(&l, "special", None, None, &strings(&["special"])), None);
}

#[test]
fn skip_reasons_keep_each_side_of_the_expansion_empty() {
    let l = listing(&["e1", "e2", "e3"]);
    let x = plan_series_expansion(&l, "e2", Some("queue given"), None, &strings(&["e2"])).unwrap();
    assert!(x.append.is_empty());
    assert_eq!(x.prepend, strings(&["e1"]));
    let x = plan_series_expansion(&l, "e2", None, Some("disabled"), &strings(&["e2"])).unwrap();
    assert_eq!(x.append, strings(&["e3"]));
    assert!(x.prepend.is_empty());
}

#[test]
fn stub_rows_use_cached_titles_and_never_put_the_token_in_a_title() {
    let titles = vec![("a".to_string(), "Pilot".to_string())];
    let rows = playlist_stub_entries("http://h", &strings(&["a", "b"]), &titles, Some("tok"));
    assert_eq!(rows.len(), 2);
    assert_eq!(rows[0].0, "Pilot");
    assert!(rows[0].1.contains("ApiKey=tok"));
    assert!(!rows[1].0.contains("tok"));
    assert!(rows[1].1.contains("/Videos/b/stream"));
}

fn maps() -> StreamMaps {
    let mut m = StreamMaps::default();
    m.audio_track_id_by_stream_index.insert(1, 1);
    m.audio_stream_index_by_track_id.insert(1, 1);
    m.subtitle_track_id_by_stream_index.insert(3, 1);
    m.subtitle_stream_index_by_track_id.insert(1, 3);
    m
}

#[test]
fn an_external_subtitle_is_found_before_the_embedded_numbering() {
    let m = maps();
    let mut ext = HashMap::new();
    ext.insert(7, 2);
    assert_eq!(mpv_track_id_for(Some(&m), &ext, TrackKind::Subtitle, 7), Some(2));
    assert_eq!(mpv_track_id_for(Some(&m), &ext, TrackKind::Subtitle, 3), Some(1));
    assert_eq!(mpv_track_id_for(Some(&m), &ext, TrackKind::Audio, 7), None);
    assert_eq!(mpv_track_id_for(None, &ext, TrackKind::Audio, 1), None);
    assert_eq!(jellyfin_index_of(Some(&m), &ext, TrackKind::Subtitle, 2), Some(7));
    assert_eq!(jellyfin_index_of(Some(&m), &ext, TrackKind::Subtitle, 1), Some(3));
    assert_eq!(jellyfin_index_of(Some(&m), &ext, TrackKind::Audio, 9), None);
}

#[test]
fn a_track_change_is_judged_against_the_settled_choice() {
    let m = maps();
    let ext = HashMap::new();
    let settled = SelectedTrack::Id(1);
    let judge = |t: bool, s: Option<SelectedTrack>| {
        track_adoption(t, false, Some(&m), &ext, TrackKind::Subtitle, s, settled)
    };
    assert_eq!(judge(true, Some(SelectedTrack::Off)), TrackAdoption::Ignore);
    assert_eq!(judge(false, None), TrackAdoption::Ignore);
    assert_eq!(judge(false, Some(SelectedTrack::Id(1))), TrackAdoption::Ignore);
    assert_eq!(judge(false, Some(SelectedTrack::Unresolved)), TrackAdoption::Ignore);
    assert_eq!(
        judge(false, Some(SelectedTrack::Off)),
        TrackAdoption::Report { jellyfin_index: -1 }
    );
    assert_eq!(judge(false, Some(SelectedTrack::Id(5))), TrackAdoption::Settle);
    let audio = track_adoption(
        false,
        false,
        Some(&m),
        &ext,
        TrackKind::Audio,
        Some(SelectedTrack::Id(1)),
        SelectedTrack::Off,
    );
    assert_eq!(audio, TrackAdoption::Report { jellyfin_index: 1 });
}

#[test]
fn applying_a_stream_index_picks_the_mpv_track() {
    let m = maps();
    let ext = HashMap::new();
    assert_eq!(track_apply(false, Some(&m), &ext, TrackKind::Audio, 1), TrackApply::Nothing);
    assert_eq!(track_apply(true, Some(&m), &ext, TrackKind::Audio, -1), TrackApply::Disable);
    assert_eq!(
        track_apply(true, Some(&m), &ext, TrackKind::Subtitle, 3),
        TrackApply::Select { track_id: 1 }
    );
    assert_eq!(track_apply(true, Some(&m), &ext, TrackKind::Audio, 4), TrackApply::Unmapped);
}

#[test]
fn a_snapshot_reports_missing_stream_choices_as_minus_one() {
    let prep = PreparedPlay {
        url: "u".into(),
        media_source_id: "m".into(),
        play_session_id: "p".into(),
        live_stream_id: None,
        maps: StreamMaps::default(),
        audio_stream_index: Some(2),
        subtitle_stream_index: None,
        uses_auth_header: false,
        external_sub_urls: vec![],
        title: "t".into(),
    };
    let id = "i".to_string();
    assert!(snapshot(None, Some(&id), 0, false, false, 100, &vec![]).is_none());
    assert!(snapshot(Some(&prep), None, 0, false, false, 100, &vec![]).is_none());
    let s = snapshot(Some(&prep), Some(&id), 5, true, false, 40, &strings(&["i", "j"])).unwrap();
    assert_eq!(s.item_id, "i");
    assert_eq!(s.media_source_id, "m");
    assert_eq!(s.audio_stream_index, 2);
    assert_eq!(s.subtitle_stream_index, -1);
    assert_eq!(s.position_ticks, 5);
    assert!(s.is_paused);
    assert!(s.can_seek);
    assert_eq!(s.now_playing_queue.len(), 2);
}

fn api() -> jellysink::jellyfin::ApiIdentity {
    jellysink::jellyfin::ApiIdentity::from_credentials(
        &jellysink::config::Credentials {
            server: "http://h/".into(),
            username: "u".into(),
            user_id: "uid".into(),
            access_token: "t k".into(),
            device_id: "d".into(),
        },
        "host",
    )
}

fn prepared(url: &str, uses_auth_header: bool) -> PreparedPlay {
    PreparedPlay {
        url: url.into(),
        media_source_id: "m".into(),
        play_session_id: "p".into(),
        live_stream_id: Some("l".into()),
        maps: StreamMaps::default(),
        audio_stream_index: None,
        subtitle_stream_index: None,
        uses_auth_header,
        external_sub_urls: vec![],
        title: "t".into(),
    }
}

#[test]
fn a_url_without_a_token_gets_one_and_one_with_a_token_is_kept() {
    let bare = prepared("http://h/Videos/i/stream?static=true&MediaSourceId=m", true);
    assert_eq!(
        stream_url_with_token(&api(), "i", &bare),
        "http://h/Videos/i/stream?static=true&MediaSourceId=m&LiveStreamId=l&ApiKey=t%20k"
    );
    let tokened = prepared("http://h/x?ApiKey=old", false);
    assert_eq!(stream_url_with_token(&api(), "i", &tokened), "http://h/x?ApiKey=old");
    assert_eq!(playback_url(&api(), &bare, "i", true), bare.url);
    assert!(playback_url(&api(), &bare, "i", false).contains("ApiKey="));
    assert!(wants_auth_header(false, &bare));
    assert!(!wants_auth_header(true, &bare));
    assert!(!wants_auth_header(false, &tokened));
}

#[test]
fn volume_stays_within_mpv_range() {
    assert_eq!(set_volume_level(150), 100);
    assert_eq!(set_volume_level(-3), 0);
    assert_eq!(set_volume_level(42), 42);
    assert_eq!(bumped_volume(98, 5), 100);
    assert_eq!(bumped_volume(3, -5), 0);
    assert_eq!(bumped_volume(50, 5), 55);
    assert_eq!(bumped_volume(i64::MAX, i64::MAX), 100);
}

#[test]
fn the_status_shows_the_current_play_and_its_place_in_the_queue() {
    let mut w = PlaylistWindow::default();
    w.replace(strings(&["a", "b", "c"]), 1);
    let prep = prepared("u", false);
    let id = "b".to_string();
    let s = jellysink::runtime::player_status("http://x", "tomas", Some(&prep), Some(&id), 7, true, false, 30, &w);
    assert_eq!(s.server, "http://x");
    let np = s.now_playing.unwrap();
    assert_eq!(np.item_id, "b");
    assert_eq!(np.title, "t");
    assert_eq!((np.queue_index, np.queue_len), (1, 3));
    assert!(np.has_next && np.has_previous && np.is_paused);
    assert_eq!(np.position_ticks, 7);
    let idle = jellysink::runtime::player_status("http://x", "tomas", None, Some(&id), 0, false, false, 100, &w);
    assert!(idle.now_playing.is_none());
}
