use jellysink::cast::CastEvent;
use jellysink::mpris::{
    controls, playback_status, position, seek_event, set_position_event, track_id,
    volume_percent,
};
use jellysink::runtime::{NowPlaying, PlayerStatus};

fn playing_status(paused: bool, has_next: bool, has_previous: bool) -> PlayerStatus {
    PlayerStatus {
        server: "http://x".into(),
        username: "tomas".into(),
        now_playing: Some(NowPlaying {
            item_id: "item-1".into(),
            title: "Ep 1".into(),
            position_ticks: 1_200_000_000,
            is_paused: paused,
            is_muted: false,
            volume: 80,
            has_next,
            has_previous,
            queue_index: 2,
            queue_len: 5,
        }),
    }
}

fn idle_status() -> PlayerStatus {
    PlayerStatus::idle("http://x".into(), "tomas".into())
}

#[test]
fn track_id_sanitizes_hyphens_and_is_stable() {
    let id = track_id("ab12-cd34-ef56");
    assert_eq!(id.as_str(), "/org/jellysink/track/ab12_cd34_ef56");
    assert_eq!(id, track_id("ab12-cd34-ef56"));
    assert_ne!(id, track_id("other-item"));
}

#[test]
fn playback_status_reflects_playing_paused_and_stopped() {
    assert_eq!(playback_status(&playing_status(false, true, true)), "Playing");
    assert_eq!(playback_status(&playing_status(true, true, true)), "Paused");
    assert_eq!(playback_status(&idle_status()), "Stopped");
}

#[test]
fn can_go_next_and_previous_follow_the_queue_flags() {
    let c = controls(&playing_status(false, true, false));
    assert!(c.can_go_next);
    assert!(!c.can_go_previous);

    let c = controls(&playing_status(false, false, true));
    assert!(!c.can_go_next);
    assert!(c.can_go_previous);
}

#[test]
fn can_play_pause_seek_are_false_when_idle() {
    let c = controls(&idle_status());
    assert!(!c.can_play);
    assert!(!c.can_pause);
    assert!(!c.can_seek);
}

#[test]
fn volume_and_position_convert_units() {
    let status = playing_status(false, true, true);
    assert_eq!(volume_percent(&status) as f64 / 100.0, 0.8);
    assert_eq!(position(&status), 120_000_000); // ticks / 10 = microseconds
}

#[test]
fn seek_adds_a_relative_microsecond_offset_to_the_absolute_position() {
    // position_ticks = 1_200_000_000 (120s); seek back 10s = -10_000_000us.
    assert_eq!(
        seek_event(&playing_status(false, true, true), -10_000_000),
        Some(CastEvent::Seek {
            ticks: 1_100_000_000
        })
    );
}

#[test]
fn seek_never_goes_negative() {
    assert_eq!(
        seek_event(&playing_status(false, true, true), -1_000_000_000_000),
        Some(CastEvent::Seek { ticks: 0 })
    );
}

#[test]
fn set_position_is_a_no_op_for_a_track_id_that_is_not_the_current_one() {
    let status = playing_status(false, true, true);
    assert_eq!(
        set_position_event(&status, &track_id("some-other-item"), 5_000_000),
        None
    );
}

#[test]
fn set_position_seeks_when_the_track_id_matches_the_current_item() {
    let status = playing_status(false, true, true);
    assert_eq!(
        set_position_event(&status, &track_id("item-1"), 5_000_000),
        Some(CastEvent::Seek { ticks: 50_000_000 })
    );
}

#[test]
fn idle_has_no_position_full_volume_and_no_seek() {
    let idle = idle_status();
    assert_eq!(position(&idle), 0);
    assert_eq!(volume_percent(&idle), 100);
    assert_eq!(seek_event(&idle, 5), None);
    assert_eq!(set_position_event(&idle, &track_id("item-1"), 5), None);
}

#[test]
fn a_huge_seek_saturates_instead_of_wrapping() {
    assert_eq!(
        seek_event(&playing_status(false, true, true), i64::MAX),
        Some(CastEvent::Seek { ticks: i64::MAX })
    );
}

#[test]
fn a_negative_position_seeks_to_the_start() {
    let status = playing_status(false, true, true);
    assert_eq!(
        set_position_event(&status, &track_id("item-1"), -3),
        Some(CastEvent::Seek { ticks: 0 })
    );
}
