use jellysink::track::{
    best_match, resolve_audio_index, resolve_subtitle_index, TrackId, TrackPreference,
};

fn track(index: i64, language: &str, title: &str) -> TrackId {
    TrackId {
        index,
        language: Some(language.to_string()),
        title: Some(title.to_string()),
        ..Default::default()
    }
}

fn sub(index: i64, language: &str, title: &str) -> TrackId {
    track(index, language, title)
}

fn signs_and_dialogue(signs: i64, dialogue: i64) -> Vec<TrackId> {
    vec![
        track(signs, "eng", "Signs and Songs"),
        track(dialogue, "eng", "Dialogue"),
    ]
}

#[test]
fn the_right_language_outranks_the_right_track_name_in_the_wrong_language() {
    let wanted = track(2, "eng", "Signs");
    let candidates = vec![track(2, "spa", "Signs"), track(3, "eng", "Dialogue")];
    assert_eq!(best_match(&wanted, &candidates).map(|c| c.index), Some(3));
}

#[test]
fn the_display_title_matches_when_the_provider_supplies_no_track_title() {
    let named_only_by_display = |index: i64, display: &str| TrackId {
        index,
        language: Some("eng".into()),
        display_title: Some(display.into()),
        ..Default::default()
    };
    let wanted = named_only_by_display(1, "English - Dialogue - SRT");
    let candidates = vec![
        named_only_by_display(4, "English - Signs and Songs - ASS"),
        named_only_by_display(5, "English - Dialogue - SRT"),
    ];
    assert_eq!(best_match(&wanted, &candidates).map(|c| c.index), Some(5));
}

#[test]
fn the_forced_flag_breaks_a_tie_between_two_tracks_of_the_same_language() {
    let unnamed = |index: i64, is_forced: bool| TrackId {
        index,
        language: Some("eng".into()),
        is_forced,
        ..Default::default()
    };
    let wanted = unnamed(2, false);
    let candidates = vec![unnamed(4, true), unnamed(5, false)];
    assert_eq!(best_match(&wanted, &candidates).map(|c| c.index), Some(5));
}

#[test]
fn a_track_renamed_by_another_provider_still_matches_on_language() {
    let wanted = track(2, "eng", "Dialogue");
    let candidates = vec![track(7, "jpn", "Full"), track(8, "eng", "Full Subtitles")];
    assert_eq!(best_match(&wanted, &candidates).map(|c| c.index), Some(8));
}

#[test]
fn matching_ignores_case_and_surrounding_whitespace() {
    let wanted = track(1, "ENG", "  Dialogue ");
    let candidates = vec![track(4, "eng", "dialogue")];
    assert_eq!(best_match(&wanted, &candidates).map(|c| c.index), Some(4));
}

#[test]
fn an_empty_or_undefined_language_is_not_a_language_match() {
    for language in ["", "und", "  "] {
        let wanted = TrackId {
            index: 1,
            language: Some(language.into()),
            ..Default::default()
        };
        let candidates = vec![TrackId {
            index: 2,
            language: Some(language.into()),
            ..Default::default()
        }];
        assert!(
            best_match(&wanted, &candidates).is_none(),
            "{language:?} should carry no identity"
        );
    }
}

#[test]
fn flags_only_agreement_never_makes_an_unrelated_track_eligible() {
    let wanted = track(1, "eng", "Dialogue");
    let candidates = vec![track(1, "jpn", "Signs")];
    assert!(best_match(&wanted, &candidates).is_none());
}

#[test]
fn a_stream_with_no_language_or_name_cannot_be_remembered() {
    let candidates = vec![TrackId {
        index: 3,
        ..Default::default()
    }];
    assert_eq!(TrackPreference::from_selection(&candidates, 3), None);
}

#[test]
fn an_index_the_item_cannot_select_cannot_be_remembered() {
    let candidates = signs_and_dialogue(2, 3);
    assert_eq!(TrackPreference::from_selection(&candidates, 9), None);
}

#[test]
fn a_selectable_named_stream_is_remembered_whole() {
    let candidates = signs_and_dialogue(2, 3);
    assert_eq!(
        TrackPreference::from_selection(&candidates, 3),
        Some(TrackPreference::Stream(track(3, "eng", "Dialogue")))
    );
}

#[test]
fn off_is_a_decision_even_when_the_item_has_no_such_streams_at_all() {
    assert_eq!(
        TrackPreference::from_selection(&[], -1),
        Some(TrackPreference::Off)
    );
}

#[test]
fn the_lowest_index_wins_between_two_indistinguishable_tracks() {
    let wanted = track(9, "eng", "Dialogue");
    let candidates = vec![track(5, "eng", "Dialogue"), track(4, "eng", "Dialogue")];
    assert_eq!(best_match(&wanted, &candidates).map(|c| c.index), Some(4));
}

#[test]
fn a_remembered_track_is_matched_by_language_and_name_not_by_index() {
    let wanted = TrackPreference::Stream(sub(2, "eng", "Dialogue"));
    let next = signs_and_dialogue(2, 3);
    assert_eq!(
        resolve_subtitle_index(None, Some(&wanted), &next, Some(2)),
        Some(3)
    );
}

#[test]
fn the_servers_signs_and_songs_default_loses_to_the_remembered_dialogue_track() {
    let wanted = TrackPreference::Stream(sub(3, "eng", "Dialogue"));
    let next = signs_and_dialogue(2, 3);
    assert_eq!(
        resolve_subtitle_index(None, Some(&wanted), &next, Some(2)),
        Some(3)
    );
}

#[test]
fn a_language_the_next_episode_does_not_have_falls_back_to_the_server_default() {
    let wanted = TrackPreference::Stream(sub(2, "ces", "Dialogue"));
    let candidates = vec![sub(1, "jpn", "Signs"), sub(2, "spa", "Completos")];
    assert_eq!(
        resolve_subtitle_index(None, Some(&wanted), &candidates, Some(1)),
        Some(1)
    );
}

#[test]
fn an_explicit_index_from_the_remote_beats_the_remembered_track() {
    let wanted = TrackPreference::Stream(sub(3, "eng", "Dialogue"));
    let candidates = signs_and_dialogue(2, 3);
    assert_eq!(
        resolve_subtitle_index(Some(2), Some(&wanted), &candidates, Some(3)),
        Some(2),
        "the remote just said what it wants for this item"
    );
}

#[test]
fn off_is_remembered_and_forces_minus_one_over_a_server_default() {
    let candidates = signs_and_dialogue(2, 3);
    assert_eq!(
        resolve_subtitle_index(None, Some(&TrackPreference::Off), &candidates, Some(2)),
        Some(-1)
    );
}

#[test]
fn off_still_resolves_when_the_next_episode_has_no_subtitles_at_all() {
    assert_eq!(
        TrackPreference::from_selection(&[], -1),
        Some(TrackPreference::Off)
    );
    assert_eq!(
        resolve_subtitle_index(None, Some(&TrackPreference::Off), &[], None),
        Some(-1)
    );
}

#[test]
fn no_preference_leaves_the_server_default_untouched() {
    let candidates = signs_and_dialogue(2, 3);
    assert_eq!(
        resolve_subtitle_index(None, None, &candidates, Some(2)),
        Some(2)
    );
    assert_eq!(resolve_subtitle_index(None, None, &candidates, None), None);
    assert_eq!(
        resolve_subtitle_index(None, None, &candidates, Some(-1)),
        Some(-1)
    );
}

// --- further cases -------------------------------------------------------------

#[test]
fn an_undefined_language_in_any_case_carries_no_identity() {
    let wanted = TrackId {
        index: 1,
        language: Some(" UNDEFINED ".into()),
        ..Default::default()
    };
    let candidates = vec![TrackId {
        index: 1,
        language: Some("undefined".into()),
        ..Default::default()
    }];
    assert!(best_match(&wanted, &candidates).is_none());
}

#[test]
fn equal_score_and_index_go_to_the_first_listed() {
    let wanted = track(1, "eng", "Dialogue");
    let first = track(7, "eng", "Dialogue");
    let mut second = track(7, "eng", "Dialogue");
    second.codec = Some("ass".into());
    let candidates = vec![first.clone(), second];
    assert_eq!(best_match(&wanted, &candidates), Some(&first));
}

#[test]
fn audio_resolution_follows_the_same_precedence() {
    let candidates = vec![track(1, "jpn", "Original"), track(2, "eng", "Dub")];
    let wanted = TrackPreference::Stream(track(5, "jpn", "Original"));
    assert_eq!(resolve_audio_index(None, Some(&wanted), &candidates, Some(2)), Some(1));
    assert_eq!(resolve_audio_index(Some(2), Some(&wanted), &candidates, Some(2)), Some(2));
}

#[test]
fn the_first_stream_with_an_index_is_the_one_remembered() {
    let candidates = vec![
        TrackId { index: 4, ..Default::default() },
        track(4, "eng", "Dialogue"),
    ];
    assert_eq!(TrackPreference::from_selection(&candidates, 4), None);
}

#[test]
fn a_remembered_choice_finds_itself_among_the_same_streams() {
    let cands = vec![
        track(2, "eng", "Signs and Songs"),
        track(3, "eng", "Dialogue"),
        track(4, "jpn", "Dialogue"),
    ];
    for picked in [2, 3, 4] {
        let pref = TrackPreference::from_selection(&cands, picked).unwrap();
        assert_eq!(resolve_subtitle_index(None, Some(&pref), &cands, Some(2)), Some(picked));
    }
    let off = TrackPreference::from_selection(&cands, -1).unwrap();
    assert_eq!(resolve_audio_index(None, Some(&off), &cands, Some(2)), Some(-1));
    assert_eq!(TrackPreference::from_selection(&cands, 9), None);
}
