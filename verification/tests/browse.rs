use jellysink::browse::{
    episodes_path, item_paths, playback_info_body, playback_info_path, ItemQuery, EPISODE_LIMIT,
};
use jellysink::json::{json_get, Json};
use jellysink::media::PlayRequest;

#[test]
fn a_folder_query_sorts_by_name() {
    let q = ItemQuery::in_folder("f 1").to_query("u");
    assert_eq!(
        q,
        "userId=u&Fields=Overview,ProductionYear&Recursive=false&ParentId=f%201&SortBy=SortName"
    );
}

#[test]
fn a_search_is_recursive_and_pages() {
    let q = ItemQuery::search("a&b").with_types("Movie,Series").page(20, 10).to_query("u");
    assert_eq!(
        q,
        "userId=u&Fields=Overview,ProductionYear&Recursive=true&searchTerm=a%26b\
         &IncludeItemTypes=Movie%2CSeries&StartIndex=20&Limit=10"
    );
}

#[test]
fn paths_name_the_item_and_encode_the_user() {
    assert_eq!(playback_info_path("i", "u+1"), "/Items/i/PlaybackInfo?UserId=u%2B1");
    assert_eq!(
        episodes_path("s", Some("x"), EPISODE_LIMIT, "u"),
        "/Shows/s/Episodes?userId=u&Limit=500&seasonId=x"
    );
    assert_eq!(episodes_path("s", None, 5, "u"), "/Shows/s/Episodes?userId=u&Limit=5");
    let (a, b) = item_paths("i", "u");
    assert_eq!(a, "/Items/i?userId=u");
    assert_eq!(b, "/Users/u/Items/i");
}

#[test]
fn the_playback_body_carries_the_choices_made() {
    let req = PlayRequest {
        start_ticks: Some(10),
        audio_stream_index: Some(2),
        ..Default::default()
    };
    let body = playback_info_body("u", &req);
    assert_eq!(json_get(&body, "UserId"), Some(&Json::Str("u".to_string())));
    assert_eq!(json_get(&body, "StartTimeTicks"), Some(&Json::Int(10)));
    assert_eq!(json_get(&body, "AudioStreamIndex"), Some(&Json::Int(2)));
    assert_eq!(json_get(&body, "SubtitleStreamIndex"), None);
    assert_eq!(json_get(&body, "MaxStreamingBitrate"), Some(&Json::Int(1_200_000_000)));
    assert!(json_get(&body, "DeviceProfile").is_some());
}
