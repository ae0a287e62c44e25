use jellysink::json::{json_as_array, json_get, Json};
use jellysink::profile::{capabilities, device_profile};

fn check_direct_play_profiles() {
    let p = device_profile();
    for entry in json_as_array(json_get(&p, "DirectPlayProfiles").unwrap()).unwrap() {
        assert!(json_get(entry, "Container").is_none());
        assert!(json_get(entry, "VideoCodec").is_none());
        assert!(json_get(entry, "AudioCodec").is_none());
    }
}

#[test]
fn profile_direct_play_profiles_have_no_codec_list() {
    check_direct_play_profiles();
}

#[test]
fn profile_test_direct_play_profiles_have_no_codec_list() {
    check_direct_play_profiles();
}

#[test]
fn bitrate_cap_is_high() {
    let p = device_profile();
    assert_eq!(json_get(&p, "MaxStreamingBitrate"), Some(&Json::Int(1_200_000_000)));
}

#[test]
fn capabilities_support_media_control_and_video() {
    let c = capabilities();
    assert_eq!(json_get(&c, "SupportsMediaControl"), Some(&Json::Bool(true)));
    let types = json_as_array(json_get(&c, "PlayableMediaTypes").unwrap()).unwrap();
    assert!(types.contains(&Json::Str("Video".to_string())));
}
