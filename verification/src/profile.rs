//! What jellysink tells the server it can do: the session capabilities and
//! the DirectPlay device profile.
use crate::json::Json;
use crate::text::owned;
use vstd::prelude::*;

verus! {

/// `v` is the string `s`.
pub open spec fn is_text(v: Json, s: Seq<char>) -> bool {
    v matches Json::Str(t) && t@ == s
}

/// `v` is an array of the strings `names`, in order.
pub open spec fn is_text_list(v: Json, names: Seq<Seq<char>>) -> bool {
    &&& v matches Json::Array(items)
    &&& items@.len() == names.len()
    &&& forall|i: int| 0 <= i < names.len() ==> #[trigger] is_text(items@[i], names[i])
}

/// `v` is an object whose members have the names `keys`, in order.
pub open spec fn has_keys(v: Json, keys: Seq<Seq<char>>) -> bool {
    &&& v matches Json::Object(fields)
    &&& fields@.len() == keys.len()
    &&& forall|i: int| 0 <= i < keys.len() ==> #[trigger] fields@[i].0@ == keys[i]
}

/// The value of the `i`-th member of an object.
pub open spec fn member(v: Json, i: int) -> Json {
    match v {
        Json::Object(fields) => fields@[i].1,
        _ => Json::Null,
    }
}

/// The `i`-th element of an array.
pub open spec fn element(v: Json, i: int) -> Json {
    match v {
        Json::Array(items) => items@[i],
        _ => Json::Null,
    }
}

fn text(s: &str) -> (r: Json)
    ensures
        is_text(r, s@),
{
    Json::Str(owned(s))
}

fn text_list(names: &[&str]) -> (r: Json)
    ensures
        r matches Json::Array(items) && items@.len() == names@.len() && forall|i: int|
            0 <= i < names@.len() ==> #[trigger] is_text(items@[i], names@[i]@),
{
    let mut items: Vec<Json> = Vec::new();
    let mut i: usize = 0;
    while i < names.len()
        invariant
            i <= names@.len(),
            items@.len() == i,
            forall|j: int| 0 <= j < i ==> #[trigger] is_text(items@[j], names@[j]@),
        decreases names@.len() - i,
    {
        items.push(text(names[i]));
        i = i + 1;
    }
    Json::Array(items)
}

/// The commands the session answers.
pub open spec fn supported_commands() -> Seq<Seq<char>> {
    seq![
        "ToggleFullscreen"@,
        "VolumeUp"@,
        "VolumeDown"@,
        "ToggleMute"@,
        "SetAudioStreamIndex"@,
        "SetSubtitleStreamIndex"@,
        "Mute"@,
        "Unmute"@,
        "SetVolume"@,
        "Play"@,
        "Playstate"@,
        "PlayNext"@,
        "PlayMediaSource"@,
    ]
}

/// The session capabilities: video, remote control, a persistent device,
/// and the commands of [`supported_commands`].
pub fn capabilities() -> (r: Json)
    ensures
        has_keys(
            r,
            seq![
                "PlayableMediaTypes"@,
                "SupportsMediaControl"@,
                "SupportsPersistentIdentifier"@,
                "SupportedCommands"@,
            ],
        ),
        is_text_list(member(r, 0), seq!["Video"@]),
        member(r, 1) == Json::Bool(true),
        member(r, 2) == Json::Bool(true),
        is_text_list(member(r, 3), supported_commands()),
{
    let mut f: Vec<(String, Json)> = Vec::new();
    f.push((owned("PlayableMediaTypes"), text_list(&["Video"])));
    f.push((owned("SupportsMediaControl"), Json::Bool(true)));
    f.push((owned("SupportsPersistentIdentifier"), Json::Bool(true)));
    f.push(
        (
            owned("SupportedCommands"),
            text_list(
                &[
                    "ToggleFullscreen",
                    "VolumeUp",
                    "VolumeDown",
                    "ToggleMute",
                    "SetAudioStreamIndex",
                    "SetSubtitleStreamIndex",
                    "Mute",
                    "Unmute",
                    "SetVolume",
                    "Play",
                    "Playstate",
                    "PlayNext",
                    "PlayMediaSource",
                ],
            ),
        ),
    );
    proof {
        reveal_strlit("PlayableMediaTypes");
        reveal_strlit("SupportsMediaControl");
        reveal_strlit("SupportsPersistentIdentifier");
        reveal_strlit("SupportedCommands");
    }
    let r = Json::Object(f);
    assert(is_text_list(member(r, 3), supported_commands()));
    r
}

fn type_only(kind: &str) -> (r: Json)
    ensures
        has_keys(r, seq!["Type"@]),
        is_text(member(r, 0), kind@),
{
    let mut f: Vec<(String, Json)> = Vec::new();
    f.push((owned("Type"), text(kind)));
    proof {
        reveal_strlit("Type");
    }
    Json::Object(f)
}

fn subtitle_profile(format: &str, method: &str) -> (r: Json)
    ensures
        has_keys(r, seq!["Format"@, "Method"@]),
        is_text(member(r, 0), format@),
        is_text(member(r, 1), method@),
{
    let mut f: Vec<(String, Json)> = Vec::new();
    f.push((owned("Format"), text(format)));
    f.push((owned("Method"), text(method)));
    proof {
        reveal_strlit("Format");
        reveal_strlit("Method");
    }
    Json::Object(f)
}

/// The subtitle formats and how each may be delivered.
pub open spec fn subtitle_profiles() -> Seq<(Seq<char>, Seq<char>)> {
    seq![
        ("srt"@, "External"@),
        ("srt"@, "Embed"@),
        ("ass"@, "External"@),
        ("ass"@, "Embed"@),
        ("sub"@, "Embed"@),
        ("sub"@, "External"@),
        ("ssa"@, "Embed"@),
        ("ssa"@, "External"@),
        ("smi"@, "Embed"@),
        ("smi"@, "External"@),
        ("pgssub"@, "Embed"@),
        ("dvdsub"@, "Embed"@),
        ("dvbsub"@, "Embed"@),
        ("pgs"@, "Embed"@),
    ]
}

fn subtitle_profile_list() -> (r: Json)
    ensures
        r matches Json::Array(items) && items@.len() == 14 && forall|i: int|
            0 <= i < 14 ==> has_keys(#[trigger] items@[i], seq!["Format"@, "Method"@]) && is_text(
                member(items@[i], 0),
                subtitle_profiles()[i].0,
            ) && is_text(member(items@[i], 1), subtitle_profiles()[i].1),
{
    let formats = ["srt", "srt", "ass", "ass", "sub", "sub", "ssa", "ssa", "smi", "smi", "pgssub", "dvdsub", "dvbsub", "pgs"];
    let methods = ["External", "Embed", "External", "Embed", "Embed", "External", "Embed", "External", "Embed", "External", "Embed", "Embed", "Embed", "Embed"];
    let mut items: Vec<Json> = Vec::new();
    let mut i: usize = 0;
    while i < 14
        invariant
            i <= 14,
            formats@ == seq!["srt", "srt", "ass", "ass", "sub", "sub", "ssa", "ssa", "smi", "smi", "pgssub", "dvdsub", "dvbsub", "pgs"],
            methods@ == seq!["External", "Embed", "External", "Embed", "Embed", "External", "Embed", "External", "Embed", "External", "Embed", "Embed", "Embed", "Embed"],
            items@.len() == i,
            forall|j: int|
                0 <= j < i ==> has_keys(#[trigger] items@[j], seq!["Format"@, "Method"@]) && is_text(
                    member(items@[j], 0),
                    formats@[j]@,
                ) && is_text(member(items@[j], 1), methods@[j]@),
        decreases 14 - i,
    {
        items.push(subtitle_profile(formats[i], methods[i]));
        i = i + 1;
    }
    proof {
        reveal_strlit("srt");
        reveal_strlit("ass");
        reveal_strlit("sub");
        reveal_strlit("ssa");
        reveal_strlit("smi");
        reveal_strlit("pgssub");
        reveal_strlit("dvdsub");
        reveal_strlit("dvbsub");
        reveal_strlit("pgs");
        reveal_strlit("External");
        reveal_strlit("Embed");
    }
    Json::Array(items)
}

/// The members of the device profile, in order.
pub open spec fn profile_keys() -> Seq<Seq<char>> {
    seq![
        "Name"@,
        "MaxStreamingBitrate"@,
        "MaxStaticBitrate"@,
        "MusicStreamingTranscodingBitrate"@,
        "TimelineOffsetSeconds"@,
        "DirectPlayProfiles"@,
        "TranscodingProfiles"@,
        "ResponseProfiles"@,
        "ContainerProfiles"@,
        "CodecProfiles"@,
        "SubtitleProfiles"@,
    ]
}

/// The keys of the video transcoding profile, in order.
pub open spec fn hls_profile_keys() -> Seq<Seq<char>> {
    seq!["Container"@, "Type"@, "Protocol"@, "AudioCodec"@, "VideoCodec"@, "MaxAudioChannels"@]
}

fn hls_profile() -> (r: Json)
    ensures
        has_keys(r, hls_profile_keys()),
        is_text(member(r, 0), "ts"@),
        is_text(member(r, 1), "Video"@),
        is_text(member(r, 2), "hls"@),
        is_text(member(r, 3), "aac,mp3,ac3,opus,flac,vorbis"@),
        is_text(member(r, 4), "h264,h265,hevc,mpeg4,mpeg2video"@),
        is_text(member(r, 5), "8"@),
{
    let mut f: Vec<(String, Json)> = Vec::new();
    f.push((owned("Container"), text("ts")));
    f.push((owned("Type"), text("Video")));
    f.push((owned("Protocol"), text("hls")));
    f.push((owned("AudioCodec"), text("aac,mp3,ac3,opus,flac,vorbis")));
    f.push((owned("VideoCodec"), text("h264,h265,hevc,mpeg4,mpeg2video")));
    f.push((owned("MaxAudioChannels"), text("8")));
    proof {
        reveal_strlit("Container");
        reveal_strlit("Type");
        reveal_strlit("Protocol");
        reveal_strlit("AudioCodec");
        reveal_strlit("VideoCodec");
        reveal_strlit("MaxAudioChannels");
    }
    let r = Json::Object(f);
    assert(has_keys(r, hls_profile_keys()));
    r
}

/// `r` is the device profile [`device_profile`] builds.
pub open spec fn is_device_profile(r: Json) -> bool {
    &&& has_keys(r, profile_keys())
    &&& is_text(member(r, 0), "jellysink"@)
    &&& member(r, 1) == Json::Int(1_200_000_000)
    &&& member(r, 2) == Json::Int(1_200_000_000)
    &&& member(r, 3) == Json::Int(1_280_000)
    &&& member(r, 4) == Json::Int(5)
    &&& member(r, 5) matches Json::Array(d) && d@.len() == 2
    &&& has_keys(element(member(r, 5), 0), seq!["Type"@])
    &&& is_text(member(element(member(r, 5), 0), 0), "Video"@)
    &&& has_keys(element(member(r, 5), 1), seq!["Type"@])
    &&& is_text(member(element(member(r, 5), 1), 0), "Audio"@)
    &&& member(r, 6) matches Json::Array(t) && t@.len() == 2
    &&& has_keys(element(member(r, 6), 0), seq!["Type"@])
    &&& is_text(member(element(member(r, 6), 0), 0), "Audio"@)
    &&& has_keys(element(member(r, 6), 1), hls_profile_keys())
    &&& is_text(member(element(member(r, 6), 1), 0), "ts"@)
    &&& is_text(member(element(member(r, 6), 1), 1), "Video"@)
    &&& is_text(member(element(member(r, 6), 1), 2), "hls"@)
    &&& is_text(member(element(member(r, 6), 1), 3), "aac,mp3,ac3,opus,flac,vorbis"@)
    &&& is_text(member(element(member(r, 6), 1), 4), "h264,h265,hevc,mpeg4,mpeg2video"@)
    &&& is_text(member(element(member(r, 6), 1), 5), "8"@)
    &&& member(r, 7) matches Json::Array(a) && a@.len() == 0
    &&& member(r, 8) matches Json::Array(b) && b@.len() == 0
    &&& member(r, 9) matches Json::Array(c) && c@.len() == 0
    &&& member(r, 10) matches Json::Array(items) && items@.len() == 14 && forall|i: int|
        0 <= i < 14 ==> has_keys(#[trigger] items@[i], seq!["Format"@, "Method"@]) && is_text(
            member(items@[i], 0),
            subtitle_profiles()[i].0,
        ) && is_text(member(items@[i], 1), subtitle_profiles()[i].1)
}

/// A permissive DirectPlay profile: any container and codec plays directly
/// (the DirectPlay profiles carry no lists), streaming is capped only at
/// 1.2 Gbps, and transcoding profiles are there to satisfy the server, which
/// jellysink never asks to transcode.
pub fn device_profile() -> (r: Json)
    ensures
        is_device_profile(r),
{
    let mut direct: Vec<Json> = Vec::new();
    direct.push(type_only("Video"));
    direct.push(type_only("Audio"));
    let mut transcoding: Vec<Json> = Vec::new();
    transcoding.push(type_only("Audio"));
    transcoding.push(hls_profile());
    let mut f: Vec<(String, Json)> = Vec::new();
    f.push((owned("Name"), text("jellysink")));
    f.push((owned("MaxStreamingBitrate"), Json::Int(1_200_000_000)));
    f.push((owned("MaxStaticBitrate"), Json::Int(1_200_000_000)));
    f.push((owned("MusicStreamingTranscodingBitrate"), Json::Int(1_280_000)));
    f.push((owned("TimelineOffsetSeconds"), Json::Int(5)));
    f.push((owned("DirectPlayProfiles"), Json::Array(direct)));
    f.push((owned("TranscodingProfiles"), Json::Array(transcoding)));
    f.push((owned("ResponseProfiles"), Json::Array(Vec::new())));
    f.push((owned("ContainerProfiles"), Json::Array(Vec::new())));
    f.push((owned("CodecProfiles"), Json::Array(Vec::new())));
    f.push((owned("SubtitleProfiles"), subtitle_profile_list()));
    proof {
        reveal_strlit("Name");
        reveal_strlit("MaxStreamingBitrate");
        reveal_strlit("MaxStaticBitrate");
        reveal_strlit("MusicStreamingTranscodingBitrate");
        reveal_strlit("TimelineOffsetSeconds");
        reveal_strlit("DirectPlayProfiles");
        reveal_strlit("TranscodingProfiles");
        reveal_strlit("ResponseProfiles");
        reveal_strlit("ContainerProfiles");
        reveal_strlit("CodecProfiles");
        reveal_strlit("SubtitleProfiles");
    }
    let r = Json::Object(f);
    assert(has_keys(r, profile_keys()));
    r
}

} // verus!
