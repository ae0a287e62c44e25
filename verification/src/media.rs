//! Turning a Jellyfin `PlaybackInfo` answer into what mpv plays: the stream
//! index maps, the source choice and the direct-play URL.
use crate::json::{get, get_bool, get_i64, get_str, json_as_array, json_get, json_get_bool, json_get_i64, json_get_str, Json};
use crate::cast::{id_views, opt_view};
use crate::track::{TrackId, TrackKind};
use crate::series::{contains_id, opt_str};
use crate::weburl::{opt_chars, parse_url, parsed_url, parts_view, UrlParts, UrlView};
use crate::text::{bool_string, bool_text, debug_quoted, debug_str, i64_decimal, owned, push_str, signed_decimal, starts_with, str_eq, trim_end_char, two_digit, two_digit_decimal};
use crate::jellyfin::{direct_stream_url, redact_api_key, redacted, stream_url, trim_end_matches};
use std::collections::HashMap;
use vstd::std_specs::hash::spec_hash_map_iter;
use vstd::std_specs::iter::IteratorSpec;
use vstd::utf8::encode_utf8;
use vstd::prelude::*;

verus! {

broadcast use vstd::std_specs::hash::group_hash_axioms;

/// Maps mpv audio and subtitle track ids to Jellyfin stream indexes and back.
#[derive(Debug, Clone, PartialEq, Eq)]
pub struct StreamMaps {
    /// mpv audio track id (`aid`) to Jellyfin stream index.
    pub audio_stream_index_by_track_id: HashMap<i64, i64>,
    /// Jellyfin stream index to mpv audio track id (`aid`).
    pub audio_track_id_by_stream_index: HashMap<i64, i64>,
    /// mpv subtitle track id (`sid`, embedded only) to Jellyfin stream index.
    pub subtitle_stream_index_by_track_id: HashMap<i64, i64>,
    /// Jellyfin stream index to mpv subtitle track id (`sid`, embedded only).
    pub subtitle_track_id_by_stream_index: HashMap<i64, i64>,
    /// Jellyfin stream index to the absolute `DeliveryUrl`.
    pub subtitle_url: HashMap<i64, String>,
}

/// The URL texts of a map of subtitle URLs.
pub open spec fn url_texts(m: Map<i64, String>) -> Map<i64, Seq<char>> {
    m.map_values(|u: String| u@)
}

impl StreamMaps {
    /// Five empty maps.
    pub fn new() -> (m: StreamMaps)
        ensures
            m.audio_stream_index_by_track_id@ == Map::<i64, i64>::empty(),
            m.audio_track_id_by_stream_index@ == Map::<i64, i64>::empty(),
            m.subtitle_stream_index_by_track_id@ == Map::<i64, i64>::empty(),
            m.subtitle_track_id_by_stream_index@ == Map::<i64, i64>::empty(),
            m.subtitle_url@ == Map::<i64, String>::empty(),
    {
        StreamMaps {
            audio_stream_index_by_track_id: HashMap::new(),
            audio_track_id_by_stream_index: HashMap::new(),
            subtitle_stream_index_by_track_id: HashMap::new(),
            subtitle_track_id_by_stream_index: HashMap::new(),
            subtitle_url: HashMap::new(),
        }
    }
}

impl Default for StreamMaps {
    fn default() -> (m: StreamMaps)
        ensures
            m.audio_stream_index_by_track_id@ == Map::<i64, i64>::empty(),
            m.audio_track_id_by_stream_index@ == Map::<i64, i64>::empty(),
            m.subtitle_stream_index_by_track_id@ == Map::<i64, i64>::empty(),
            m.subtitle_track_id_by_stream_index@ == Map::<i64, i64>::empty(),
            m.subtitle_url@ == Map::<i64, String>::empty(),
    {
        StreamMaps::new()
    }
}

/// The `MediaStreams` of a media source, or none when it has no such array.
pub open spec fn media_streams(source: Json) -> Seq<Json> {
    match get(source, "MediaStreams"@) {
        Some(Json::Array(v)) => v@,
        _ => Seq::empty(),
    }
}

/// `v[key]` is `true` (absent or not a boolean reads as `false`).
pub open spec fn is_flag(v: Json, key: Seq<char>) -> bool {
    get_bool(v, key) == Some(true)
}

/// A stream of the given `Type` that carries an `Index`.
pub open spec fn indexed_stream_of(s: Json, kind: Seq<char>) -> bool {
    get_str(s, "Type"@) == Some(kind) && get_i64(s, "Index"@) is Some
}

/// Audio numbering over `streams`: mpv has a track only for the audio
/// streams muxed into the file, and numbers them 1, 2, ... in order; an
/// external audio stream is never loaded, so it gets no id and leaves the
/// numbering alone. Yields the map by track id, the map by stream index, and
/// the next free id.
pub open spec fn audio_maps(streams: Seq<Json>) -> (Map<i64, i64>, Map<i64, i64>, int)
    decreases streams.len(),
{
    if streams.len() == 0 {
        (Map::empty(), Map::empty(), 1)
    } else {
        let (by_track, by_index, next) = audio_maps(streams.drop_last());
        let s = streams.last();
        if indexed_stream_of(s, "Audio"@) && !is_flag(s, "IsExternal"@) {
            let j = get_i64(s, "Index"@).unwrap();
            (by_track.insert(next as i64, j), by_index.insert(j, next as i64), next + 1)
        } else {
            (by_track, by_index, next)
        }
    }
}

/// Where mpv fetches an external subtitle: the `DeliveryUrl` itself when it
/// is an external URL, else that path on the server.
pub open spec fn subtitle_url_for(server: Seq<char>, s: Json, url: Seq<char>) -> Seq<char> {
    if is_flag(s, "IsExternalUrl"@) {
        url
    } else {
        trim_end_char(server, '/') + url
    }
}

/// Subtitle numbering over `streams`: every in-file subtitle takes the next
/// mpv id, embedded ones are mapped both ways, and external ones with a
/// `DeliveryUrl` get their absolute URL. Yields the two id maps, the URL map
/// and the next free id.
pub open spec fn subtitle_maps(server: Seq<char>, streams: Seq<Json>) -> (
    Map<i64, i64>,
    Map<i64, i64>,
    Map<i64, Seq<char>>,
    int,
)
    decreases streams.len(),
{
    if streams.len() == 0 {
        (Map::empty(), Map::empty(), Map::empty(), 1)
    } else {
        let (by_track, by_index, urls, next) = subtitle_maps(server, streams.drop_last());
        let s = streams.last();
        if indexed_stream_of(s, "Subtitle"@) {
            let j = get_i64(s, "Index"@).unwrap();
            let after = if is_flag(s, "IsExternal"@) {
                next
            } else {
                next + 1
            };
            let delivery = get_str(s, "DeliveryMethod"@);
            if delivery == Some("Embed"@) {
                (by_track.insert(next as i64, j), by_index.insert(j, next as i64), urls, after)
            } else if delivery == Some("External"@) && get_str(s, "DeliveryUrl"@) is Some {
                (
                    by_track,
                    by_index,
                    urls.insert(j, subtitle_url_for(server, s, get_str(s, "DeliveryUrl"@).unwrap())),
                    after,
                )
            } else {
                (by_track, by_index, urls, after)
            }
        } else {
            (by_track, by_index, urls, next)
        }
    }
}

proof fn lemma_audio_next_bounded(streams: Seq<Json>)
    ensures
        1 <= audio_maps(streams).2 <= streams.len() + 1,
    decreases streams.len(),
{
    if streams.len() > 0 {
        lemma_audio_next_bounded(streams.drop_last());
    }
}

proof fn lemma_subtitle_next_bounded(server: Seq<char>, streams: Seq<Json>)
    ensures
        1 <= subtitle_maps(server, streams).3 <= streams.len() + 1,
    decreases streams.len(),
{
    if streams.len() > 0 {
        lemma_subtitle_next_bounded(server, streams.drop_last());
    }
}

fn stream_is(s: &Json, kind: &str) -> (r: Option<i64>)
    ensures
        match r {
            Some(j) => indexed_stream_of(*s, kind@) && get_i64(*s, "Index"@) == Some(j),
            None => !indexed_stream_of(*s, kind@),
        },
{
    let is_kind = match json_get_str(s, "Type") {
        Some(t) => str_eq(t.as_str(), kind),
        None => false,
    };
    if is_kind {
        json_get_i64(s, "Index")
    } else {
        None
    }
}

fn flag(v: &Json, key: &str) -> (r: bool)
    ensures
        r == is_flag(*v, key@),
{
    match json_get_bool(v, key) {
        Some(b) => b,
        None => false,
    }
}

/// A track identity as plain values: index, language, title, display
/// title, codec, forced, external.
pub open spec fn track_view(t: TrackId) -> (
    i64,
    Option<Seq<char>>,
    Option<Seq<char>>,
    Option<Seq<char>>,
    Option<Seq<char>>,
    bool,
    bool,
) {
    (
        t.index,
        opt_view(t.language),
        opt_view(t.title),
        opt_view(t.display_title),
        opt_view(t.codec),
        t.is_forced,
        t.is_external,
    )
}

/// A stream mpv can be pointed at, so a choice of it may be remembered: an
/// in-file audio stream, or a subtitle that is embedded or has a
/// `DeliveryUrl` to `sub-add`.
pub open spec fn is_selectable(s: Json, kind: TrackKind) -> bool {
    match kind {
        TrackKind::Audio => indexed_stream_of(s, "Audio"@) && !is_flag(s, "IsExternal"@),
        TrackKind::Subtitle => indexed_stream_of(s, "Subtitle"@) && (get_str(s, "DeliveryMethod"@)
            == Some("Embed"@) || (get_str(s, "DeliveryMethod"@) == Some("External"@) && get_str(
            s,
            "DeliveryUrl"@,
        ) is Some)),
    }
}

/// The identity a selectable stream offers.
pub open spec fn identity_of(s: Json) -> (
    i64,
    Option<Seq<char>>,
    Option<Seq<char>>,
    Option<Seq<char>>,
    Option<Seq<char>>,
    bool,
    bool,
) {
    (
        get_i64(s, "Index"@).unwrap(),
        get_str(s, "Language"@),
        get_str(s, "Title"@),
        get_str(s, "DisplayTitle"@),
        get_str(s, "Codec"@),
        is_flag(s, "IsForced"@),
        is_flag(s, "IsExternal"@),
    )
}

/// The identities of the selectable streams of one kind, in listing order.
pub open spec fn identities(streams: Seq<Json>, kind: TrackKind) -> Seq<
    (i64, Option<Seq<char>>, Option<Seq<char>>, Option<Seq<char>>, Option<Seq<char>>, bool, bool),
>
    decreases streams.len(),
{
    if streams.len() == 0 {
        Seq::empty()
    } else {
        let before = identities(streams.drop_last(), kind);
        if is_selectable(streams.last(), kind) {
            before.push(identity_of(streams.last()))
        } else {
            before
        }
    }
}

fn opt_string(v: &Json, key: &str) -> (r: Option<String>)
    ensures
        opt_view(r) == get_str(*v, key@),
{
    match json_get_str(v, key) {
        Some(s) => Some(s.clone()),
        None => None,
    }
}

/// Every stream of `kind` that mpv can be pointed at, as the identity a
/// remembered choice is matched against.
pub fn stream_identities(source: &Json, kind: TrackKind) -> (r: Vec<TrackId>)
    ensures
        r@.map_values(|t: TrackId| track_view(t)) == identities(media_streams(*source), kind),
{
    let mut out: Vec<TrackId> = Vec::new();
    let streams: &Vec<Json> = match json_get(source, "MediaStreams") {
        Some(v) => match json_as_array(v) {
            Some(a) => a,
            None => {
                assert(out@.map_values(|t: TrackId| track_view(t)) =~= Seq::empty());
                return out;
            },
        },
        None => {
            assert(out@.map_values(|t: TrackId| track_view(t)) =~= Seq::empty());
            return out;
        },
    };
    let ghost all = streams@;
    let mut i: usize = 0;
    while i < streams.len()
        invariant
            i <= all.len(),
            streams@ == all,
            all == media_streams(*source),
            out@.map_values(|t: TrackId| track_view(t)) == identities(all.take(i as int), kind),
        decreases all.len() - i,
    {
        proof {
            assert(all.take(i + 1).drop_last() == all.take(i as int));
        }
        let s = &streams[i];
        let selectable = match kind {
            TrackKind::Audio => match stream_is(s, "Audio") {
                Some(_) => !flag(s, "IsExternal"),
                None => false,
            },
            TrackKind::Subtitle => match stream_is(s, "Subtitle") {
                Some(_) => match json_get_str(s, "DeliveryMethod") {
                    Some(d) => str_eq(d.as_str(), "Embed") || (str_eq(d.as_str(), "External")
                        && json_get_str(s, "DeliveryUrl").is_some()),
                    None => false,
                },
                None => false,
            },
        };
        if selectable {
            let index = match json_get_i64(s, "Index") {
                Some(j) => j,
                None => 0,
            };
            let t = TrackId {
                index,
                language: opt_string(s, "Language"),
                title: opt_string(s, "Title"),
                display_title: opt_string(s, "DisplayTitle"),
                codec: opt_string(s, "Codec"),
                is_forced: flag(s, "IsForced"),
                is_external: flag(s, "IsExternal"),
            };
            let ghost before = out@;
            out.push(t);
            assert(out@.map_values(|t: TrackId| track_view(t)) =~= before.map_values(
                |t: TrackId| track_view(t),
            ).push(track_view(t)));
        }
        i = i + 1;
    }
    assert(all.take(all.len() as int) == all);
    out
}

/// Numbers the audio and subtitle streams of a media source the way mpv
/// will, and records the absolute URL of each external subtitle.
pub fn map_streams(server: &str, source: &Json) -> (r: StreamMaps)
    requires
        media_streams(*source).len() < i64::MAX,
    ensures
        r.audio_stream_index_by_track_id@ == audio_maps(media_streams(*source)).0,
        r.audio_track_id_by_stream_index@ == audio_maps(media_streams(*source)).1,
        r.subtitle_stream_index_by_track_id@ == subtitle_maps(server@, media_streams(*source)).0,
        r.subtitle_track_id_by_stream_index@ == subtitle_maps(server@, media_streams(*source)).1,
        url_texts(r.subtitle_url@) == subtitle_maps(server@, media_streams(*source)).2,
{
    let mut maps = StreamMaps::new();
    let streams: &Vec<Json> = match json_get(source, "MediaStreams") {
        Some(v) => match json_as_array(v) {
            Some(a) => a,
            None => {
                assert(url_texts(maps.subtitle_url@) =~= Map::<i64, Seq<char>>::empty());
                return maps;
            },
        },
        None => {
            assert(url_texts(maps.subtitle_url@) =~= Map::<i64, Seq<char>>::empty());
            return maps;
        },
    };
    let ghost all = streams@;
    assert(all == media_streams(*source));
    let mut audio_track_id: i64 = 1;
    let mut i: usize = 0;
    while i < streams.len()
        invariant
            i <= all.len(),
            streams@ == all,
            all.len() < i64::MAX,
            maps.audio_stream_index_by_track_id@ == audio_maps(all.take(i as int)).0,
            maps.audio_track_id_by_stream_index@ == audio_maps(all.take(i as int)).1,
            audio_track_id == audio_maps(all.take(i as int)).2,
            maps.subtitle_stream_index_by_track_id@ == Map::<i64, i64>::empty(),
            maps.subtitle_track_id_by_stream_index@ == Map::<i64, i64>::empty(),
            maps.subtitle_url@ == Map::<i64, String>::empty(),
        decreases all.len() - i,
    {
        proof {
            assert(all.take(i + 1).drop_last() == all.take(i as int));
            lemma_audio_next_bounded(all.take(i as int));
        }
        let s = &streams[i];
        match stream_is(s, "Audio") {
            Some(j) => {
                if !flag(s, "IsExternal") {
                    maps.audio_stream_index_by_track_id.insert(audio_track_id, j);
                    maps.audio_track_id_by_stream_index.insert(j, audio_track_id);
                    audio_track_id = audio_track_id + 1;
                }
            },
            None => {},
        }
        i = i + 1;
    }
    assert(all.take(all.len() as int) == all);
    let mut subtitle_track_id: i64 = 1;
    let mut k: usize = 0;
    assert(url_texts(maps.subtitle_url@) =~= Map::<i64, Seq<char>>::empty());
    while k < streams.len()
        invariant
            k <= all.len(),
            streams@ == all,
            all.len() < i64::MAX,
            maps.audio_stream_index_by_track_id@ == audio_maps(all).0,
            maps.audio_track_id_by_stream_index@ == audio_maps(all).1,
            maps.subtitle_stream_index_by_track_id@ == subtitle_maps(server@, all.take(k as int)).0,
            maps.subtitle_track_id_by_stream_index@ == subtitle_maps(server@, all.take(k as int)).1,
            url_texts(maps.subtitle_url@) == subtitle_maps(server@, all.take(k as int)).2,
            subtitle_track_id == subtitle_maps(server@, all.take(k as int)).3,
        decreases all.len() - k,
    {
        proof {
            assert(all.take(k + 1).drop_last() == all.take(k as int));
            lemma_subtitle_next_bounded(server@, all.take(k as int));
        }
        let sub = &streams[k];
        match stream_is(sub, "Subtitle") {
            Some(j) => {
                let ghost before = maps.subtitle_url@;
                match json_get_str(sub, "DeliveryMethod") {
                    Some(d) => {
                        if str_eq(d.as_str(), "Embed") {
                            maps.subtitle_stream_index_by_track_id.insert(subtitle_track_id, j);
                            maps.subtitle_track_id_by_stream_index.insert(j, subtitle_track_id);
                        } else if str_eq(d.as_str(), "External") {
                            match json_get_str(sub, "DeliveryUrl") {
                                Some(url) => {
                                    let abs = if flag(sub, "IsExternalUrl") {
                                        url.clone()
                                    } else {
                                        let mut a = trim_end_matches(server, '/');
                                        push_str(&mut a, url.as_str());
                                        a
                                    };
                                    assert(abs@ == subtitle_url_for(server@, *sub, url@));
                                    maps.subtitle_url.insert(j, abs);
                                    assert(url_texts(maps.subtitle_url@) =~= url_texts(before).insert(j, abs@));
                                },
                                None => {},
                            }
                        }
                    },
                    None => {},
                }
                if !flag(sub, "IsExternal") {
                    subtitle_track_id = subtitle_track_id + 1;
                }
            },
            None => {},
        }
        k = k + 1;
    }
    assert(all.take(all.len() as int) == all);
    maps
}

/// `entries` has strictly increasing keys.
pub open spec fn keys_ascending(entries: Seq<(i64, String)>) -> bool {
    forall|i: int, j: int| 0 <= i < j < entries.len() ==> entries[i].0 < entries[j].0
}

/// `entries` lists the map `m`, one entry per key, by increasing key.
pub open spec fn lists_map_in_key_order(entries: Seq<(i64, String)>, m: Map<i64, String>) -> bool {
    &&& keys_ascending(entries)
    &&& forall|i: int|
        #![trigger entries[i]]
        0 <= i < entries.len() ==> m.contains_key(entries[i].0) && m[entries[i].0] == entries[i].1
    &&& forall|k: i64| #[trigger] m.contains_key(k) ==> exists|i: int| 0 <= i < entries.len() && entries[i].0 == k
}

/// Puts `(k, v)` into a key-ordered list: in place of an entry with key `k`,
/// else at its position.
fn insert_by_key(out: &mut Vec<(i64, String)>, k: i64, v: String)
    requires
        keys_ascending(old(out)@),
    ensures
        keys_ascending(final(out)@),
        exists|i: int| 0 <= i < final(out)@.len() && final(out)@[i] == (k, v),
        forall|i: int|
            #![trigger final(out)@[i]]
            0 <= i < final(out)@.len() ==> final(out)@[i] == (k, v) || (final(out)@[i].0 != k
                && old(out)@.contains(final(out)@[i])),
        forall|j: int|
            #![trigger old(out)@[j]]
            0 <= j < old(out)@.len() && old(out)@[j].0 != k ==> final(out)@.contains(old(out)@[j]),
{
    let mut p: usize = 0;
    while p < out.len() && out[p].0 < k
        invariant
            p <= out@.len(),
            forall|i: int| 0 <= i < p ==> out@[i].0 < k,
        decreases out@.len() - p,
    {
        p = p + 1;
    }
    let ghost before = out@;
    if p < out.len() && out[p].0 == k {
        out.set(p, (k, v));
        assert(out@[p as int] == (k, v));
        assert forall|j: int| 0 <= j < before.len() && before[j].0 != k implies out@.contains(before[j]) by {
            assert(out@[j] == before[j]);
        }
        assert forall|i: int| 0 <= i < out@.len() && out@[i] != (k, v) implies out@[i].0 != k
            && before.contains(out@[i]) by {
            assert(i != p);
            assert(out@[i] == before[i]);
            if i < p {
            } else {
                assert(before[p as int].0 < before[i].0);
            }
        }
    } else {
        out.insert(p, (k, v));
        assert(out@ == before.insert(p as int, (k, v)));
        assert(out@[p as int] == (k, v));
        assert forall|j: int| 0 <= j < before.len() && before[j].0 != k implies out@.contains(before[j]) by {
            if j < p {
                assert(out@[j] == before[j]);
            } else {
                assert(out@[j + 1] == before[j]);
            }
        }
        assert forall|i: int| 0 <= i < out@.len() && out@[i] != (k, v) implies out@[i].0 != k
            && before.contains(out@[i]) by {
            if i < p {
                assert(out@[i] == before[i]);
            } else {
                assert(i > p);
                assert(out@[i] == before[i - 1]);
                if p < before.len() {
                    assert(before[p as int].0 > k);
                    assert(before[p as int].0 <= before[i - 1].0);
                }
            }
        }
    }
}

/// The entries of `m` by increasing key.
pub fn sorted_entries(m: &HashMap<i64, String>) -> (r: Vec<(i64, String)>)
    ensures
        lists_map_in_key_order(r@, m@),
{
    let mut out: Vec<(i64, String)> = Vec::new();
    let ghost all = spec_hash_map_iter(m).remaining();
    let ghost mut n: int = 0;
    for e in it: m.iter()
        invariant
            it.seq() == all,
            all == spec_hash_map_iter(m).remaining(),
            n == it.index(),
            keys_ascending(out@),
            forall|i: int|
                #![trigger out@[i]]
                0 <= i < out@.len() ==> m@.contains_key(out@[i].0) && m@[out@[i].0] == out@[i].1,
            forall|j: int|
                0 <= j < n ==> exists|i: int|
                    0 <= i < out@.len() && out@[i].0 == *(#[trigger] all[j]).0,
    {
        assert(e == all[n]);
        let ghost old_out = out@;
        let (k, v) = e;
        let vc = v.clone();
        insert_by_key(&mut out, *k, vc);
        proof {
            let i1 = choose|i1: int| 0 <= i1 < out@.len() && out@[i1] == (*k, vc);
            assert(out@[i1].0 == *all[n].0);
            assert forall|j: int| 0 <= j < n + 1 implies exists|i: int|
                0 <= i < out@.len() && out@[i].0 == *(#[trigger] all[j]).0 by {
                if j < n {
                    let i0 = choose|i0: int| 0 <= i0 < old_out.len() && old_out[i0].0 == *all[j].0;
                    if old_out[i0].0 == *k {
                    } else {
                        assert(out@.contains(old_out[i0]));
                    }
                }
            }
            n = n + 1;
        }
    }
    assert(n == all.len());
    proof {
        assert forall|k: i64| #[trigger] m@.contains_key(k) implies exists|i: int|
            0 <= i < out@.len() && out@[i].0 == k by {
            assert(all.contains((&k, &m@[k])));
            let j = choose|j: int| 0 <= j < all.len() && all[j] == (&k, &m@[k]);
            assert(*all[j].0 == k);
        }
    }
    out
}

/// The mpv audio track id of a Jellyfin audio stream index, if mapped.
pub fn mpv_audio_track_id(maps: &StreamMaps, jellyfin_index: i64) -> (r: Option<i64>)
    ensures
        match r {
            Some(t) => maps.audio_track_id_by_stream_index@.contains_key(jellyfin_index)
                && maps.audio_track_id_by_stream_index@[jellyfin_index] == t,
            None => !maps.audio_track_id_by_stream_index@.contains_key(jellyfin_index),
        },
{
    match maps.audio_track_id_by_stream_index.get(&jellyfin_index) {
        Some(t) => Some(*t),
        None => None,
    }
}

/// The embedded mpv subtitle track id of a Jellyfin subtitle stream index,
/// if mapped (an external subtitle has none).
pub fn mpv_embedded_subtitle_track_id(maps: &StreamMaps, jellyfin_index: i64) -> (r: Option<i64>)
    ensures
        match r {
            Some(t) => maps.subtitle_track_id_by_stream_index@.contains_key(jellyfin_index)
                && maps.subtitle_track_id_by_stream_index@[jellyfin_index] == t,
            None => !maps.subtitle_track_id_by_stream_index@.contains_key(jellyfin_index),
        },
{
    match maps.subtitle_track_id_by_stream_index.get(&jellyfin_index) {
        Some(t) => Some(*t),
        None => None,
    }
}

/// The whole bits per second of a source's `Bitrate`: an integer as it is
/// (within the range JSON integers are read in), a fractional number by its
/// floor, and 0 when absent.
pub open spec fn bitrate_whole(s: Json) -> int {
    match get(s, "Bitrate"@) {
        Some(Json::Int(n)) => if n < i64::MIN {
            i64::MIN as int
        } else if n > u64::MAX {
            u64::MAX as int
        } else {
            n as int
        },
        Some(Json::Float(c)) => c.floor as int,
        _ => 0,
    }
}

/// What a fractional `Bitrate` has above its floor, in units of 2^-64.
pub open spec fn bitrate_fraction(s: Json) -> int {
    match get(s, "Bitrate"@) {
        Some(Json::Float(c)) => c.fraction as int,
        _ => 0,
    }
}

/// One bit per second in the units of [`source_weight`].
pub open spec fn weight_unit() -> int {
    18446744073709551616
}

/// How much a source is worth, in 2^-64 bits per second: DirectPlay counts
/// as 50 000 kbps on top of the bitrate, so it outweighs any bitrate
/// difference; the bitrate counts with its fraction.
pub open spec fn source_weight(s: Json) -> int {
    ((if is_flag(s, "SupportsDirectPlay"@) {
        50_000_000int
    } else {
        0int
    }) + bitrate_whole(s)) * weight_unit() + bitrate_fraction(s)
}

/// A weight held as whole bits per second and the fraction above them.
pub open spec fn weight_value(w: (i128, u64)) -> int {
    w.0 * weight_unit() + w.1
}

proof fn lemma_weight_order(a: (i128, u64), b: (i128, u64))
    ensures
        weight_value(a) > weight_value(b) <==> (a.0 > b.0 || (a.0 == b.0 && a.1 > b.1)),
{
    let k = weight_unit();
    let (a0, a1, b0, b1) = (a.0 as int, a.1 as int, b.0 as int, b.1 as int);
    assert(0 <= a1 < k && 0 <= b1 < k);
    if a0 > b0 {
        assert(a0 * k >= (b0 + 1) * k) by (nonlinear_arith)
            requires
                a0 > b0,
                k > 0,
        ;
        assert((b0 + 1) * k == b0 * k + k) by (nonlinear_arith);
    } else if a0 < b0 {
        assert(b0 * k >= (a0 + 1) * k) by (nonlinear_arith)
            requires
                b0 > a0,
                k > 0,
        ;
        assert((a0 + 1) * k == a0 * k + k) by (nonlinear_arith);
    }
}

/// `a` weighs more than `b`.
fn heavier(a: (i128, u64), b: (i128, u64)) -> (r: bool)
    ensures
        r == (weight_value(a) > weight_value(b)),
{
    proof {
        lemma_weight_order(a, b);
    }
    a.0 > b.0 || (a.0 == b.0 && a.1 > b.1)
}

/// Source `i` weighs the most, and no earlier source weighs as much.
pub open spec fn is_heaviest(sources: Seq<Json>, i: int) -> bool {
    &&& 0 <= i < sources.len()
    &&& forall|j: int| 0 <= j < sources.len() ==> source_weight(sources[j]) <= source_weight(sources[i])
    &&& forall|j: int| 0 <= j < i ==> source_weight(sources[j]) < source_weight(sources[i])
}

/// Some source has the `Id` `id`.
pub open spec fn names_source(sources: Seq<Json>, id: Seq<char>) -> bool {
    exists|i: int| 0 <= i < sources.len() && get_str(sources[i], "Id"@) == Some(id)
}

/// Source `i` is the last one with the `Id` `id`.
pub open spec fn is_last_named(sources: Seq<Json>, i: int, id: Seq<char>) -> bool {
    &&& 0 <= i < sources.len()
    &&& get_str(sources[i], "Id"@) == Some(id)
    &&& forall|j: int| i < j < sources.len() ==> get_str(sources[j], "Id"@) != Some(id)
}

/// Source `i` is the one to play: the one the caller named when there is
/// one, else the heaviest.
pub open spec fn picks_source(sources: Seq<Json>, preferred: Option<Seq<char>>, i: int) -> bool {
    if preferred is Some && names_source(sources, preferred.unwrap()) {
        is_last_named(sources, i, preferred.unwrap())
    } else {
        is_heaviest(sources, i)
    }
}

fn source_weight_exec(s: &Json) -> (w: (i128, u64))
    ensures
        weight_value(w) == source_weight(*s),
{
    let direct: i128 = if flag(s, "SupportsDirectPlay") {
        50_000_000
    } else {
        0
    };
    let (whole, fraction): (i128, u64) = match json_get(s, "Bitrate") {
        Some(Json::Int(n)) => if *n < -9223372036854775808i128 {
            (-9223372036854775808i128, 0)
        } else if *n > 18446744073709551615i128 {
            (18446744073709551615i128, 0)
        } else {
            (*n, 0)
        },
        Some(Json::Float(c)) => (c.floor as i128, c.fraction),
        _ => (0, 0),
    };
    (direct + whole, fraction)
}

/// Highest-value source, unless the caller named one: DirectPlay outweighs
/// any bitrate difference, and among equals the first stays.
pub fn select_media_source<'a>(sources: &'a [Json], preferred: Option<&str>) -> (r: Option<&'a Json>)
    ensures
        r is None <==> sources@.len() == 0,
        r matches Some(x) ==> exists|i: int|
            picks_source(sources@, opt_str(preferred), i) && *x == sources@[i],
{
    let mut selected: Option<usize> = None;
    let mut weight_selected: (i128, u64) = (0, 0);
    let mut preferred_selected: Option<usize> = None;
    let mut i: usize = 0;
    while i < sources.len()
        invariant
            i <= sources@.len(),
            selected is None <==> i == 0,
            selected matches Some(s) ==> {
                &&& s < i
                &&& weight_value(weight_selected) == source_weight(sources@[s as int])
                &&& forall|j: int| 0 <= j < i ==> source_weight(sources@[j]) <= weight_value(weight_selected)
                &&& forall|j: int| 0 <= j < s ==> source_weight(sources@[j]) < weight_value(weight_selected)
            },
            preferred is Some ==> match preferred_selected {
                Some(p) => p < i && get_str(sources@[p as int], "Id"@) == opt_str(preferred)
                    && forall|j: int| p < j < i ==> get_str(sources@[j], "Id"@) != opt_str(preferred),
                None => forall|j: int| 0 <= j < i ==> get_str(sources@[j], "Id"@) != opt_str(preferred),
            },
            preferred is None ==> preferred_selected is None,
        decreases sources@.len() - i,
    {
        let source = &sources[i];
        match preferred {
            Some(pref) => match json_get_str(source, "Id") {
                Some(id) => if str_eq(id.as_str(), pref) {
                    preferred_selected = Some(i);
                },
                None => {},
            },
            None => {},
        }
        let weight = source_weight_exec(source);
        if selected.is_none() || heavier(weight, weight_selected) {
            weight_selected = weight;
            selected = Some(i);
        }
        i = i + 1;
    }
    match preferred_selected {
        Some(p) => {
            proof {
                assert(names_source(sources@, opt_str(preferred).unwrap()));
                assert(picks_source(sources@, opt_str(preferred), p as int));
            }
            Some(&sources[p])
        },
        None => match selected {
            Some(s) => {
                proof {
                    if preferred is Some && names_source(sources@, opt_str(preferred).unwrap()) {
                        let k = choose|k: int| 0 <= k < sources@.len() && get_str(sources@[k], "Id"@) == opt_str(preferred);
                        assert(get_str(sources@[k], "Id"@) != opt_str(preferred));
                    }
                    assert(picks_source(sources@, opt_str(preferred), s as int));
                }
                Some(&sources[s])
            },
            None => None,
        },
    }
}

/// Scheme, host and port: what makes two URLs the same origin here.
pub open spec fn origin(u: UrlView) -> (Seq<char>, Option<Seq<char>>, Option<u16>) {
    (u.0, u.3, u.4)
}

/// The host of a subtitle stream's `Path` when it is an http(s) URL of
/// another origin than `server` (and `server` itself parses).
pub open spec fn foreign_host_of(server: Seq<char>, s: Json) -> Option<Seq<char>> {
    match (get_str(s, "Type"@), get_str(s, "Path"@)) {
        (Some(kind), Some(path)) => if kind == "Subtitle"@ && ("http://"@.is_prefix_of(path)
            || "https://"@.is_prefix_of(path)) {
            match (parsed_url(server), parsed_url(path)) {
                (Some(mine), Some(theirs)) => if origin(theirs) != origin(mine) {
                    theirs.3
                } else {
                    None
                },
                _ => None,
            }
        } else {
            None
        },
        _ => None,
    }
}

/// Some stream of `streams` sits on a foreign host.
pub open spec fn has_foreign_host(server: Seq<char>, streams: Seq<Json>) -> bool {
    exists|i: int| 0 <= i < streams.len() && foreign_host_of(server, streams[i]) is Some
}

fn same_origin(a: &UrlParts, b: &UrlParts) -> (r: bool)
    ensures
        r == (origin(parts_view(*a)) == origin(parts_view(*b))),
{
    if !str_eq(a.scheme.as_str(), b.scheme.as_str()) {
        return false;
    }
    if a.port != b.port {
        return false;
    }
    match (&a.host, &b.host) {
        (Some(x), Some(y)) => str_eq(x.as_str(), y.as_str()),
        (None, None) => true,
        _ => false,
    }
}

fn foreign_host_in(server: &str, mine: &UrlParts, s: &Json) -> (r: Option<String>)
    requires
        parsed_url(server@) == Some(parts_view(*mine)),
    ensures
        opt_chars(r) == foreign_host_of(server@, *s),
{
    proof {
        reveal_strlit("Subtitle");
        reveal_strlit("http://");
        reveal_strlit("https://");
    }
    let kind = match json_get_str(s, "Type") {
        Some(k) => k,
        None => return None,
    };
    let path = match json_get_str(s, "Path") {
        Some(p) => p,
        None => return None,
    };
    if !str_eq(kind.as_str(), "Subtitle") {
        return None;
    }
    if !(starts_with(path.as_str(), "http://") || starts_with(path.as_str(), "https://")) {
        return None;
    }
    match parse_url(path.as_str()) {
        Some(theirs) => if !same_origin(&theirs, mine) {
            theirs.host
        } else {
            None
        },
        None => None,
    }
}

/// The hosts, other than the server's own origin, that subtitle streams are
/// fetched from; each once.
pub fn foreign_subtitle_hosts(server: &str, source: &Json) -> (r: Vec<String>)
    ensures
        id_views(r@).no_duplicates(),
        forall|h: Seq<char>|
            #![trigger id_views(r@).contains(h)]
            id_views(r@).contains(h) <==> exists|i: int|
                0 <= i < media_streams(*source).len() && foreign_host_of(
                    server@,
                    media_streams(*source)[i],
                ) == Some(h),
{
    let mut foreign: Vec<String> = Vec::new();
    let mine = match parse_url(server) {
        Some(b) => b,
        None => {
            assert(id_views(foreign@) =~= Seq::<Seq<char>>::empty());
            return foreign;
        },
    };
    let streams: &Vec<Json> = match json_get(source, "MediaStreams") {
        Some(v) => match json_as_array(v) {
            Some(a) => a,
            None => {
                assert(id_views(foreign@) =~= Seq::<Seq<char>>::empty());
                return foreign;
            },
        },
        None => {
            assert(id_views(foreign@) =~= Seq::<Seq<char>>::empty());
            return foreign;
        },
    };
    let ghost all = streams@;
    assert(all == media_streams(*source));
    assert(id_views(foreign@) =~= Seq::<Seq<char>>::empty());
    let mut i: usize = 0;
    while i < streams.len()
        invariant
            i <= all.len(),
            streams@ == all,
            parsed_url(server@) == Some(parts_view(mine)),
            id_views(foreign@).no_duplicates(),
            forall|h: Seq<char>|
                #![trigger id_views(foreign@).contains(h)]
                id_views(foreign@).contains(h) <==> exists|j: int|
                    0 <= j < i && foreign_host_of(server@, all[j]) == Some(h),
        decreases all.len() - i,
    {
        let ghost before = id_views(foreign@);
        let ghost got = foreign_host_of(server@, all[i as int]);
        match foreign_host_in(server, &mine, &streams[i]) {
            Some(h) => {
                if !contains_id(&foreign, &h) {
                    foreign.push(h);
                    assert(id_views(foreign@) =~= before.push(got.unwrap()));
                    assert(id_views(foreign@)[before.len() as int] == got.unwrap());
                    assert forall|x: Seq<char>| before.contains(x) implies id_views(foreign@).contains(x) by {
                        let k = choose|k: int| 0 <= k < before.len() && before[k] == x;
                        assert(id_views(foreign@)[k] == x);
                    }
                } else {
                    assert(before.contains(got.unwrap()));
                }
            },
            None => {},
        }
        proof {
            assert(got is Some ==> id_views(foreign@).contains(got.unwrap()));
            assert(forall|x: Seq<char>| before.contains(x) ==> id_views(foreign@).contains(x));
            assert(forall|x: Seq<char>| id_views(foreign@).contains(x) ==> before.contains(x) || got == Some(x));
            assert forall|h: Seq<char>| id_views(foreign@).contains(h) implies exists|j: int|
                0 <= j < i + 1 && foreign_host_of(server@, all[j]) == Some(h) by {
                if before.contains(h) {
                    let j = choose|j: int| 0 <= j < i && foreign_host_of(server@, all[j]) == Some(h);
                    assert(0 <= j < i + 1);
                } else {
                    assert(foreign_host_of(server@, all[i as int]) == Some(h));
                }
            }
            assert forall|h: Seq<char>| (exists|j: int|
                0 <= j < i + 1 && foreign_host_of(server@, all[j]) == Some(h)) implies id_views(foreign@).contains(h) by {
                let j = choose|j: int| 0 <= j < i + 1 && foreign_host_of(server@, all[j]) == Some(h);
                if j < i {
                    assert(before.contains(h));
                } else {
                    assert(got == Some(h));
                }
            }
        }
        i = i + 1;
    }
    foreign
}

/// A play session ready for mpv. It has no `Debug`: its URL carries the
/// access token; [`PreparedPlay::debug_string`] renders it redacted.
#[derive(Clone, PartialEq, Eq)]
pub struct PreparedPlay {
    pub url: String,
    pub media_source_id: String,
    pub play_session_id: String,
    pub live_stream_id: Option<String>,
    pub maps: StreamMaps,
    pub audio_stream_index: Option<i64>,
    pub subtitle_stream_index: Option<i64>,
    pub uses_auth_header: bool,
    pub external_sub_urls: Vec<(i64, String)>,
    pub title: String,
}

/// `Some(..)` or `None` as `{:?}` renders an optional string.
pub open spec fn opt_debug_str(o: Option<Seq<char>>) -> Seq<char> {
    match o {
        Some(s) => "Some("@ + debug_str(s) + ")"@,
        None => "None"@,
    }
}

/// `Some(..)` or `None` as `{:?}` renders an optional integer.
pub open spec fn opt_debug_int(o: Option<i64>) -> Seq<char> {
    match o {
        Some(n) => "Some("@ + signed_decimal(n as int) + ")"@,
        None => "None"@,
    }
}

/// One `(index, url)` pair as `{:?}` renders it.
pub open spec fn sub_url_debug(e: (i64, String)) -> Seq<char> {
    "("@ + signed_decimal(e.0 as int) + ", "@ + debug_str(e.1@) + ")"@
}

/// The pairs as `{:?}` lists them, without the brackets.
pub open spec fn sub_urls_debug(s: Seq<(i64, String)>) -> Seq<char>
    decreases s.len(),
{
    if s.len() == 0 {
        Seq::empty()
    } else if s.len() == 1 {
        sub_url_debug(s[0])
    } else {
        sub_urls_debug(s.drop_last()) + ", "@ + sub_url_debug(s.last())
    }
}

/// The `Debug` rendering of a prepared play: its URL with the `ApiKey`
/// value redacted; the stream maps are left out.
pub open spec fn prepared_play_debug(p: PreparedPlay) -> Seq<char> {
    "PreparedPlay { url: "@ + debug_str(redacted(p.url@)) + ", media_source_id: "@
        + debug_str(p.media_source_id@) + ", play_session_id: "@ + debug_str(p.play_session_id@)
        + ", live_stream_id: "@ + opt_debug_str(opt_chars(p.live_stream_id))
        + ", audio_stream_index: "@ + opt_debug_int(p.audio_stream_index)
        + ", subtitle_stream_index: "@ + opt_debug_int(p.subtitle_stream_index)
        + ", uses_auth_header: "@ + bool_text(p.uses_auth_header) + ", external_sub_urls: ["@
        + sub_urls_debug(p.external_sub_urls@) + "], title: "@ + debug_str(p.title@) + ", .. }"@
}

fn push_opt_int(out: &mut String, o: Option<i64>)
    ensures
        final(out)@ == old(out)@ + opt_debug_int(o),
{
    match o {
        Some(n) => {
            push_str(out, "Some(");
            let d = i64_decimal(n);
            push_str(out, d.as_str());
            push_str(out, ")");
        },
        None => push_str(out, "None"),
    }
}

impl PreparedPlay {
    /// What `{:?}` shows of this play, without the access token.
    pub fn debug_string(&self) -> (r: String)
        ensures
            r@ == prepared_play_debug(*self),
    {
        let mut r = owned("PreparedPlay { url: ");
        let red = redact_api_key(self.url.as_str());
        let q = debug_quoted(red.as_str());
        push_str(&mut r, q.as_str());
        push_str(&mut r, ", media_source_id: ");
        let q = debug_quoted(self.media_source_id.as_str());
        push_str(&mut r, q.as_str());
        push_str(&mut r, ", play_session_id: ");
        let q = debug_quoted(self.play_session_id.as_str());
        push_str(&mut r, q.as_str());
        push_str(&mut r, ", live_stream_id: ");
        match &self.live_stream_id {
            Some(l) => {
                push_str(&mut r, "Some(");
                let q = debug_quoted(l.as_str());
                push_str(&mut r, q.as_str());
                push_str(&mut r, ")");
            },
            None => push_str(&mut r, "None"),
        }
        push_str(&mut r, ", audio_stream_index: ");
        push_opt_int(&mut r, self.audio_stream_index);
        push_str(&mut r, ", subtitle_stream_index: ");
        push_opt_int(&mut r, self.subtitle_stream_index);
        push_str(&mut r, ", uses_auth_header: ");
        let b = bool_string(self.uses_auth_header);
        push_str(&mut r, b.as_str());
        push_str(&mut r, ", external_sub_urls: [");
        let ghost before = r@;
        let urls = &self.external_sub_urls;
        let mut i: usize = 0;
        while i < urls.len()
            invariant
                i <= urls@.len(),
                r@ == before + sub_urls_debug(urls@.take(i as int)),
            decreases urls@.len() - i,
        {
            proof {
                assert(urls@.take(i + 1).drop_last() == urls@.take(i as int));
            }
            if i > 0 {
                push_str(&mut r, ", ");
            }
            push_str(&mut r, "(");
            let d = i64_decimal(urls[i].0);
            push_str(&mut r, d.as_str());
            push_str(&mut r, ", ");
            let q = debug_quoted(urls[i].1.as_str());
            push_str(&mut r, q.as_str());
            push_str(&mut r, ")");
            i = i + 1;
        }
        assert(urls@.take(urls@.len() as int) == urls@);
        push_str(&mut r, "], title: ");
        let q = debug_quoted(self.title.as_str());
        push_str(&mut r, q.as_str());
        push_str(&mut r, ", .. }");
        r
    }
}

/// Why a `PlaybackInfo` answer cannot be played.
#[derive(Debug, Clone, Copy, PartialEq, Eq, Structural)]
pub enum PrepareError {
    MissingPlaySessionId,
    MissingMediaSources,
    NoMediaSources,
    /// The server offers neither DirectPlay nor DirectStream.
    TranscodingOnly,
    MissingMediaSourceId,
}

impl PrepareError {
    /// The message shown for this error.
    pub fn message(&self) -> (r: &'static str)
        ensures
            r@ == prepare_error_text(*self),
    {
        match self {
            PrepareError::MissingPlaySessionId => "PlaybackInfo missing PlaySessionId",
            PrepareError::MissingMediaSources => "PlaybackInfo missing MediaSources",
            PrepareError::NoMediaSources => "PlaybackInfo has no media sources",
            PrepareError::TranscodingOnly => "server will not DirectPlay this item (SupportsDirectPlay=false, SupportsDirectStream=false); transcoding is disabled",
            PrepareError::MissingMediaSourceId => "MediaSource missing Id",
        }
    }
}

pub open spec fn prepare_error_text(e: PrepareError) -> Seq<char> {
    match e {
        PrepareError::MissingPlaySessionId => "PlaybackInfo missing PlaySessionId"@,
        PrepareError::MissingMediaSources => "PlaybackInfo missing MediaSources"@,
        PrepareError::NoMediaSources => "PlaybackInfo has no media sources"@,
        PrepareError::TranscodingOnly => "server will not DirectPlay this item (SupportsDirectPlay=false, SupportsDirectStream=false); transcoding is disabled"@,
        PrepareError::MissingMediaSourceId => "MediaSource missing Id"@,
    }
}

/// The `MediaSources` array of a `PlaybackInfo` answer, if it has one.
pub open spec fn media_sources(info: Json) -> Option<Seq<Json>> {
    match get(info, "MediaSources"@) {
        Some(Json::Array(v)) => Some(v@),
        _ => None,
    }
}

/// Every media source's stream list can be numbered in `i64`.
pub open spec fn stream_counts_fit(info: Json) -> bool {
    match media_sources(info) {
        Some(sources) => forall|i: int|
            0 <= i < sources.len() ==> #[trigger] media_streams(sources[i]).len() < i64::MAX,
        None => true,
    }
}

pub open spec fn or_else(a: Option<i64>, b: Option<i64>) -> Option<i64> {
    match a {
        Some(x) => Some(x),
        None => b,
    }
}

/// `p` is what `source` yields: its id and live stream id, its stream maps,
/// the auth header unless a subtitle lives on another host (the token then
/// goes on the URL, since mpv sends the header to every host), the requested
/// stream indexes or else the source's defaults (`-1` included, an explicit
/// off), the external subtitle URLs by stream index, and a placeholder title.
pub open spec fn prepared_from(
    p: PreparedPlay,
    server: Seq<char>,
    item_id: Seq<char>,
    source: Json,
    play_session_id: Seq<char>,
    audio_stream_index: Option<i64>,
    subtitle_stream_index: Option<i64>,
    token: Seq<char>,
) -> bool {
    let streams = media_streams(source);
    let live = get_str(source, "LiveStreamId"@);
    &&& Some(p.media_source_id@) == get_str(source, "Id"@)
    &&& p.play_session_id@ == play_session_id
    &&& opt_chars(p.live_stream_id) == live
    &&& p.maps.audio_stream_index_by_track_id@ == audio_maps(streams).0
    &&& p.maps.audio_track_id_by_stream_index@ == audio_maps(streams).1
    &&& p.maps.subtitle_stream_index_by_track_id@ == subtitle_maps(server, streams).0
    &&& p.maps.subtitle_track_id_by_stream_index@ == subtitle_maps(server, streams).1
    &&& url_texts(p.maps.subtitle_url@) == subtitle_maps(server, streams).2
    &&& p.uses_auth_header == !has_foreign_host(server, streams)
    &&& p.url@ == stream_url(
        server,
        item_id,
        encode_utf8(p.media_source_id@),
        match live {
            Some(l) => Some(encode_utf8(l)),
            None => None,
        },
        if p.uses_auth_header {
            None
        } else {
            Some(encode_utf8(token))
        },
    )
    &&& p.audio_stream_index == or_else(audio_stream_index, get_i64(source, "DefaultAudioStreamIndex"@))
    &&& p.subtitle_stream_index == or_else(
        subtitle_stream_index,
        get_i64(source, "DefaultSubtitleStreamIndex"@),
    )
    &&& lists_map_in_key_order(p.external_sub_urls@, p.maps.subtitle_url@)
    &&& p.title@ == "Jellyfin"@
}

/// What playing `source` gives: an error when the server would only
/// transcode it or it has no `Id`, else a prepared play.
pub open spec fn outcome_for_source(
    r: Result<PreparedPlay, PrepareError>,
    server: Seq<char>,
    item_id: Seq<char>,
    source: Json,
    play_session_id: Seq<char>,
    audio_stream_index: Option<i64>,
    subtitle_stream_index: Option<i64>,
    token: Seq<char>,
) -> bool {
    if !is_flag(source, "SupportsDirectPlay"@) && !is_flag(source, "SupportsDirectStream"@) {
        r == Err::<PreparedPlay, PrepareError>(PrepareError::TranscodingOnly)
    } else if get_str(source, "Id"@) is None {
        r == Err::<PreparedPlay, PrepareError>(PrepareError::MissingMediaSourceId)
    } else {
        r matches Ok(p) && prepared_from(
            p,
            server,
            item_id,
            source,
            play_session_id,
            audio_stream_index,
            subtitle_stream_index,
            token,
        )
    }
}

/// Prepares a DirectPlay session for `item_id` from its `PlaybackInfo`
/// answer; `None` indexes mean "the server's default".
pub fn prepare_play(
    server: &str,
    item_id: &str,
    playback_info: &Json,
    preferred_source: Option<&str>,
    audio_stream_index: Option<i64>,
    subtitle_stream_index: Option<i64>,
    token: &str,
) -> (r: Result<PreparedPlay, PrepareError>)
    requires
        stream_counts_fit(*playback_info),
    ensures
        get_str(*playback_info, "PlaySessionId"@) is None ==> r == Err::<PreparedPlay, PrepareError>(
            PrepareError::MissingPlaySessionId,
        ),
        get_str(*playback_info, "PlaySessionId"@) is Some && media_sources(*playback_info) is None
            ==> r == Err::<PreparedPlay, PrepareError>(PrepareError::MissingMediaSources),
        get_str(*playback_info, "PlaySessionId"@) is Some && media_sources(*playback_info) == Some(
            Seq::<Json>::empty(),
        ) ==> r == Err::<PreparedPlay, PrepareError>(PrepareError::NoMediaSources),
        get_str(*playback_info, "PlaySessionId"@) is Some && media_sources(*playback_info) is Some
            && media_sources(*playback_info).unwrap().len() > 0 ==> exists|i: int|
            picks_source(media_sources(*playback_info).unwrap(), opt_str(preferred_source), i)
                && outcome_for_source(
                r,
                server@,
                item_id@,
                #[trigger] media_sources(*playback_info).unwrap()[i],
                get_str(*playback_info, "PlaySessionId"@).unwrap(),
                audio_stream_index,
                subtitle_stream_index,
                token@,
            ),
{
    let play_session_id = match json_get_str(playback_info, "PlaySessionId") {
        Some(s) => s.clone(),
        None => return Err(PrepareError::MissingPlaySessionId),
    };
    let sources: &Vec<Json> = match json_get(playback_info, "MediaSources") {
        Some(v) => match json_as_array(v) {
            Some(a) => a,
            None => return Err(PrepareError::MissingMediaSources),
        },
        None => return Err(PrepareError::MissingMediaSources),
    };
    let source = match select_media_source(sources.as_slice(), preferred_source) {
        Some(s) => s,
        None => return Err(PrepareError::NoMediaSources),
    };
    let ghost at = choose|i: int|
        picks_source(sources@, opt_str(preferred_source), i) && *source == sources@[i];
    assert(media_sources(*playback_info) == Some(sources@));
    assert(0 <= at < sources@.len());
    assert(media_streams(media_sources(*playback_info).unwrap()[at]).len() < i64::MAX);
    assert(media_streams(sources@[at]).len() < i64::MAX);
    let supports_direct_play = flag(source, "SupportsDirectPlay");
    let supports_direct_stream = flag(source, "SupportsDirectStream");
    if !supports_direct_play && !supports_direct_stream {
        return Err(PrepareError::TranscodingOnly);
    }
    let media_source_id = match json_get_str(source, "Id") {
        Some(s) => s.clone(),
        None => return Err(PrepareError::MissingMediaSourceId),
    };
    let live_stream_id = match json_get_str(source, "LiveStreamId") {
        Some(s) => Some(s.clone()),
        None => None,
    };
    let maps = map_streams(server, source);
    let foreign = foreign_subtitle_hosts(server, source);
    let uses_auth_header = foreign.len() == 0;
    proof {
        if has_foreign_host(server@, media_streams(*source)) {
            let k = choose|k: int|
                0 <= k < media_streams(*source).len() && foreign_host_of(server@, media_streams(*source)[k]) is Some;
            let h = foreign_host_of(server@, media_streams(*source)[k]).unwrap();
            assert(id_views(foreign@).contains(h));
        } else if foreign.len() > 0 {
            let h = id_views(foreign@)[0];
            assert(id_views(foreign@).contains(h));
        }
    }
    let live_ref: Option<&str> = match &live_stream_id {
        Some(l) => Some(l.as_str()),
        None => None,
    };
    let url = direct_stream_url(
        server,
        item_id,
        media_source_id.as_str(),
        live_ref,
        if uses_auth_header {
            None
        } else {
            Some(token)
        },
    );
    let default_audio = json_get_i64(source, "DefaultAudioStreamIndex");
    let default_subtitle = json_get_i64(source, "DefaultSubtitleStreamIndex");
    let audio = match audio_stream_index {
        Some(a) => Some(a),
        None => default_audio,
    };
    let subtitle = match subtitle_stream_index {
        Some(s) => Some(s),
        None => default_subtitle,
    };
    let external_sub_urls = sorted_entries(&maps.subtitle_url);
    let p = PreparedPlay {
        url,
        media_source_id,
        play_session_id,
        live_stream_id,
        maps,
        audio_stream_index: audio,
        subtitle_stream_index: subtitle,
        uses_auth_header,
        external_sub_urls,
        title: crate::text::owned("Jellyfin"),
    };
    proof {
        reveal_strlit("Jellyfin");
    }
    Ok(p)
}

/// What the remote asked for when starting an item; most callers want the
/// default, "just play it from the start".
#[derive(Debug, Clone, PartialEq, Eq)]
pub struct PlayRequest {
    /// Resume offset, in Jellyfin ticks.
    pub start_ticks: Option<i64>,
    /// Jellyfin audio stream index the remote chose.
    pub audio_stream_index: Option<i64>,
    /// Jellyfin subtitle stream index: `Some(-1)` is an explicit off, `None`
    /// whatever the server defaults to.
    pub subtitle_stream_index: Option<i64>,
    /// A specific version of a multi-version item.
    pub media_source_id: Option<String>,
}

impl Default for PlayRequest {
    fn default() -> (r: PlayRequest)
        ensures
            r.start_ticks is None,
            r.audio_stream_index is None,
            r.subtitle_stream_index is None,
            r.media_source_id is None,
    {
        PlayRequest {
            start_ticks: None,
            audio_stream_index: None,
            subtitle_stream_index: None,
            media_source_id: None,
        }
    }
}

impl PlayRequest {
    /// Asks for nothing beyond playing from the start (a zero offset
    /// included), so a cached `PreparedPlay` can be reused.
    pub open spec fn is_plain_spec(&self) -> bool {
        &&& self.audio_stream_index is None
        &&& self.subtitle_stream_index is None
        &&& self.media_source_id is None
        &&& (self.start_ticks is None || self.start_ticks == Some(0i64))
    }

    /// Whether this asks for anything beyond "just play it from the start".
    pub fn is_plain(&self) -> (r: bool)
        ensures
            r == self.is_plain_spec(),
    {
        self.audio_stream_index.is_none() && self.subtitle_stream_index.is_none()
            && self.media_source_id.is_none() && match self.start_ticks {
            Some(t) => t == 0,
            None => true,
        }
    }
}

/// No embedded subtitle stream of `streams` is flagged external.
pub open spec fn no_external_embedded_subtitle(streams: Seq<Json>) -> bool {
    forall|k: int|
        0 <= k < streams.len() && indexed_stream_of(#[trigger] streams[k], "Subtitle"@) && get_str(
            streams[k],
            "DeliveryMethod"@,
        ) == Some("Embed"@) ==> !is_flag(streams[k], "IsExternal"@)
}

/// Track id `t` maps back to stream index `j` through `by_track`, and every
/// id handed out is below `next`.
pub open spec fn maps_back(by_track: Map<i64, i64>, by_index: Map<i64, i64>, next: int) -> bool {
    &&& forall|j: i64| #[trigger] by_index.contains_key(j) ==> by_index[j] < next
        && by_track.contains_key(by_index[j]) && by_track[by_index[j]] == j
}

proof fn lemma_audio_maps_back(streams: Seq<Json>)
    requires
        streams.len() < i64::MAX,
    ensures
        maps_back(audio_maps(streams).0, audio_maps(streams).1, audio_maps(streams).2),
    decreases streams.len(),
{
    if streams.len() > 0 {
        let init = streams.drop_last();
        lemma_audio_maps_back(init);
        let s = streams.last();
        assert(s == streams[streams.len() - 1]);
        let (bt, bi, next) = audio_maps(init);
        if indexed_stream_of(s, "Audio"@) && !is_flag(s, "IsExternal"@) {
            let jl = get_i64(s, "Index"@).unwrap();
            let bt2 = bt.insert(next as i64, jl);
            let bi2 = bi.insert(jl, next as i64);
            lemma_audio_next_bounded(init);
            assert(next as i64 == next);
            assert(audio_maps(streams) == (bt2, bi2, next + 1));
            assert forall|j: i64| #[trigger] bi2.contains_key(j) implies bi2[j] < next + 1
                && bt2.contains_key(bi2[j]) && bt2[bi2[j]] == j by {
                if j != jl {
                    assert(bi.contains_key(j));
                    assert(bi[j] < next);
                }
            }
        } else {
            assert(audio_maps(streams) == (bt, bi, next));
        }
    }
}

proof fn lemma_subtitle_maps_back(server: Seq<char>, streams: Seq<Json>)
    requires
        no_external_embedded_subtitle(streams),
        streams.len() < i64::MAX,
    ensures
        maps_back(
            subtitle_maps(server, streams).0,
            subtitle_maps(server, streams).1,
            subtitle_maps(server, streams).3,
        ),
    decreases streams.len(),
{
    if streams.len() > 0 {
        let init = streams.drop_last();
        assert forall|k: int|
            0 <= k < init.len() && indexed_stream_of(#[trigger] init[k], "Subtitle"@) && get_str(
                init[k],
                "DeliveryMethod"@,
            ) == Some("Embed"@) implies !is_flag(init[k], "IsExternal"@) by {
            assert(init[k] == streams[k]);
        }
        lemma_subtitle_maps_back(server, init);
        let s = streams.last();
        assert(s == streams[streams.len() - 1]);
        let (bt, bi, urls, next) = subtitle_maps(server, init);
        if indexed_stream_of(s, "Subtitle"@) {
            let jl = get_i64(s, "Index"@).unwrap();
            let after = if is_flag(s, "IsExternal"@) {
                next
            } else {
                next + 1
            };
            assert(after >= next);
            if get_str(s, "DeliveryMethod"@) == Some("Embed"@) {
                assert(!is_flag(s, "IsExternal"@));
                lemma_subtitle_next_bounded(server, init);
                assert(next as i64 == next);
                let bt2 = bt.insert(next as i64, jl);
                let bi2 = bi.insert(jl, next as i64);
                assert(subtitle_maps(server, streams).0 == bt2);
                assert(subtitle_maps(server, streams).1 == bi2);
                assert(subtitle_maps(server, streams).3 == next + 1);
                assert forall|j: i64| #[trigger] bi2.contains_key(j) implies bi2[j] < next + 1
                    && bt2.contains_key(bi2[j]) && bt2[bi2[j]] == j by {
                    if j != jl {
                        assert(bi.contains_key(j));
                        assert(bi[j] < next);
                    }
                }
            } else {
                assert(subtitle_maps(server, streams).0 == bt);
                assert(subtitle_maps(server, streams).1 == bi);
                assert(subtitle_maps(server, streams).3 == after);
            }
        } else {
            assert(subtitle_maps(server, streams) == (bt, bi, urls, next));
        }
    }
}

/// The track id an audio stream index maps to maps back to that index:
/// `mpv_audio_track_id` and the reverse lookup undo each other.
pub proof fn law_audio_track_ids_map_back(source: Json, j: i64)
    requires
        media_streams(source).len() < i64::MAX,
        audio_maps(media_streams(source)).1.contains_key(j),
    ensures
        audio_maps(media_streams(source)).0.contains_key(audio_maps(media_streams(source)).1[j]),
        audio_maps(media_streams(source)).0[audio_maps(media_streams(source)).1[j]] == j,
{
    lemma_audio_maps_back(media_streams(source));
}

/// An audio stream mpv has a track for: indexed and not external.
pub open spec fn is_mpv_audio(s: Json) -> bool {
    indexed_stream_of(s, "Audio"@) && !is_flag(s, "IsExternal"@)
}

/// A subtitle stream inside the file mpv plays: indexed and not external.
pub open spec fn is_in_file_subtitle(s: Json) -> bool {
    indexed_stream_of(s, "Subtitle"@) && !is_flag(s, "IsExternal"@)
}

/// How many of `streams` mpv numbers as audio tracks.
pub open spec fn mpv_audio_count(streams: Seq<Json>) -> int
    decreases streams.len(),
{
    if streams.len() == 0 {
        0
    } else {
        mpv_audio_count(streams.drop_last()) + if is_mpv_audio(streams.last()) {
            1int
        } else {
            0int
        }
    }
}

/// How many of `streams` mpv numbers as subtitle tracks.
pub open spec fn in_file_subtitle_count(streams: Seq<Json>) -> int
    decreases streams.len(),
{
    if streams.len() == 0 {
        0
    } else {
        in_file_subtitle_count(streams.drop_last()) + if is_in_file_subtitle(streams.last()) {
            1int
        } else {
            0int
        }
    }
}

/// No two streams that carry an `Index` carry the same one.
pub open spec fn distinct_indexes(streams: Seq<Json>) -> bool {
    forall|a: int, b: int|
        0 <= a < b < streams.len() && #[trigger] get_i64(streams[a], "Index"@) is Some
            ==> get_i64(streams[a], "Index"@) != #[trigger] get_i64(streams[b], "Index"@)
}

proof fn lemma_next_is_count(server: Seq<char>, streams: Seq<Json>)
    ensures
        audio_maps(streams).2 == 1 + mpv_audio_count(streams),
        subtitle_maps(server, streams).3 == 1 + in_file_subtitle_count(streams),
    decreases streams.len(),
{
    if streams.len() > 0 {
        lemma_next_is_count(server, streams.drop_last());
    }
}

proof fn lemma_counts_number(server: Seq<char>, streams: Seq<Json>, k: int)
    requires
        streams.len() < i64::MAX,
        distinct_indexes(streams),
        0 <= k < streams.len(),
    ensures
        is_mpv_audio(streams[k]) ==> {
            let j = get_i64(streams[k], "Index"@).unwrap();
            &&& audio_maps(streams).1.contains_key(j)
            &&& audio_maps(streams).1[j] == 1 + mpv_audio_count(streams.take(k))
        },
        indexed_stream_of(streams[k], "Subtitle"@) && get_str(streams[k], "DeliveryMethod"@) == Some(
            "Embed"@,
        ) ==> {
            let j = get_i64(streams[k], "Index"@).unwrap();
            &&& subtitle_maps(server, streams).1.contains_key(j)
            &&& subtitle_maps(server, streams).1[j] == 1 + in_file_subtitle_count(streams.take(k))
        },
    decreases streams.len(),
{
    let n = streams.len() as int;
    let init = streams.drop_last();
    let last = streams.last();
    assert(last == streams[n - 1]);
    assert(streams.take(n - 1) =~= init);
    let (bt, bi, next) = audio_maps(init);
    let (st, si, urls, snext) = subtitle_maps(server, init);
    let jl = get_i64(last, "Index"@).unwrap();
    if is_mpv_audio(last) {
        assert(audio_maps(streams).1 == bi.insert(jl, next as i64));
    } else {
        assert(audio_maps(streams).1 == bi);
    }
    let embed_last = indexed_stream_of(last, "Subtitle"@) && get_str(last, "DeliveryMethod"@) == Some(
        "Embed"@,
    );
    if embed_last {
        assert(subtitle_maps(server, streams).1 == si.insert(jl, snext as i64));
    } else {
        assert(subtitle_maps(server, streams).1 == si);
    }
    if k < n - 1 {
        assert(distinct_indexes(init)) by {
            assert forall|a: int, b: int|
                0 <= a < b < init.len() && #[trigger] get_i64(init[a], "Index"@) is Some implies get_i64(
                    init[a],
                    "Index"@,
                ) != #[trigger] get_i64(init[b], "Index"@) by {
                assert(init[a] == streams[a] && init[b] == streams[b]);
            }
        }
        assert(init[k] == streams[k]);
        assert(init.take(k) =~= streams.take(k));
        lemma_counts_number(server, init, k);
        if get_i64(streams[k], "Index"@) is Some {
            assert(get_i64(streams[k], "Index"@) != get_i64(streams[n - 1], "Index"@));
        }
    } else {
        lemma_next_is_count(server, init);
        lemma_audio_next_bounded(init);
        lemma_subtitle_next_bounded(server, init);
        assert(next as i64 == next);
        assert(snext as i64 == snext);
    }
}

/// mpv numbers the tracks it has in listing order: with every `Index`
/// distinct (and the stream count within `i64`), an audio stream mpv loads (not external) has the track id 1
/// plus the number of such audio streams before it, and an embedded
/// subtitle has 1 plus the number of in-file (not external) subtitles before
/// it.
pub proof fn law_tracks_are_counted_in_listing_order(server: Seq<char>, source: Json, k: int)
    requires
        media_streams(source).len() < i64::MAX,
        distinct_indexes(media_streams(source)),
        0 <= k < media_streams(source).len(),
    ensures
        is_mpv_audio(media_streams(source)[k]) ==> {
            let j = get_i64(media_streams(source)[k], "Index"@).unwrap();
            &&& audio_maps(media_streams(source)).1.contains_key(j)
            &&& audio_maps(media_streams(source)).1[j] == 1 + mpv_audio_count(
                media_streams(source).take(k),
            )
        },
        indexed_stream_of(media_streams(source)[k], "Subtitle"@) && get_str(
            media_streams(source)[k],
            "DeliveryMethod"@,
        ) == Some("Embed"@) ==> {
            let j = get_i64(media_streams(source)[k], "Index"@).unwrap();
            &&& subtitle_maps(server, media_streams(source)).1.contains_key(j)
            &&& subtitle_maps(server, media_streams(source)).1[j] == 1 + in_file_subtitle_count(
                media_streams(source).take(k),
            )
        },
{
    lemma_counts_number(server, media_streams(source), k);
}

/// With no embedded subtitle flagged external, the track id an embedded
/// subtitle index maps to maps back to that index.
pub proof fn law_subtitle_track_ids_map_back(server: Seq<char>, source: Json, j: i64)
    requires
        media_streams(source).len() < i64::MAX,
        no_external_embedded_subtitle(media_streams(source)),
        subtitle_maps(server, media_streams(source)).1.contains_key(j),
    ensures
        subtitle_maps(server, media_streams(source)).0.contains_key(
            subtitle_maps(server, media_streams(source)).1[j],
        ),
        subtitle_maps(server, media_streams(source)).0[subtitle_maps(
            server,
            media_streams(source),
        ).1[j]] == j,
{
    lemma_subtitle_maps_back(server, media_streams(source));
}

/// A prepared play sends the token in the `Authorization` header exactly
/// when no subtitle of its source lives on a foreign host: given the hosts
/// `foreign_subtitle_hosts` lists for that source, the header is used iff
/// that list is empty.
pub proof fn law_the_header_is_used_iff_no_subtitle_host_is_foreign(
    p: PreparedPlay,
    server: Seq<char>,
    item_id: Seq<char>,
    source: Json,
    play_session_id: Seq<char>,
    audio_stream_index: Option<i64>,
    subtitle_stream_index: Option<i64>,
    token: Seq<char>,
    hosts: Seq<Seq<char>>,
)
    requires
        prepared_from(
            p,
            server,
            item_id,
            source,
            play_session_id,
            audio_stream_index,
            subtitle_stream_index,
            token,
        ),
        forall|h: Seq<char>|
            #![trigger hosts.contains(h)]
            hosts.contains(h) <==> exists|i: int|
                0 <= i < media_streams(source).len() && foreign_host_of(server, media_streams(source)[i])
                    == Some(h),
    ensures
        p.uses_auth_header <==> hosts.len() == 0,
{
    let streams = media_streams(source);
    if hosts.len() > 0 {
        assert(hosts.contains(hosts[0]));
        let i = choose|i: int|
            0 <= i < streams.len() && foreign_host_of(server, streams[i]) == Some(hosts[0]);
        assert(foreign_host_of(server, streams[i]) is Some);
        assert(has_foreign_host(server, streams));
    }
    if has_foreign_host(server, streams) {
        let i = choose|i: int| 0 <= i < streams.len() && foreign_host_of(server, streams[i]) is Some;
        let h = foreign_host_of(server, streams[i]).unwrap();
        assert(hosts.contains(h));
    }
}

/// A play `prepare_play` prepares is that of the source it picks: the token
/// goes in the header exactly when the list of foreign subtitle hosts
/// (`hosts`, as `foreign_subtitle_hosts` gives it for that source) is empty,
/// the URL is what `direct_stream_url` builds for the server, the item, the
/// play's source and live stream ids and, only without the header, the
/// token; and the subtitle index is the requested one or else the source's
/// default.
pub proof fn law_a_prepared_play_follows_the_picked_source(
    playback_info: Json,
    preferred: Option<Seq<char>>,
    server: Seq<char>,
    item_id: Seq<char>,
    audio_stream_index: Option<i64>,
    subtitle_stream_index: Option<i64>,
    token: Seq<char>,
    r: Result<PreparedPlay, PrepareError>,
    picked: int,
    hosts: Seq<Seq<char>>,
)
    requires
        get_str(playback_info, "PlaySessionId"@) is Some,
        media_sources(playback_info) is Some,
        picks_source(media_sources(playback_info).unwrap(), preferred, picked),
        outcome_for_source(
            r,
            server,
            item_id,
            media_sources(playback_info).unwrap()[picked],
            get_str(playback_info, "PlaySessionId"@).unwrap(),
            audio_stream_index,
            subtitle_stream_index,
            token,
        ),
        r is Ok,
        forall|h: Seq<char>|
            #![trigger hosts.contains(h)]
            hosts.contains(h) <==> exists|i: int|
                0 <= i < media_streams(media_sources(playback_info).unwrap()[picked]).len()
                    && foreign_host_of(
                    server,
                    media_streams(media_sources(playback_info).unwrap()[picked])[i],
                ) == Some(h),
    ensures
        r matches Ok(p) && {
            let source = media_sources(playback_info).unwrap()[picked];
            &&& p.uses_auth_header <==> hosts.len() == 0
            &&& p.url@ == stream_url(
                server,
                item_id,
                encode_utf8(p.media_source_id@),
                match p.live_stream_id {
                    Some(l) => Some(encode_utf8(l@)),
                    None => None,
                },
                if p.uses_auth_header {
                    None
                } else {
                    Some(encode_utf8(token))
                },
            )
            &&& p.subtitle_stream_index == or_else(
                subtitle_stream_index,
                get_i64(source, "DefaultSubtitleStreamIndex"@),
            )
        },
{
    let source = media_sources(playback_info).unwrap()[picked];
    let p = r.unwrap();
    law_the_header_is_used_iff_no_subtitle_host_is_foreign(
        p,
        server,
        item_id,
        source,
        get_str(playback_info, "PlaySessionId"@).unwrap(),
        audio_stream_index,
        subtitle_stream_index,
        token,
        hosts,
    );
}

/// At most one source is the one to play: naming a source or weighing them
/// never leaves a choice between two.
pub proof fn law_one_source_is_picked(sources: Seq<Json>, preferred: Option<Seq<char>>, i: int, j: int)
    requires
        picks_source(sources, preferred, i),
        picks_source(sources, preferred, j),
    ensures
        i == j,
{
    if preferred is Some && names_source(sources, preferred.unwrap()) {
        if i < j {
            assert(get_str(sources[j], "Id"@) != preferred);
        } else if j < i {
            assert(get_str(sources[i], "Id"@) != preferred);
        }
    } else {
        if i < j {
            assert(source_weight(sources[i]) < source_weight(sources[j]));
        } else if j < i {
            assert(source_weight(sources[j]) < source_weight(sources[i]));
        }
    }
}

/// The window / OSC title: `Series - s1e02 - Name` for an episode with its
/// numbers, `Name (1995)` for a movie with a year, else the name
/// (`Jellyfin` when there is none).
pub open spec fn display_title_spec(item: Json) -> Seq<char> {
    let name = match get_str(item, "Name"@) {
        Some(n) => n,
        None => "Jellyfin"@,
    };
    let kind = get_str(item, "Type"@);
    if kind == Some("Episode"@) && get_str(item, "SeriesName"@) is Some && get_i64(
        item,
        "ParentIndexNumber"@,
    ) is Some && get_i64(item, "IndexNumber"@) is Some {
        get_str(item, "SeriesName"@).unwrap() + " - s"@ + signed_decimal(
            get_i64(item, "ParentIndexNumber"@).unwrap() as int,
        ) + "e"@ + two_digit_decimal(get_i64(item, "IndexNumber"@).unwrap() as int) + " - "@ + name
    } else if kind == Some("Movie"@) && get_i64(item, "ProductionYear"@) is Some {
        name + " ("@ + signed_decimal(get_i64(item, "ProductionYear"@).unwrap() as int) + ")"@
    } else {
        name
    }
}

fn type_is(item: &Json, kind: &str) -> (r: bool)
    ensures
        r == (get_str(*item, "Type"@) == Some(kind@)),
{
    match json_get_str(item, "Type") {
        Some(t) => str_eq(t.as_str(), kind),
        None => false,
    }
}

/// The window / OSC title of an item.
pub fn display_title(item: &Json) -> (r: String)
    ensures
        r@ == display_title_spec(*item),
{
    proof {
        reveal_strlit("Jellyfin");
    }
    let name = match json_get_str(item, "Name") {
        Some(n) => n.clone(),
        None => crate::text::owned("Jellyfin"),
    };
    if type_is(item, "Episode") {
        match (
            json_get_str(item, "SeriesName"),
            json_get_i64(item, "ParentIndexNumber"),
            json_get_i64(item, "IndexNumber"),
        ) {
            (Some(series), Some(season), Some(episode)) => {
                let mut t = series.clone();
                push_str(&mut t, " - s");
                let s1 = i64_decimal(season);
                push_str(&mut t, s1.as_str());
                push_str(&mut t, "e");
                let e1 = two_digit(episode);
                push_str(&mut t, e1.as_str());
                push_str(&mut t, " - ");
                push_str(&mut t, name.as_str());
                return t;
            },
            _ => {},
        }
    }
    if type_is(item, "Movie") {
        match json_get_i64(item, "ProductionYear") {
            Some(year) => {
                let mut t = name;
                push_str(&mut t, " (");
                let y = i64_decimal(year);
                push_str(&mut t, y.as_str());
                push_str(&mut t, ")");
                return t;
            },
            None => {},
        }
    }
    name
}

/// The `Items` of a listing, or none when it has no such array.
pub open spec fn listing_items(listing: Json) -> Seq<Json> {
    match get(listing, "Items"@) {
        Some(Json::Array(v)) => v@,
        _ => Seq::empty(),
    }
}

/// The position of the entry keyed `k`, if any.
pub open spec fn key_position(entries: Seq<(Seq<char>, Seq<char>)>, k: Seq<char>) -> Option<int>
    decreases entries.len(),
{
    if entries.len() == 0 {
        None
    } else if entries.last().0 == k {
        Some(entries.len() - 1)
    } else {
        key_position(entries.drop_last(), k)
    }
}

/// `entries` with `k` set to `v`: in place when present, else appended.
pub open spec fn upsert(entries: Seq<(Seq<char>, Seq<char>)>, k: Seq<char>, v: Seq<char>) -> Seq<(Seq<char>, Seq<char>)> {
    match key_position(entries, k) {
        Some(i) => entries.update(i, (k, v)),
        None => entries.push((k, v)),
    }
}

/// Display titles keyed by item id, over the items that have an `Id`; a
/// later item with the same id overwrites the title of an earlier one.
pub open spec fn titles_by_id(items: Seq<Json>) -> Seq<(Seq<char>, Seq<char>)>
    decreases items.len(),
{
    if items.len() == 0 {
        Seq::empty()
    } else {
        let rest = titles_by_id(items.drop_last());
        match get_str(items.last(), "Id"@) {
            Some(id) => upsert(rest, id, display_title_spec(items.last())),
            None => rest,
        }
    }
}

pub open spec fn pair_views(v: Seq<(String, String)>) -> Seq<(Seq<char>, Seq<char>)> {
    v.map_values(|p: (String, String)| (p.0@, p.1@))
}

fn key_position_exec(entries: &Vec<(String, String)>, k: &String) -> (r: Option<usize>)
    ensures
        match r {
            Some(i) => i < entries@.len() && key_position(pair_views(entries@), k@) == Some(i as int),
            None => key_position(pair_views(entries@), k@) is None,
        },
{
    let mut i: usize = entries.len();
    assert(pair_views(entries@).take(i as int) =~= pair_views(entries@));
    while i > 0
        invariant
            i <= entries@.len(),
            key_position(pair_views(entries@), k@) == key_position(pair_views(entries@).take(i as int), k@),
        decreases i,
    {
        assert(pair_views(entries@).take(i as int).drop_last() == pair_views(entries@).take(i - 1));
        if str_eq(entries[i - 1].0.as_str(), k.as_str()) {
            return Some(i - 1);
        }
        i = i - 1;
    }
    None
}

/// Display titles from a series episode listing, keyed by item id, in the
/// order the ids first appear.
pub fn episode_titles(listing: &Json) -> (r: Vec<(String, String)>)
    ensures
        pair_views(r@) == titles_by_id(listing_items(*listing)),
{
    let mut out: Vec<(String, String)> = Vec::new();
    let items: &Vec<Json> = match json_get(listing, "Items") {
        Some(v) => match json_as_array(v) {
            Some(a) => a,
            None => {
                assert(pair_views(out@) =~= Seq::<(Seq<char>, Seq<char>)>::empty());
                return out;
            },
        },
        None => {
            assert(pair_views(out@) =~= Seq::<(Seq<char>, Seq<char>)>::empty());
            return out;
        },
    };
    let ghost all = items@;
    assert(all == listing_items(*listing));
    assert(pair_views(out@) =~= Seq::<(Seq<char>, Seq<char>)>::empty());
    let mut i: usize = 0;
    while i < items.len()
        invariant
            i <= all.len(),
            items@ == all,
            pair_views(out@) == titles_by_id(all.take(i as int)),
        decreases all.len() - i,
    {
        assert(all.take(i + 1).drop_last() == all.take(i as int));
        let it = &items[i];
        match json_get_str(it, "Id") {
            Some(id) => {
                let title = display_title(it);
                let ghost before = pair_views(out@);
                match key_position_exec(&out, id) {
                    Some(p) => {
                        out.set(p, (id.clone(), title));
                        assert(pair_views(out@) =~= before.update(p as int, (id@, display_title_spec(*it))));
                    },
                    None => {
                        out.push((id.clone(), title));
                        assert(pair_views(out@) =~= before.push((id@, display_title_spec(*it))));
                    },
                }
            },
            None => {},
        }
        i = i + 1;
    }
    assert(all.take(all.len() as int) == all);
    out
}

/// The item's `Type`.
pub fn item_type(item: &Json) -> (r: Option<&str>)
    ensures
        opt_str(r) == get_str(*item, "Type"@),
{
    match json_get_str(item, "Type") {
        Some(s) => Some(s.as_str()),
        None => None,
    }
}

/// The item's `SeriesId`.
pub fn series_id(item: &Json) -> (r: Option<&str>)
    ensures
        opt_str(r) == get_str(*item, "SeriesId"@),
{
    match json_get_str(item, "SeriesId") {
        Some(s) => Some(s.as_str()),
        None => None,
    }
}

} // verus!
