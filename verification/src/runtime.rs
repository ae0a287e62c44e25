//! The player's decisions, apart from the mpv and Jellyfin I/O that carries
//! them out: reconnect pacing, what a series expansion adds to the queue,
//! which mpv track a Jellyfin stream is, and what a track change in the mpv
//! window means.
use crate::cast::id_views;
use crate::jellyfin::{direct_stream_url, stream_url, ApiIdentity};
use crate::text::{find, find_str};
use crate::json::Json;
use crate::media::{key_position, pair_views, PreparedPlay, StreamMaps};
use crate::mpv::SelectedTrack;
use crate::report::PlayingState;
use crate::series::{
    contains_id, ids_missing_from, listing_id_list, listing_ids, missing_from, opt_str,
    playlist_stub_entry, split_at_current, split_episode_ids,
};
use crate::track::TrackKind;
use crate::window::{is_now_playing, render_now_playing, PlaylistWindow};
use std::collections::HashMap;
use vstd::prelude::*;
use vstd::std_specs::hash::spec_hash_map_iter;
use vstd::std_specs::iter::IteratorSpec;
use vstd::utf8::encode_utf8;

verus! {

broadcast use vstd::std_specs::hash::group_hash_axioms;

/// The first reconnect delay, in milliseconds.
pub const BACKOFF_MIN_MS: u64 = 1000;

/// The longest reconnect delay, in milliseconds.
pub const BACKOFF_MAX_MS: u64 = 60000;

/// A session that stayed up at least this long, in milliseconds, is treated
/// as having worked.
pub const SESSION_HEALTHY_AFTER_MS: u64 = 60000;

/// How long to wait before the next reconnect: the longest delay after an
/// expired token (retrying it fast is pointless), the shortest after a
/// session that stayed up, else the delay as it has grown.
pub fn reconnect_delay(current_ms: u64, session_lasted_ms: u64, auth_expired: bool) -> (r: u64)
    ensures
        r == if auth_expired {
            BACKOFF_MAX_MS
        } else if session_lasted_ms >= SESSION_HEALTHY_AFTER_MS {
            BACKOFF_MIN_MS
        } else {
            current_ms
        },
{
    if auth_expired {
        BACKOFF_MAX_MS
    } else if session_lasted_ms >= SESSION_HEALTHY_AFTER_MS {
        BACKOFF_MIN_MS
    } else {
        current_ms
    }
}

/// The delay after one more failed attempt: doubled, capped at the maximum.
pub fn grown_backoff(current_ms: u64) -> (r: u64)
    ensures
        r == if 2 * current_ms < BACKOFF_MAX_MS {
            2 * current_ms
        } else {
            BACKOFF_MAX_MS as int
        },
{
    if current_ms >= BACKOFF_MAX_MS / 2 {
        BACKOFF_MAX_MS
    } else {
        current_ms * 2
    }
}

/// Reconnect pacing never leaves the bounds it starts in: from a delay
/// within them, both the next delay and the grown one stay within them.
pub proof fn law_backoff_stays_within_bounds(current_ms: u64, session_lasted_ms: u64, auth_expired: bool)
    requires
        BACKOFF_MIN_MS <= current_ms <= BACKOFF_MAX_MS,
    ensures
        ({
            let d = if auth_expired {
                BACKOFF_MAX_MS
            } else if session_lasted_ms >= SESSION_HEALTHY_AFTER_MS {
                BACKOFF_MIN_MS
            } else {
                current_ms
            };
            let g = if 2 * d < BACKOFF_MAX_MS {
                2 * d
            } else {
                BACKOFF_MAX_MS as int
            };
            &&& BACKOFF_MIN_MS <= d <= BACKOFF_MAX_MS
            &&& BACKOFF_MIN_MS <= g <= BACKOFF_MAX_MS
        }),
{
}

/// The resume offset to seek to once the file loads: only a positive one.
pub fn resume_seek_ticks(start_ticks: Option<i64>) -> (r: Option<i64>)
    ensures
        r == match start_ticks {
            Some(t) => if t > 0 {
                Some(t)
            } else {
                None
            },
            None => None,
        },
{
    match start_ticks {
        Some(t) => if t > 0 {
            Some(t)
        } else {
            None
        },
        None => None,
    }
}

/// What is playing, for the CLI's status query.
#[derive(Debug, Clone, PartialEq, Eq)]
pub struct NowPlaying {
    pub item_id: String,
    pub title: String,
    pub position_ticks: i64,
    pub is_paused: bool,
    pub is_muted: bool,
    pub volume: i64,
    pub has_next: bool,
    pub has_previous: bool,
    pub queue_index: usize,
    pub queue_len: usize,
}

/// The daemon's answer to a status query.
#[derive(Debug, Clone, PartialEq, Eq)]
pub struct PlayerStatus {
    pub server: String,
    pub username: String,
    pub now_playing: Option<NowPlaying>,
}

impl PlayerStatus {
    /// Connected, playing nothing.
    pub fn idle(server: String, username: String) -> (r: PlayerStatus)
        ensures
            r.server == server,
            r.username == username,
            r.now_playing is None,
    {
        PlayerStatus { server, username, now_playing: None }
    }
}

/// The listing's episodes around the current one, as the queue takes them.
#[derive(Debug, Clone, PartialEq, Eq)]
pub struct SeriesExpansion {
    /// The episodes after the current one, for the end of the queue.
    pub append: Vec<String>,
    /// The episodes before it that the queue lacks, for its front.
    pub prepend: Vec<String>,
}

/// Whether a series listing is worth fetching: for an episode of a series,
/// its titles feed the playlist selector even when the queue stays as it is.
pub fn wants_series_listing(item_type: Option<&str>, series_id: Option<&str>) -> (r: bool)
    ensures
        r == (opt_str(item_type) == Some("Episode"@) && series_id is Some),
{
    match (item_type, series_id) {
        (Some(t), Some(_)) => crate::text::str_eq(t, "Episode"),
        _ => false,
    }
}

/// What a series listing adds around `current_id`. Nothing at all when the
/// current episode is not in the listing (specials, library churn): the
/// expansion fails closed rather than guessing. Otherwise the later episodes
/// are appended unless `forward_skip` gives a reason not to, and the earlier
/// ones the queue (with that append) lacks are prepended unless
/// `prepend_skip` does.
pub fn plan_series_expansion(
    listing: &Json,
    current_id: &str,
    forward_skip: Option<&str>,
    prepend_skip: Option<&str>,
    queue: &Vec<String>,
) -> (r: Option<SeriesExpansion>)
    ensures
        r is None <==> !listing_ids(*listing).contains(current_id@),
        r matches Some(x) ==> {
            let (previous, rest) = split_at_current(listing_ids(*listing), current_id@);
            &&& id_views(x.append@) == if forward_skip is None {
                rest
            } else {
                Seq::<Seq<char>>::empty()
            }
            &&& id_views(x.prepend@) == if prepend_skip is None {
                missing_from(previous, id_views(queue@) + id_views(x.append@))
            } else {
                Seq::<Seq<char>>::empty()
            }
        },
{
    let ids = listing_id_list(listing);
    let current = crate::text::owned(current_id);
    if !contains_id(&ids, &current) {
        return None;
    }
    let (previous, rest) = split_episode_ids(listing, current_id);
    let append = if forward_skip.is_none() {
        rest
    } else {
        let e: Vec<String> = Vec::new();
        assert(id_views(e@) =~= Seq::<Seq<char>>::empty());
        e
    };
    let prepend = if prepend_skip.is_none() {
        let mut after = crate::window::clone_range(queue, 0, queue.len());
        let mut tail = crate::window::clone_range(&append, 0, append.len());
        after.append(&mut tail);
        assert(queue@.subrange(0, queue@.len() as int) == queue@);
        assert(append@.subrange(0, append@.len() as int) == append@);
        assert(id_views(after@) =~= id_views(queue@) + id_views(append@));
        ids_missing_from(&previous, &after)
    } else {
        let e: Vec<String> = Vec::new();
        assert(id_views(e@) =~= Seq::<Seq<char>>::empty());
        e
    };
    Some(SeriesExpansion { append, prepend })
}

/// The title cached for `id`, if any.
pub open spec fn cached_title(titles: Seq<(String, String)>, id: Seq<char>) -> Option<Seq<char>> {
    match key_position(pair_views(titles), id) {
        Some(i) => Some(titles[i].1@),
        None => None,
    }
}

/// The stub URL of playlist row `id`: its stream URL, with the token only
/// when given one.
pub open spec fn stub_url(server: Seq<char>, id: Seq<char>, token: Option<Seq<char>>) -> Seq<char> {
    stream_url(
        server,
        id,
        encode_utf8(id),
        None,
        match token {
            Some(t) => Some(encode_utf8(t)),
            None => None,
        },
    )
}

fn title_for<'a>(titles: &'a Vec<(String, String)>, id: &String) -> (r: Option<&'a str>)
    ensures
        opt_str(r) == cached_title(titles@, id@),
{
    let mut i: usize = titles.len();
    assert(pair_views(titles@).take(i as int) =~= pair_views(titles@));
    while i > 0
        invariant
            i <= titles@.len(),
            key_position(pair_views(titles@), id@) == key_position(pair_views(titles@).take(i as int), id@),
        decreases i,
    {
        assert(pair_views(titles@).take(i as int).drop_last() == pair_views(titles@).take(i - 1));
        if crate::text::str_eq(titles[i - 1].0.as_str(), id.as_str()) {
            return Some(titles[i - 1].1.as_str());
        }
        i = i - 1;
    }
    None
}

/// `(title, stub url)` for each id: the cached title or, without one, the
/// tokenless URL, so the token never reaches mpv's playlist selector.
pub fn playlist_stub_entries(
    server: &str,
    ids: &Vec<String>,
    titles: &Vec<(String, String)>,
    token: Option<&str>,
) -> (r: Vec<(String, String)>)
    ensures
        r@.len() == ids@.len(),
        forall|i: int|
            0 <= i < ids@.len() ==> {
                &&& (#[trigger] r@[i]).1@ == stub_url(server@, ids@[i]@, opt_str(token))
                &&& r@[i].0@ == match cached_title(titles@, ids@[i]@) {
                    Some(t) => t,
                    None => stub_url(server@, ids@[i]@, None),
                }
            },
{
    let mut out: Vec<(String, String)> = Vec::new();
    let mut i: usize = 0;
    while i < ids.len()
        invariant
            i <= ids@.len(),
            out@.len() == i,
            forall|j: int|
                0 <= j < i ==> {
                    &&& (#[trigger] out@[j]).1@ == stub_url(server@, ids@[j]@, opt_str(token))
                    &&& out@[j].0@ == match cached_title(titles@, ids@[j]@) {
                        Some(t) => t,
                        None => stub_url(server@, ids@[j]@, None),
                    }
                },
        decreases ids@.len() - i,
    {
        let id = &ids[i];
        let title = title_for(titles, id);
        let row = playlist_stub_entry(server, id.as_str(), title, token);
        out.push(row);
        i = i + 1;
    }
    out
}

/// The entry of `m` that maps to `value`, if any (of several, any one).
fn key_with_value(m: &HashMap<i64, i64>, value: i64) -> (r: Option<i64>)
    ensures
        match r {
            Some(k) => m@.contains_key(k) && m@[k] == value,
            None => forall|k: i64| #[trigger] m@.contains_key(k) ==> m@[k] != value,
        },
{
    let ghost all = spec_hash_map_iter(m).remaining();
    let ghost mut n: int = 0;
    let mut found: Option<i64> = None;
    for e in it: m.iter()
        invariant
            it.seq() == all,
            all == spec_hash_map_iter(m).remaining(),
            n == it.index(),
            match found {
                Some(k) => m@.contains_key(k) && m@[k] == value,
                None => forall|j: int| 0 <= j < n ==> *(#[trigger] all[j]).1 != value,
            },
    {
        assert(e == all[n]);
        let (k, v) = e;
        if found.is_none() && *v == value {
            found = Some(*k);
        }
        proof {
            n = n + 1;
        }
    }
    assert(n == all.len());
    proof {
        if found is None {
            assert forall|k: i64| #[trigger] m@.contains_key(k) implies m@[k] != value by {
                assert(all.contains((&k, &m@[k])));
                let j = choose|j: int| 0 <= j < all.len() && all[j] == (&k, &m@[k]);
                assert(*all[j].1 != value);
            }
        }
    }
    found
}

fn lookup(m: &HashMap<i64, i64>, k: i64) -> (r: Option<i64>)
    ensures
        match r {
            Some(v) => m@.contains_key(k) && m@[k] == v,
            None => !m@.contains_key(k),
        },
{
    match m.get(&k) {
        Some(v) => Some(*v),
        None => None,
    }
}

/// `m` maps `k` to `r`, or lacks `k` when `r` is `None`.
pub open spec fn found_in(m: Map<i64, i64>, k: i64, r: Option<i64>) -> bool {
    match r {
        Some(v) => m.contains_key(k) && m[k] == v,
        None => !m.contains_key(k),
    }
}

/// The mpv track id for a Jellyfin stream index: a `sub-add`ed external
/// subtitle first, then the embedded numbering of the current item.
pub fn mpv_track_id_for(
    maps: Option<&StreamMaps>,
    external_subtitles: &HashMap<i64, i64>,
    kind: TrackKind,
    jellyfin_index: i64,
) -> (r: Option<i64>)
    ensures
        kind == TrackKind::Subtitle && external_subtitles@.contains_key(jellyfin_index) ==> r == Some(
            external_subtitles@[jellyfin_index],
        ),
        !(kind == TrackKind::Subtitle && external_subtitles@.contains_key(jellyfin_index)) ==> match maps {
            None => r is None,
            Some(m) => if kind == TrackKind::Audio {
                found_in(m.audio_track_id_by_stream_index@, jellyfin_index, r)
            } else {
                found_in(m.subtitle_track_id_by_stream_index@, jellyfin_index, r)
            },
        },
{
    if kind == TrackKind::Subtitle {
        match lookup(external_subtitles, jellyfin_index) {
            Some(t) => return Some(t),
            None => {},
        }
    }
    match maps {
        None => None,
        Some(m) => match kind {
            TrackKind::Audio => lookup(&m.audio_track_id_by_stream_index, jellyfin_index),
            TrackKind::Subtitle => lookup(&m.subtitle_track_id_by_stream_index, jellyfin_index),
        },
    }
}

/// The Jellyfin stream index an mpv track id came from: `sub-add` appends,
/// so external subtitle ids sit above the embedded numbering and are looked
/// up first.
pub fn jellyfin_index_of(
    maps: Option<&StreamMaps>,
    external_subtitles: &HashMap<i64, i64>,
    kind: TrackKind,
    track_id: i64,
) -> (r: Option<i64>)
    ensures
        kind == TrackKind::Subtitle && (exists|j: i64|
            #[trigger] external_subtitles@.contains_key(j) && external_subtitles@[j] == track_id)
            ==> (r matches Some(j) && external_subtitles@.contains_key(j) && external_subtitles@[j]
            == track_id),
        !(kind == TrackKind::Subtitle && (exists|j: i64|
            #[trigger] external_subtitles@.contains_key(j) && external_subtitles@[j] == track_id))
            ==> match maps {
            None => r is None,
            Some(m) => if kind == TrackKind::Audio {
                found_in(m.audio_stream_index_by_track_id@, track_id, r)
            } else {
                found_in(m.subtitle_stream_index_by_track_id@, track_id, r)
            },
        },
{
    if kind == TrackKind::Subtitle {
        match key_with_value(external_subtitles, track_id) {
            Some(j) => return Some(j),
            None => {},
        }
    }
    match maps {
        None => None,
        Some(m) => match kind {
            TrackKind::Audio => lookup(&m.audio_stream_index_by_track_id, track_id),
            TrackKind::Subtitle => lookup(&m.subtitle_stream_index_by_track_id, track_id),
        },
    }
}

/// What a track change in the mpv window means.
#[derive(Debug, Clone, Copy, PartialEq, Eq, Structural)]
pub enum TrackAdoption {
    /// Nothing to do: a file is loading, the read failed, nothing changed,
    /// or mpv is between tracks.
    Ignore,
    /// A track Jellyfin does not have: unreportable, but the new baseline so
    /// it stops re-firing.
    Settle,
    /// The user picked this stream (`-1` for off): remember and report it.
    Report { jellyfin_index: i64 },
}

/// Judges mpv's live selection (`None` when it could not be read) against
/// the last selection that was ours.
pub fn track_adoption(
    transitioning: bool,
    stopping: bool,
    maps: Option<&StreamMaps>,
    external_subtitles: &HashMap<i64, i64>,
    kind: TrackKind,
    selected: Option<SelectedTrack>,
    settled: SelectedTrack,
) -> (r: TrackAdoption)
    ensures
        transitioning || stopping || maps is None ==> r == TrackAdoption::Ignore,
        !(transitioning || stopping || maps is None) ==> match selected {
            None => r == TrackAdoption::Ignore,
            Some(s) => if s == settled {
                r == TrackAdoption::Ignore
            } else {
                match s {
                    SelectedTrack::Unresolved => r == TrackAdoption::Ignore,
                    SelectedTrack::Off => r == (TrackAdoption::Report { jellyfin_index: -1i64 }),
                    SelectedTrack::Id(t) => match r {
                        TrackAdoption::Report { jellyfin_index } => {
                            let m = maps.unwrap();
                            if kind == TrackKind::Subtitle && (exists|j: i64|
                                #[trigger] external_subtitles@.contains_key(j)
                                    && external_subtitles@[j] == t) {
                                external_subtitles@.contains_key(jellyfin_index)
                                    && external_subtitles@[jellyfin_index] == t
                            } else if kind == TrackKind::Audio {
                                found_in(m.audio_stream_index_by_track_id@, t, Some(jellyfin_index))
                            } else {
                                found_in(m.subtitle_stream_index_by_track_id@, t, Some(jellyfin_index))
                            }
                        },
                        TrackAdoption::Settle => {
                            let m = maps.unwrap();
                            &&& !(kind == TrackKind::Subtitle && (exists|j: i64|
                                #[trigger] external_subtitles@.contains_key(j)
                                    && external_subtitles@[j] == t))
                            &&& if kind == TrackKind::Audio {
                                !m.audio_stream_index_by_track_id@.contains_key(t)
                            } else {
                                !m.subtitle_stream_index_by_track_id@.contains_key(t)
                            }
                        },
                        TrackAdoption::Ignore => false,
                    },
                }
            },
        },
{
    if transitioning || stopping || maps.is_none() {
        return TrackAdoption::Ignore;
    }
    let s = match selected {
        Some(s) => s,
        None => return TrackAdoption::Ignore,
    };
    if s == settled {
        return TrackAdoption::Ignore;
    }
    match s {
        SelectedTrack::Unresolved => TrackAdoption::Ignore,
        SelectedTrack::Off => TrackAdoption::Report { jellyfin_index: -1 },
        SelectedTrack::Id(t) => match jellyfin_index_of(maps, external_subtitles, kind, t) {
            Some(j) => TrackAdoption::Report { jellyfin_index: j },
            None => TrackAdoption::Settle,
        },
    }
}

/// How to point mpv at a Jellyfin stream index.
#[derive(Debug, Clone, Copy, PartialEq, Eq, Structural)]
pub enum TrackApply {
    /// No mpv to tell.
    Nothing,
    /// A negative index: an explicit off (`aid=no` / `sid=no`).
    Disable,
    /// Select this mpv track.
    Select { track_id: i64 },
    /// The index is in neither the embedded nor the external map.
    Unmapped,
}

pub fn track_apply(
    has_mpv: bool,
    maps: Option<&StreamMaps>,
    external_subtitles: &HashMap<i64, i64>,
    kind: TrackKind,
    jellyfin_index: i64,
) -> (r: TrackApply)
    ensures
        !has_mpv ==> r == TrackApply::Nothing,
        has_mpv && jellyfin_index < 0 ==> r == TrackApply::Disable,
        has_mpv && jellyfin_index >= 0 ==> {
            let m = if kind == TrackKind::Subtitle && external_subtitles@.contains_key(jellyfin_index) {
                Some(external_subtitles@[jellyfin_index])
            } else {
                match maps {
                    None => None,
                    Some(x) => {
                        let table = if kind == TrackKind::Audio {
                            x.audio_track_id_by_stream_index@
                        } else {
                            x.subtitle_track_id_by_stream_index@
                        };
                        if table.contains_key(jellyfin_index) {
                            Some(table[jellyfin_index])
                        } else {
                            None
                        }
                    },
                }
            };
            match m {
                Some(t) => r == (TrackApply::Select { track_id: t }),
                None => r == TrackApply::Unmapped,
            }
        },
{
    if !has_mpv {
        return TrackApply::Nothing;
    }
    if jellyfin_index < 0 {
        return TrackApply::Disable;
    }
    match mpv_track_id_for(maps, external_subtitles, kind, jellyfin_index) {
        Some(t) => TrackApply::Select { track_id: t },
        None => TrackApply::Unmapped,
    }
}

/// The state reported to Jellyfin while `current` plays, or `None` with
/// nothing playing. A missing stream choice reports as `-1`.
pub fn snapshot(
    current: Option<&PreparedPlay>,
    item_id: Option<&String>,
    position_ticks: i64,
    is_paused: bool,
    is_muted: bool,
    volume: i64,
    queue: &Vec<String>,
) -> (r: Option<PlayingState>)
    ensures
        r is None <==> (current is None || item_id is None),
        r matches Some(s) ==> {
            let p = current.unwrap();
            &&& s.item_id@ == item_id.unwrap()@
            &&& s.media_source_id@ == p.media_source_id@
            &&& s.play_session_id@ == p.play_session_id@
            &&& s.position_ticks == position_ticks
            &&& s.is_paused == is_paused
            &&& s.is_muted == is_muted
            &&& s.volume == volume
            &&& s.audio_stream_index == match p.audio_stream_index {
                Some(a) => a,
                None => -1i64,
            }
            &&& s.subtitle_stream_index == match p.subtitle_stream_index {
                Some(a) => a,
                None => -1i64,
            }
            &&& s.can_seek
            &&& is_now_playing(s.now_playing_queue@, queue@)
        },
{
    let p = match current {
        Some(p) => p,
        None => return None,
    };
    let id = match item_id {
        Some(i) => i,
        None => return None,
    };
    Some(PlayingState {
        item_id: id.clone(),
        media_source_id: p.media_source_id.clone(),
        play_session_id: p.play_session_id.clone(),
        position_ticks,
        is_paused,
        is_muted,
        volume,
        audio_stream_index: match p.audio_stream_index {
            Some(a) => a,
            None => -1,
        },
        subtitle_stream_index: match p.subtitle_stream_index {
            Some(a) => a,
            None => -1,
        },
        can_seek: true,
        now_playing_queue: render_now_playing(queue),
    })
}

/// The URL that carries the token itself: the prepared URL when it already
/// has an `ApiKey`, else the item's DirectPlay URL with the token added.
pub open spec fn url_with_token(server: Seq<char>, token: Seq<u8>, item_id: Seq<char>, p: PreparedPlay) -> Seq<char> {
    if find(p.url@, "ApiKey="@) is Some {
        p.url@
    } else {
        stream_url(
            server,
            item_id,
            encode_utf8(p.media_source_id@),
            match p.live_stream_id {
                Some(l) => Some(encode_utf8(l@)),
                None => None,
            },
            Some(token),
        )
    }
}

/// The stream URL with the access token on it, for an mpv that does not
/// carry the Authorization header.
pub fn stream_url_with_token(api: &ApiIdentity, item_id: &str, prep: &PreparedPlay) -> (r: String)
    ensures
        r@ == url_with_token(api.server@, encode_utf8(api.token@), item_id@, *prep),
{
    if find_str(prep.url.as_str(), "ApiKey=").is_some() {
        return prep.url.clone();
    }
    let live: Option<&str> = match &prep.live_stream_id {
        Some(l) => Some(l.as_str()),
        None => None,
    };
    let u = direct_stream_url(
        api.server.as_str(),
        item_id,
        prep.media_source_id.as_str(),
        live,
        Some(api.token.as_str()),
    );
    u
}

/// Whether mpv should be given the Authorization header for this play
/// rather than a token on the URL.
pub fn wants_auth_header(force_url_token: bool, prep: &PreparedPlay) -> (r: bool)
    ensures
        r == (!force_url_token && prep.uses_auth_header),
{
    !force_url_token && prep.uses_auth_header
}

/// The URL handed to mpv: the prepared URL when mpv carries the header
/// (`header_set`), else one with the token on it.
pub fn playback_url(api: &ApiIdentity, prep: &PreparedPlay, item_id: &str, header_set: bool) -> (r: String)
    ensures
        r@ == if header_set {
            prep.url@
        } else {
            url_with_token(api.server@, encode_utf8(api.token@), item_id@, *prep)
        },
{
    if header_set {
        prep.url.clone()
    } else {
        stream_url_with_token(api, item_id, prep)
    }
}

/// A volume clamped to mpv's `0..=100`.
pub open spec fn clamped_volume(v: int) -> i64 {
    if v < 0 {
        0
    } else if v > 100 {
        100
    } else {
        v as i64
    }
}

/// The volume a remote set, clamped to `0..=100`.
pub fn set_volume_level(volume: i64) -> (r: i64)
    ensures
        r == clamped_volume(volume as int),
{
    if volume < 0 {
        0
    } else if volume > 100 {
        100
    } else {
        volume
    }
}

/// The volume after a step up or down with no mpv to ask: the sum, clamped
/// to `0..=100`.
pub fn bumped_volume(current: i64, delta: i64) -> (r: i64)
    ensures
        r == clamped_volume(current + delta),
{
    let sum: i128 = current as i128 + delta as i128;
    if sum < 0 {
        0
    } else if sum > 100 {
        100
    } else {
        sum as i64
    }
}

/// What the status query and MPRIS show: nothing playing without a current
/// play, else the play's item and title, the sampled position and mixer
/// state, and where it sits in the queue.
pub fn player_status(
    server: &str,
    username: &str,
    current: Option<&PreparedPlay>,
    item_id: Option<&String>,
    position_ticks: i64,
    paused: bool,
    muted: bool,
    volume: i64,
    window: &PlaylistWindow,
) -> (r: PlayerStatus)
    ensures
        r.server@ == server@,
        r.username@ == username@,
        r.now_playing is None <==> (current is None || item_id is None),
        r.now_playing matches Some(np) ==> {
            &&& np.item_id@ == item_id.unwrap()@
            &&& np.title@ == current.unwrap().title@
            &&& np.position_ticks == position_ticks
            &&& np.is_paused == paused
            &&& np.is_muted == muted
            &&& np.volume == volume
            &&& np.has_next == window.queue_spec().has_next_spec()
            &&& np.has_previous == (window.queue_spec().index > 0)
            &&& np.queue_index == window.queue_spec().index
            &&& np.queue_len == window.queue_spec().items@.len()
        },
{
    let now_playing = match (current, item_id) {
        (Some(p), Some(id)) => Some(NowPlaying {
            item_id: id.clone(),
            title: p.title.clone(),
            position_ticks,
            is_paused: paused,
            is_muted: muted,
            volume,
            has_next: window.has_next(),
            has_previous: window.index() > 0,
            queue_index: window.index(),
            queue_len: window.len(),
        }),
        _ => None,
    };
    PlayerStatus { server: crate::text::owned(server), username: crate::text::owned(username), now_playing }
}

} // verus!
