//! The library and playback endpoints: their paths, query strings and
//! request bodies.
use crate::jellyfin::{encode_bytes, encode_query_value};
use crate::json::Json;
use crate::media::PlayRequest;
use crate::profile::{device_profile, is_device_profile};
use crate::text::{bool_string, bool_text, decimal, owned, push_str, u64_decimal};
use vstd::prelude::*;
use vstd::utf8::encode_utf8;

verus! {

/// The fields requested on every listing, so a row renders without a second
/// round trip.
pub const ITEM_FIELDS: &'static str = "Overview,ProductionYear";

/// How many episodes a series listing asks for: one request covers a long
/// running series.
pub const EPISODE_LIMIT: u32 = 500;

/// The `/Items` parameters that vary between screens.
#[derive(Debug, Clone, PartialEq, Eq)]
pub struct ItemQuery {
    pub parent_id: Option<String>,
    pub search_term: Option<String>,
    pub include_item_types: Option<String>,
    pub recursive: bool,
    pub sort_by: Option<String>,
    pub start_index: Option<u32>,
    pub limit: Option<u32>,
}

/// A value percent-encoded as a query value.
pub open spec fn encoded(s: Seq<char>) -> Seq<char> {
    encode_bytes(encode_utf8(s))
}

pub open spec fn opt_text(s: Option<String>) -> Option<Seq<char>> {
    match s {
        Some(x) => Some(x@),
        None => None,
    }
}

/// `&key=value` with the value encoded, or nothing.
pub open spec fn param(key: Seq<char>, value: Option<Seq<char>>) -> Seq<char> {
    match value {
        Some(v) => "&"@ + key + "="@ + encoded(v),
        None => Seq::empty(),
    }
}

pub open spec fn number_param(key: Seq<char>, value: Option<u32>) -> Seq<char> {
    match value {
        Some(n) => "&"@ + key + "="@ + decimal(n as nat),
        None => Seq::empty(),
    }
}

impl ItemQuery {
    /// Nothing chosen: the library root, not recursive.
    pub fn new() -> (q: ItemQuery)
        ensures
            q.parent_id is None,
            q.search_term is None,
            q.include_item_types is None,
            !q.recursive,
            q.sort_by is None,
            q.start_index is None,
            q.limit is None,
    {
        ItemQuery {
            parent_id: None,
            search_term: None,
            include_item_types: None,
            recursive: false,
            sort_by: None,
            start_index: None,
            limit: None,
        }
    }

    /// The direct children of one folder, by name.
    pub fn in_folder(parent_id: &str) -> (q: ItemQuery)
        ensures
            opt_text(q.parent_id) == Some(parent_id@),
            q.search_term is None,
            q.include_item_types is None,
            !q.recursive,
            opt_text(q.sort_by) == Some("SortName"@),
            q.start_index is None,
            q.limit is None,
    {
        let mut q = ItemQuery::new();
        q.parent_id = Some(owned(parent_id));
        q.sort_by = Some(owned("SortName"));
        q
    }

    /// A search over the whole library, which is what makes it recursive.
    pub fn search(term: &str) -> (q: ItemQuery)
        ensures
            q.parent_id is None,
            opt_text(q.search_term) == Some(term@),
            q.include_item_types is None,
            q.recursive,
            q.sort_by is None,
            q.start_index is None,
            q.limit is None,
    {
        let mut q = ItemQuery::new();
        q.search_term = Some(owned(term));
        q.recursive = true;
        q
    }

    pub fn with_types(self, include_item_types: &str) -> (q: ItemQuery)
        ensures
            opt_text(q.include_item_types) == Some(include_item_types@),
            q.parent_id == self.parent_id,
            q.search_term == self.search_term,
            q.recursive == self.recursive,
            q.sort_by == self.sort_by,
            q.start_index == self.start_index,
            q.limit == self.limit,
    {
        let mut q = self;
        q.include_item_types = Some(owned(include_item_types));
        q
    }

    pub fn page(self, start_index: u32, limit: u32) -> (q: ItemQuery)
        ensures
            q.start_index == Some(start_index),
            q.limit == Some(limit),
            q.parent_id == self.parent_id,
            q.search_term == self.search_term,
            q.include_item_types == self.include_item_types,
            q.recursive == self.recursive,
            q.sort_by == self.sort_by,
    {
        let mut q = self;
        q.start_index = Some(start_index);
        q.limit = Some(limit);
        q
    }

    /// The query string: user, fields and recursion always, then each
    /// parameter that is set, values encoded.
    pub open spec fn query_spec(&self, user_id: Seq<char>) -> Seq<char> {
        "userId="@ + encoded(user_id) + "&Fields=Overview,ProductionYear&Recursive="@ + bool_text(
            self.recursive,
        ) + param("ParentId"@, opt_text(self.parent_id)) + param(
            "searchTerm"@,
            opt_text(self.search_term),
        ) + param("IncludeItemTypes"@, opt_text(self.include_item_types)) + param(
            "SortBy"@,
            opt_text(self.sort_by),
        ) + number_param("StartIndex"@, self.start_index) + number_param("Limit"@, self.limit)
    }

    pub fn to_query(&self, user_id: &str) -> (r: String)
        ensures
            r@ == self.query_spec(user_id@),
    {
        proof {
            reveal_strlit("&Fields=");
            reveal_strlit("Overview,ProductionYear");
            reveal_strlit("&Recursive=");
            reveal_strlit("&Fields=Overview,ProductionYear&Recursive=");
        }
        let mut q = owned("userId=");
        let u = encode_query_value(user_id);
        push_str(&mut q, u.as_str());
        push_str(&mut q, "&Fields=");
        push_str(&mut q, "Overview,ProductionYear");
        push_str(&mut q, "&Recursive=");
        let b = bool_string(self.recursive);
        push_str(&mut q, b.as_str());
        push_param(&mut q, "ParentId", &self.parent_id);
        push_param(&mut q, "searchTerm", &self.search_term);
        push_param(&mut q, "IncludeItemTypes", &self.include_item_types);
        push_param(&mut q, "SortBy", &self.sort_by);
        push_number(&mut q, "StartIndex", self.start_index);
        push_number(&mut q, "Limit", self.limit);
        assert(q@ =~= self.query_spec(user_id@));
        q
    }
}

fn push_param(q: &mut String, key: &str, value: &Option<String>)
    ensures
        final(q)@ == old(q)@ + param(key@, opt_text(*value)),
{
    match value {
        Some(v) => {
            push_str(q, "&");
            push_str(q, key);
            push_str(q, "=");
            let e = encode_query_value(v.as_str());
            push_str(q, e.as_str());
        },
        None => {},
    }
}

fn push_number(q: &mut String, key: &str, value: Option<u32>)
    ensures
        final(q)@ == old(q)@ + number_param(key@, value),
{
    match value {
        Some(n) => {
            push_str(q, "&");
            push_str(q, key);
            push_str(q, "=");
            let d = u64_decimal(n as u64);
            push_str(q, d.as_str());
        },
        None => {},
    }
}

/// `/Items/{item}/PlaybackInfo?UserId={user}`.
pub fn playback_info_path(item_id: &str, user_id: &str) -> (r: String)
    ensures
        r@ == "/Items/"@ + item_id@ + "/PlaybackInfo?UserId="@ + encoded(user_id@),
{
    let mut p = owned("/Items/");
    push_str(&mut p, item_id);
    push_str(&mut p, "/PlaybackInfo?UserId=");
    let u = encode_query_value(user_id);
    push_str(&mut p, u.as_str());
    p
}

/// `/Shows/{series}/Episodes?userId={user}&Limit={limit}`, then the season
/// when one is given.
pub fn episodes_path(series_id: &str, season_id: Option<&str>, limit: u32, user_id: &str) -> (r: String)
    ensures
        r@ == "/Shows/"@ + series_id@ + "/Episodes?userId="@ + encoded(user_id@) + "&Limit="@
            + decimal(limit as nat) + match season_id {
            Some(s) => "&seasonId="@ + encoded(s@),
            None => Seq::empty(),
        },
{
    let mut p = owned("/Shows/");
    push_str(&mut p, series_id);
    push_str(&mut p, "/Episodes?userId=");
    let u = encode_query_value(user_id);
    push_str(&mut p, u.as_str());
    push_str(&mut p, "&Limit=");
    let l = u64_decimal(limit as u64);
    push_str(&mut p, l.as_str());
    match season_id {
        Some(s) => {
            push_str(&mut p, "&seasonId=");
            let e = encode_query_value(s);
            push_str(&mut p, e.as_str());
        },
        None => {},
    }
    p
}

/// `/Items/{item}?userId={user}`, and the pre-10.9 fallback
/// `/Users/{user}/Items/{item}`.
pub fn item_paths(item_id: &str, user_id: &str) -> (r: (String, String))
    ensures
        r.0@ == "/Items/"@ + item_id@ + "?userId="@ + encoded(user_id@),
        r.1@ == "/Users/"@ + user_id@ + "/Items/"@ + item_id@,
{
    let mut modern = owned("/Items/");
    push_str(&mut modern, item_id);
    push_str(&mut modern, "?userId=");
    let u = encode_query_value(user_id);
    push_str(&mut modern, u.as_str());
    let mut legacy = owned("/Users/");
    push_str(&mut legacy, user_id);
    push_str(&mut legacy, "/Items/");
    push_str(&mut legacy, item_id);
    (modern, legacy)
}

/// The members of a `PlaybackInfo` request body, in order, before the
/// optional ones.
pub open spec fn playback_body_keys() -> Seq<Seq<char>> {
    seq![
        "DeviceProfile"@,
        "UserId"@,
        "StartTimeTicks"@,
        "IsPlayback"@,
        "AutoOpenLiveStream"@,
        "MaxStreamingBitrate"@,
    ]
}

/// The optional members a request adds: the chosen audio and subtitle
/// streams and media source, each only when chosen.
pub open spec fn optional_members(req: PlayRequest) -> Seq<(Seq<char>, Json)> {
    (match req.audio_stream_index {
        Some(a) => seq![("AudioStreamIndex"@, Json::Int(a as i128))],
        None => Seq::empty(),
    }) + (match req.subtitle_stream_index {
        Some(s) => seq![("SubtitleStreamIndex"@, Json::Int(s as i128))],
        None => Seq::empty(),
    }) + (match req.media_source_id {
        Some(m) => seq![("MediaSourceId"@, Json::Str(m))],
        None => Seq::empty(),
    })
}

/// The `PlaybackInfo` request body: the device profile, the user, the
/// resume offset (0 when none), playback with live streams opened, the
/// bitrate cap, then what the request chose.
pub fn playback_info_body(user_id: &str, req: &PlayRequest) -> (r: Json)
    ensures
        r matches Json::Object(fields) && fields@.len() >= 6 && (forall|i: int|
            0 <= i < 6 ==> #[trigger] fields@[i].0@ == playback_body_keys()[i]) && is_device_profile(
            fields@[0].1,
        ) && (fields@[1].1 matches Json::Str(u) && u@ == user_id@)
            && fields@[2].1 == Json::Int(
            match req.start_ticks {
                Some(t) => t as i128,
                None => 0,
            },
        ) && fields@[3].1 == Json::Bool(true) && fields@[4].1 == Json::Bool(true) && fields@[5].1
            == Json::Int(1_200_000_000) && fields@.len() == 6 + optional_members(*req).len()
            && forall|i: int|
            0 <= i < optional_members(*req).len() ==> fields@[6 + i].0@ == (
            #[trigger] optional_members(*req)[i]).0 && fields@[6 + i].1 == optional_members(
                *req,
            )[i].1,
{
    let profile = device_profile();
    let ghost profile_value = profile;
    let mut f: Vec<(String, Json)> = Vec::new();
    f.push((owned("DeviceProfile"), profile));
    f.push((owned("UserId"), Json::Str(owned(user_id))));
    f.push(
        (
            owned("StartTimeTicks"),
            Json::Int(
                match req.start_ticks {
                    Some(t) => t as i128,
                    None => 0,
                },
            ),
        ),
    );
    f.push((owned("IsPlayback"), Json::Bool(true)));
    f.push((owned("AutoOpenLiveStream"), Json::Bool(true)));
    f.push((owned("MaxStreamingBitrate"), Json::Int(1_200_000_000)));
    proof {
        reveal_strlit("DeviceProfile");
        reveal_strlit("UserId");
        reveal_strlit("StartTimeTicks");
        reveal_strlit("IsPlayback");
        reveal_strlit("AutoOpenLiveStream");
        reveal_strlit("MaxStreamingBitrate");
        reveal_strlit("AudioStreamIndex");
        reveal_strlit("SubtitleStreamIndex");
        reveal_strlit("MediaSourceId");
    }
    let ghost base = f@;
    match req.audio_stream_index {
        Some(a) => f.push((owned("AudioStreamIndex"), Json::Int(a as i128))),
        None => {},
    }
    match req.subtitle_stream_index {
        Some(s) => f.push((owned("SubtitleStreamIndex"), Json::Int(s as i128))),
        None => {},
    }
    match &req.media_source_id {
        Some(m) => f.push((owned("MediaSourceId"), Json::Str(m.clone()))),
        None => {},
    }
    let ghost opt = optional_members(*req);
    assert(f@.len() == 6 + opt.len());
    assert forall|i: int| 0 <= i < opt.len() implies f@[6 + i].0@ == (#[trigger] opt[i]).0
        && f@[6 + i].1 == opt[i].1 by {
        if req.audio_stream_index is Some {
            if i == 0 {
            } else if req.subtitle_stream_index is Some && i == 1 {
            }
        } else if req.subtitle_stream_index is Some && i == 0 {
        }
    }
    Json::Object(f)
}

} // verus!
