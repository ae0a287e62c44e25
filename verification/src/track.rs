//! Remembering the track the user picked, and finding it again in the next
//! episode.
//!
//! A choice is remembered as an identity ([`TrackId`]) and re-matched against
//! what the next item offers, because stream indexes are per-file and the
//! server's defaults are exactly what the user is overriding. Audio and
//! subtitles share this matcher.
use crate::cast::opt_view;
use crate::text::{eq_ignore_ascii_case, same_ignoring_ascii_case, trim, trim_str};
use vstd::prelude::*;

verus! {

/// One selectable stream, identified by what it is rather than where it sits.
///
/// `is_forced` and `is_external` are subtitle notions; for audio they are
/// always `false`, so they cannot change a ranking.
#[derive(Debug, Clone, Default, PartialEq, Eq)]
pub struct TrackId {
    pub index: i64,
    pub language: Option<String>,
    pub title: Option<String>,
    pub display_title: Option<String>,
    pub codec: Option<String>,
    pub is_forced: bool,
    pub is_external: bool,
}

/// Which kind of track a resolution is about.
#[derive(Debug, Clone, Copy, PartialEq, Eq, Structural)]
pub enum TrackKind {
    Audio,
    Subtitle,
}

impl TrackKind {
    /// The `kind` field on every log line the two sides share.
    pub fn as_str(self) -> (r: &'static str)
        ensures
            r@ == (match self {
                TrackKind::Audio => "audio"@,
                TrackKind::Subtitle => "subtitle"@,
            }),
    {
        match self {
            TrackKind::Audio => "audio",
            TrackKind::Subtitle => "subtitle",
        }
    }
}

/// The track the user last chose by hand.
#[derive(Debug, Clone, PartialEq, Eq)]
pub enum TrackPreference {
    /// Switched off. Resolves to an explicit `-1`, not "unspecified".
    Off,
    /// This track was chosen. Match its equivalent, never its index.
    Stream(TrackId),
}

/// A field's trimmed value, or `None` when it carries no identity: Jellyfin
/// sends `""` and `"und"` rather than omitting, and those match everything.
pub open spec fn named_spec(field: Option<Seq<char>>) -> Option<Seq<char>> {
    match field {
        None => None,
        Some(s) => {
            let v = trim(s);
            if v.len() == 0 || same_ignoring_ascii_case(v, "und"@) || same_ignoring_ascii_case(
                v,
                "undefined"@,
            ) {
                None
            } else {
                Some(v)
            }
        },
    }
}

/// Both present and equal ignoring ASCII case. Two absences never match.
pub open spec fn same_spec(a: Option<Seq<char>>, b: Option<Seq<char>>) -> bool {
    match (a, b) {
        (Some(x), Some(y)) => same_ignoring_ascii_case(x, y),
        _ => false,
    }
}

/// Whether a stream has anything that could identify it in another item.
pub open spec fn identifiable(id: TrackId) -> bool {
    named_spec(opt_view(id.language)) is Some || named_spec(opt_view(id.title)) is Some || named_spec(
        opt_view(id.display_title),
    ) is Some
}

/// Score weights. Non-overlapping magnitudes, so the sum is lexicographic:
/// everything below `LANGUAGE` together cannot outrank the language.
pub const LANGUAGE: u32 = 1000;
/// Neither side names a language. Comparable, but never qualifying on its own.
pub const BOTH_LANGUAGES_UNKNOWN: u32 = 200;
pub const TITLE: u32 = 400;
pub const DISPLAY_TITLE: u32 = 200;
pub const FORCED: u32 = 40;
pub const EXTERNAL: u32 = 20;
pub const CODEC: u32 = 10;
/// A tiebreak only, and strictly weaker than every semantic signal.
pub const INDEX: u32 = 5;

/// How well `candidate` matches `wanted`, or `None` when it is not
/// recognisably the same track: flags, codec and index only rank candidates
/// that already share a language, a title or a display title.
pub open spec fn score_spec(wanted: TrackId, candidate: TrackId) -> Option<u32> {
    let wl = named_spec(opt_view(wanted.language));
    let cl = named_spec(opt_view(candidate.language));
    let language = same_spec(wl, cl);
    let title = same_spec(named_spec(opt_view(wanted.title)), named_spec(opt_view(candidate.title)));
    let display_title = same_spec(
        named_spec(opt_view(wanted.display_title)),
        named_spec(opt_view(candidate.display_title)),
    );
    if !(language || title || display_title) {
        None
    } else {
        Some(
            ((if language {
                LANGUAGE
            } else if wl is None && cl is None {
                BOTH_LANGUAGES_UNKNOWN
            } else {
                0
            }) + (if title {
                TITLE
            } else {
                0
            }) + (if display_title {
                DISPLAY_TITLE
            } else {
                0
            }) + (if wanted.is_forced == candidate.is_forced {
                FORCED
            } else {
                0
            }) + (if wanted.is_external == candidate.is_external {
                EXTERNAL
            } else {
                0
            }) + (if same_spec(
                named_spec(opt_view(wanted.codec)),
                named_spec(opt_view(candidate.codec)),
            ) {
                CODEC
            } else {
                0
            }) + (if wanted.index == candidate.index {
                INDEX
            } else {
                0
            })) as u32,
        )
    }
}

/// Candidate `j` ranks strictly ahead of candidate `i`: a higher score, or
/// the same score and a lower index.
pub open spec fn ranks_ahead(wanted: TrackId, cands: Seq<TrackId>, j: int, i: int) -> bool {
    let sj = score_spec(wanted, cands[j]).unwrap();
    let si = score_spec(wanted, cands[i]).unwrap();
    sj > si || (sj == si && cands[j].index < cands[i].index)
}

/// `cands[i]` is the best match: it qualifies, nothing ranks ahead of it, and
/// no earlier candidate ranks equal to it.
pub open spec fn is_best_match(wanted: TrackId, cands: Seq<TrackId>, i: int) -> bool {
    &&& 0 <= i < cands.len()
    &&& score_spec(wanted, cands[i]) is Some
    &&& forall|j: int|
        0 <= j < cands.len() && score_spec(wanted, #[trigger] cands[j]) is Some ==> !ranks_ahead(
            wanted,
            cands,
            j,
            i,
        )
    &&& forall|j: int|
        0 <= j < i && score_spec(wanted, #[trigger] cands[j]) is Some ==> ranks_ahead(
            wanted,
            cands,
            i,
            j,
        )
}

/// Whether some candidate qualifies at all.
pub open spec fn any_match(wanted: TrackId, cands: Seq<TrackId>) -> bool {
    exists|j: int| 0 <= j < cands.len() && score_spec(wanted, #[trigger] cands[j]) is Some
}

/// A field's trimmed value, or `None` when it carries no identity.
pub fn named(field: &Option<String>) -> (r: Option<String>)
    ensures
        opt_view(r) == named_spec(opt_view(*field)),
{
    match field {
        None => None,
        Some(s) => {
            let v = trim_str(s.as_str());
            if v.as_str().is_empty() || eq_ignore_ascii_case(v.as_str(), "und")
                || eq_ignore_ascii_case(v.as_str(), "undefined") {
                None
            } else {
                Some(v)
            }
        },
    }
}

/// Both present and equal ignoring ASCII case.
pub fn same(a: &Option<String>, b: &Option<String>) -> (r: bool)
    ensures
        r == same_spec(opt_view(*a), opt_view(*b)),
{
    match (a, b) {
        (Some(x), Some(y)) => eq_ignore_ascii_case(x.as_str(), y.as_str()),
        _ => false,
    }
}

/// Whether a stream has anything that could identify it in another item.
pub fn is_identifiable(id: &TrackId) -> (r: bool)
    ensures
        r == identifiable(*id),
{
    named(&id.language).is_some() || named(&id.title).is_some() || named(&id.display_title).is_some()
}

/// How well `candidate` matches `wanted`, or `None` when it is not
/// recognisably the same track.
pub fn score(wanted: &TrackId, candidate: &TrackId) -> (r: Option<u32>)
    ensures
        r == score_spec(*wanted, *candidate),
{
    let wanted_language = named(&wanted.language);
    let candidate_language = named(&candidate.language);
    let language = same(&wanted_language, &candidate_language);
    let title = same(&named(&wanted.title), &named(&candidate.title));
    let display_title = same(&named(&wanted.display_title), &named(&candidate.display_title));
    if !(language || title || display_title) {
        return None;
    }
    let mut total: u32 = 0;
    if language {
        total = total + LANGUAGE;
    } else if wanted_language.is_none() && candidate_language.is_none() {
        total = total + BOTH_LANGUAGES_UNKNOWN;
    }
    if title {
        total = total + TITLE;
    }
    if display_title {
        total = total + DISPLAY_TITLE;
    }
    if wanted.is_forced == candidate.is_forced {
        total = total + FORCED;
    }
    if wanted.is_external == candidate.is_external {
        total = total + EXTERNAL;
    }
    if same(&named(&wanted.codec), &named(&candidate.codec)) {
        total = total + CODEC;
    }
    if wanted.index == candidate.index {
        total = total + INDEX;
    }
    Some(total)
}

/// The candidate that best matches `wanted`: the highest score, ties to the
/// lowest index, then to the first listed; `None` when nothing qualifies.
pub fn best_match<'a>(wanted: &TrackId, candidates: &'a [TrackId]) -> (r: Option<&'a TrackId>)
    ensures
        match r {
            Some(t) => exists|i: int| is_best_match(*wanted, candidates@, i) && *t == candidates@[i],
            None => !any_match(*wanted, candidates@),
        },
{
    let mut best: Option<usize> = None;
    let mut best_score: u32 = 0;
    let mut i: usize = 0;
    while i < candidates.len()
        invariant
            i <= candidates@.len(),
            match best {
                Some(b) => {
                    &&& b < i
                    &&& score_spec(*wanted, candidates@[b as int]) == Some(best_score)
                    &&& forall|j: int|
                        0 <= j < i && score_spec(*wanted, #[trigger] candidates@[j]) is Some
                            ==> !ranks_ahead(*wanted, candidates@, j, b as int)
                    &&& forall|j: int|
                        0 <= j < b && score_spec(*wanted, #[trigger] candidates@[j]) is Some
                            ==> ranks_ahead(*wanted, candidates@, b as int, j)
                },
                None => forall|j: int|
                    0 <= j < i ==> score_spec(*wanted, #[trigger] candidates@[j]) is None,
            },
        decreases candidates@.len() - i,
    {
        match score(wanted, &candidates[i]) {
            Some(s) => {
                match best {
                    None => {
                        best = Some(i);
                        best_score = s;
                    },
                    Some(b) => {
                        if s > best_score || (s == best_score && candidates[i].index
                            < candidates[b].index) {
                            best = Some(i);
                            best_score = s;
                        }
                    },
                }
            },
            None => {},
        }
        i = i + 1;
    }
    match best {
        Some(b) => {
            assert(is_best_match(*wanted, candidates@, b as int));
            Some(&candidates[b])
        },
        None => None,
    }
}

/// Two best matches are the same candidate: the ranking picks exactly one.
pub proof fn law_best_match_is_unique(wanted: TrackId, cands: Seq<TrackId>, i: int, j: int)
    requires
        is_best_match(wanted, cands, i),
        is_best_match(wanted, cands, j),
    ensures
        i == j,
{
    if i < j {
        assert(ranks_ahead(wanted, cands, i, j));
    } else if j < i {
        assert(ranks_ahead(wanted, cands, j, i));
    }
}


/// Between two candidates that differ only in where the stream lives (and
/// their index), the one that is external exactly when the wanted track was
/// scores higher: by `EXTERNAL` when their indexes agree, and still above
/// the other whatever the indexes.
pub proof fn law_the_same_delivery_ranks_higher(wanted: TrackId, a: TrackId, b: TrackId)
    requires
        a.language == b.language,
        a.title == b.title,
        a.display_title == b.display_title,
        a.codec == b.codec,
        a.is_forced == b.is_forced,
        a.is_external == wanted.is_external,
        b.is_external != wanted.is_external,
    ensures
        score_spec(wanted, a) is Some <==> score_spec(wanted, b) is Some,
        score_spec(wanted, a) is Some ==> score_spec(wanted, a).unwrap() > score_spec(wanted, b).unwrap(),
        score_spec(wanted, a) is Some && a.index == b.index ==> score_spec(wanted, a).unwrap()
            == score_spec(wanted, b).unwrap() + EXTERNAL,
{
}

/// Between two candidates that differ only in the forced flag (and their
/// index), the one forced exactly when the wanted track was scores higher.
pub proof fn law_the_same_forced_flag_ranks_higher(wanted: TrackId, a: TrackId, b: TrackId)
    requires
        a.language == b.language,
        a.title == b.title,
        a.display_title == b.display_title,
        a.codec == b.codec,
        a.is_external == b.is_external,
        a.is_forced == wanted.is_forced,
        b.is_forced != wanted.is_forced,
    ensures
        score_spec(wanted, a) is Some <==> score_spec(wanted, b) is Some,
        score_spec(wanted, a) is Some ==> score_spec(wanted, a).unwrap() > score_spec(wanted, b).unwrap(),
        score_spec(wanted, a) is Some && a.index == b.index ==> score_spec(wanted, a).unwrap()
            == score_spec(wanted, b).unwrap() + FORCED,
{
}

/// Between two candidates that differ only in codec (and their index), the
/// one with the wanted codec scores higher when their indexes agree.
pub proof fn law_the_same_codec_ranks_higher(wanted: TrackId, a: TrackId, b: TrackId)
    requires
        a.language == b.language,
        a.title == b.title,
        a.display_title == b.display_title,
        a.is_forced == b.is_forced,
        a.is_external == b.is_external,
        a.index == b.index,
        same_spec(named_spec(opt_view(wanted.codec)), named_spec(opt_view(a.codec))),
        !same_spec(named_spec(opt_view(wanted.codec)), named_spec(opt_view(b.codec))),
    ensures
        score_spec(wanted, a) is Some <==> score_spec(wanted, b) is Some,
        score_spec(wanted, a) is Some ==> score_spec(wanted, a).unwrap() == score_spec(wanted, b).unwrap()
            + CODEC,
{
}

/// The language outranks everything else: a qualifying candidate in the
/// wanted language scores above any qualifying candidate that is not.
pub proof fn law_the_language_outranks_everything_else(wanted: TrackId, a: TrackId, b: TrackId)
    requires
        same_spec(named_spec(opt_view(wanted.language)), named_spec(opt_view(a.language))),
        !same_spec(named_spec(opt_view(wanted.language)), named_spec(opt_view(b.language))),
        score_spec(wanted, b) is Some,
    ensures
        score_spec(wanted, a) is Some,
        score_spec(wanted, a).unwrap() > score_spec(wanted, b).unwrap(),
{
}

/// The position of the best match, when any candidate qualifies.
pub open spec fn best_match_at(wanted: TrackId, cands: Seq<TrackId>) -> Option<int> {
    if exists|i: int| is_best_match(wanted, cands, i) {
        Some(choose|i: int| is_best_match(wanted, cands, i))
    } else {
        None
    }
}

/// The Jellyfin stream index to play: `requested` (the remote just said
/// what it wants), then a remembered preference (`-1` for off, else the index
/// of its best match, if any), then `server_default`.
pub open spec fn resolved_index(
    requested: Option<i64>,
    preference: Option<TrackPreference>,
    cands: Seq<TrackId>,
    server_default: Option<i64>,
) -> Option<i64> {
    match requested {
        Some(r) => Some(r),
        None => match preference {
            None => server_default,
            Some(TrackPreference::Off) => Some(-1i64),
            Some(TrackPreference::Stream(wanted)) => match best_match_at(wanted, cands) {
                Some(i) => Some(cands[i].index),
                None => server_default,
            },
        },
    }
}

/// The first candidate at or after `i` with Jellyfin index `stream_index`.
pub open spec fn first_with_index(cands: Seq<TrackId>, stream_index: i64, i: int) -> Option<int>
    decreases cands.len() - i,
{
    if i < 0 || i >= cands.len() {
        None
    } else if cands[i].index == stream_index {
        Some(i)
    } else {
        first_with_index(cands, stream_index, i + 1)
    }
}

/// What the user just picked: `Off` for a negative index, the first
/// selectable stream with that index when it is identifiable, and `None`
/// otherwise.
pub open spec fn preference_for(cands: Seq<TrackId>, stream_index: i64) -> Option<TrackPreference> {
    if stream_index < 0 {
        Some(TrackPreference::Off)
    } else {
        match first_with_index(cands, stream_index, 0) {
            Some(i) => if identifiable(cands[i]) {
                Some(TrackPreference::Stream(cands[i]))
            } else {
                None
            },
            None => None,
        }
    }
}

proof fn lemma_first_with_index(cands: Seq<TrackId>, stream_index: i64, from: int)
    requires
        0 <= from,
        first_with_index(cands, stream_index, from) is Some,
    ensures
        ({
            let i = first_with_index(cands, stream_index, from).unwrap();
            &&& from <= i < cands.len()
            &&& cands[i].index == stream_index
            &&& forall|k: int| from <= k < i ==> #[trigger] cands[k].index != stream_index
        }),
    decreases cands.len() - from,
{
    if from < cands.len() && cands[from].index != stream_index {
        lemma_first_with_index(cands, stream_index, from + 1);
    }
}

/// A stream matches itself at least as well as any candidate matches it,
/// and a candidate that ties it has its index.
proof fn lemma_self_scores_highest(t: TrackId, c: TrackId)
    requires
        identifiable(t),
    ensures
        score_spec(t, t) is Some,
        score_spec(t, c) is Some ==> score_spec(t, c).unwrap() <= score_spec(t, t).unwrap(),
        score_spec(t, c) is Some && score_spec(t, c).unwrap() == score_spec(t, t).unwrap() ==> c.index
            == t.index,
{
    let l = named_spec(opt_view(t.language));
    let ti = named_spec(opt_view(t.title));
    let d = named_spec(opt_view(t.display_title));
    let co = named_spec(opt_view(t.codec));
    assert(l is Some ==> same_spec(l, l));
    assert(ti is Some ==> same_spec(ti, ti));
    assert(d is Some ==> same_spec(d, d));
    assert(co is Some ==> same_spec(co, co));
}

/// A choice remembered from a set of streams resolves, against those same
/// streams, to the stream that was picked (and an explicit off to off): a
/// remembered track is found again by what it is.
pub proof fn law_a_remembered_choice_finds_itself(
    cands: Seq<TrackId>,
    stream_index: i64,
    server_default: Option<i64>,
)
    requires
        preference_for(cands, stream_index) is Some,
    ensures
        resolved_index(None, preference_for(cands, stream_index), cands, server_default) == Some(
            if stream_index < 0 {
                -1i64
            } else {
                stream_index
            },
        ),
{
    if stream_index >= 0 {
        lemma_first_with_index(cands, stream_index, 0);
        let i = first_with_index(cands, stream_index, 0).unwrap();
        let t = cands[i];
        lemma_self_scores_highest(t, t);
        assert forall|k: int|
            0 <= k < cands.len() && score_spec(t, #[trigger] cands[k]) is Some implies !ranks_ahead(
            t,
            cands,
            k,
            i,
        ) by {
            lemma_self_scores_highest(t, cands[k]);
        }
        assert forall|k: int|
            0 <= k < i && score_spec(t, #[trigger] cands[k]) is Some implies ranks_ahead(t, cands, i, k) by {
            lemma_self_scores_highest(t, cands[k]);
            assert(cands[k].index != stream_index);
        }
        assert(is_best_match(t, cands, i));
        let b = choose|b: int| is_best_match(t, cands, b);
        law_best_match_is_unique(t, cands, b, i);
    }
}

fn clone_opt(s: &Option<String>) -> (r: Option<String>)
    ensures
        r == *s,
{
    match s {
        Some(x) => Some(x.clone()),
        None => None,
    }
}

/// A copy of `t`.
pub fn clone_track(t: &TrackId) -> (r: TrackId)
    ensures
        r == *t,
{
    TrackId {
        index: t.index,
        language: clone_opt(&t.language),
        title: clone_opt(&t.title),
        display_title: clone_opt(&t.display_title),
        codec: clone_opt(&t.codec),
        is_forced: t.is_forced,
        is_external: t.is_external,
    }
}

impl TrackPreference {
    /// What the user just picked, or `None` when it cannot be identified (an
    /// unselectable index, or a stream with neither a language nor a name),
    /// so it falls back to the server default instead of keeping a stale
    /// choice alive.
    pub fn from_selection(candidates: &[TrackId], stream_index: i64) -> (r: Option<TrackPreference>)
        ensures
            r == preference_for(candidates@, stream_index),
    {
        if stream_index < 0 {
            return Some(TrackPreference::Off);
        }
        let mut i: usize = 0;
        while i < candidates.len()
            invariant
                i <= candidates@.len(),
                stream_index >= 0,
                first_with_index(candidates@, stream_index, 0) == first_with_index(
                    candidates@,
                    stream_index,
                    i as int,
                ),
            decreases candidates@.len() - i,
        {
            if candidates[i].index == stream_index {
                if is_identifiable(&candidates[i]) {
                    return Some(TrackPreference::Stream(clone_track(&candidates[i])));
                } else {
                    return None;
                }
            }
            i = i + 1;
        }
        None
    }
}

pub open spec fn opt_pref(p: Option<&TrackPreference>) -> Option<TrackPreference> {
    match p {
        Some(x) => Some(*x),
        None => None,
    }
}

/// The Jellyfin stream index to play for this item; see [`resolved_index`].
pub fn resolve_track_index(
    kind: TrackKind,
    requested: Option<i64>,
    preference: Option<&TrackPreference>,
    candidates: &[TrackId],
    server_default: Option<i64>,
) -> (r: Option<i64>)
    ensures
        r == resolved_index(requested, opt_pref(preference), candidates@, server_default),
{
    if let Some(requested) = requested {
        return Some(requested);
    }
    match preference {
        None => server_default,
        Some(TrackPreference::Off) => Some(-1),
        Some(TrackPreference::Stream(wanted)) => match best_match(wanted, candidates) {
            Some(found) => {
                proof {
                    let i = choose|i: int| is_best_match(*wanted, candidates@, i) && *found == candidates@[i];
                    let c = choose|c: int| is_best_match(*wanted, candidates@, c);
                    law_best_match_is_unique(*wanted, candidates@, i, c);
                }
                Some(found.index)
            },
            None => {
                proof {
                    if exists|i: int| is_best_match(*wanted, candidates@, i) {
                        let i = choose|i: int| is_best_match(*wanted, candidates@, i);
                        assert(score_spec(*wanted, candidates@[i]) is Some);
                    }
                }
                server_default
            },
        },
    }
}

/// The Jellyfin audio stream index to play; see [`resolved_index`].
pub fn resolve_audio_index(
    requested: Option<i64>,
    preference: Option<&TrackPreference>,
    candidates: &[TrackId],
    server_default: Option<i64>,
) -> (r: Option<i64>)
    ensures
        r == resolved_index(requested, opt_pref(preference), candidates@, server_default),
{
    resolve_track_index(TrackKind::Audio, requested, preference, candidates, server_default)
}

/// The Jellyfin subtitle stream index to play; see [`resolved_index`].
pub fn resolve_subtitle_index(
    requested: Option<i64>,
    preference: Option<&TrackPreference>,
    candidates: &[TrackId],
    server_default: Option<i64>,
) -> (r: Option<i64>)
    ensures
        r == resolved_index(requested, opt_pref(preference), candidates@, server_default),
{
    resolve_track_index(TrackKind::Subtitle, requested, preference, candidates, server_default)
}

} // verus!
